use libemin::app::{override_label, status_color, Effects, LibeminApp};
use libemin::booking::BatchBookingResult;
use libemin::calendar::Date;
use libemin::form::{DiscoveryBundle, InsertForm};
use libemin::job::{
    JobResult, LoginSuccess, Next, RefreshDiscoverySuccess, RestoreSessionSuccess, StatusKind,
    SubmitBatchSuccess, Task, Work,
};
use libemin::libemax::{LibemaxApi, MailAuthenticationPrompt, Reply, Request};
use libemin::lookup::LookupItem;
use libemin::storage::{settings_or_default, SavedSettings};

const NOTHING: Effects = Effects { save_settings: false, forget_session: false };
const SAVE: Effects = Effects { save_settings: true, forget_session: false };

fn settings() -> SavedSettings {
    SavedSettings {
        base_url: "https://azienda.libemax.com".to_owned(),
        language: "it".to_owned(),
        username: "mario".to_owned(),
        insert_form_url_override: "/mio".to_owned(),
    }
}

fn helper() -> LibeminApp {
    LibeminApp::new(settings(), Date { year: 2024, month: 3, day: 6 })
}

fn api() -> LibemaxApi {
    LibemaxApi { base_url: "https://azienda.libemax.com/".to_owned(), language: "it".to_owned() }
}

fn item(id: &str, text: &str) -> LookupItem {
    LookupItem { id: id.to_owned(), text: text.to_owned() }
}

fn discovery() -> DiscoveryBundle {
    DiscoveryBundle {
        admin_page_url: "a".to_owned(),
        insert_form_url: "b".to_owned(),
        candidate_insert_urls: vec![],
        insert_form: InsertForm::default(),
    }
}

fn signed_in(pending: Option<MailAuthenticationPrompt>, clear_otp: bool) -> LoginSuccess {
    LoginSuccess {
        api: api(),
        status_kind: StatusKind::Success,
        status_text: "Login effettuato".to_owned(),
        clear_otp,
        pending_mail_authentication: pending,
        discovery: Some(discovery()),
        workplaces: vec![item("1", "Uno"), item("2", "Due")],
    }
}

fn prompt() -> MailAuthenticationPrompt {
    MailAuthenticationPrompt { email: "a@b.it".to_owned(), user_id: "5".to_owned() }
}

fn work(task: Option<Task>) -> Work {
    let task = task.unwrap();
    assert_eq!(task.base_url, "https://azienda.libemax.com");
    assert_eq!(task.language, "it");
    task.work
}

#[test]
fn settings_start_in_italian() {
    let fresh = settings_or_default(None);
    assert_eq!(fresh.language, "it");
    assert_eq!(fresh.base_url, "");
    assert_eq!(fresh.username, "");
    assert_eq!(fresh.insert_form_url_override, "");
    assert_eq!(settings_or_default(Some(settings())).username, "mario");
    assert_eq!(SavedSettings::default().clone().language, "it");
}

#[test]
fn the_helper_starts_signed_out() {
    let app = helper();
    assert!(!app.is_busy());
    assert!(!app.is_logged_in());
    assert!(app.remember_me);
    assert_eq!(app.status.kind, StatusKind::Info);
    assert_eq!(app.status.text, "");
    assert_eq!(app.batch_booking.range_start, "06/03/2024");
    assert_eq!(app.workplace_label(), "Seleziona luogo di lavoro");
}

#[test]
fn messages_have_colors() {
    assert_eq!(status_color(StatusKind::Info), (90, 140, 255));
    assert_eq!(status_color(StatusKind::Success), (60, 170, 110));
    assert_eq!(status_color(StatusKind::Error), (220, 80, 80));
    assert_eq!(status_color(StatusKind::Warning), (220, 160, 60));
}

#[test]
fn signing_in_starts_a_job() {
    let mut app = helper();
    app.password = "pw".to_owned();
    match work(app.login()) {
        Work::Login { username, password, remember, insert_form_url_override } => {
            assert_eq!(username, "mario");
            assert_eq!(password, "pw");
            assert!(remember);
            assert_eq!(insert_form_url_override, "/mio");
        }
        _ => panic!("another job"),
    }
    assert!(app.is_busy());
    assert_eq!(app.busy_message, Some("Login in corso...".to_owned()));
}

#[test]
fn one_job_runs_at_a_time() {
    let mut app = helper();
    app.api = Some(api());
    assert!(app.login().is_some());
    assert!(app.login().is_none());
    assert!(app.refresh_discovery().is_none());
    assert!(app.verify_mail_code().is_none());
    assert!(app.restore_session(true).is_none());
    assert_eq!(app.busy_message, Some("Login in corso...".to_owned()));
    app.lose_job();
    assert!(!app.is_busy());
    assert_eq!(app.status.kind, StatusKind::Error);
    assert_eq!(app.status.text, "Operazione interrotta inaspettatamente");
    assert!(app.refresh_discovery().is_some());
    assert_eq!(app.busy_message, Some("Aggiornamento dati...".to_owned()));
}

#[test]
fn some_actions_need_a_session() {
    let mut app = helper();
    assert!(app.verify_mail_code().is_none());
    assert_eq!(app.status.text, "Esegui prima il login");
    app.set_status(StatusKind::Info, "");
    assert!(app.resend_mail_code().is_none());
    assert_eq!(app.status.text, "Esegui prima il login");
    app.set_status(StatusKind::Info, "");
    assert!(app.refresh_discovery().is_none());
    assert_eq!(app.status.text, "Esegui prima il login");
    app.api = Some(api());
    assert!(app.resend_mail_code().is_none());
    assert_eq!(app.status.text, "Non c'e' nessun codice da reinviare");
    app.pending_mail_authentication = Some(prompt());
    assert!(matches!(work(app.resend_mail_code()), Work::ResendMailCode { user_id } if user_id == "5"));
    assert_eq!(app.busy_message, Some("Invio nuovo codice...".to_owned()));
}

#[test]
fn a_code_goes_with_the_password() {
    let mut app = helper();
    app.api = Some(api());
    app.password = "pw".to_owned();
    app.otp_code = "123".to_owned();
    app.remember_me = false;
    match work(app.verify_mail_code()) {
        Work::VerifyMailCode { password, otp_code, remember, .. } => {
            assert_eq!(password, "pw");
            assert_eq!(otp_code, "123");
            assert!(!remember);
        }
        _ => panic!("another job"),
    }
    assert_eq!(app.busy_message, Some("Verifica codice in corso...".to_owned()));
}

#[test]
fn an_earlier_session_needs_a_user_and_cookies() {
    let mut app = helper();
    assert!(app.restore_session(false).is_none());
    app.settings.username = "  ".to_owned();
    assert!(app.restore_session(true).is_none());
    assert!(!app.is_busy());
    app.settings.username = "mario".to_owned();
    assert!(matches!(work(app.restore_session(true)), Work::RestoreSession { .. }));
    assert_eq!(app.busy_message, Some("Ripristino sessione...".to_owned()));
}

#[test]
fn signing_in_shows_the_places_of_work() {
    let mut app = helper();
    app.otp_code = "123".to_owned();
    app.login();
    assert_eq!(app.finish_job(JobResult::Login(Ok(signed_in(None, true)))), SAVE);
    assert!(!app.is_busy());
    assert!(app.is_logged_in());
    assert_eq!(app.otp_code, "");
    assert_eq!(app.workplace_options.len(), 2);
    assert_eq!(app.batch_booking.selected_workplace, Some(item("1", "Uno")));
    assert_eq!(app.workplace_label(), "Uno");
    assert!(app.is_selected_workplace(&item("1", "altro")));
    assert!(!app.is_selected_workplace(&item("2", "Uno")));
    assert_eq!(app.status.text, "Login effettuato");
    app.batch_booking.selected_workplace = Some(item("9", "Nove"));
    app.apply_job_result(JobResult::VerifyMailCode(Ok(signed_in(None, false))));
    assert_eq!(app.batch_booking.selected_workplace, Some(item("9", "Nove")));
}

#[test]
fn a_pending_code_keeps_the_user_signed_out() {
    let mut app = helper();
    app.otp_code = "123".to_owned();
    assert_eq!(app.finish_job(JobResult::Login(Ok(signed_in(Some(prompt()), false)))), SAVE);
    assert!(!app.is_logged_in());
    assert!(app.api.is_some());
    assert_eq!(app.otp_code, "123");
    assert_eq!(app.pending_mail_authentication.as_ref().unwrap().email, "a@b.it");
    assert!(app.resend_mail_code().is_some());
}

#[test]
fn failures_are_shown() {
    let mut app = helper();
    app.session_active = true;
    assert_eq!(app.finish_job(JobResult::Login(Err("no".to_owned()))), NOTHING);
    assert!(!app.session_active);
    assert_eq!((app.status.kind, app.status.text.as_str()), (StatusKind::Error, "no"));
    app.finish_job(JobResult::ResendMailCode(Ok("spedito".to_owned())));
    assert_eq!((app.status.kind, app.status.text.as_str()), (StatusKind::Success, "spedito"));
    app.finish_job(JobResult::ResendMailCode(Err("no".to_owned())));
    assert_eq!(app.status.kind, StatusKind::Error);
    app.finish_job(JobResult::RestoreSession(Err("scaduta".to_owned())));
    assert_eq!((app.status.kind, app.status.text.as_str()), (StatusKind::Warning, "scaduta"));
    app.finish_job(JobResult::SubmitBatch(Err("rotto".to_owned())));
    assert_eq!((app.status.kind, app.status.text.as_str()), (StatusKind::Error, "rotto"));
    assert_eq!(app.finish_job(JobResult::RefreshDiscovery(Err("no".to_owned()))), NOTHING);
    assert_eq!(app.status.text, "no");
}

#[test]
fn refreshed_and_restored_sessions_are_active() {
    let mut app = helper();
    let refreshed = RefreshDiscoverySuccess {
        discovery: discovery(),
        workplaces: vec![],
        status_kind: StatusKind::Success,
        status_text: "aggiornato".to_owned(),
    };
    assert_eq!(app.finish_job(JobResult::RefreshDiscovery(Ok(refreshed))), SAVE);
    assert!(app.is_logged_in());
    assert!(app.api.is_none());
    assert!(app.batch_booking.selected_workplace.is_none());
    let restored = RestoreSessionSuccess {
        api: api(),
        discovery: Some(discovery()),
        workplaces: vec![item("1", "Uno")],
        status_kind: StatusKind::Success,
        status_text: "Sessione ripristinata".to_owned(),
    };
    assert_eq!(app.finish_job(JobResult::RestoreSession(Ok(restored))), NOTHING);
    assert!(app.api.is_some());
    assert_eq!(app.workplace_label(), "Uno");
}

#[test]
fn a_session_that_ends_leaves_nothing() {
    let mut app = helper();
    app.password = "pw".to_owned();
    app.finish_job(JobResult::Login(Ok(signed_in(None, true))));
    app.otp_code = "123".to_owned();
    assert_eq!(app.logout(), Effects { save_settings: false, forget_session: true });
    assert!(!app.is_logged_in());
    assert_eq!(app.password, "");
    assert_eq!(app.otp_code, "");
    assert!(app.api.is_none());
    assert!(app.discovery.is_none());
    assert!(app.workplace_options.is_empty());
    assert_eq!(app.settings.username, "mario");
    assert_eq!(app.batch_booking.selected_workplace, Some(item("1", "Uno")));
    assert_eq!((app.status.kind, app.status.text.as_str()), (StatusKind::Info, "Sessione rimossa"));
}

#[test]
fn a_session_that_expires_is_forgotten() {
    let mut app = helper();
    app.finish_job(JobResult::Login(Ok(signed_in(None, true))));
    app.password = "pw".to_owned();
    let lost = "Sessione non autenticata o scaduta: effettua di nuovo il login".to_owned();
    assert_eq!(
        app.finish_job(JobResult::RefreshDiscovery(Err(lost))),
        Effects { save_settings: false, forget_session: true }
    );
    assert!(!app.is_logged_in());
    assert_eq!(app.password, "");
    assert_eq!(app.status.kind, StatusKind::Warning);
    assert_eq!(app.status.text, "La sessione Libemax e' scaduta, effettua di nuovo il login");
}

#[test]
fn days_are_listed_with_the_defaults() {
    let mut app = helper();
    app.batch_booking.range_end = "07/03/2024".to_owned();
    app.batch_booking.selected_workplace = Some(item("1", "Uno"));
    app.batch_results.push(BatchBookingResult {
        date: "x".to_owned(),
        start_time: "x".to_owned(),
        end_time: "x".to_owned(),
        result: Ok("x".to_owned()),
    });
    app.generate_day_overrides();
    assert_eq!(app.batch_booking.day_overrides.len(), 2);
    let day = &app.batch_booking.day_overrides[1];
    assert_eq!(day.date, "07/03/2024");
    assert!(!day.enabled);
    assert_eq!(day.client_id, "1");
    assert_eq!(day.afternoon_end_time, "18:00");
    assert!(app.batch_results.is_empty());
    assert_eq!(app.status.text, "Giorni generati per la prenotazione multipla");
    app.batch_booking.range_end = "05/03/2024".to_owned();
    app.generate_day_overrides();
    assert_eq!(app.batch_booking.day_overrides.len(), 2);
    assert_eq!(app.status.text, "La data finale deve essere uguale o successiva a quella iniziale");
    app.set_days(Ok(vec![]));
    assert!(app.batch_booking.day_overrides.is_empty());
}

#[test]
fn bookings_are_sent_when_all_is_ready() {
    let mut app = helper();
    assert!(app.submit_batch_bookings().is_none());
    assert_eq!(app.status.text, "Seleziona un luogo di lavoro");
    app.batch_booking.selected_workplace = Some(item("1", "Uno"));
    app.batch_booking.range_end = "domani".to_owned();
    assert!(app.submit_batch_bookings().is_none());
    assert_eq!(app.status.text, "invalid date 'domani', expected DD/MM/YYYY");
    app.batch_booking.range_end = "07/03/2024".to_owned();
    assert!(app.submit_batch_bookings().is_none());
    assert_eq!(app.status.text, "Esegui prima il login");
    assert_eq!(app.batch_booking.day_overrides.len(), 2);
    app.api = Some(api());
    assert!(app.submit_batch_bookings().is_none());
    assert_eq!(app.status.text, "Non ho ancora scoperto il form di inserimento ore");
    app.discovery = Some(discovery());
    app.batch_booking.default_morning_start_time = "05:00".to_owned();
    assert!(app.submit_batch_bookings().is_none());
    assert_eq!(
        app.status.text,
        "Mercoledi' 06/03/2024: gli orari della fascia mattina devono stare tra 08:00 e 19:00"
    );
    app.batch_booking.default_morning_start_time = "09:00".to_owned();
    match work(app.submit_batch_bookings()) {
        Work::SubmitBatch { insert_form: _, submissions } => {
            assert_eq!(submissions.len(), 4);
            assert_eq!(submissions[3].start_date, "07/03/2024");
            assert_eq!(submissions[3].client_id, "1");
        }
        _ => panic!("another job"),
    }
    assert_eq!(app.busy_message, Some("Invio prenotazioni in corso...".to_owned()));
    assert!(app.submit_batch_bookings().is_none());
    let results = vec![];
    app.finish_job(JobResult::SubmitBatch(Ok(SubmitBatchSuccess {
        results,
        status_kind: StatusKind::Success,
        status_text: "fatto".to_owned(),
    })));
    assert_eq!(app.status.text, "fatto");
    assert!(app.submit_bookings(Err("no".to_owned())).is_none());
    assert_eq!(app.status.text, "no");
}

#[test]
fn places_of_work_of_single_days_are_shown() {
    let options = vec![item("1", "Uno"), item("2", "Sede centrale di Milano"), item("2", "Altra")];
    assert_eq!(override_label(&options, "1"), "Uno");
    assert_eq!(override_label(&options, "2"), "Sede centrale di …");
    assert_eq!(override_label(&options, "3"), "Default");
}

#[test]
fn listed_days_are_booked_alike_enabled_or_not() {
    let mut app = helper();
    app.batch_booking.selected_workplace = Some(item("1", "Uno"));
    app.generate_day_overrides();
    let by_default = app.batch_booking.build_batch_submissions("1").unwrap();
    app.batch_booking.day_overrides[0].enabled = true;
    let on_its_own = app.batch_booking.build_batch_submissions("1").unwrap();
    assert_eq!(format!("{:?}", by_default), format!("{:?}", on_its_own));
    assert_eq!(by_default.len(), 2);
}

#[test]
fn settings_hold_no_password() {
    let mut app = helper();
    app.password = "segreta".to_owned();
    app.finish_job(JobResult::Login(Ok(signed_in(None, true))));
    assert_eq!(app.password, "segreta");
    assert_eq!(format!("{:?}", app.settings), format!("{:?}", settings()));
}

fn finished(task: Option<Task>, replies: &[&str]) -> JobResult {
    let mut step = match task.unwrap().begin() {
        Ok(opening) => opening.opened(Ok(())),
        Err(result) => return result,
    };
    for text in replies {
        step = match step.next {
            Next::Perform(job, _) => {
                job.answer(Reply::Answer { status: "200 OK".to_owned(), text: text.to_string() })
            }
            Next::Finish(_) => panic!("ended early"),
        };
    }
    match step.next {
        Next::Finish(result) => result,
        Next::Perform(_, _) => panic!("not ended"),
    }
}

#[test]
fn a_form_that_was_not_found_can_be_pasted() {
    let mut app = helper();
    app.settings.insert_form_url_override = "".to_owned();
    let login = app.login();
    let result = finished(login, &["{}", "<p>niente</p>"]);
    assert_eq!(app.finish_job(result), SAVE);
    assert!(!app.is_busy());
    assert!(app.is_logged_in());
    assert!(app.discovery.is_none());
    assert_eq!(app.status.kind, StatusKind::Error);
    assert!(app.status.text.starts_with("Non sono riuscito a trovare automaticamente"));

    app.settings.insert_form_url_override = " /mio/form ".to_owned();
    let task = app.refresh_discovery();
    assert!(app.is_busy());
    assert_eq!(app.busy_message, Some("Aggiornamento dati...".to_owned()));
    let step = match task.unwrap().begin() {
        Ok(opening) => opening.opened(Ok(())),
        Err(_) => panic!("no site"),
    };
    let step = match step.next {
        Next::Perform(job, _) => {
            job.answer(Reply::Answer { status: "200 OK".to_owned(), text: "<p>".to_owned() })
        }
        Next::Finish(_) => panic!("ended early"),
    };
    assert!(matches!(
        step.next,
        Next::Perform(_, Request::Get { url }) if url == "https://azienda.libemax.com/mio/form"
    ));
}

#[test]
fn an_earlier_session_without_the_form_can_be_refreshed() {
    let mut app = helper();
    app.settings.insert_form_url_override = "".to_owned();
    let restore = app.restore_session(true);
    let result = finished(restore, &["<p>niente</p>"]);
    assert_eq!(app.finish_job(result), NOTHING);
    assert!(!app.is_logged_in());
    assert!(app.api.is_some());
    assert_eq!(app.status.kind, StatusKind::Warning);
    assert!(app.status.text.starts_with(
        "Impossibile ripristinare la sessione: Non sono riuscito a trovare automaticamente"
    ));
    assert!(matches!(work(app.refresh_discovery()), Work::RefreshDiscovery { .. }));
}

#[test]
fn a_refused_login_leaves_no_site() {
    let mut app = helper();
    let login = app.login();
    let result = finished(login, &["{\"error\":\"no\"}"]);
    assert_eq!(app.finish_job(result), NOTHING);
    assert!(!app.is_logged_in());
    assert!(app.refresh_discovery().is_none());
    assert_eq!(app.status.text, "Esegui prima il login");
}

#[test]
fn a_form_that_cannot_be_read_leaves_no_site() {
    let mut app = helper();
    let login = app.login();
    let result = finished(login, &["{}", "<p>", "<p>"]);
    assert_eq!(app.finish_job(result), NOTHING);
    assert!(!app.is_logged_in());
    assert!(app.api.is_none());
    assert_eq!(app.status.text, "non ho trovato il form di inserimento/modifica ore");
    let restore = app.restore_session(true);
    let result = finished(restore, &["<p>", "<p>"]);
    assert_eq!(app.finish_job(result), NOTHING);
    assert!(app.api.is_none());
    assert_eq!(
        app.status.text,
        "Impossibile ripristinare la sessione: non ho trovato il form di inserimento/modifica ore"
    );
}
