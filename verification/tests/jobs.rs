use libemin::booking::BookingSubmission;
use libemin::form::InsertForm;
use libemin::job::{
    decide_booking, end_booking, is_signed_out, summarize_batch, Batch, Job, JobResult, Next,
    StatusKind, Step, Task, Work,
};
use libemin::libemax::{LibemaxApi, Reply, Request};

const SITE: &str = "https://azienda.libemax.com";
const LOGIN_PAGE: &str = "<form class=\"form-login\"></form>";
const ADMIN_PAGE: &str = "<a href=\"/app-timbrature/it/admin_timbratura/inserisci\">x</a>";
const FORM_PAGE: &str = "<form id=\"form1\" action=\"/salva\">\
    <input name=\"timbratura_cliente_id\" data-action=\"/clienti\">\
    <input name=\"timbratura_ora_inizio\"></form>";

fn task(work: Work) -> Task {
    Task { base_url: SITE.to_owned(), language: "it".to_owned(), work }
}

fn login_work() -> Work {
    Work::Login {
        username: "mario".to_owned(),
        password: "pw".to_owned(),
        remember: true,
        insert_form_url_override: "".to_owned(),
    }
}

fn verify_work() -> Work {
    Work::VerifyMailCode {
        username: "mario".to_owned(),
        password: "pw".to_owned(),
        otp_code: "123".to_owned(),
        remember: false,
        insert_form_url_override: "".to_owned(),
    }
}

fn refresh_work(insert_form_url_override: &str) -> Work {
    Work::RefreshDiscovery { insert_form_url_override: insert_form_url_override.to_owned() }
}

fn restore_work() -> Work {
    Work::RestoreSession { insert_form_url_override: "".to_owned() }
}

fn begin(work: Work) -> Step {
    match task(work).begin() {
        Ok(opening) => opening.opened(Ok(())),
        Err(_) => panic!("no site"),
    }
}

fn answer(text: &str) -> Reply {
    Reply::Answer { status: "200 OK".to_owned(), text: text.to_owned() }
}

fn waiting(step: Step) -> (Job, Request) {
    match step.next {
        Next::Perform(job, request) => (job, request),
        Next::Finish(result) => panic!("ended with {:?}", result),
    }
}

fn ended(step: Step) -> JobResult {
    match step.next {
        Next::Finish(result) => result,
        Next::Perform(_, request) => panic!("asks for {:?}", request),
    }
}

fn address(request: &Request) -> String {
    match request {
        Request::Get { url } => format!("GET {}", url),
        Request::Query { url, query } => format!("GET {}?q={}", url, query),
        Request::Post { url, fields } => format!("POST {} {}", url, fields.len()),
    }
}

fn run(first: Step, replies: Vec<Reply>) -> (Vec<String>, JobResult) {
    let mut asked = vec![];
    let mut step = first;
    for reply in replies {
        let (job, request) = waiting(step);
        asked.push(address(&request));
        step = job.answer(reply);
    }
    (asked, ended(step))
}

#[test]
fn signing_in_finds_the_form_and_the_places_of_work() {
    let (asked, result) = run(
        begin(login_work()),
        vec![
            answer("{}"),
            answer(ADMIN_PAGE),
            answer(FORM_PAGE),
            answer("[{\"id\":2,\"text\":\"B\"},{\"id\":1,\"text\":\"A\"}]"),
        ],
    );
    assert_eq!(
        asked,
        vec![
            "POST https://azienda.libemax.com/app-timbrature/it/ajax/login.accedi 3",
            "GET https://azienda.libemax.com/app-timbrature/it/admin_timbratura",
            "GET https://azienda.libemax.com/app-timbrature/it/admin_timbratura/inserisci",
            "GET https://azienda.libemax.com/clienti?q=",
        ]
    );
    match result {
        JobResult::Login(Ok(success)) => {
            assert_eq!(success.status_kind, StatusKind::Success);
            assert_eq!(success.status_text, "Login effettuato");
            assert!(success.clear_otp);
            assert!(success.pending_mail_authentication.is_none());
            assert_eq!(success.api.language, "it");
            let ids: Vec<&str> = success.workplaces.iter().map(|i| i.id.as_str()).collect();
            assert_eq!(ids, vec!["1", "2"]);
            let discovery = success.discovery.unwrap();
            assert_eq!(discovery.insert_form.action_url, "https://azienda.libemax.com/salva");
            assert_eq!(discovery.candidate_insert_urls.len(), 1);
        }
        _ => panic!("not signed in"),
    }
}

#[test]
fn signing_in_may_want_a_code() {
    let body = "{\"action_required\":\"mail_authentication\",\"email\":\"a@b.it\",\"utente_id\":\"5\"}";
    match run(begin(login_work()), vec![answer(body)]).1 {
        JobResult::Login(Ok(success)) => {
            assert_eq!(success.status_kind, StatusKind::Warning);
            assert_eq!(success.status_text, "Serve il codice ricevuto via mail: a@b.it");
            assert!(!success.clear_otp);
            assert_eq!(success.pending_mail_authentication.unwrap().user_id, "5");
            assert!(success.discovery.is_none());
            assert!(success.workplaces.is_empty());
        }
        _ => panic!("no code asked for"),
    }
    assert!(matches!(
        run(begin(verify_work()), vec![answer(body)]).1,
        JobResult::VerifyMailCode(Err(message)) if message == "Il server richiede ancora il codice mail"
    ));
}

#[test]
fn a_code_is_verified() {
    let (asked, result) = run(
        begin(verify_work()),
        vec![answer("{}"), answer(ADMIN_PAGE), answer("<form id=form1 action=/s></form>")],
    );
    assert_eq!(asked.len(), 3);
    assert_eq!(asked[0], "POST https://azienda.libemax.com/app-timbrature/it/ajax/login.accedi 3");
    assert!(matches!(
        result,
        JobResult::VerifyMailCode(Ok(success))
            if success.status_text == "Codice verificato, sessione attiva" && success.workplaces.is_empty()
    ));
}

#[test]
fn signing_in_fails_with_the_message_of_the_site() {
    assert!(matches!(
        run(begin(login_work()), vec![Reply::Unsent]).1,
        JobResult::Login(Err(message)) if message == "login request failed"
    ));
    assert!(matches!(
        run(begin(login_work()), vec![answer("{\"error\":\"no\"}")]).1,
        JobResult::Login(Err(message)) if message == "no"
    ));
    assert!(matches!(
        run(begin(verify_work()), vec![answer("{\"error\":\"scaduto\"}")]).1,
        JobResult::VerifyMailCode(Err(message)) if message == "scaduto"
    ));
    assert!(matches!(
        run(begin(verify_work()), vec![answer("no json")]).1,
        JobResult::VerifyMailCode(Err(message))
            if message == "unexpected server response with status 200 OK: no json"
    ));
    assert!(matches!(
        run(begin(login_work()), vec![answer("{}"), answer(LOGIN_PAGE)]).1,
        JobResult::Login(Err(message)) if is_signed_out(&message)
    ));
}

#[test]
fn signing_in_counts_where_the_form_is_not_found() {
    match run(begin(login_work()), vec![answer("{}"), answer("<p>niente</p>")]).1 {
        JobResult::Login(Ok(success)) => {
            assert_eq!(success.api.base_url, "https://azienda.libemax.com/");
            assert_eq!(success.status_kind, StatusKind::Error);
            assert_eq!(
                success.status_text,
                "Non sono riuscito a trovare automaticamente la pagina di inserimento ore. Incolla l'URL manuale nel campo 'Insert form URL'."
            );
            assert!(!success.clear_otp);
            assert!(success.pending_mail_authentication.is_none());
            assert!(success.discovery.is_none());
            assert!(success.workplaces.is_empty());
        }
        _ => panic!("not signed in"),
    }
    assert!(matches!(
        run(begin(verify_work()), vec![answer("{}"), answer("<p>niente</p>")]).1,
        JobResult::VerifyMailCode(Ok(success))
            if success.discovery.is_none() && success.status_kind == StatusKind::Error
    ));
}

#[test]
fn signing_in_fails_where_the_form_cannot_be_read() {
    assert!(matches!(
        run(begin(verify_work()), vec![answer("{}"), Reply::Unread]).1,
        JobResult::VerifyMailCode(Err(message))
            if message == "failed to read HTML body from https://azienda.libemax.com/app-timbrature/it/admin_timbratura"
    ));
    assert!(matches!(
        run(begin(login_work()), vec![answer("{}"), answer(ADMIN_PAGE), answer("<p>")]).1,
        JobResult::Login(Err(message))
            if message == "non ho trovato il form di inserimento/modifica ore"
    ));
    assert!(matches!(
        run(begin(login_work()), vec![answer("{}"), answer(ADMIN_PAGE), Reply::Unsent]).1,
        JobResult::Login(Err(message)) if message
            == "request failed for https://azienda.libemax.com/app-timbrature/it/admin_timbratura/inserisci"
    ));
}

#[test]
fn a_code_is_sent_again() {
    let (asked, result) = run(
        begin(Work::ResendMailCode { user_id: "5".to_owned() }),
        vec![answer("{\"confirm\":\"spedito\"}")],
    );
    assert_eq!(
        asked,
        vec!["POST https://azienda.libemax.com/app-timbrature/it/ajax/login.invia_mail_autenticazione 1"]
    );
    assert!(matches!(result, JobResult::ResendMailCode(Ok(message)) if message == "spedito"));
    assert!(matches!(
        run(begin(Work::ResendMailCode { user_id: "5".to_owned() }), vec![Reply::Unsent]).1,
        JobResult::ResendMailCode(Err(message))
            if message == "failed to request a new mail authentication code"
    ));
}

#[test]
fn places_of_work_are_asked_for_in_two_ways() {
    let first = || {
        let (job, _) = waiting(begin(refresh_work(" /mio ")));
        let (job, request) = waiting(job.answer(answer(ADMIN_PAGE)));
        assert_eq!(address(&request), "GET https://azienda.libemax.com/mio");
        let (job, _) = waiting(job.answer(answer(FORM_PAGE)));
        job
    };
    let found = |step: Step| match ended(step) {
        JobResult::RefreshDiscovery(Ok(success)) => {
            assert_eq!(success.status_text, "Endpoint e form ore scoperti correttamente");
            assert_eq!(success.discovery.insert_form_url, "https://azienda.libemax.com/mio");
            success.workplaces.len()
        }
        _ => panic!("not refreshed"),
    };
    assert_eq!(found(first().answer(answer("[1,2]"))), 2);
    assert_eq!(found(first().answer(Reply::Unread)), 0);
    let (job, request) = waiting(first().answer(answer("<html>")));
    assert_eq!(address(&request), "POST https://azienda.libemax.com/clienti 1");
    assert_eq!(found(job.answer(answer("{\"results\":[1]}"))), 1);
    let (job, _) = waiting(first().answer(Reply::Unsent));
    assert_eq!(found(job.answer(Reply::Unsent)), 0);
}

#[test]
fn a_lost_session_is_forgotten() {
    let (job, _) = waiting(begin(restore_work()));
    let step = job.answer(answer(LOGIN_PAGE));
    assert!(step.save_cookies);
    assert!(step.forget_cookies);
    assert!(matches!(
        ended(step),
        JobResult::RestoreSession(Err(message))
            if message == "Sessione salvata scaduta, effettua di nuovo il login"
    ));
    let (job, _) = waiting(begin(restore_work()));
    let step = job.answer(Reply::Unsent);
    assert!(!step.forget_cookies);
    assert!(matches!(
        ended(step),
        JobResult::RestoreSession(Err(message)) if message
            == "Impossibile ripristinare la sessione: request failed for https://azienda.libemax.com/app-timbrature/it/admin_timbratura"
    ));
    match run(begin(restore_work()), vec![answer("<p>niente</p>")]).1 {
        JobResult::RestoreSession(Ok(success)) => {
            assert_eq!(success.status_kind, StatusKind::Warning);
            assert_eq!(
                success.status_text,
                "Impossibile ripristinare la sessione: Non sono riuscito a trovare automaticamente la pagina di inserimento ore. Incolla l'URL manuale nel campo 'Insert form URL'."
            );
            assert!(success.discovery.is_none());
        }
        _ => panic!("the site is lost"),
    }
    let (job, _) = waiting(begin(refresh_work("")));
    let step = job.answer(answer(LOGIN_PAGE));
    assert!(!step.forget_cookies);
    assert!(matches!(ended(step), JobResult::RefreshDiscovery(Err(message)) if is_signed_out(&message)));
}

#[test]
fn an_earlier_session_goes_on() {
    let (_, result) = run(
        begin(restore_work()),
        vec![answer(ADMIN_PAGE), answer(FORM_PAGE), answer("[\"a\"]")],
    );
    assert!(matches!(
        result,
        JobResult::RestoreSession(Ok(success))
            if success.status_text == "Sessione ripristinata" && success.workplaces.len() == 1
    ));
}

#[test]
fn cookies_are_stored_after_replies_that_were_read() {
    let (job, _) = waiting(begin(login_work()));
    assert!(job.answer(answer("{}")).save_cookies);
    let (job, _) = waiting(begin(login_work()));
    assert!(!job.answer(answer("no json")).save_cookies);
    let (job, _) = waiting(begin(refresh_work("")));
    assert!(!job.answer(Reply::Unread).save_cookies);
    let (job, _) = waiting(begin(refresh_work("")));
    assert!(job.answer(answer(ADMIN_PAGE)).save_cookies);
}

#[test]
fn a_job_without_a_site_ends_at_once() {
    let mut nowhere = task(restore_work());
    nowhere.base_url = "azienda".to_owned();
    assert!(matches!(
        nowhere.begin(),
        Err(JobResult::RestoreSession(Err(message))) if message == "invalid base URL"
    ));
    match task(Work::SubmitBatch { insert_form: InsertForm::default(), submissions: vec![] }).begin() {
        Ok(opening) => assert!(matches!(
            ended(opening.opened(Err("disco pieno".to_owned()))),
            JobResult::SubmitBatch(Err(message)) if message == "disco pieno"
        )),
        Err(_) => panic!("no site"),
    }
    let mut mail = task(login_work());
    mail.base_url = "mailto:a@b.it".to_owned();
    match mail.begin() {
        Ok(opening) => assert!(matches!(
            ended(opening.opened(Ok(()))),
            JobResult::Login(Err(message)) if message == "failed to build login API URL"
        )),
        Err(_) => panic!("no site"),
    }
}

fn booking(date: &str, start: &str, end: &str) -> BookingSubmission {
    BookingSubmission {
        start_date: date.to_owned(),
        start_time: start.to_owned(),
        end_time: end.to_owned(),
        ..BookingSubmission::default()
    }
}

fn known_form(page_url: &str) -> InsertForm {
    InsertForm {
        page_url: page_url.to_owned(),
        action_url: "https://azienda.libemax.com/vecchio".to_owned(),
        ..InsertForm::default()
    }
}

#[test]
fn each_booking_of_a_batch_gets_one_result_in_order() {
    let (asked, result) = run(
        begin(Work::SubmitBatch {
            insert_form: known_form("https://azienda.libemax.com/pagina"),
            submissions: vec![
                booking("01/03/2024", "09:00", "13:00"),
                booking("02/03/2024", "13:00", "09:00"),
                booking("03/03/2024", "09:00", "13:00"),
                booking("04/03/2024", "09:00", "13:00"),
            ],
        }),
        vec![
            answer(FORM_PAGE),
            answer("{\"confirm\":\"ok\"}"),
            answer(FORM_PAGE),
            Reply::Unsent,
            answer("{\"error\":1,\"dettagli\":{\"orario_tracimato\":\"tardi\"}}"),
            answer(LOGIN_PAGE),
            Reply::Unread,
        ],
    );
    assert_eq!(
        asked,
        vec![
            "GET https://azienda.libemax.com/pagina",
            "POST https://azienda.libemax.com/salva 2",
            "GET https://azienda.libemax.com/pagina",
            "GET https://azienda.libemax.com/pagina",
            "POST https://azienda.libemax.com/vecchio 0",
            "GET https://azienda.libemax.com/pagina",
            "POST https://azienda.libemax.com/vecchio 0",
        ]
    );
    match result {
        JobResult::SubmitBatch(Ok(success)) => {
            assert_eq!(success.status_kind, StatusKind::Warning);
            assert_eq!(
                success.status_text,
                "Prenotazione multipla completata con 1 inserimenti riusciti e 3 errori"
            );
            let lines: Vec<String> = success.results.iter().map(|r| r.line()).collect();
            assert_eq!(
                lines,
                vec![
                    "Venerdi' 01/03/2024 09:00-13:00: ok",
                    "Sabato 02/03/2024 13:00-09:00: La data/ora di fine deve essere successiva a quella di inizio",
                    "Domenica 03/03/2024 09:00-13:00: Serve conferma esplicita: tardi",
                    "Lunedi' 04/03/2024 09:00-13:00: failed to read JSON response body",
                ]
            );
        }
        _ => panic!("no results"),
    }
}

#[test]
fn a_batch_goes_on_where_the_page_of_the_form_is_lost() {
    let (asked, result) = run(
        begin(Work::SubmitBatch {
            insert_form: known_form("http://["),
            submissions: vec![
                booking("mai", "09:00", "13:00"),
                booking("02/03/2024", "09:00", "13:00"),
            ],
        }),
        vec![answer("{}")],
    );
    assert_eq!(asked, vec!["POST https://azienda.libemax.com/vecchio 0"]);
    match result {
        JobResult::SubmitBatch(Ok(success)) => {
            assert_eq!(success.results[0].result, Err("invalid date 'mai', expected DD/MM/YYYY".to_owned()));
            assert_eq!(success.results[1].result, Ok("Timbratura salvata correttamente".to_owned()));
        }
        _ => panic!("no results"),
    }
}

#[test]
fn a_batch_is_summed_up() {
    let summary = summarize_batch(vec![]);
    assert_eq!(summary.status_kind, StatusKind::Success);
    assert_eq!(summary.status_text, "Prenotazioni create: 0 inserimenti");
}

fn last_of_a_batch() -> Batch {
    Batch {
        api: LibemaxApi::new(SITE, "it").unwrap(),
        insert_form: known_form("https://azienda.libemax.com/pagina"),
        done: vec![],
        current: booking("01/03/2024", "09:00", "13:00"),
        rest: vec![],
    }
}

#[test]
fn the_last_booking_ends_a_batch() {
    let sent = Request::Get { url: "https://a/".to_owned() };
    let (job, request) = waiting(decide_booking(true, last_of_a_batch(), Ok(sent)));
    assert_eq!(address(&request), "GET https://a/");
    assert!(matches!(job, Job::Posting { .. }));
    match ended(decide_booking(true, last_of_a_batch(), Err("rotto".to_owned()))) {
        JobResult::SubmitBatch(Ok(success)) => {
            assert_eq!(success.results[0].result, Err("rotto".to_owned()));
            assert_eq!(
                success.status_text,
                "Prenotazione multipla completata con 0 inserimenti riusciti e 1 errori"
            );
        }
        _ => panic!("no results"),
    }
    let outcome = Ok(libemin::booking::SubmitOutcome::Success("ok".to_owned()));
    match ended(end_booking(false, last_of_a_batch(), outcome)) {
        JobResult::SubmitBatch(Ok(success)) => {
            assert_eq!(success.status_text, "Prenotazioni create: 1 inserimenti");
        }
        _ => panic!("no results"),
    }
}

#[test]
fn signing_in_takes_five_requests_at_most() {
    let (asked, _) = run(
        begin(login_work()),
        vec![
            answer("{}"),
            answer(ADMIN_PAGE),
            answer(FORM_PAGE),
            answer("<html>"),
            answer("<html>"),
        ],
    );
    assert_eq!(asked.len(), 5);
    assert_eq!(asked[4], "POST https://azienda.libemax.com/clienti 1");
}

#[test]
fn the_password_is_sent_to_sign_in_only() {
    let with = |password: &str| {
        waiting(begin(Work::Login {
            username: "mario".to_owned(),
            password: password.to_owned(),
            remember: true,
            insert_form_url_override: "".to_owned(),
        }))
    };
    let (job, request) = with("segreta");
    let (same, _) = with("altra");
    match request {
        Request::Post { url, fields } => {
            assert_eq!(url, "https://azienda.libemax.com/app-timbrature/it/ajax/login.accedi");
            assert_eq!(fields[1], ("password".to_owned(), "segreta".to_owned()));
        }
        _ => panic!("no form"),
    }
    assert_eq!(format!("{:?}", job), format!("{:?}", same));
    let (_, next) = waiting(job.answer(answer("{}")));
    assert!(!format!("{:?}", next).contains("segreta"));
}

#[test]
fn results_that_are_noted_stay() {
    let mut batch = last_of_a_batch();
    batch.insert_form = known_form("http://[");
    batch.rest = vec![booking("mai", "09:00", "13:00"), booking("02/03/2024", "09:00", "13:00")];
    let (job, _) = waiting(Job::Posting { batch }.answer(answer("{\"confirm\":\"prima\"}")));
    match job {
        Job::Posting { batch } => {
            assert_eq!(batch.done.len(), 2);
            assert_eq!(batch.done[0].result, Ok("prima".to_owned()));
            assert_eq!(
                batch.done[1].result,
                Err("invalid date 'mai', expected DD/MM/YYYY".to_owned())
            );
            assert_eq!(batch.current.start_date, "02/03/2024");
            assert!(batch.rest.is_empty());
            match ended(Job::Posting { batch }.answer(Reply::Unsent)) {
                JobResult::SubmitBatch(Ok(success)) => {
                    assert_eq!(success.results[0].result, Ok("prima".to_owned()));
                    assert_eq!(
                        success.results[2].result,
                        Err("booking submit request failed".to_owned())
                    );
                }
                _ => panic!("no results"),
            }
        }
        _ => panic!("no booking is sent"),
    }
}
