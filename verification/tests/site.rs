use libemin::booking::{BookingSubmission, SubmitOutcome};
use libemin::form::InsertForm;
use libemin::json::parse_json;
use libemin::libemax::{
    choose_insert_page, find_insert_page, lookup_as_form, looks_like_login_page,
    read_booking_reply, read_form_page, read_login_body, read_lookup_form_reply, read_page,
    read_query_reply, read_resend_body, response_to_json, LibemaxApi, LoginOutcome, Reply,
    Request,
};

fn api() -> LibemaxApi {
    LibemaxApi::new("https://azienda.libemax.com", " it ").unwrap()
}

fn answer(text: &str) -> Reply {
    Reply::Answer { status: "200 OK".to_owned(), text: text.to_owned() }
}

fn pairs(listed: &[(&str, &str)]) -> Vec<(String, String)> {
    listed.iter().map(|(name, value)| (name.to_string(), value.to_string())).collect()
}

fn posted(request: Result<Request, String>) -> (String, Vec<(String, String)>) {
    match request {
        Ok(Request::Post { url, fields }) => (url, fields),
        _ => panic!("no form"),
    }
}

#[test]
fn a_site_has_its_pages() {
    assert_eq!(api().language, "it");
    assert_eq!(
        api().admin_page_url(),
        Ok("https://azienda.libemax.com/app-timbrature/it/admin_timbratura".to_owned())
    );
    assert_eq!(
        api().login_api_url(),
        Ok("https://azienda.libemax.com/app-timbrature/it/ajax/login.accedi".to_owned())
    );
    assert_eq!(
        api().mail_code_api_url(),
        Ok("https://azienda.libemax.com/app-timbrature/it/ajax/login.invia_mail_autenticazione".to_owned())
    );
    assert_eq!(
        api().load_insert_form(" inserisci "),
        Ok("https://azienda.libemax.com/app-timbrature/it/inserisci".to_owned())
    );
    assert_eq!(LibemaxApi::new("azienda", "it").unwrap_err(), "invalid base URL");
}

#[test]
fn a_site_without_pages_is_reported() {
    let mail = LibemaxApi::new("mailto:a@b.it", "it").unwrap();
    assert_eq!(mail.admin_page_url().unwrap_err(), "failed to build admin page URL");
    assert_eq!(mail.login("u", "p", None, true).unwrap_err(), "failed to build login API URL");
    assert_eq!(mail.resend_mail_code("1").unwrap_err(), "failed to build mail code API URL");
    assert_eq!(mail.load_insert_form("x").unwrap_err(), "failed to build admin page URL");
    assert_eq!(mail.search_lookup("x", "").unwrap_err(), "failed to build admin page URL");
}

#[test]
fn signing_in_sends_what_is_needed() {
    let (url, fields) = posted(api().login(" mario ", " p w ", None, true));
    assert_eq!(url, "https://azienda.libemax.com/app-timbrature/it/ajax/login.accedi");
    assert_eq!(fields, pairs(&[("username", "mario"), ("password", " p w "), ("remember", "1")]));
    assert_eq!(
        posted(api().login("mario", "pw", Some(" 123 "), false)).1,
        pairs(&[("username", "mario"), ("password", "pw"), ("doppia_autenticazione_codice", "123")])
    );
    assert_eq!(
        posted(api().login("mario", "pw", Some("  "), false)).1,
        pairs(&[("username", "mario"), ("password", "pw")])
    );
    assert_eq!(posted(api().resend_mail_code(" 5 ")).1, pairs(&[("utente_id", "5")]));
}

fn login(body: &str) -> Result<LoginOutcome, String> {
    read_login_body(&parse_json(body).unwrap())
}

#[test]
fn replies_to_signing_in_are_read() {
    assert!(matches!(login("{}"), Ok(LoginOutcome::Authenticated)));
    assert!(matches!(login("{\"action_required\":\"altro\"}"), Ok(LoginOutcome::Authenticated)));
    assert_eq!(login("{\"error\":\" credenziali errate \"}").unwrap_err(), "credenziali errate");
    assert_eq!(
        login("{\"action_required\":\"change_password\"}").unwrap_err(),
        "Libemax richiede il cambio password: fai il cambio dal sito una volta, poi usa l'app"
    );
    match login("{\"action_required\":\"mail_authentication\",\"email\":\"a@b.it\",\"utente_id\":12}") {
        Ok(LoginOutcome::NeedsMailAuthentication(prompt)) => {
            assert_eq!(prompt.email, "a@b.it");
            assert_eq!(prompt.user_id, "12");
        }
        _ => panic!("no code asked for"),
    }
    match login("{\"action_required\":\"mail_authentication\"}") {
        Ok(LoginOutcome::NeedsMailAuthentication(prompt)) => {
            assert_eq!(prompt.email, "indirizzo email non disponibile");
            assert_eq!(prompt.user_id, "");
        }
        _ => panic!("no code asked for"),
    }
}

#[test]
fn replies_to_asking_for_a_code_are_read() {
    let resend = |body: &str| read_resend_body(&parse_json(body).unwrap());
    assert_eq!(resend("{\"confirm\":\"spedito\"}"), Ok("spedito".to_owned()));
    assert_eq!(resend("{}"), Ok("Nuovo codice inviato".to_owned()));
    assert_eq!(
        resend("{\"error\":true}"),
        Err("Il server ha restituito un errore non dettagliato".to_owned())
    );
}

#[test]
fn replies_without_a_document_are_reported() {
    assert_eq!(response_to_json(&Reply::Unsent, "non inviato").unwrap_err(), "non inviato");
    assert_eq!(
        response_to_json(&Reply::Unread, "x").unwrap_err(),
        "failed to read JSON response body"
    );
    let broken = Reply::Answer { status: "502 Bad Gateway".to_owned(), text: " oops \n".to_owned() };
    assert_eq!(
        response_to_json(&broken, "x").unwrap_err(),
        "unexpected server response with status 502 Bad Gateway: oops"
    );
    assert!(response_to_json(&answer("{}"), "x").is_ok());
}

#[test]
fn pages_that_ask_to_sign_in_are_none() {
    assert!(looks_like_login_page("<form id=\"login_libemax\">"));
    assert!(looks_like_login_page("<form class=\"form-login\">"));
    assert!(!looks_like_login_page("<form id='login_libemax'>"));
    assert_eq!(read_page("u", answer("<p>")), Ok("<p>".to_owned()));
    assert_eq!(
        read_page("u", answer("<form class=\"form-login\">")).unwrap_err(),
        "Sessione non autenticata o scaduta: effettua di nuovo il login"
    );
    assert_eq!(read_page("https://x/", Reply::Unsent).unwrap_err(), "request failed for https://x/");
    assert_eq!(
        read_page("https://x/", Reply::Unread).unwrap_err(),
        "failed to read HTML body from https://x/"
    );
}

#[test]
fn the_page_of_the_user_goes_before_the_best_found() {
    let found = vec!["https://a/1".to_owned(), "https://a/2".to_owned()];
    let page = choose_insert_page("https://a/x/y", found.clone(), "  ").unwrap();
    assert_eq!(page.insert_form_url, "https://a/1");
    assert_eq!(page.candidate_insert_urls.len(), 2);
    assert_eq!(page.admin_page_url, "https://a/x/y");
    assert_eq!(
        choose_insert_page("https://a/x/y", found, " z ").unwrap().insert_form_url,
        "https://a/x/z"
    );
    assert_eq!(
        choose_insert_page("https://a/x/y", vec![], "").unwrap_err(),
        "Non sono riuscito a trovare automaticamente la pagina di inserimento ore. Incolla l'URL manuale nel campo 'Insert form URL'."
    );
    assert_eq!(
        choose_insert_page("https://a/x/y", vec![], "http://[").unwrap_err(),
        "failed to resolve URL 'http://['"
    );
    assert_eq!(
        find_insert_page("<a href=\"/inserisci\">x</a>", "https://a/x/y", "").unwrap().insert_form_url,
        "https://a/inserisci"
    );
}

#[test]
fn places_of_work_are_asked_for() {
    let mut form = InsertForm::default();
    assert_eq!(
        api().preload_clients(&form).unwrap_err(),
        "L'endpoint dei luoghi di lavoro non e' stato trovato"
    );
    form.lookup_endpoints.client = Some("/clienti".to_owned());
    match api().preload_clients(&form) {
        Ok(Request::Query { url, query }) => {
            assert_eq!(url, "https://azienda.libemax.com/clienti");
            assert_eq!(query, "");
        }
        _ => panic!("no query"),
    }
    match api().search_lookup("/clienti", " ro ") {
        Ok(Request::Query { url: _, query }) => assert_eq!(query, "ro"),
        _ => panic!("no query"),
    }
    match lookup_as_form("https://a/".to_owned(), "ro".to_owned()) {
        Request::Post { url, fields } => {
            assert_eq!(url, "https://a/");
            assert_eq!(fields, pairs(&[("q", "ro")]));
        }
        _ => panic!("no form"),
    }
}

#[test]
fn replies_to_lookups_are_read() {
    assert!(read_query_reply(&Reply::Unsent).is_none());
    assert!(read_query_reply(&answer("<html>")).is_none());
    assert_eq!(
        read_query_reply(&Reply::Unread),
        Some(Err("failed to read lookup response body".to_owned()))
    );
    assert_eq!(read_query_reply(&answer("[\"a\"]")).unwrap().unwrap().len(), 1);
    assert_eq!(read_lookup_form_reply(&Reply::Unsent), Err("lookup request failed".to_owned()));
    assert_eq!(
        read_lookup_form_reply(&Reply::Unread),
        Err("failed to read lookup response body".to_owned())
    );
    assert_eq!(
        read_lookup_form_reply(&answer("x ")),
        Err("failed to parse lookup response: x".to_owned())
    );
    assert_eq!(read_lookup_form_reply(&answer("{\"results\":[1,2]}")).unwrap().len(), 2);
}

#[test]
fn bookings_are_sent_and_answered() {
    let mut form = InsertForm::default();
    form.action_url = "https://a/salva".to_owned();
    form.field_names.client = Some("cli".to_owned());
    let booked = BookingSubmission {
        client_id: "7".to_owned(),
        total_hours: "01:00".to_owned(),
        ..BookingSubmission::default()
    };
    let (url, fields) = posted(api().submit_booking(&form, &booked, false));
    assert_eq!(url, "https://a/salva");
    assert_eq!(fields, pairs(&[("cli", "7")]));
    assert!(matches!(
        read_booking_reply(&answer("{\"confirm\":\"ok\"}"), false),
        Ok(SubmitOutcome::Success(message)) if message == "ok"
    ));
    assert_eq!(
        read_booking_reply(&Reply::Unsent, false).unwrap_err(),
        "booking submit request failed"
    );
    assert_eq!(
        read_form_page("https://a/", answer("<p>")).unwrap_err(),
        "non ho trovato il form di inserimento/modifica ore"
    );
}
