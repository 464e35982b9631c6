use libemin::booking::{
    book_segment, booking_fields, build_segment_submission, fill_fields, note_result,
    read_submit_reply, BatchBookingDraft, BookingSubmission, DailyOverride, SubmitOutcome,
};
use libemin::calendar::{Date, Time};
use libemin::form::InsertForm;
use libemin::json::parse_json;

fn some(text: &str) -> Option<String> {
    Some(text.to_owned())
}

fn submission() -> BookingSubmission {
    BookingSubmission {
        client_id: " 7 ".to_owned(),
        start_date: "01/03/2024".to_owned(),
        start_time: "09:00".to_owned(),
        end_time: "13:30".to_owned(),
        note: " nota ".to_owned(),
        ..BookingSubmission::default()
    }
}

fn insert_form() -> InsertForm {
    let mut form = InsertForm::default();
    form.action_url = "https://azienda.libemax.com/salva".to_owned();
    form.base_fields.insert("globals_utente_id".to_owned(), "42".to_owned());
    form.base_fields.insert("token".to_owned(), "abc".to_owned());
    form.field_names.employee = some("dip");
    form.field_names.client = some("cli");
    form.field_names.start_date = some("di");
    form.field_names.end_date = some("df");
    form.field_names.total_hours = some("ore");
    form.field_names.note = some("note");
    form.field_names.force = some("forza");
    form
}

fn pairs(listed: &[(&str, &str)]) -> Vec<(String, String)> {
    listed.iter().map(|(name, value)| (name.to_string(), value.to_string())).collect()
}

#[test]
fn a_booking_fills_the_form() {
    let fields = booking_fields(&insert_form(), &submission(), false).unwrap();
    assert_eq!(
        fields.to_vec(),
        pairs(&[
            ("cli", "7"),
            ("df", "01/03/2024"),
            ("di", "01/03/2024"),
            ("dip", "42"),
            ("forza", ""),
            ("globals_utente_id", "42"),
            ("note", "nota"),
            ("ore", "04:30"),
            ("token", "abc"),
        ])
    );
}

#[test]
fn what_is_asked_for_goes_before_what_is_computed() {
    let mut asked = submission();
    asked.employee_id = " 9 ".to_owned();
    asked.end_date = " 02/03/2024 ".to_owned();
    asked.total_hours = " 01:00 ".to_owned();
    let fields = booking_fields(&insert_form(), &asked, true).unwrap();
    assert_eq!(fields.get("dip"), Some(&"9".to_owned()));
    assert_eq!(fields.get("df"), Some(&"02/03/2024".to_owned()));
    assert_eq!(fields.get("ore"), Some(&"01:00".to_owned()));
    assert_eq!(fields.get("forza"), Some(&"1".to_owned()));
}

#[test]
fn a_booking_without_countable_hours_is_not_sent() {
    let mut late = submission();
    late.start_time = "14:00".to_owned();
    assert_eq!(
        booking_fields(&insert_form(), &late, false).unwrap_err(),
        "La data/ora di fine deve essere successiva a quella di inizio"
    );
    late.start_time = "presto".to_owned();
    assert_eq!(
        booking_fields(&insert_form(), &late, false).unwrap_err(),
        "invalid time 'presto', expected HH:MM"
    );
}

#[test]
fn other_fields_are_sent_as_they_came() {
    let fields = fill_fields(&insert_form(), &submission(), "04:30", true);
    assert_eq!(fields.get("token"), Some(&"abc".to_owned()));
    assert_eq!(fields.get("globals_utente_id"), Some(&"42".to_owned()));
    assert_eq!(fields.get("forza"), Some(&"1".to_owned()));
    assert_eq!(fields.len(), 9);
}

fn reply(body: &str, force: bool) -> Result<SubmitOutcome, String> {
    read_submit_reply(&parse_json(body).unwrap(), force)
}

#[test]
fn replies_to_bookings_are_read() {
    assert!(matches!(reply("{\"confirm\":\"ok\"}", false), Ok(SubmitOutcome::Success(m)) if m == "ok"));
    assert!(matches!(
        reply("{\"confirm\":1,\"result\":{\"result\":\"no\"}}", false),
        Ok(SubmitOutcome::Success(m)) if m == "Timbratura salvata correttamente"
    ));
    assert_eq!(
        reply("{\"result\":{\"result\":false,\"id_msg\":\"pieno\"}}", false).unwrap_err(),
        "pieno"
    );
    assert_eq!(
        reply("{\"result\":{\"result\":false}}", true).unwrap_err(),
        "La timbratura non e' stata accettata dal server"
    );
    assert_eq!(
        reply("{\"error\":true,\"dettagli\":[\"uno\",\"due\"]}", false).unwrap_err(),
        "uno\ndue"
    );
}

#[test]
fn a_refusal_asks_for_a_confirmation_once() {
    let body = "{\"error\":1,\"dettagli\":{\"orario_tracimato\":\"tardi\",\"z\":\"due\"}}";
    match reply(body, false) {
        Ok(SubmitOutcome::NeedsForce(messages)) => assert_eq!(messages, vec!["tardi", "due"]),
        _ => panic!("no confirmation asked for"),
    }
    assert_eq!(reply(body, true).unwrap_err(), "tardi\ndue");
}

#[test]
fn results_are_noted_and_shown() {
    let done = note_result(&submission(), Ok(SubmitOutcome::Success("fatto".to_owned())));
    assert_eq!(done.result, Ok("fatto".to_owned()));
    assert_eq!(done.line(), "Venerdi' 01/03/2024 09:00-13:30: fatto");
    let asked = note_result(
        &submission(),
        Ok(SubmitOutcome::NeedsForce(vec!["a".to_owned(), "b".to_owned()])),
    );
    assert_eq!(asked.result, Err("Serve conferma esplicita: a | b".to_owned()));
    let failed = note_result(&submission(), Err("rotto".to_owned()));
    assert_eq!(failed.clone().line(), "Venerdi' 01/03/2024 09:00-13:30: rotto");
}

#[test]
fn parts_of_a_day_become_bookings() {
    let booked = build_segment_submission("01/03/2024", "7", "mattina", " 9:00 ", "13:00")
        .unwrap()
        .unwrap();
    assert_eq!(booked.client_id, "7");
    assert_eq!(booked.start_date, "01/03/2024");
    assert_eq!(booked.end_date, "01/03/2024");
    assert_eq!(booked.start_time, "09:00");
    assert_eq!(booked.end_time, "13:00");
    assert_eq!(booked.total_hours, "");
    assert_eq!(booked.employee_id, "");
    assert!(build_segment_submission("01/03/2024", "7", "mattina", " ", "").unwrap().is_none());
}

#[test]
fn parts_of_a_day_are_checked() {
    let message = |start: &str, end: &str| {
        build_segment_submission("01/03/2024", "7", "mattina", start, end).unwrap_err()
    };
    assert_eq!(
        message("09:00", " "),
        "Venerdi' 01/03/2024: compila sia l'inizio che la fine per la fascia mattina"
    );
    assert_eq!(message("nove", "13:00"), "Venerdi' 01/03/2024: orario non valido per la fascia mattina");
    assert_eq!(message("09:00", "25:00"), "Venerdi' 01/03/2024: orario non valido per la fascia mattina");
    assert_eq!(
        message("07:59", "13:00"),
        "Venerdi' 01/03/2024: gli orari della fascia mattina devono stare tra 08:00 e 19:00"
    );
    let time = |hour: u32, minute: u32| Some(Time { hour, minute });
    assert_eq!(book_segment("x", "7", "sera", time(8, 0), time(19, 0)).unwrap().end_time, "19:00");
    assert_eq!(
        book_segment("x", "7", "sera", time(8, 0), None).unwrap_err(),
        "x: orario non valido per la fascia sera"
    );
    assert_eq!(
        book_segment("x", "7", "sera", time(8, 0), time(19, 1)).unwrap_err(),
        "x: gli orari della fascia sera devono stare tra 08:00 e 19:00"
    );
}

fn day(date: &str) -> DailyOverride {
    DailyOverride::new(
        date.to_owned(),
        "8".to_owned(),
        "10:00".to_owned(),
        "12:00".to_owned(),
        "".to_owned(),
        "".to_owned(),
    )
}

fn draft() -> BatchBookingDraft {
    BatchBookingDraft::with_today(Date { year: 2024, month: 3, day: 6 })
}

#[test]
fn a_new_draft_is_for_eight_hours_today() {
    let mut today = draft();
    assert_eq!(today.range_start, "06/03/2024");
    assert_eq!(today.range_end, "06/03/2024");
    assert_eq!(today.default_morning_start_time, "09:00");
    assert_eq!(today.default_morning_end_time, "13:00");
    assert_eq!(today.default_afternoon_start_time, "14:00");
    assert_eq!(today.default_afternoon_end_time, "18:00");
    today.default_morning_start_time = "08:00".to_owned();
    today.preset_eight_hours();
    assert_eq!(today.default_morning_start_time, "09:00");
    today.select_current_week(Date { year: 2024, month: 3, day: 10 });
    assert_eq!(today.range_start, "04/03/2024");
    assert_eq!(today.range_end, "08/03/2024");
}

#[test]
fn days_are_booked_by_default_or_on_their_own() {
    let mut many = draft();
    let mut own = day("05/03/2024");
    own.enabled = true;
    many.day_overrides = vec![day("04/03/2024"), own];
    let booked = many.build_batch_submissions("7").unwrap();
    let listed: Vec<(&str, &str, &str, &str)> = booked
        .iter()
        .map(|b| (b.start_date.as_str(), b.client_id.as_str(), b.start_time.as_str(), b.end_time.as_str()))
        .collect();
    assert_eq!(
        listed,
        vec![
            ("04/03/2024", "7", "09:00", "13:00"),
            ("04/03/2024", "7", "14:00", "18:00"),
            ("05/03/2024", "8", "10:00", "12:00"),
        ]
    );
}

#[test]
fn all_bookings_of_a_batch_lie_in_working_hours() {
    let mut many = draft();
    many.day_overrides = vec![day("04/03/2024"), day("05/03/2024"), day("06/03/2024")];
    for booked in many.build_batch_submissions("7").unwrap() {
        assert!(booked.start_time.as_str() >= "08:00" && booked.end_time.as_str() <= "19:00");
        assert_eq!(booked.start_date, booked.end_date);
    }
}

#[test]
fn a_batch_needs_a_booking_and_no_mistake() {
    let mut none = draft();
    assert_eq!(
        none.build_batch_submissions("7").unwrap_err(),
        "Non c'e' nessuna fascia oraria da inviare"
    );
    let mut empty = day("04/03/2024");
    empty.enabled = true;
    empty.morning_start_time = "".to_owned();
    empty.morning_end_time = "".to_owned();
    none.day_overrides = vec![empty];
    assert_eq!(
        none.build_batch_submissions("7").unwrap_err(),
        "Non c'e' nessuna fascia oraria da inviare"
    );
    let mut wrong = day("05/03/2024");
    wrong.enabled = true;
    wrong.afternoon_start_time = "14:00".to_owned();
    none.day_overrides.push(wrong);
    assert_eq!(
        none.build_batch_submissions("7").unwrap_err(),
        "Martedi' 05/03/2024: compila sia l'inizio che la fine per la fascia pomeriggio"
    );
}
