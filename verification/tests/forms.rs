use libemin::discovery::{
    discover_insert_candidates, rank_candidates, score_address, score_captured,
    score_insert_candidate, score_links,
};
use libemin::fields::{set_optional_field, FieldMap};
use libemin::form::{
    assign_known_field_name, assign_lookup_endpoint, note_endpoint, parse_form_inputs, parse_form_selects,
    parse_form_textareas, parse_insert_form, read_insert_form, BookingFieldNames, FormDraft,
    LookupEndpoints,
};
use libemin::links::{absolutize_url, parse_base_url, site_url};
use libemin::markup::{
    read_forms, read_links, FormElement, InputElement, LinkElement, OptionElement, SelectElement,
    TextareaElement,
};

const PAGE: &str = "https://azienda.libemax.com/app-timbrature/it/admin_timbratura";

fn some(text: &str) -> Option<String> {
    Some(text.to_owned())
}

fn input(name: &str, kind: Option<&str>, value: Option<&str>) -> InputElement {
    InputElement {
        name: some(name),
        id: None,
        action: None,
        kind: kind.map(str::to_owned),
        value: value.map(str::to_owned),
        disabled: false,
        checked: false,
    }
}

#[test]
fn addresses_are_read_in_normal_form() {
    assert_eq!(parse_base_url("HTTPS://Azienda.libemax.com"), Ok("https://azienda.libemax.com/".to_owned()));
    assert_eq!(parse_base_url("azienda"), Err("invalid base URL".to_owned()));
    assert_eq!(
        site_url("https://azienda.libemax.com/x/y", "/a/b", "no"),
        Ok("https://azienda.libemax.com/a/b".to_owned())
    );
    assert_eq!(site_url("mailto:a@b.c", "/a/b", "no"), Err("no".to_owned()));
}

#[test]
fn references_are_followed_from_their_page() {
    assert_eq!(
        absolutize_url(PAGE, "  inserisci?x=1 "),
        Ok("https://azienda.libemax.com/app-timbrature/it/inserisci?x=1".to_owned())
    );
    assert_eq!(absolutize_url(PAGE, "http://altro.it"), Ok("http://altro.it/".to_owned()));
    assert_eq!(
        absolutize_url(PAGE, " http://[ "),
        Err("failed to resolve URL 'http://['".to_owned())
    );
}

#[test]
fn fields_are_kept_by_name() {
    let mut fields = FieldMap::new();
    assert_eq!(fields.len(), 0);
    fields.insert("b".to_owned(), "1".to_owned());
    fields.insert("a".to_owned(), "2".to_owned());
    fields.insert("b".to_owned(), "3".to_owned());
    set_optional_field(&mut fields, Some(&"c".to_owned()), "4");
    set_optional_field(&mut fields, None, "5");
    assert_eq!(fields.len(), 3);
    assert_eq!(fields.get("a"), Some(&"2".to_owned()));
    assert_eq!(fields.get("b"), Some(&"3".to_owned()));
    assert_eq!(fields.get("d"), None);
    assert_eq!(
        fields.clone().to_vec(),
        vec![
            ("a".to_owned(), "2".to_owned()),
            ("b".to_owned(), "3".to_owned()),
            ("c".to_owned(), "4".to_owned()),
        ]
    );
}

#[test]
fn the_first_control_stands_for_a_value() {
    let mut names = BookingFieldNames::default();
    assign_known_field_name(&mut names, "x1", &some("TIMBRATURA_dipendente_id"));
    assign_known_field_name(&mut names, "timbratura_dipendente_id", &None);
    assign_known_field_name(&mut names, "timbratura_cliente_id_gruppo", &None);
    assign_known_field_name(&mut names, "timbratura_cliente_id", &None);
    assign_known_field_name(&mut names, "timbratura_attivita_id", &None);
    assign_known_field_name(&mut names, "timbratura_stato_start", &None);
    assign_known_field_name(&mut names, "timbratura_stato_end", &None);
    assign_known_field_name(&mut names, "timbratura_stato_id", &None);
    assign_known_field_name(&mut names, "timbratura_tipo", &None);
    assign_known_field_name(&mut names, "timbratura_data_inizio", &None);
    assign_known_field_name(&mut names, "timbratura_data_fine", &None);
    assign_known_field_name(&mut names, "timbratura_ora_inizio", &None);
    assign_known_field_name(&mut names, "timbratura_ora_fine", &None);
    assign_known_field_name(&mut names, "calcolo_ora", &None);
    assign_known_field_name(&mut names, "descrizione_attivita", &None);
    assign_known_field_name(&mut names, "timbratura_note", &None);
    assign_known_field_name(&mut names, "produttivita", &None);
    assign_known_field_name(&mut names, "FORZA", &some("forza"));
    assert_eq!(names.force, None);
    assign_known_field_name(&mut names, "forza", &None);
    assert_eq!(names.employee, some("x1"));
    assert_eq!(names.client, some("timbratura_cliente_id"));
    assert_eq!(names.activity, some("timbratura_attivita_id"));
    assert_eq!(names.state, some("timbratura_stato_id"));
    assert_eq!(names.entry_type, some("timbratura_tipo"));
    assert_eq!(names.start_date, some("timbratura_data_inizio"));
    assert_eq!(names.end_date, some("timbratura_data_fine"));
    assert_eq!(names.start_time, some("timbratura_ora_inizio"));
    assert_eq!(names.end_time, some("timbratura_ora_fine"));
    assert_eq!(names.total_hours, some("calcolo_ora"));
    assert_eq!(names.description, some("descrizione_attivita"));
    assert_eq!(names.note, some("timbratura_note"));
    assert_eq!(names.productivity, some("produttivita"));
    assert_eq!(names.force, some("forza"));
}

#[test]
fn endpoints_go_to_the_first_value_that_fits() {
    let mut endpoints = LookupEndpoints::default();
    let action = some("cerca");
    let url = some("https://azienda.libemax.com/app-timbrature/it/cerca");
    assert_eq!(assign_lookup_endpoint(&mut endpoints, PAGE, "timbratura_cliente_id", &None, &None), Ok(()));
    assert_eq!(endpoints.client, None);
    assert_eq!(
        assign_lookup_endpoint(&mut endpoints, PAGE, "timbratura_cliente_id", &some("gruppo"), &action),
        Ok(())
    );
    assert_eq!(endpoints.client, None);
    assert_eq!(assign_lookup_endpoint(&mut endpoints, PAGE, "timbratura_cliente_id", &None, &action), Ok(()));
    assert_eq!(assign_lookup_endpoint(&mut endpoints, PAGE, "timbratura_dipendente_id", &None, &action), Ok(()));
    assert_eq!(assign_lookup_endpoint(&mut endpoints, PAGE, "timbratura_attivita_id", &None, &action), Ok(()));
    assert_eq!(
        assign_lookup_endpoint(&mut endpoints, PAGE, "timbratura_cliente_id", &None, &some("altro")),
        Ok(())
    );
    assert_eq!(endpoints.employee, url);
    assert_eq!(endpoints.client, url);
    assert_eq!(endpoints.activity, url);
    assert_eq!(
        assign_lookup_endpoint(&mut endpoints, PAGE, "altro", &None, &some("http://[")),
        Err("failed to resolve URL 'http://['".to_owned())
    );
}

#[test]
fn inputs_fill_the_fields() {
    let mut draft = FormDraft::default();
    let mut checked = input("c", Some("CHECKBOX"), None);
    checked.checked = true;
    let mut radio = input("r", Some("radio"), Some("2"));
    radio.checked = true;
    let mut disabled = input("d", None, Some("x"));
    disabled.disabled = true;
    let mut nameless = input("n", None, Some("x"));
    nameless.name = None;
    let inputs = vec![
        input("a", None, Some("1")),
        input("h", Some("hidden"), None),
        input("s", Some("Submit"), Some("Invia")),
        input("u", Some("checkbox"), Some("3")),
        checked,
        radio,
        disabled,
        nameless,
        input("timbratura_note", Some("text"), Some("  ")),
    ];
    assert_eq!(parse_form_inputs(&inputs, PAGE, &mut draft), Ok(()));
    assert_eq!(
        draft.base_fields.to_vec(),
        vec![
            ("a".to_owned(), "1".to_owned()),
            ("c".to_owned(), "on".to_owned()),
            ("h".to_owned(), "".to_owned()),
            ("r".to_owned(), "2".to_owned()),
            ("timbratura_note".to_owned(), "  ".to_owned()),
        ]
    );
    assert_eq!(draft.field_names.note, some("timbratura_note"));
}

#[test]
fn textareas_and_selects_fill_the_fields() {
    let mut draft = FormDraft::default();
    let areas = vec![TextareaElement {
        name: some("descrizione_attivita"),
        id: None,
        texts: vec![" prima ".to_owned(), "dopo\n".to_owned()],
    }];
    parse_form_textareas(&areas, &mut draft);
    let option = |value: Option<&str>, text: &str, selected: bool| OptionElement {
        value: value.map(str::to_owned),
        texts: vec![text.to_owned(), " b ".to_owned()],
        selected,
    };
    let selects = vec![
        SelectElement {
            name: some("timbratura_stato"),
            id: None,
            action: some("/stati"),
            options: vec![
                option(None, "tutti", false),
                option(Some("1"), " Aperto", true),
                option(Some("2"), "Chiuso", true),
            ],
        },
        SelectElement { name: some("vuoto"), id: None, action: None, options: vec![option(Some("9"), "x", false)] },
    ];
    let states = parse_form_selects(&selects, PAGE, &mut draft).unwrap();
    assert_eq!(states.len(), 2);
    assert_eq!(states[0].id, "1");
    assert_eq!(states[0].text, "Aperto  b");
    assert_eq!(
        draft.base_fields.to_vec(),
        vec![
            ("descrizione_attivita".to_owned(), "prima dopo".to_owned()),
            ("timbratura_stato".to_owned(), "2".to_owned()),
        ]
    );
    assert_eq!(draft.field_names.description, some("descrizione_attivita"));
    assert_eq!(draft.field_names.state, some("timbratura_stato"));
}

fn form(id: Option<&str>, action: Option<&str>, html: &str) -> FormElement {
    FormElement {
        id: id.map(str::to_owned),
        action: action.map(str::to_owned),
        success: None,
        html: html.to_owned(),
        inputs: vec![input("globals_utente_id", Some("hidden"), Some("42"))],
        textareas: vec![],
        selects: vec![],
    }
}

#[test]
fn the_form_that_books_hours_is_found() {
    let forms = vec![
        form(Some("ricerca"), Some("cerca"), "<form>"),
        form(None, Some("salva"), "<form><input name=timbratura_ora_inizio></form>"),
        form(Some("form1"), Some("altro"), "<form>"),
    ];
    let found = read_insert_form(&forms, PAGE).unwrap();
    assert_eq!(found.page_url, PAGE);
    assert_eq!(found.action_url, "https://azienda.libemax.com/app-timbrature/it/salva");
    assert_eq!(found.success_url, None);
    assert_eq!(found.base_fields.get("globals_utente_id"), Some(&"42".to_owned()));
}

#[test]
fn a_page_without_a_usable_form_is_reported() {
    let message = |forms: Vec<FormElement>| read_insert_form(&forms, PAGE).unwrap_err();
    assert_eq!(message(vec![]), "non ho trovato il form di inserimento/modifica ore");
    assert_eq!(
        message(vec![form(Some("x"), Some("y"), "<form>")]),
        "non ho trovato il form di inserimento/modifica ore"
    );
    assert_eq!(
        message(vec![form(Some("form1"), None, "<form>")]),
        "il form ore non espone un action URL"
    );
    assert_eq!(
        message(vec![form(Some("form1"), Some("http://["), "<form>")]),
        "failed to resolve URL 'http://['"
    );
    let mut bad_success = form(Some("form1"), Some("salva"), "<form>");
    bad_success.success = some("http://]");
    assert_eq!(message(vec![bad_success]), "failed to resolve URL 'http://]'");
}

const FORM_PAGE: &str = r#"<html><body>
<form action="/cerca"><input name="q" value="x"></form>
<form id="form1" action="salva" data-success="/fatto">
  <input type="hidden" name="globals_utente_id" value="42">
  <input name="timbratura_data_inizio" id="di" value="01/03/2024">
  <input name="timbratura_cliente_id" data-action="/clienti" value="">
  <input type="checkbox" name="avvisa" checked>
  <input name="spento" value="1" disabled>
  <textarea name="timbratura_note"> due
righe </textarea>
  <select name="timbratura_stato" id="stato">
    <option value="">tutti</option><option value="1" selected>Aperto</option>
  </select>
  <input type="submit" name="ok" value="Salva">
</form></body></html>"#;

#[test]
fn pages_are_taken_apart() {
    let forms = read_forms(FORM_PAGE);
    assert_eq!(forms.len(), 2);
    assert_eq!(forms[0].action, some("/cerca"));
    assert_eq!(forms[0].inputs.len(), 1);
    assert_eq!(forms[1].id, some("form1"));
    assert_eq!(forms[1].success, some("/fatto"));
    assert!(forms[1].html.contains("timbratura_data_inizio"));
    assert_eq!(forms[1].inputs.len(), 6);
    assert_eq!(forms[1].inputs[1].id, some("di"));
    assert!(forms[1].inputs[3].checked);
    assert!(forms[1].inputs[4].disabled);
    assert_eq!(forms[1].textareas[0].texts, vec![" due\nrighe ".to_owned()]);
    assert_eq!(forms[1].selects[0].options.len(), 2);
    assert_eq!(forms[1].selects[0].options[1].value, some("1"));
    assert!(forms[1].selects[0].options[1].selected);
    assert_eq!(forms[1].selects[0].options[1].texts, vec!["Aperto".to_owned()]);
}

#[test]
fn a_form_page_is_read_whole() {
    let page = "https://azienda.libemax.com/app-timbrature/it/inserisci";
    let found = parse_insert_form(FORM_PAGE, page).unwrap();
    assert_eq!(found.action_url, "https://azienda.libemax.com/app-timbrature/it/salva");
    assert_eq!(found.success_url, some("https://azienda.libemax.com/fatto"));
    assert_eq!(found.lookup_endpoints.client, some("https://azienda.libemax.com/clienti"));
    assert_eq!(found.field_names.start_date, some("timbratura_data_inizio"));
    assert_eq!(found.field_names.state, some("timbratura_stato"));
    assert_eq!(
        found.base_fields.to_vec(),
        vec![
            ("avvisa".to_owned(), "on".to_owned()),
            ("globals_utente_id".to_owned(), "42".to_owned()),
            ("timbratura_cliente_id".to_owned(), "".to_owned()),
            ("timbratura_data_inizio".to_owned(), "01/03/2024".to_owned()),
            ("timbratura_note".to_owned(), "due\nrighe".to_owned()),
            ("timbratura_stato".to_owned(), "1".to_owned()),
        ]
    );
}

#[test]
fn links_are_scored_by_address_and_label() {
    let score = |label: &str, url: &str| {
        score_insert_candidate(&vec![label.to_owned()], PAGE, url).map(|(points, _)| points)
    };
    assert_eq!(score("", "/admin_timbratura/inserisci"), Some(80));
    assert_eq!(score("AGGIUNGI ore", "/x"), Some(50));
    assert_eq!(score("Nuova timbratura", "/x"), Some(40));
    assert_eq!(score("", "/AGGIUNGI"), Some(35));
    assert_eq!(score("ore", "/timbratura"), None);
    assert_eq!(score("", "/admin_timbratura/aggiungi/nuovo/inserisci"), Some(140));
    assert_eq!(score("Nuovo", "#"), None);
    assert_eq!(score("aggiungi", " javascript:void(0)"), None);
    assert_eq!(score("aggiungi", "  "), None);
    assert_eq!(score("aggiungi", "http://["), None);
    assert_eq!(
        score_insert_candidate(&vec!["a".to_owned()], PAGE, " /inserisci "),
        Some((40, "https://azienda.libemax.com/inserisci".to_owned()))
    );
}

#[test]
fn addresses_are_scored_without_regard_to_case() {
    let texts = vec!["Nuova".to_owned(), "ORE".to_owned()];
    assert_eq!(score_address(&texts, "https://a/x"), Some(40));
    assert_eq!(score_address(&texts, "https://a/Timbratura"), Some(50));
    assert_eq!(score_address(&vec![], "https://a/Timbratura"), None);
}

#[test]
fn an_address_goes_to_one_lookup() {
    let mut endpoints = LookupEndpoints::default();
    let both = "timbratura_dipendente_id_timbratura_cliente_id";
    note_endpoint(&mut endpoints, both, &None, "https://a/1".to_owned());
    assert_eq!(endpoints.employee, some("https://a/1"));
    assert_eq!(endpoints.client, None);
    note_endpoint(&mut endpoints, both, &None, "https://a/2".to_owned());
    assert_eq!(endpoints.employee, some("https://a/1"));
    assert_eq!(endpoints.client, some("https://a/2"));
}

#[test]
fn an_address_is_taken_from_the_first_attribute() {
    let link = |href: Option<&str>, data: Option<&str>, action: Option<&str>| LinkElement {
        href: href.map(str::to_owned),
        data_action: data.map(str::to_owned),
        action: action.map(str::to_owned),
        texts: vec!["x".to_owned()],
    };
    let scored = score_links(
        &vec![
            link(Some("/a/inserisci"), Some("/b/inserisci"), None),
            link(None, Some("/c/inserisci"), Some("/d/inserisci")),
            link(None, None, Some("/e/inserisci")),
            link(None, None, None),
        ],
        PAGE,
    );
    assert_eq!(
        scored,
        vec![
            (40, "https://azienda.libemax.com/a/inserisci".to_owned()),
            (40, "https://azienda.libemax.com/c/inserisci".to_owned()),
            (40, "https://azienda.libemax.com/e/inserisci".to_owned()),
        ]
    );
    assert_eq!(
        score_captured(&vec![some("/app-timbrature/x"), None], PAGE),
        Ok(vec![(60, "https://azienda.libemax.com/app-timbrature/x".to_owned())])
    );
    assert_eq!(
        score_captured(&vec![some("http://[")], PAGE),
        Err("failed to resolve URL 'http://['".to_owned())
    );
}

#[test]
fn the_best_address_comes_first() {
    let scored = vec![
        (40, "https://a/lungo".to_owned()),
        (60, "https://b".to_owned()),
        (40, "https://a".to_owned()),
        (35, "https://b".to_owned()),
        (40, "https://c".to_owned()),
    ];
    assert_eq!(
        rank_candidates(scored),
        vec!["https://b", "https://a", "https://c", "https://a/lungo"]
    );
}

#[test]
fn addresses_are_found_in_a_page() {
    let html = r#"<a href="/app-timbrature/it/admin_timbratura/inserisci">Inserisci</a>
<a href="/profilo">Profilo</a>
<button data-action="/app-timbrature/it/timbratura/nuova">Nuova timbratura</button>
<script>var u = "/app-timbrature/it/timbratura/crea?x=1";</script>"#;
    assert_eq!(read_links(html).len(), 3);
    assert_eq!(
        discover_insert_candidates(html, PAGE),
        Ok(vec![
            "https://azienda.libemax.com/app-timbrature/it/admin_timbratura/inserisci".to_owned(),
            "https://azienda.libemax.com/app-timbrature/it/timbratura/nuova".to_owned(),
            "https://azienda.libemax.com/app-timbrature/it/timbratura/crea?x=1".to_owned(),
        ])
    );
    assert_eq!(discover_insert_candidates("<p>niente</p>", PAGE), Ok(vec![]));
}
