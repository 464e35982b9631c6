use libemin::json::{
    as_string, extract_detail_messages, extract_primary_error, has_forceable_validation,
    parse_json, text_under, truthy, Json,
};
use libemin::lookup::{lookup_items, parse_lookup_item, parse_lookup_items, sort_by_name, LookupItem};

fn json(text: &str) -> Json {
    parse_json(text).unwrap()
}

fn item(id: &str, text: &str) -> LookupItem {
    LookupItem { id: id.to_owned(), text: text.to_owned() }
}

#[test]
fn documents_are_read_with_their_numbers() {
    let body = json(" {\"a\": [1, -2.50, true, null, \"x\"]} ");
    match body.get("a") {
        Some(Json::Array(items)) => {
            assert!(matches!(&items[0], Json::Number(Some(1), digits) if digits == "1"));
            assert!(matches!(&items[1], Json::Number(None, digits) if digits == "-2.5"));
            assert!(matches!(&items[2], Json::Bool(true)));
            assert!(matches!(&items[3], Json::Null));
            assert!(matches!(&items[4], Json::Text(text) if text == "x"));
            assert_eq!(items.len(), 5);
        }
        _ => panic!("no array"),
    }
    assert!(body.get("b").is_none());
    assert!(parse_json("<html>").is_none());
    assert!(parse_json("{} {}").is_none());
}

#[test]
fn some_values_count_as_true() {
    let body = json(
        "{\"t\":true,\"f\":false,\"z\":0,\"n\":-3,\"d\":0.5,\"s0\":\" 0 \",\"sb\":\"  \",\"s\":\"no\",\"n0\":null,\"a0\":[],\"a\":[0],\"o0\":{},\"o\":{\"k\":null}}",
    );
    for key in ["t", "n", "s", "a", "o"] {
        assert!(truthy(body.get(key)));
    }
    for key in ["f", "z", "d", "s0", "sb", "n0", "a0", "o0", "missing"] {
        assert!(!truthy(body.get(key)));
    }
}

#[test]
fn details_are_collected_in_order() {
    let body = json(
        "{\"error\":\"generale\",\"dettagli\":{\"b\":[\" uno \",{\"x\":\"due\",\"n\":3}],\"a\":\"zero\",\"c\":\"  \"}}",
    );
    assert_eq!(extract_detail_messages(&body), vec!["zero", "uno", "due"]);
    assert_eq!(extract_primary_error(&body), "generale");
}

#[test]
fn an_error_without_details_is_its_own_message() {
    assert_eq!(
        extract_detail_messages(&json("{\"error\":\" negato \",\"dettagli\":[]}")),
        vec!["negato"]
    );
    assert_eq!(
        extract_detail_messages(&json("{\"error\":1}")),
        vec!["Il server ha restituito un errore non dettagliato"]
    );
    assert_eq!(
        extract_primary_error(&json("{\"error\":true,\"dettagli\":[\"uno\",\"due\"]}")),
        "uno\ndue"
    );
    assert_eq!(
        extract_primary_error(&json("{\"error\":true}")),
        "Il server ha restituito un errore non dettagliato"
    );
}

#[test]
fn only_some_refusals_can_be_overridden() {
    assert!(has_forceable_validation(&json("{\"dettagli\":{\"orario_tracimato\":\"x\"}}")));
    assert!(has_forceable_validation(&json("{\"dettagli\":{\"validita_sottotimbratura\":null}}")));
    assert!(!has_forceable_validation(&json("{\"dettagli\":{\"altro\":\"x\"}}")));
    assert!(!has_forceable_validation(&json("{\"dettagli\":[\"orario_tracimato\"]}")));
    assert!(!has_forceable_validation(&json("{}")));
}

#[test]
fn plain_values_are_written_as_text() {
    assert_eq!(as_string(&json("\"x\"")), Some("x".to_owned()));
    assert_eq!(as_string(&json("12.5")), Some("12.5".to_owned()));
    assert_eq!(as_string(&json("true")), Some("true".to_owned()));
    assert_eq!(as_string(&json("false")), Some("false".to_owned()));
    assert_eq!(as_string(&json("null")), None);
    assert_eq!(as_string(&json("[1]")), None);
    assert_eq!(text_under(&json("{\"k\":\"v\"}"), "k"), Some(&"v".to_owned()));
    assert_eq!(text_under(&json("{\"k\":1}"), "k"), None);
}

#[test]
fn items_are_read_from_their_spellings() {
    assert_eq!(parse_lookup_item(&json("{\"id\":7,\"text\":\"Sede\"}")), Some(item("7", "Sede")));
    assert_eq!(
        parse_lookup_item(&json("{\"value\":\"a\",\"label\":\"Alfa\"}")),
        Some(item("a", "Alfa"))
    );
    assert_eq!(
        parse_lookup_item(&json("{\"key\":true,\"descrizione\":\"Vero\"}")),
        Some(item("true", "Vero"))
    );
    assert_eq!(
        parse_lookup_item(&json("{\"id\":\"b\",\"name\":null}")),
        Some(item("b", "b"))
    );
    assert_eq!(parse_lookup_item(&json("{\"id\":null,\"value\":\"c\"}")), None);
    assert_eq!(parse_lookup_item(&json("\"solo\"")), Some(item("solo", "solo")));
    assert_eq!(parse_lookup_item(&json("3.5")), Some(item("3.5", "3.5")));
    assert_eq!(parse_lookup_item(&json("true")), None);
}

#[test]
fn lists_are_read_with_or_without_a_frame() {
    let listed = vec![item("1", "Uno"), item("due", "due")];
    assert_eq!(
        parse_lookup_items("[{\"id\":1,\"text\":\"Uno\"},null,\"due\"]"),
        Ok(vec![item("1", "Uno"), item("due", "due")])
    );
    assert_eq!(
        lookup_items(&json("{\"results\":[{\"id\":1,\"text\":\"Uno\"},\"due\"],\"more\":false}")),
        listed
    );
    assert_eq!(lookup_items(&json("{\"results\":{}}")), vec![]);
    assert_eq!(lookup_items(&json("\"x\"")), vec![]);
    assert_eq!(
        parse_lookup_items(" <html> "),
        Err("failed to parse lookup response: <html>".to_owned())
    );
}

#[test]
fn items_are_sorted_by_name_and_keep_their_order_within_one() {
    let sorted = sort_by_name(vec![
        item("1", "b"),
        item("2", "a"),
        item("3", "B"),
        item("4", "a"),
        item("5", "é"),
        item("6", ""),
        item("7", "ab"),
    ]);
    let ids: Vec<&str> = sorted.iter().map(|i| i.id.as_str()).collect();
    assert_eq!(ids, vec!["6", "3", "2", "4", "7", "1", "5"]);
}
