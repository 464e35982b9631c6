use libemin::app::compact_combo_label;
use libemin::text::{concat3, decimal_text, is_blank, join_texts, two_digit_text};

#[test]
fn blank_means_nothing_but_white_space() {
    assert!(is_blank(""));
    assert!(is_blank(" \t\r\n\u{a0}\u{2003}"));
    assert!(!is_blank(" a "));
    assert!(!is_blank("\u{200b}"));
}

#[test]
fn parts_are_joined_in_order() {
    let parts = vec!["uno".to_owned(), "due".to_owned(), "tre".to_owned()];
    assert_eq!(join_texts(&parts, " | "), "uno | due | tre");
    assert_eq!(join_texts(&vec!["uno".to_owned()], " | "), "uno");
    assert_eq!(join_texts(&Vec::new(), " | "), "");
    assert_eq!(concat3("a", "", "c"), "ac");
}

#[test]
fn numbers_are_written_in_decimal() {
    assert_eq!(decimal_text(0), "0");
    assert_eq!(decimal_text(1050), "1050");
    assert_eq!(decimal_text(u64::MAX), "18446744073709551615");
    assert_eq!(two_digit_text(7), "07");
    assert_eq!(two_digit_text(42), "42");
    assert_eq!(two_digit_text(120), "120");
}

#[test]
fn long_labels_are_cut() {
    assert_eq!(compact_combo_label("  Sede di Milano ", 24), "Sede di Milano");
    assert_eq!(compact_combo_label("Sede di Milano", 14), "Sede di Milano");
    assert_eq!(compact_combo_label("Sede di Milano", 13), "Sede di Mila…");
    assert_eq!(compact_combo_label("àèìòù", 3), "àè…");
    assert_eq!(compact_combo_label("abc", 1), "…");
    assert_eq!(compact_combo_label("abc", 0), "…");
    assert_eq!(compact_combo_label("   ", 0), "");
}
