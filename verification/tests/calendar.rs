use libemin::calendar::{
    clamp_minutes, compute_total_hours, current_week, dates_between, earlier_minute,
    format_day_label, format_minutes_from_midnight, hours_between, is_earlier, is_within_workday,
    label_day, later_minute, list_dates_inclusive, minutes_from_time, minutes_or_default,
    parse_date, parse_minutes_from_midnight, parse_time, parse_ui_date, parse_ui_time, pick_date,
    round_to_half_hour_minutes, set_ui_date, time_presets, write_date, write_time, Date, Time,
    WORKDAY_END_MINUTES, WORKDAY_START_MINUTES,
};

fn date(year: i32, month: u32, day: u32) -> Date {
    Date { year, month, day }
}

fn time(hour: u32, minute: u32) -> Time {
    Time { hour, minute }
}

#[test]
fn dates_are_read_and_written() {
    assert_eq!(parse_date(" 05/03/2024 "), Ok(date(2024, 3, 5)));
    assert_eq!(write_date(date(2024, 3, 5)), "05/03/2024");
    assert_eq!(write_date(date(476, 12, 31)), "31/12/0476");
    assert_eq!(write_date(date(12024, 1, 1)), "01/01/+12024");
    assert_eq!(write_date(date(-44, 3, 15)), "15/03/-0044");
    assert_eq!(parse_date("29/02/2024"), Ok(date(2024, 2, 29)));
}

#[test]
fn written_dates_are_read_back() {
    for written in [
        date(2024, 2, 29),
        date(1900, 2, 28),
        date(0, 1, 1),
        date(-44, 3, 15),
        date(12024, 1, 1),
        date(262142, 12, 31),
        date(-262143, 1, 1),
    ] {
        assert_eq!(parse_date(&write_date(written)), Ok(written));
        assert_eq!(parse_ui_date(&write_date(written)), Some(written));
    }
}

#[test]
fn what_is_no_date_is_reported() {
    assert_eq!(
        parse_date(" 31/02/2024 "),
        Err("invalid date '31/02/2024', expected DD/MM/YYYY".to_owned())
    );
    assert_eq!(
        parse_date("2024-02-01"),
        Err("invalid date '2024-02-01', expected DD/MM/YYYY".to_owned())
    );
    assert_eq!(parse_date("29/02/2023"), Err("invalid date '29/02/2023', expected DD/MM/YYYY".to_owned()));
    assert_eq!(parse_ui_date("ieri"), None);
}

#[test]
fn times_are_read_and_written() {
    assert_eq!(parse_time(" 09:05 "), Ok(time(9, 5)));
    assert_eq!(parse_ui_time("23:59"), Some(time(23, 59)));
    assert_eq!(write_time(time(9, 5)), "09:05");
    assert_eq!(parse_time(&write_time(time(0, 0))), Ok(time(0, 0)));
    assert_eq!(
        parse_time(" 24:00 "),
        Err("invalid time '24:00', expected HH:MM".to_owned())
    );
    assert_eq!(parse_ui_time("09.05"), None);
}

#[test]
fn working_hours_count_both_ends_in() {
    assert_eq!(WORKDAY_START_MINUTES, 480);
    assert_eq!(WORKDAY_END_MINUTES, 1140);
    assert!(is_within_workday(time(8, 0)));
    assert!(is_within_workday(time(19, 0)));
    assert!(!is_within_workday(time(7, 59)));
    assert!(!is_within_workday(time(19, 1)));
    assert_eq!(minutes_from_time(time(13, 30)), 810);
    assert_eq!(clamp_minutes(0), 480);
    assert_eq!(clamp_minutes(1141), 1140);
    assert_eq!(clamp_minutes(600), 600);
}

#[test]
fn a_time_field_shows_a_working_hour() {
    assert_eq!(parse_minutes_from_midnight("10:15", "08:00"), 615);
    assert_eq!(parse_minutes_from_midnight("06:00", "08:00"), 480);
    assert_eq!(parse_minutes_from_midnight("", "09:30"), 570);
    assert_eq!(parse_minutes_from_midnight("", "mai"), 480);
    assert_eq!(minutes_or_default(None, Some(time(22, 0))), 1140);
    assert_eq!(format_minutes_from_midnight(615), "10:15");
    assert_eq!(format_minutes_from_midnight(10), "08:00");
    assert_eq!(format_minutes_from_midnight(2000), "19:00");
}

#[test]
fn written_minutes_are_read_back() {
    for minutes in 0..1440 {
        let shown = format_minutes_from_midnight(minutes);
        assert_eq!(parse_minutes_from_midnight(&shown, "08:00"), clamp_minutes(minutes));
    }
}

#[test]
fn minutes_round_to_half_hours() {
    assert_eq!(round_to_half_hour_minutes(540), 540);
    assert_eq!(round_to_half_hour_minutes(554), 540);
    assert_eq!(round_to_half_hour_minutes(555), 570);
    assert_eq!(round_to_half_hour_minutes(-40), 480);
    assert_eq!(round_to_half_hour_minutes(5000), 1140);
}

#[test]
fn presets_are_the_half_hours() {
    let presets = time_presets();
    assert_eq!(presets.len(), 23);
    assert_eq!(presets[0], 480);
    assert_eq!(presets[1], 510);
    assert_eq!(presets[22], 1140);
}

#[test]
fn minutes_step_within_working_hours() {
    assert_eq!(later_minute(600), 601);
    assert_eq!(later_minute(1140), 1140);
    assert_eq!(earlier_minute(600), 599);
    assert_eq!(earlier_minute(480), 480);
}

#[test]
fn a_date_field_changes_with_the_picked_date() {
    let mut value = " 1/3/2024".to_owned();
    pick_date(&mut value, date(2024, 3, 1), date(2024, 3, 1));
    assert_eq!(value, " 1/3/2024");
    pick_date(&mut value, date(2024, 3, 1), date(2024, 3, 2));
    assert_eq!(value, "02/03/2024");
    let mut blank = "  ".to_owned();
    pick_date(&mut blank, date(2024, 3, 1), date(2024, 3, 1));
    assert_eq!(blank, "01/03/2024");
    set_ui_date(&mut blank, date(2024, 12, 25));
    assert_eq!(blank, "25/12/2024");
}

#[test]
fn hours_are_counted_across_midnight() {
    assert_eq!(
        compute_total_hours("01/03/2024", "", "09:00", "13:15"),
        Ok("04:15".to_owned())
    );
    assert_eq!(
        compute_total_hours("28/02/2024", "01/03/2024", "22:00", "06:30"),
        Ok("32:30".to_owned())
    );
    assert_eq!(
        compute_total_hours("01/01/2023", "01/01/2024", "00:00", "00:00"),
        Ok("8760:00".to_owned())
    );
    assert_eq!(
        hours_between(date(2024, 3, 1), date(2024, 3, 1), time(9, 0), time(9, 0)),
        Ok("00:00".to_owned())
    );
}

#[test]
fn hours_need_dates_and_times_in_order() {
    assert_eq!(
        compute_total_hours("01/03/2024", "01/03/2024", "13:00", "09:00"),
        Err("La data/ora di fine deve essere successiva a quella di inizio".to_owned())
    );
    assert_eq!(
        compute_total_hours("x", "y", "z", "w"),
        Err("invalid date 'x', expected DD/MM/YYYY".to_owned())
    );
    assert_eq!(
        compute_total_hours("01/03/2024", "y", "z", "w"),
        Err("invalid date 'y', expected DD/MM/YYYY".to_owned())
    );
    assert_eq!(
        compute_total_hours("01/03/2024", "", "z", "w"),
        Err("invalid time 'z', expected HH:MM".to_owned())
    );
    assert_eq!(
        compute_total_hours("01/03/2024", "", "09:00", "w"),
        Err("invalid time 'w', expected HH:MM".to_owned())
    );
}

#[test]
fn hours_of_one_day_follow_its_times() {
    let day = date(2024, 3, 1);
    assert!(hours_between(day, day, time(10, 0), time(9, 59)).is_err());
    assert_eq!(
        hours_between(day, day, time(10, 0), time(18, 45)),
        Ok("08:45".to_owned())
    );
}

#[test]
fn periods_list_every_day_once() {
    assert_eq!(
        list_dates_inclusive("27/02/2024", " 02/03/2024 "),
        Ok(vec![
            "27/02/2024".to_owned(),
            "28/02/2024".to_owned(),
            "29/02/2024".to_owned(),
            "01/03/2024".to_owned(),
            "02/03/2024".to_owned(),
        ])
    );
    assert_eq!(
        list_dates_inclusive("31/12/2023", "31/12/2023"),
        Ok(vec!["31/12/2023".to_owned()])
    );
    assert_eq!(list_dates_inclusive("01/01/2023", "31/12/2023").unwrap().len(), 365);
}

#[test]
fn periods_need_an_end_after_their_start() {
    assert_eq!(
        list_dates_inclusive("02/03/2024", "01/03/2024"),
        Err("La data finale deve essere uguale o successiva a quella iniziale".to_owned())
    );
    assert_eq!(
        list_dates_inclusive("domani", "01/03/2024"),
        Err("invalid date 'domani', expected DD/MM/YYYY".to_owned())
    );
    assert_eq!(
        list_dates_inclusive("01/03/2024", "domani"),
        Err("invalid date 'domani', expected DD/MM/YYYY".to_owned())
    );
    assert_eq!(
        dates_between(date(262142, 12, 30), date(262142, 12, 31)),
        Err("failed to iterate booking dates".to_owned())
    );
    assert!(is_earlier(date(2023, 12, 31), date(2024, 1, 1)));
    assert!(!is_earlier(date(2024, 1, 1), date(2024, 1, 1)));
}

#[test]
fn days_are_labelled_by_weekday() {
    assert_eq!(format_day_label("04/03/2024"), "Lunedi' 04/03/2024");
    assert_eq!(format_day_label("05/03/2024"), "Martedi' 05/03/2024");
    assert_eq!(format_day_label("06/03/2024"), "Mercoledi' 06/03/2024");
    assert_eq!(format_day_label("07/03/2024"), "Giovedi' 07/03/2024");
    assert_eq!(format_day_label("08/03/2024"), "Venerdi' 08/03/2024");
    assert_eq!(format_day_label("09/03/2024"), "Sabato 09/03/2024");
    assert_eq!(format_day_label("10/03/2024"), "Domenica 10/03/2024");
    assert_eq!(format_day_label("mai"), "mai");
    assert_eq!(label_day("oggi", Some(date(2024, 3, 10))), "Domenica oggi");
}

#[test]
fn a_week_runs_from_monday_to_friday() {
    for day in 4..11 {
        assert_eq!(
            current_week(date(2024, 3, day)),
            Some(("04/03/2024".to_owned(), "08/03/2024".to_owned()))
        );
    }
    assert_eq!(
        current_week(date(2025, 1, 1)),
        Some(("30/12/2024".to_owned(), "03/01/2025".to_owned()))
    );
}

#[test]
fn dates_are_read_in_other_spellings() {
    let read = |text: &str| parse_ui_date(text);
    assert_eq!(read("1/3/2024"), Some(date(2024, 3, 1)));
    assert_eq!(read("1/ 3/\t2024"), Some(date(2024, 3, 1)));
    assert_eq!(read("01/03/24"), Some(date(24, 3, 1)));
    assert_eq!(read("1/3/+2024"), Some(date(2024, 3, 1)));
    assert_eq!(read("1/3/+0000002024"), Some(date(2024, 3, 1)));
    assert_eq!(read("1/3/-0"), Some(date(0, 3, 1)));
    assert_eq!(read("1/3/ -44"), Some(date(-44, 3, 1)));
    for text in [
        "1 /3/2024", "001/3/2024", "1/003/2024", "1/3/20245", "1/3", "1/3/", "/3/2024", "1//2024",
        "1/3/2024/", "1/3/2024x", "+1/3/2024", "1/3/+ 2024", "1/3/+", "1/3/--4", "1-3-2024",
        "1/3/+262143", "1/3/+99999999999999999999", "0/3/2024", "1/0/2024", "1/13/2024", "",
        "abc", "\u{661}/3/2024",
    ] {
        assert_eq!(read(text), None, "{text}");
    }
}

#[test]
fn times_are_read_in_other_spellings() {
    let read = |text: &str| parse_ui_time(text);
    assert_eq!(read("8:00"), Some(time(8, 0)));
    assert_eq!(read("8:5"), Some(time(8, 5)));
    assert_eq!(read("08:\u{2003}05"), Some(time(8, 5)));
    for text in [
        "8 :00", "008:00", "8:000", "8", "8:", ":00", "8:00:00", "-8:00", "+8:00", "24:00", "8:60",
        "8.00", "otto", "",
    ] {
        assert_eq!(read(text), None, "{text}");
    }
}

#[test]
fn times_in_other_spellings_are_shown_and_counted() {
    assert_eq!(parse_minutes_from_midnight("9:5", "08:00"), 545);
    assert_eq!(compute_total_hours("1/3/2024", "2/3/2024", "8:0", "9:30"), Ok("25:30".to_owned()));
    assert_eq!(list_dates_inclusive("1/3/2024", "1/3/2024"), Ok(vec!["01/03/2024".to_owned()]));
    assert_eq!(format_day_label("4/3/2024"), "Lunedi' 4/3/2024");
    assert_eq!(format_day_label(" 4/3/2024"), "Lunedi'  4/3/2024");
    assert_eq!(format_day_label("4/3/2024 "), "4/3/2024 ");
}
