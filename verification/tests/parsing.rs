use trade_report::date::Date;
use trade_report::error::ParseError;
use trade_report::number::{decimal_to_string, int_to_string, nat_to_string, parse_decimal, parse_i32, Decimal};
use trade_report::profit_and_loss::record::ProfitAndLoss;
use trade_report::text::{contains_pair, has_prefix, remove_char, same_text, starts_with_char};

fn row_of(fields: &[&str]) -> Vec<String> {
    fields.iter().map(|s| s.to_string()).collect()
}

fn good_row() -> Vec<String> {
    row_of(&[
        "2024/01/10", "2024/01/12", "1301", "X Corp", "特定", "-", "-", "100", "1,500.00",
        "150,000", "1400.00", "-10,000",
    ])
}

fn hundredths(text: &str) -> Option<i64> {
    parse_decimal(text).map(|d| d.hundredths)
}

#[test]
fn integers_are_read_with_sign_and_digits() {
    assert_eq!(parse_i32("0"), Some(0));
    assert_eq!(parse_i32("150000"), Some(150000));
    assert_eq!(parse_i32("-10000"), Some(-10000));
    assert_eq!(parse_i32("+5"), Some(5));
    assert_eq!(parse_i32("007"), Some(7));
    assert_eq!(parse_i32("-0"), Some(0));
    assert_eq!(parse_i32("2147483647"), Some(i32::MAX));
    assert_eq!(parse_i32("-2147483648"), Some(i32::MIN));
}

#[test]
fn integers_reject_other_text() {
    assert_eq!(parse_i32(""), None);
    assert_eq!(parse_i32("-"), None);
    assert_eq!(parse_i32("+"), None);
    assert_eq!(parse_i32("12a"), None);
    assert_eq!(parse_i32(" 12"), None);
    assert_eq!(parse_i32("1.5"), None);
    assert_eq!(parse_i32("--1"), None);
    assert_eq!(parse_i32("2147483648"), None);
    assert_eq!(parse_i32("-2147483649"), None);
    assert_eq!(parse_i32("99999999999999999999999999"), None);
    assert_eq!(parse_i32("１２"), None);
}

#[test]
fn integers_are_written_in_decimal() {
    assert_eq!(int_to_string(0), "0");
    assert_eq!(int_to_string(7), "7");
    assert_eq!(int_to_string(10), "10");
    assert_eq!(int_to_string(-10000), "-10000");
    assert_eq!(int_to_string(i128::MAX), i128::MAX.to_string());
    assert_eq!(int_to_string(i128::MIN), i128::MIN.to_string());
    assert_eq!(nat_to_string(u128::MAX), u128::MAX.to_string());
}

#[test]
fn prices_are_read_as_hundredths() {
    assert_eq!(hundredths("1500.00"), Some(150000));
    assert_eq!(hundredths("1500"), Some(150000));
    assert_eq!(hundredths("1500.5"), Some(150050));
    assert_eq!(hundredths("0.07"), Some(7));
    assert_eq!(hundredths("-12.34"), Some(-1234));
    assert_eq!(hundredths("+1.00"), Some(100));
    assert_eq!(hundredths("-0.00"), Some(0));
    assert_eq!(hundredths("92233720368547758.07"), Some(i64::MAX));
    assert_eq!(hundredths("-92233720368547758.07"), Some(-i64::MAX));
}

#[test]
fn prices_reject_other_text() {
    assert_eq!(hundredths(""), None);
    assert_eq!(hundredths("."), None);
    assert_eq!(hundredths("1."), None);
    assert_eq!(hundredths(".5"), None);
    assert_eq!(hundredths("1.234"), None);
    assert_eq!(hundredths("1.2.3"), None);
    assert_eq!(hundredths("1..5"), None);
    assert_eq!(hundredths("1e3"), None);
    assert_eq!(hundredths("abc"), None);
    assert_eq!(hundredths("-"), None);
    assert_eq!(hundredths("1.a"), None);
    assert_eq!(hundredths("92233720368547758.08"), None);
    assert_eq!(hundredths("92233720368547759"), None);
}

#[test]
fn prices_are_written_with_two_places() {
    assert_eq!(decimal_to_string(Decimal { hundredths: 150000 }), "1500.00");
    assert_eq!(decimal_to_string(Decimal { hundredths: 150050 }), "1500.50");
    assert_eq!(decimal_to_string(Decimal { hundredths: 7 }), "0.07");
    assert_eq!(decimal_to_string(Decimal { hundredths: 0 }), "0.00");
    assert_eq!(decimal_to_string(Decimal { hundredths: -1234 }), "-12.34");
    assert_eq!(decimal_to_string(Decimal { hundredths: -5 }), "-0.05");
    assert_eq!(decimal_to_string(Decimal { hundredths: i64::MAX }), "92233720368547758.07");
    assert_eq!(decimal_to_string(Decimal { hundredths: i64::MIN }), "-92233720368547758.08");
}

#[test]
fn dates_are_read_in_slash_form_only() {
    let d = Date::parse("2024/01/10").unwrap();
    assert_eq!((d.year(), d.month(), d.day()), (2024, 1, 10));
    assert!(Date::parse("0000/01/01").is_some());
    assert!(Date::parse("9999/12/31").is_some());
    assert!(Date::parse("2024-01-10").is_none());
    assert!(Date::parse("2024/1/10").is_none());
    assert!(Date::parse("24/01/10").is_none());
    assert!(Date::parse("2024/01/10 ").is_none());
    assert!(Date::parse("2024.01.10").is_none());
    assert!(Date::parse("20240110").is_none());
    assert!(Date::parse("").is_none());
    assert!(Date::parse("abcd/ef/gh").is_none());
    assert!(Date::parse("2024/01/1٠").is_none());
}

#[test]
fn dates_must_exist_in_the_calendar() {
    assert!(Date::parse("2024/02/29").is_some());
    assert!(Date::parse("2023/02/29").is_none());
    assert!(Date::parse("1900/02/29").is_none());
    assert!(Date::parse("2000/02/29").is_some());
    assert!(Date::parse("2023/04/31").is_none());
    assert!(Date::parse("2023/04/30").is_some());
    assert!(Date::parse("2023/13/01").is_none());
    assert!(Date::parse("2023/00/10").is_none());
    assert!(Date::parse("2023/01/00").is_none());
    assert!(Date::parse("2023/01/32").is_none());
    assert!(Date::new(2023, 12, 31).is_some());
    assert!(Date::new(2023, 2, 30).is_none());
    assert!(Date::new(-1, 1, 1).is_none());
    assert!(Date::new(10000, 1, 1).is_none());
    assert!(Date::new(2023, 6, 31).is_none());
    assert!(Date::new(2023, 9, 31).is_none());
    assert!(Date::new(2023, 11, 31).is_none());
    assert!(Date::new(2023, 7, 31).is_some());
}

#[test]
fn dates_are_written_in_canonical_form() {
    assert_eq!(Date::new(2024, 1, 10).unwrap().to_string(), "2024-01-10");
    assert_eq!(Date::new(7, 3, 5).unwrap().to_string(), "0007-03-05");
    assert_eq!(Date::new(9999, 12, 31).unwrap().to_string(), "9999-12-31");
    assert_eq!(Date::new(0, 1, 1).unwrap().to_string(), "0000-01-01");
}

#[test]
fn dates_are_ordered_by_the_calendar() {
    let a = Date::new(2023, 12, 31).unwrap();
    let b = Date::new(2024, 1, 1).unwrap();
    let c = Date::new(2024, 1, 2).unwrap();
    let d = Date::new(2024, 2, 1).unwrap();
    assert!(a.is_before(&b) && b.is_before(&c) && c.is_before(&d));
    assert!(!b.is_before(&a) && !b.is_before(&b));
    assert!(b.same_day(&Date::new(2024, 1, 1).unwrap()));
    assert!(!b.same_day(&c));
    let first = Date::new(2024, 2, 29).unwrap().first_of_month();
    assert_eq!((first.year(), first.month(), first.day()), (2024, 2, 1));
}

#[test]
fn a_row_becomes_a_record() {
    let p = ProfitAndLoss::from_record(&good_row()).unwrap();
    assert_eq!(p.trade_date.unwrap().to_string(), "2024-01-10");
    assert_eq!(p.settlement_date.unwrap().to_string(), "2024-01-12");
    assert_eq!(p.security_code.as_deref(), Some("1301"));
    assert_eq!(p.security_name.as_deref(), Some("X Corp"));
    assert_eq!(p.account.as_deref(), Some("特定"));
    assert_eq!(p.shares, Some(100));
    assert_eq!(p.asked_price.unwrap().hundredths, 150000);
    assert_eq!(p.proceeds, Some(150000));
    assert_eq!(p.purchase_price.unwrap().hundredths, 140000);
    assert_eq!(p.realized_profit_and_loss, Some(-10000));
    assert_eq!(p.total_realized_profit_and_loss, None);
    assert_eq!(p.withholding_tax, None);
    assert_eq!(p.profit_and_loss, None);
}

#[test]
fn a_short_row_names_the_missing_field() {
    let names = [
        (2, "security_code"),
        (3, "security_name"),
        (4, "account"),
        (7, "shares"),
        (8, "asked_price"),
        (9, "proceeds"),
        (10, "purchase_price"),
        (11, "realized_profit_and_loss"),
    ];
    for (len, name) in names {
        let mut row = good_row();
        row.truncate(len);
        match ProfitAndLoss::from_record(&row) {
            Err(ParseError::MissingField(field)) => assert_eq!(field, name),
            other => panic!("unexpected: {:?}", other),
        }
    }
    let mut only_date = good_row();
    only_date.truncate(1);
    match ProfitAndLoss::from_record(&only_date) {
        Err(ParseError::MissingField(field)) => assert_eq!(field, "security_code"),
        other => panic!("unexpected: {:?}", other),
    }
}

#[test]
fn a_row_without_fields_gives_a_record_without_fields() {
    let p = ProfitAndLoss::from_record(&Vec::new()).unwrap();
    assert!(p.trade_date.is_none() && p.settlement_date.is_none());
    assert!(p.security_code.is_none() && p.security_name.is_none() && p.account.is_none());
    assert!(p.shares.is_none() && p.asked_price.is_none() && p.proceeds.is_none());
    assert!(p.purchase_price.is_none() && p.realized_profit_and_loss.is_none());
    assert!(p.get_all_fields().iter().all(|(_, text)| text.is_none()));
    let empty_date = row_of(&[""]);
    assert!(matches!(
        ProfitAndLoss::from_record(&empty_date),
        Err(ParseError::MalformedDate { .. })
    ));
}

#[test]
fn a_malformed_date_carries_field_and_text() {
    let mut row = good_row();
    row[1] = "2024-01-12".to_string();
    match ProfitAndLoss::from_record(&row) {
        Err(ParseError::MalformedDate { field, raw }) => {
            assert_eq!(field, "settlement_date");
            assert_eq!(raw, "2024-01-12");
        }
        other => panic!("unexpected: {:?}", other),
    }
    row[0] = "".to_string();
    match ProfitAndLoss::from_record(&row) {
        Err(ParseError::MalformedDate { field, raw }) => {
            assert_eq!(field, "trade_date");
            assert_eq!(raw, "");
        }
        other => panic!("unexpected: {:?}", other),
    }
}

#[test]
fn a_malformed_number_carries_field_and_text() {
    let mut row = good_row();
    row[9] = "15o,000".to_string();
    let e = ProfitAndLoss::from_record(&row).unwrap_err();
    match &e {
        ParseError::MalformedNumber { field, raw } => {
            assert_eq!(field, "proceeds");
            assert_eq!(raw, "15o,000");
        }
        other => panic!("unexpected: {:?}", other),
    }
    assert_eq!(e.message(), "malformed number in proceeds: 15o,000");
    let mut row = good_row();
    row[8] = "1,500.001".to_string();
    match ProfitAndLoss::from_record(&row) {
        Err(ParseError::MalformedNumber { field, raw }) => {
            assert_eq!(field, "asked_price");
            assert_eq!(raw, "1,500.001");
        }
        other => panic!("unexpected: {:?}", other),
    }
    let mut row = good_row();
    row[7] = "3000000000".to_string();
    assert!(matches!(
        ProfitAndLoss::from_record(&row),
        Err(ParseError::MalformedNumber { .. })
    ));
}

#[test]
fn the_first_fault_of_a_row_is_reported() {
    let mut row = good_row();
    row[0] = "x".to_string();
    row[7] = "y".to_string();
    assert!(matches!(
        ProfitAndLoss::from_record(&row),
        Err(ParseError::MalformedDate { .. })
    ));
}

#[test]
fn error_messages_name_field_and_text() {
    assert_eq!(
        ParseError::MissingField("account".to_string()).message(),
        "missing field: account"
    );
    assert_eq!(
        ParseError::MalformedDate { field: "trade_date".to_string(), raw: "x".to_string() }
            .message(),
        "malformed date in trade_date: x"
    );
}

#[test]
fn fields_come_back_in_normal_form() {
    let p = ProfitAndLoss::from_record(&good_row()).unwrap();
    let fields = p.get_all_fields();
    let names: Vec<&str> = fields.iter().map(|(name, _)| name.as_str()).collect();
    assert_eq!(
        names,
        vec![
            "trade_date",
            "settlement_date",
            "security_code",
            "security_name",
            "account",
            "shares",
            "asked_price",
            "proceeds",
            "purchase_price",
            "realized_profit_and_loss",
            "total_realized_profit_and_loss",
            "withholding_tax",
            "profit_and_loss",
        ]
    );
    let texts: Vec<Option<&str>> = fields.iter().map(|(_, text)| text.as_deref()).collect();
    assert_eq!(
        texts,
        vec![
            Some("2024-01-10"),
            Some("2024-01-12"),
            Some("1301"),
            Some("X Corp"),
            Some("特定"),
            Some("100"),
            Some("1500.00"),
            Some("150000"),
            Some("1400.00"),
            Some("-10000"),
            None,
            None,
            None,
        ]
    );
}

#[test]
fn numbers_not_written_plainly_come_back_plain() {
    let mut row = good_row();
    row[7] = "+007".to_string();
    row[8] = "1500".to_string();
    row[10] = "1,400.5".to_string();
    row[11] = "-0".to_string();
    let fields = ProfitAndLoss::from_record(&row).unwrap().get_all_fields();
    assert_eq!(fields[5].1.as_deref(), Some("7"));
    assert_eq!(fields[6].1.as_deref(), Some("1500.00"));
    assert_eq!(fields[8].1.as_deref(), Some("1400.50"));
    assert_eq!(fields[9].1.as_deref(), Some("0"));
}

#[test]
fn the_blank_record_has_no_field() {
    let p = ProfitAndLoss::new().unwrap();
    assert!(p.get_all_fields().iter().all(|(_, text)| text.is_none()));
    assert_eq!(p.get_all_fields().len(), 13);
    let q = ProfitAndLoss::blank();
    assert!(q.trade_date.is_none() && q.account.is_none() && q.profit_and_loss.is_none());
}

#[test]
fn built_in_formats_follow_the_columns() {
    let p = ProfitAndLoss::from_record(&good_row()).unwrap();
    let list = p.get_profit_and_loss_struct_list();
    assert_eq!(list.len(), 13);
    assert_eq!(list[0], (Some("2024-01-10".to_string()), None));
    assert_eq!(list[5], (Some("100".to_string()), None));
    let two_places = Some("\"¥\"#,##0.00;\"¥\"-#,##0.00");
    let whole = Some("\"¥\"#,##0;\"¥\"-#,##0");
    for i in 0..6 {
        assert_eq!(list[i].1, None);
    }
    assert_eq!(list[6], (Some("1500.00".to_string()), two_places));
    assert_eq!(list[7], (Some("150000".to_string()), whole));
    assert_eq!(list[8], (Some("1400.00".to_string()), two_places));
    assert_eq!(list[9], (Some("-10000".to_string()), whole));
    assert_eq!(list[10], (None, whole));
    assert_eq!(list[11], (None, whole));
    assert_eq!(list[12], (None, whole));
}

#[test]
fn text_helpers_work_on_characters() {
    assert_eq!(remove_char("1,234,567", ','), "1234567");
    assert_eq!(remove_char(",,", ','), "");
    assert_eq!(remove_char("特,定", ','), "特定");
    assert!(starts_with_char("-5", '-'));
    assert!(!starts_with_char("5-", '-'));
    assert!(!starts_with_char("", '-'));
    assert!(contains_pair("旧特定口座", '特', '定'));
    assert!(!contains_pair("特x定", '特', '定'));
    assert!(!contains_pair("特", '特', '定'));
    assert!(same_text("yen", "yen"));
    assert!(!same_text("yen", "yen "));
    assert!(has_prefix("profit_2024.csv", "profit"));
    assert!(has_prefix("profit", ""));
    assert!(!has_prefix("pro", "profit"));
    assert!(!has_prefix("xprofit", "profit"));
}
