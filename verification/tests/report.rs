use trade_report::cell_style::CellStyle;
use trade_report::cell_write::CellWrite;
use trade_report::coordinate::{Coordinate, CoordinateItem};
use trade_report::csv_reader::{parse_rows, CSVReader};
use trade_report::dividend_list::DividendListManager;
use trade_report::error::{ParseError, ReportError};
use trade_report::excel::ExcelAccessor;
use trade_report::excel_writer::ExcelWriter;
use trade_report::factory::{create_factory, Factory, FactoryID};
use trade_report::profit_and_loss::aggregate::aggregate;
use trade_report::profit_and_loss::manager::{check_fit, ProfitAndLossManager};
use trade_report::profit_and_loss::period::{group_by_period, group_by_trade_date, PeriodKind};
use trade_report::profit_and_loss::record::ProfitAndLoss;
use trade_report::profit_and_loss::totals::{
    account_is_specific, account_totals, split_amount, AggregateTotals,
};
use trade_report::settings::{lookup, Settings, TaxRate};
use trade_report::style::{header_style, resolve_style, shows_amount, shows_unit_price};
use trade_report::template_pattern::TemplateStruct;

const YEN: &str = "\"¥\"#,##0;\"¥\"-#,##0";
const YEN_DECIMAL: &str = "\"¥\"#,##0.00;\"¥\"-#,##0.00";
const SHEET: &str = "損益";

fn table(entries: &[(&str, &str)]) -> Vec<(String, String)> {
    entries.iter().map(|(k, v)| (k.to_string(), v.to_string())).collect()
}

fn config() -> Settings {
    Settings {
        formats: table(&[("yen", YEN), ("yen_decimal", YEN_DECIMAL)]),
        colors: table(&[
            ("header_background", "FFC0C0C0"),
            ("footer_background", "FFFFFF99"),
            ("realized_loss_font", "FFFF0000"),
        ]),
        headers: table(&[
            ("trade_date", "約定日"),
            ("settlement_date", "受渡日"),
            ("security_code", "銘柄コード"),
            ("security_name", "銘柄名"),
            ("account", "口座"),
            ("shares", "数量[株]"),
            ("asked_price", "売却/決済単価[円]"),
            ("proceeds", "売却/決済額[円]"),
            ("purchase_price", "平均取得価額[円]"),
            ("realized_profit_and_loss", "実現損益[円]"),
            ("total_realized_profit_and_loss", "合計実現損益[円]"),
            ("withholding_tax", "源泉徴収税額"),
            ("profit_and_loss", "損益"),
        ]),
        sheet_title: SHEET.to_string(),
        tax_rate: TaxRate::new(20315, 100000).unwrap(),
        start_row: 3,
        start_col: 2,
        column_width: 15,
    }
}

fn trade(date: &str, code: &str, account: &str, result: &str) -> Vec<String> {
    [date, date, code, "N", account, "", "", "100", "1,500.00", "150,000", "1400.00", result]
        .iter()
        .map(|s| s.to_string())
        .collect()
}

fn ledger() -> Vec<Vec<String>> {
    vec![
        trade("2024/02/05", "A", "特定", "300"),
        trade("2024/01/10", "B", "特定", "10,000"),
        trade("2024/02/05", "C", "NISA", "-500"),
        trade("2024/01/10", "D", "NISA", "2,000"),
        trade("2024/01/31", "E", "特定", "-700"),
        trade("2024/02/05", "F", "特定", "-1,000"),
    ]
}

fn codes(records: &[ProfitAndLoss]) -> Vec<String> {
    records.iter().map(|p| p.security_code.clone().unwrap()).collect()
}

fn style_parts(style: &CellStyle) -> (Option<&str>, Option<&str>, Option<&str>) {
    (
        style.background_color.as_deref(),
        style.font_format.as_deref(),
        style.font_color.as_deref(),
    )
}

fn cell_at(cells: &[CellWrite], col: u32, row: u32) -> &CellWrite {
    let found: Vec<&CellWrite> = cells
        .iter()
        .filter(|w| w.coordinate.col == col && w.coordinate.row == row)
        .collect();
    assert_eq!(found.len(), 1, "cells at ({col}, {row})");
    found[0]
}

#[test]
fn groups_come_in_calendar_order() {
    let groups = CSVReader::read_profit_and_loss(&ledger()).unwrap();
    let keys: Vec<String> = groups.iter().map(|g| g.key.to_string()).collect();
    assert_eq!(keys, vec!["2024-01-10", "2024-01-31", "2024-02-05"]);
    assert_eq!(codes(&groups[0].records), vec!["B", "D"]);
    assert_eq!(codes(&groups[1].records), vec!["E"]);
    assert_eq!(codes(&groups[2].records), vec!["A", "C", "F"]);
    let total: usize = groups.iter().map(|g| g.records.len()).sum();
    assert_eq!(total, 6);
}

#[test]
fn records_without_trade_date_are_left_out() {
    let mut records = parse_rows(&ledger()).unwrap();
    records[1].trade_date = None;
    records[4].trade_date = None;
    let groups = group_by_trade_date(records);
    let keys: Vec<String> = groups.iter().map(|g| g.key.to_string()).collect();
    assert_eq!(keys, vec!["2024-01-10", "2024-02-05"]);
    assert_eq!(codes(&groups[0].records), vec!["D"]);
    assert_eq!(codes(&groups[1].records), vec!["A", "C", "F"]);
    assert!(group_by_trade_date(Vec::new()).is_empty());
}

#[test]
fn months_group_by_their_first_day() {
    let records = parse_rows(&ledger()).unwrap();
    let groups = group_by_period(records, PeriodKind::Month);
    let keys: Vec<String> = groups.iter().map(|g| g.key.to_string()).collect();
    assert_eq!(keys, vec!["2024-01-01", "2024-02-01"]);
    assert_eq!(codes(&groups[0].records), vec!["B", "D", "E"]);
    assert_eq!(codes(&groups[1].records), vec!["A", "C", "F"]);
    let days = group_by_period(parse_rows(&ledger()).unwrap(), PeriodKind::Day);
    assert_eq!(days.len(), 3);
}

#[test]
fn a_row_without_trade_date_is_dropped_silently() {
    let mut rows = ledger();
    rows.insert(2, Vec::new());
    rows.push(Vec::new());
    assert_eq!(parse_rows(&rows).unwrap().len(), 8);
    let groups = CSVReader::read_profit_and_loss(&rows).unwrap();
    let keys: Vec<String> = groups.iter().map(|g| g.key.to_string()).collect();
    assert_eq!(keys, vec!["2024-01-10", "2024-01-31", "2024-02-05"]);
    let total: usize = groups.iter().map(|g| g.records.len()).sum();
    assert_eq!(total, 6);
    let mut m = ProfitAndLossManager::new("o.xlsx".to_string());
    m.set(&rows).unwrap();
    assert_eq!(m.profit_and_loss_map.len(), 3);
    assert_eq!(codes(&m.profit_and_loss_map[2].records), vec!["A", "C", "F"]);
    m.set(&vec![Vec::new()]).unwrap();
    assert!(m.profit_and_loss_map.is_empty());
}

#[test]
fn one_bad_row_fails_the_ledger() {
    let mut rows = ledger();
    rows[3][11] = "x".to_string();
    rows[5][0] = "bad".to_string();
    match CSVReader::read_profit_and_loss(&rows) {
        Err(ParseError::MalformedNumber { field, raw }) => {
            assert_eq!(field, "realized_profit_and_loss");
            assert_eq!(raw, "x");
        }
        other => panic!("unexpected: {:?}", other.map(|g| g.len())),
    }
    assert!(matches!(parse_rows(&rows), Err(ParseError::MalformedNumber { .. })));
    assert_eq!(parse_rows(&Vec::new()).unwrap().len(), 0);
}

#[test]
fn accounts_are_classed_by_their_label() {
    assert!(account_is_specific("特定"));
    assert!(account_is_specific("旧特定口座"));
    assert!(!account_is_specific("NISA"));
    assert!(!account_is_specific("一般"));
    assert!(!account_is_specific("特 定"));
    assert!(!account_is_specific(""));
    let records = parse_rows(&ledger()).unwrap();
    assert_eq!(split_amount(&records[0]), (300, 0));
    assert_eq!(split_amount(&records[2]), (0, -500));
    let mut no_account = ProfitAndLoss::blank();
    no_account.realized_profit_and_loss = Some(5);
    assert_eq!(split_amount(&no_account), (0, 0));
    let mut no_amount = ProfitAndLoss::blank();
    no_amount.account = Some("特定".to_string());
    assert_eq!(split_amount(&no_amount), (0, 0));
}

#[test]
fn totals_are_summed_by_account_class() {
    let groups = CSVReader::read_profit_and_loss(&ledger()).unwrap();
    assert_eq!(account_totals(&groups[0].records), (10000, 2000));
    assert_eq!(account_totals(&groups[1].records), (-700, 0));
    assert_eq!(account_totals(&groups[2].records), (-700, -500));
    assert_eq!(account_totals(&Vec::new()), (0, 0));
}

#[test]
fn a_ledger_is_aggregated_by_period() {
    let records = parse_rows(&ledger()).unwrap();
    let periods = aggregate(records, TaxRate::new(20315, 100000).unwrap());
    let keys: Vec<String> = periods.iter().map(|p| p.key.to_string()).collect();
    assert_eq!(keys, vec!["2024-01-10", "2024-01-31", "2024-02-05"]);
    assert_eq!(codes(&periods[0].records), vec!["B", "D"]);
    let t = &periods[0].totals;
    assert_eq!(
        (
            t.specific_account_total,
            t.nisa_account_total,
            t.withholding_tax,
            t.grand_total,
            t.net_profit_and_loss
        ),
        (10000, 2000, 2031, 12000, 9969)
    );
    let u = &periods[2].totals;
    assert_eq!(
        (
            u.specific_account_total,
            u.nisa_account_total,
            u.withholding_tax,
            u.grand_total,
            u.net_profit_and_loss
        ),
        (-700, -500, 0, -1200, -1200)
    );
    assert!(aggregate(Vec::new(), TaxRate::standard()).is_empty());
}

#[test]
fn tax_is_the_floor_of_the_share() {
    let rate = TaxRate::new(20315, 100000).unwrap();
    let t = AggregateTotals::new(10000, 2000, rate);
    assert_eq!(t.specific_account_total, 10000);
    assert_eq!(t.nisa_account_total, 2000);
    assert_eq!(t.withholding_tax, 2031);
    assert_eq!(t.grand_total, 12000);
    assert_eq!(t.net_profit_and_loss, 9969);
    assert_eq!(AggregateTotals::new(1, 0, rate).withholding_tax, 0);
    assert_eq!(AggregateTotals::new(4, 0, rate).withholding_tax, 0);
    assert_eq!(AggregateTotals::new(5, 0, rate).withholding_tax, 1);
    assert_eq!(AggregateTotals::new(200000, 0, rate).withholding_tax, 40630);
    assert_eq!(AggregateTotals::new(0, 0, rate).withholding_tax, 0);
    assert_eq!(AggregateTotals::new(100, 0, TaxRate::new(1, 1).unwrap()).withholding_tax, 100);
    assert_eq!(AggregateTotals::new(100, 0, TaxRate::new(0, 1).unwrap()).withholding_tax, 0);
    assert_eq!(AggregateTotals::new(100, 0, TaxRate::new(1, 3).unwrap()).withholding_tax, 33);
}

#[test]
fn no_tax_is_withheld_on_a_loss() {
    let rate = TaxRate::new(20315, 100000).unwrap();
    let t = AggregateTotals::new(-700, 5000, rate);
    assert_eq!(t.withholding_tax, 0);
    assert_eq!(t.grand_total, 4300);
    assert_eq!(t.net_profit_and_loss, 4300);
    let t = AggregateTotals::new(-1, -1, rate);
    assert_eq!((t.withholding_tax, t.grand_total, t.net_profit_and_loss), (0, -2, -2));
}

#[test]
fn totals_add_up_for_many_values() {
    let rate = TaxRate::new(20315, 100000).unwrap();
    for specific in [-3000i128, -1, 0, 1, 4, 5, 999, 10000, 123456789] {
        for nisa in [-500i128, 0, 77] {
            let t = AggregateTotals::new(specific, nisa, rate);
            assert_eq!(t.specific_account_total + t.nisa_account_total, t.grand_total);
            assert_eq!(t.net_profit_and_loss, t.grand_total - t.withholding_tax);
            if specific < 0 {
                assert_eq!(t.withholding_tax, 0);
            } else {
                assert!(t.withholding_tax * 100000 <= specific * 20315);
                assert!(specific * 20315 < (t.withholding_tax + 1) * 100000);
            }
        }
    }
}

#[test]
fn the_row_of_totals_holds_only_totals() {
    let rate = TaxRate::new(20315, 100000).unwrap();
    let p = ProfitAndLoss::new_total_realized_profit_and_loss((10000, 0), rate);
    assert_eq!(p.total_realized_profit_and_loss, Some(10000));
    assert_eq!(p.withholding_tax, Some(2031));
    assert_eq!(p.profit_and_loss, Some(7969));
    assert!(p.trade_date.is_none() && p.account.is_none() && p.shares.is_none());
    let q = ProfitAndLoss::with_total_realized_profit_and_loss(-300, 100);
    assert_eq!(
        (q.total_realized_profit_and_loss, q.withholding_tax, q.profit_and_loss),
        (Some(-200), Some(0), Some(-200))
    );
    let r = ProfitAndLoss::with_total_realized_profit_and_loss(10000, 1);
    assert_eq!(r.withholding_tax, Some(2031));
    let t = AggregateTotals::new(5, 6, rate).to_record();
    assert_eq!(t.total_realized_profit_and_loss, Some(11));
}

#[test]
fn tax_rates_lie_between_zero_and_one() {
    assert!(TaxRate::new(1, 0).is_none());
    assert!(TaxRate::new(0, 0).is_none());
    assert!(TaxRate::new(3, 2).is_none());
    let r = TaxRate::new(20315, 100000).unwrap();
    assert_eq!((r.numerator(), r.denominator()), (20315, 100000));
    let s = TaxRate::standard();
    assert_eq!((s.numerator(), s.denominator()), (20315, 100000));
}

#[test]
fn a_table_gives_the_last_entry_of_a_name() {
    let t = table(&[("a", "1"), ("b", "2"), ("a", "3")]);
    assert_eq!(lookup(&t, "a").map(|s| s.as_str()), Some("3"));
    assert_eq!(lookup(&t, "b").map(|s| s.as_str()), Some("2"));
    assert_eq!(lookup(&t, "c"), None);
    assert_eq!(lookup(&Vec::new(), "a"), None);
    let s = config();
    assert_eq!(s.format("yen").map(|f| f.as_str()), Some(YEN));
    assert_eq!(s.color("footer_background").map(|f| f.as_str()), Some("FFFFFF99"));
    assert_eq!(s.header("account").map(|f| f.as_str()), Some("口座"));
    assert_eq!(s.header("nothing"), None);
}

#[test]
fn unit_prices_get_the_two_place_format() {
    let s = config();
    for field in ["asked_price", "purchase_price"] {
        assert!(shows_unit_price(field) && !shows_amount(field));
        let style = resolve_style(&s, field, &Some("-1500.00".to_string()), false);
        assert_eq!(style_parts(&style), (None, Some(YEN_DECIMAL), None));
        let none = resolve_style(&s, field, &None, false);
        assert_eq!(style_parts(&none), (None, None, None));
    }
}

#[test]
fn negative_amounts_get_the_loss_colour() {
    let s = config();
    for field in [
        "proceeds",
        "realized_profit_and_loss",
        "total_realized_profit_and_loss",
        "withholding_tax",
        "profit_and_loss",
    ] {
        assert!(shows_amount(field) && !shows_unit_price(field));
        let loss = resolve_style(&s, field, &Some("-1".to_string()), false);
        assert_eq!(style_parts(&loss), (None, Some(YEN), Some("FFFF0000")));
        let gain = resolve_style(&s, field, &Some("1".to_string()), false);
        assert_eq!(style_parts(&gain), (None, Some(YEN), None));
        let zero = resolve_style(&s, field, &Some("0".to_string()), false);
        assert_eq!(style_parts(&zero), (None, Some(YEN), None));
        let unset = resolve_style(&s, field, &None, false);
        assert_eq!(style_parts(&unset), (None, None, None));
    }
}

#[test]
fn other_fields_get_no_format() {
    let s = config();
    for field in ["trade_date", "security_code", "account", "shares", "unknown", ""] {
        let style = resolve_style(&s, field, &Some("-x".to_string()), false);
        assert_eq!(style_parts(&style), (None, None, None));
    }
}

#[test]
fn footer_cells_get_the_footer_background() {
    let s = config();
    let m = ProfitAndLossManager::new("x".to_string());
    let loss = m.get_footer_style(&s, "profit_and_loss", &Some("-5".to_string()));
    assert_eq!(style_parts(&loss), (Some("FFFFFF99"), Some(YEN), Some("FFFF0000")));
    let gain = m.get_footer_style(&s, "withholding_tax", &Some("5".to_string()));
    assert_eq!(style_parts(&gain), (Some("FFFFFF99"), Some(YEN), None));
    let empty = m.get_footer_style(&s, "trade_date", &None);
    assert_eq!(style_parts(&empty), (Some("FFFFFF99"), None, None));
    let record = m.get_record_style(&s, "proceeds", &Some("-5".to_string()));
    assert_eq!(style_parts(&record), (None, Some(YEN), Some("FFFF0000")));
    assert_eq!(style_parts(&header_style(&s)), (Some("FFC0C0C0"), None, None));
}

#[test]
fn styles_fall_back_where_the_settings_lack_a_name() {
    let mut s = config();
    s.formats = Vec::new();
    s.colors = Vec::new();
    let style = resolve_style(&s, "proceeds", &Some("-1".to_string()), true);
    assert_eq!(style_parts(&style), (None, None, None));
    assert_eq!(style_parts(&header_style(&s)), (None, None, None));
}

#[test]
fn the_writer_gives_value_and_style_as_a_tuple() {
    let s = config();
    let r = ExcelWriter::get_record_style(&s, "realized_profit_and_loss", Some("-9".to_string()));
    assert_eq!(
        r,
        (Some("-9".to_string()), Some(YEN.to_string()), None, Some("FFFF0000".to_string()))
    );
    let f = ExcelWriter::get_footter_style(&s, "withholding_tax", Some("9".to_string()));
    assert_eq!(
        f,
        (Some("9".to_string()), Some(YEN.to_string()), Some("FFFFFF99".to_string()), None)
    );
    let n = ExcelWriter::get_footter_style(&s, "account", None);
    assert_eq!(n, (None, None, Some("FFFFFF99".to_string()), None));
}

#[test]
fn dividend_amounts_get_the_yen_format() {
    let s = config();
    let m = DividendListManager::new("d.xlsx".to_string());
    assert_eq!(m.template_struct.xlsx_filepath, "d.xlsx");
    let background = "FF00FF00".to_string();
    for field in [
        "unit_price",
        "dividends_before_tax",
        "taxes",
        "net_amount_received",
        "total_dividends_before_tax",
        "total_taxes",
        "total_net_amount_received",
    ] {
        let style = m.get_record_style(&s, field, None);
        assert_eq!(style_parts(&style), (None, Some(YEN), None));
        let footer = m.get_record_style(&s, field, Some(&background));
        assert_eq!(style_parts(&footer), (Some("FF00FF00"), Some(YEN), None));
    }
    let other = m.get_record_style(&s, "settlement_date", Some(&background));
    assert_eq!(style_parts(&other), (Some("FF00FF00"), None, None));
}

#[test]
fn the_file_name_selects_the_report() {
    let pick = |name: &str| FactoryID::from_filename(name, "profit", "dividend");
    assert!(matches!(pick("profit_2024.csv"), Some(FactoryID::ProfitAndLoss)));
    assert!(matches!(pick("dividend_2024.csv"), Some(FactoryID::DividendList)));
    assert!(pick("other.csv").is_none());
    assert!(pick("").is_none());
    assert!(matches!(
        FactoryID::from_filename("ab", "a", "ab"),
        Some(FactoryID::ProfitAndLoss)
    ));
    match create_factory(FactoryID::ProfitAndLoss, "o.xlsx".to_string()) {
        Factory::ProfitAndLoss(m) => {
            assert_eq!(m.template_struct.xlsx_filepath, "o.xlsx");
            assert!(m.profit_and_loss_map.is_empty());
        }
        Factory::DividendList(_) => panic!("wrong kind"),
    }
    assert!(matches!(
        create_factory(FactoryID::DividendList, "o.xlsx".to_string()),
        Factory::DividendList(_)
    ));
}

#[test]
fn small_builders_keep_what_they_are_given() {
    let a = "A".to_string();
    let b = "B".to_string();
    let style = CellStyle::new(Some(&a), None, Some(&b));
    assert_eq!(style_parts(&style), (Some("A"), None, Some("B")));
    assert_eq!(TemplateStruct::new("p.xlsx".to_string()).xlsx_filepath, "p.xlsx");
    let (c, r) = (4u32, 9u32);
    for item in [
        (c, r).new_coordinate(),
        (&c, r).new_coordinate(),
        (c, &r).new_coordinate(),
        (&c, &r).new_coordinate(),
    ] {
        assert_eq!((item.col, item.row), (4, 9));
    }
}

#[test]
fn the_layout_has_header_records_and_totals() {
    let s = config();
    let mut m = ProfitAndLossManager::new("o.xlsx".to_string());
    m.set(&ledger()).unwrap();
    let cells = m.lay_out(&s).unwrap();
    assert_eq!(cells.len(), 13 * (1 + 6 + 3));
    for (i, w) in cells.iter().enumerate() {
        assert_eq!(w.coordinate.col, 2 + (i % 13) as u32);
        assert_eq!(w.coordinate.row, 3 + (i / 13) as u32);
    }
    let header = cell_at(&cells, 2, 3);
    assert_eq!(header.value.as_deref(), Some("約定日"));
    assert_eq!(style_parts(&header.style), (Some("FFC0C0C0"), None, None));
    assert_eq!(cell_at(&cells, 14, 3).value.as_deref(), Some("損益"));
    assert_eq!(cell_at(&cells, 4, 4).value.as_deref(), Some("B"));
    assert_eq!(cell_at(&cells, 4, 5).value.as_deref(), Some("D"));
    let first_total = cell_at(&cells, 12, 6);
    assert_eq!(first_total.value.as_deref(), Some("12000"));
    assert_eq!(style_parts(&first_total.style), (Some("FFFFFF99"), Some(YEN), None));
    assert_eq!(cell_at(&cells, 13, 6).value.as_deref(), Some("2031"));
    assert_eq!(cell_at(&cells, 14, 6).value.as_deref(), Some("9969"));
    assert_eq!(cell_at(&cells, 2, 6).value, None);
    assert_eq!(style_parts(&cell_at(&cells, 2, 6).style), (Some("FFFFFF99"), None, None));
    assert_eq!(cell_at(&cells, 4, 7).value.as_deref(), Some("E"));
    let loss = cell_at(&cells, 11, 7);
    assert_eq!(loss.value.as_deref(), Some("-700"));
    assert_eq!(style_parts(&loss.style), (None, Some(YEN), Some("FFFF0000")));
    let second_total = cell_at(&cells, 14, 8);
    assert_eq!(second_total.value.as_deref(), Some("-700"));
    assert_eq!(
        style_parts(&second_total.style),
        (Some("FFFFFF99"), Some(YEN), Some("FFFF0000"))
    );
    assert_eq!(cell_at(&cells, 13, 8).value.as_deref(), Some("0"));
    assert_eq!(cell_at(&cells, 4, 9).value.as_deref(), Some("A"));
    assert_eq!(cell_at(&cells, 4, 11).value.as_deref(), Some("F"));
    assert_eq!(cell_at(&cells, 12, 12).value.as_deref(), Some("-1200"));
    let price = cell_at(&cells, 8, 4);
    assert_eq!(price.value.as_deref(), Some("1500.00"));
    assert_eq!(style_parts(&price.style), (None, Some(YEN_DECIMAL), None));
}

#[test]
fn an_empty_report_is_only_a_header() {
    let s = config();
    let m = ProfitAndLossManager::new("o.xlsx".to_string());
    let cells = m.lay_out(&s).unwrap();
    assert_eq!(cells.len(), 13);
    assert!(cells.iter().all(|w| w.coordinate.row == 3));
}

#[test]
fn the_pieces_of_the_layout_move_the_cursor() {
    let s = config();
    let m = ProfitAndLossManager::new("o.xlsx".to_string());
    let records = parse_rows(&ledger()).unwrap();
    let mut out = Vec::new();
    let mut row = 10u32;
    m.write_header(&mut out, &s, &mut row);
    assert_eq!((out.len(), row), (13, 11));
    let totals = m.write_records(&mut out, &s, &mut row, &records);
    assert_eq!((out.len(), row), (13 * 7, 17));
    assert_eq!(totals, (8600, 1500));
    m.write_footer(&mut out, &s, &mut row, totals);
    assert_eq!((out.len(), row), (13 * 8, 18));
    assert_eq!(cell_at(&out, 13, 17).value.as_deref(), Some("1747"));
    assert_eq!(cell_at(&out, 14, 17).value.as_deref(), Some("8353"));
}

#[test]
fn a_report_without_room_is_refused() {
    let mut m = ProfitAndLossManager::new("o.xlsx".to_string());
    m.set(&ledger()).unwrap();
    let mut s = config();
    assert!(check_fit(&s, &m.profit_and_loss_map));
    s.start_row = 0;
    assert!(!check_fit(&s, &m.profit_and_loss_map));
    assert!(matches!(m.lay_out(&s), Err(ReportError::SheetOperationFailure(_))));
    s.start_row = 1;
    s.start_col = 0;
    assert!(!check_fit(&s, &m.profit_and_loss_map));
    s.start_col = u32::MAX - 12;
    assert!(!check_fit(&s, &m.profit_and_loss_map));
    s.start_col = u32::MAX - 13;
    assert!(check_fit(&s, &m.profit_and_loss_map));
    s.start_row = u32::MAX - 10;
    assert!(check_fit(&s, &m.profit_and_loss_map));
    s.start_row = u32::MAX - 9;
    assert!(!check_fit(&s, &m.profit_and_loss_map));
    s.start_row = u32::MAX;
    assert!(!check_fit(&s, &m.profit_and_loss_map));
    let book = umya_spreadsheet::new_file();
    assert!(matches!(m.write(book, &s), Err(ReportError::SheetOperationFailure(_))));
}

#[test]
fn a_failed_set_leaves_the_report_as_it_was() {
    let mut m = ProfitAndLossManager::new("o.xlsx".to_string());
    m.set(&ledger()).unwrap();
    assert_eq!(m.profit_and_loss_map.len(), 3);
    let mut bad = ledger();
    bad[0].truncate(4);
    assert!(matches!(m.set(&bad), Err(ParseError::MissingField(_))));
    assert_eq!(m.profit_and_loss_map.len(), 3);
    m.set(&vec![trade("2024/03/01", "Z", "特定", "1")]).unwrap();
    assert_eq!(m.profit_and_loss_map.len(), 1);
}

#[test]
fn the_sheet_is_made_anew() {
    let mut book = umya_spreadsheet::new_file();
    book.new_sheet(SHEET).unwrap().get_cell_mut((1, 1)).set_value("old");
    book.new_sheet("他").unwrap().get_cell_mut((1, 1)).set_value("keep");
    let accessor = ExcelAccessor::read_book(SHEET, book).unwrap();
    let mut book = accessor.into_book();
    let names: Vec<String> =
        book.get_sheet_collection().iter().map(|s| s.get_name().to_string()).collect();
    assert_eq!(names, vec!["Sheet1", "他", SHEET]);
    assert_eq!(book.get_sheet_by_name_mut(SHEET).unwrap().get_value((1, 1)), "");
    assert!(book.get_sheet_by_name_mut(SHEET).unwrap().get_cell((1, 1)).is_none());
    assert_eq!(book.get_sheet_by_name_mut("他").unwrap().get_value((1, 1)), "keep");
    let fresh = ExcelAccessor::read_book("新", umya_spreadsheet::new_file()).unwrap().into_book();
    let names: Vec<String> =
        fresh.get_sheet_collection().iter().map(|s| s.get_name().to_string()).collect();
    assert_eq!(names, vec!["Sheet1", "新"]);
}

#[test]
fn a_cell_takes_value_style_and_borders() {
    let mut accessor = ExcelAccessor::read_book(SHEET, umya_spreadsheet::new_file()).unwrap();
    let (bg, fmt, font) = ("FFFFFF99".to_string(), YEN.to_string(), "FFFF0000".to_string());
    accessor.write_cell(
        CoordinateItem { col: 3, row: 4 },
        &Some("-700".to_string()),
        &CellStyle::new(Some(&bg), Some(&fmt), Some(&font)),
    );
    accessor.write_cell(CoordinateItem { col: 5, row: 6 }, &None, &CellStyle::new(None, None, None));
    accessor.write_cell(
        CoordinateItem { col: 7, row: 8 },
        &Some("特定".to_string()),
        &CellStyle::new(None, None, None),
    );
    let mut book = accessor.into_book();
    let sheet = book.get_sheet_by_name_mut(SHEET).unwrap();
    let cell = sheet.get_cell((3, 4)).unwrap();
    assert_eq!(cell.get_value(), "-700");
    let style = cell.get_style();
    assert_eq!(style.get_number_format().unwrap().get_format_code(), YEN);
    assert_eq!(style.get_background_color().unwrap().get_argb(), "FFFFFF99");
    assert_eq!(style.get_font().unwrap().get_color().get_argb(), "FFFF0000");
    let borders = style.get_borders().unwrap();
    assert_eq!(borders.get_top_border().get_border_style(), "thin");
    assert_eq!(borders.get_bottom_border().get_border_style(), "thin");
    assert_eq!(borders.get_left_border().get_border_style(), "thin");
    assert_eq!(borders.get_right_border().get_border_style(), "thin");
    let bare = sheet.get_cell((5, 6)).unwrap();
    assert_eq!(bare.get_value(), "");
    assert!(bare.get_style().get_number_format().is_none());
    assert!(bare.get_style().get_background_color().is_none());
    assert_eq!(bare.get_style().get_borders().unwrap().get_top_border().get_border_style(), "thin");
    assert_eq!(sheet.get_cell((7, 8)).unwrap().get_value(), "特定");
    assert!(sheet.get_cell((3, 5)).is_none());
    assert!(sheet.get_cell((4, 3)).is_none());
}

#[test]
fn a_later_write_keeps_what_it_does_not_set() {
    let mut accessor = ExcelAccessor::read_book(SHEET, umya_spreadsheet::new_file()).unwrap();
    let (bg, fmt) = ("FF112233".to_string(), YEN_DECIMAL.to_string());
    accessor.write_cells(&vec![
        CellWrite {
            coordinate: CoordinateItem { col: 1, row: 1 },
            value: Some("first".to_string()),
            style: CellStyle::new(Some(&bg), None, None),
        },
        CellWrite {
            coordinate: CoordinateItem { col: 2, row: 1 },
            value: Some("other".to_string()),
            style: CellStyle::new(None, None, None),
        },
        CellWrite {
            coordinate: CoordinateItem { col: 1, row: 1 },
            value: None,
            style: CellStyle::new(None, Some(&fmt), None),
        },
    ]);
    let mut book = accessor.into_book();
    let sheet = book.get_sheet_by_name_mut(SHEET).unwrap();
    let cell = sheet.get_cell((1, 1)).unwrap();
    assert_eq!(cell.get_value(), "first");
    assert_eq!(cell.get_style().get_background_color().unwrap().get_argb(), "FF112233");
    assert_eq!(cell.get_style().get_number_format().unwrap().get_format_code(), YEN_DECIMAL);
    assert_eq!(sheet.get_cell((2, 1)).unwrap().get_value(), "other");
    assert!(sheet.get_cell((2, 1)).unwrap().get_style().get_background_color().is_none());
}

#[test]
fn columns_take_the_given_width() {
    let mut accessor = ExcelAccessor::read_book(SHEET, umya_spreadsheet::new_file()).unwrap();
    accessor.adjust_column_widths(2, 15, 3);
    let mut book = accessor.into_book();
    let sheet = book.get_sheet_by_name_mut(SHEET).unwrap();
    for col in 2u32..5 {
        assert_eq!(*sheet.get_column_dimension_by_number(&col).unwrap().get_width(), 15.0);
    }
    assert!(sheet.get_column_dimension_by_number(&1).is_none());
    assert!(sheet.get_column_dimension_by_number(&5).is_none());
}

#[test]
fn the_report_reaches_the_workbook() {
    let s = config();
    let mut m = ProfitAndLossManager::new("o.xlsx".to_string());
    m.set(&ledger()).unwrap();
    let mut given = umya_spreadsheet::new_file();
    given.get_sheet_by_name_mut("Sheet1").unwrap().get_cell_mut((2, 3)).set_value("mine");
    let mut book = m.write(given, &s).unwrap();
    assert_eq!(book.get_sheet_count(), 2);
    assert_eq!(book.get_sheet_by_name_mut("Sheet1").unwrap().get_value((2, 3)), "mine");
    let cells = m.lay_out(&s).unwrap();
    let sheet = book.get_sheet_by_name_mut(SHEET).unwrap();
    assert_eq!(sheet.get_cell_collection().len(), cells.len());
    for w in &cells {
        let cell = sheet.get_cell((w.coordinate.col, w.coordinate.row)).unwrap();
        let style = cell.get_style();
        assert_eq!(style.get_borders().unwrap().get_left_border().get_border_style(), "thin");
        assert_eq!(
            style.get_number_format().map(|f| f.get_format_code()),
            w.style.font_format.as_deref()
        );
        assert_eq!(
            style.get_background_color().map(|c| c.get_argb()),
            w.style.background_color.as_deref()
        );
        if let Some(color) = &w.style.font_color {
            assert_eq!(style.get_font().unwrap().get_color().get_argb(), color);
        }
    }
    assert_eq!(sheet.get_value((2, 3)), "約定日");
    assert_eq!(sheet.get_value((2, 4)), "2024-01-10");
    assert_eq!(sheet.get_value((6, 4)), "特定");
    assert_eq!(sheet.get_value((8, 4)), "1500");
    assert_eq!(sheet.get_value((11, 7)), "-700");
    assert_eq!(sheet.get_value((12, 12)), "-1200");
    for col in 2u32..15 {
        assert_eq!(*sheet.get_column_dimension_by_number(&col).unwrap().get_width(), 15.0);
    }
}

#[test]
fn a_second_run_changes_nothing() {
    let s = config();
    let mut m = ProfitAndLossManager::new("o.xlsx".to_string());
    m.set(&ledger()).unwrap();
    let mut once = m.write(umya_spreadsheet::new_file(), &s).unwrap();
    let mut twice = m.write(once.clone(), &s).unwrap();
    assert_eq!(once.get_sheet_count(), twice.get_sheet_count());
    let first = once.get_sheet_by_name_mut(SHEET).unwrap().clone();
    let second = twice.get_sheet_by_name_mut(SHEET).unwrap().clone();
    assert_eq!(first.get_cell_collection().len(), 130);
    assert_eq!(second.get_cell_collection().len(), 130);
    for row in 1u32..16 {
        for col in 1u32..17 {
            match (first.get_cell((col, row)), second.get_cell((col, row))) {
                (None, None) => {}
                (Some(a), Some(b)) => {
                    assert_eq!(a.get_value(), b.get_value());
                    assert!(a.get_style() == b.get_style());
                }
                _ => panic!("cell ({col}, {row}) is in one run only"),
            }
        }
    }
    for col in 1u32..17 {
        assert_eq!(
            first.get_column_dimension_by_number(&col).map(|c| *c.get_width()),
            second.get_column_dimension_by_number(&col).map(|c| *c.get_width())
        );
    }
}

#[test]
fn cells_have_nothing_that_the_report_does_not_give() {
    let s = config();
    let mut m = ProfitAndLossManager::new("o.xlsx".to_string());
    m.set(&ledger()).unwrap();
    let mut book = m.write(umya_spreadsheet::new_file(), &s).unwrap();
    let sheet = book.get_sheet_by_name_mut(SHEET).unwrap();
    let code = sheet.get_cell((4, 4)).unwrap();
    assert!(code.get_style().get_background_color().is_none());
    assert!(code.get_style().get_number_format().is_none());
    assert!(code.get_style().get_font().is_none());
    let gain = sheet.get_cell((11, 4)).unwrap();
    assert!(gain.get_style().get_background_color().is_none());
    assert!(gain.get_style().get_font().is_none());
    let empty_total = sheet.get_cell((2, 6)).unwrap();
    assert_eq!(empty_total.get_value(), "");
    assert!(empty_total.get_style().get_number_format().is_none());
    assert_eq!(
        empty_total.get_style().get_background_color().unwrap().get_argb(),
        "FFFFFF99"
    );
}

#[test]
fn the_writer_rewrites_one_sheet() {
    let cells = vec![CellWrite {
        coordinate: CoordinateItem { col: 1, row: 2 },
        value: Some("x".to_string()),
        style: CellStyle::new(None, None, None),
    }];
    let once = ExcelWriter::update_sheet(umya_spreadsheet::new_file(), "R", &cells, 1, 2, 20).unwrap();
    let mut twice = ExcelWriter::update_sheet(once, "R", &Vec::new(), 1, 1, 9).unwrap();
    assert_eq!(twice.get_sheet_count(), 2);
    let sheet = twice.get_sheet_by_name_mut("R").unwrap();
    assert!(sheet.get_cell((1, 2)).is_none());
    assert_eq!(*sheet.get_column_dimension_by_number(&1).unwrap().get_width(), 9.0);
    assert!(sheet.get_column_dimension_by_number(&2).is_none());
}
