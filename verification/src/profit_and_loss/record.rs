//! The transaction record: one realized trade, read from one row of the
//! ledger, and the row of totals that closes a period.

use vstd::prelude::*;
use vstd::string::*;
use crate::cell_style::{copy_opt, opt_ref_view, opt_view};
use crate::date::{date_text, date_text_value, lemma_date_round_trip, Date};
use crate::error::{ParseError, ParseErrorView};
use crate::number::{
    decimal_text,
    decimal_text_value,
    decimal_to_string,
    i32_text_value,
    int_text,
    int_to_string,
    is_plain_decimal,
    is_plain_int,
    lemma_decimal_round_trip,
    lemma_int_round_trip,
    parse_decimal,
    parse_i32,
    Decimal,
};
use crate::text::{remove_char, strings_view, with_char_replaced, without_char};

verus! {

/// One realized trade. A field is `None` where the row did not give it; the
/// three totals are `None` on every trade and set only on a row of totals.
#[derive(Debug)]
pub struct ProfitAndLoss {
    pub trade_date: Option<Date>,
    pub settlement_date: Option<Date>,
    pub security_code: Option<String>,
    pub security_name: Option<String>,
    pub account: Option<String>,
    pub shares: Option<i32>,
    pub asked_price: Option<Decimal>,
    pub proceeds: Option<i32>,
    pub purchase_price: Option<Decimal>,
    pub realized_profit_and_loss: Option<i32>,
    pub total_realized_profit_and_loss: Option<i128>,
    pub withholding_tax: Option<i128>,
    pub profit_and_loss: Option<i128>,
}

/// A record as mathematical values: dates as (year, month, day), prices in
/// hundredths, text as character sequences.
pub struct RecordView {
    pub trade_date: Option<(int, int, int)>,
    pub settlement_date: Option<(int, int, int)>,
    pub security_code: Option<Seq<char>>,
    pub security_name: Option<Seq<char>>,
    pub account: Option<Seq<char>>,
    pub shares: Option<int>,
    pub asked_price: Option<int>,
    pub proceeds: Option<int>,
    pub purchase_price: Option<int>,
    pub realized_profit_and_loss: Option<int>,
    pub total_realized_profit_and_loss: Option<int>,
    pub withholding_tax: Option<int>,
    pub profit_and_loss: Option<int>,
}

/// The number of fields of a record, and of columns of the report.
pub const FIELD_COUNT: u32 = 13;

pub open spec fn date_view(d: Option<Date>) -> Option<(int, int, int)> {
    match d {
        Some(v) => Some(v@),
        None => None,
    }
}

pub open spec fn i32_view(n: Option<i32>) -> Option<int> {
    match n {
        Some(v) => Some(v as int),
        None => None,
    }
}

pub open spec fn i128_view(n: Option<i128>) -> Option<int> {
    match n {
        Some(v) => Some(v as int),
        None => None,
    }
}

pub open spec fn decimal_view(d: Option<Decimal>) -> Option<int> {
    match d {
        Some(v) => Some(v.hundredths as int),
        None => None,
    }
}

/// The record without any field.
pub open spec fn blank_record() -> RecordView {
    RecordView {
        trade_date: None,
        settlement_date: None,
        security_code: None,
        security_name: None,
        account: None,
        shares: None,
        asked_price: None,
        proceeds: None,
        purchase_price: None,
        realized_profit_and_loss: None,
        total_realized_profit_and_loss: None,
        withholding_tax: None,
        profit_and_loss: None,
    }
}

/// The names of the fields, in column order.
pub open spec fn field_names() -> Seq<Seq<char>> {
    seq![
        "trade_date"@,
        "settlement_date"@,
        "security_code"@,
        "security_name"@,
        "account"@,
        "shares"@,
        "asked_price"@,
        "proceeds"@,
        "purchase_price"@,
        "realized_profit_and_loss"@,
        "total_realized_profit_and_loss"@,
        "withholding_tax"@,
        "profit_and_loss"@,
    ]
}

pub open spec fn opt_date_text(d: Option<(int, int, int)>) -> Option<Seq<char>> {
    match d {
        Some(v) => Some(date_text(v)),
        None => None,
    }
}

pub open spec fn opt_int_text(n: Option<int>) -> Option<Seq<char>> {
    match n {
        Some(v) => Some(int_text(v)),
        None => None,
    }
}

pub open spec fn opt_decimal_text(n: Option<int>) -> Option<Seq<char>> {
    match n {
        Some(v) => Some(decimal_text(v)),
        None => None,
    }
}

/// The text of each field of a record, in column order: dates in canonical
/// form, integers in decimal, prices with two places.
pub open spec fn field_texts(v: RecordView) -> Seq<Option<Seq<char>>> {
    seq![
        opt_date_text(v.trade_date),
        opt_date_text(v.settlement_date),
        v.security_code,
        v.security_name,
        v.account,
        opt_int_text(v.shares),
        opt_decimal_text(v.asked_price),
        opt_int_text(v.proceeds),
        opt_decimal_text(v.purchase_price),
        opt_int_text(v.realized_profit_and_loss),
        opt_int_text(v.total_realized_profit_and_loss),
        opt_int_text(v.withholding_tax),
        opt_int_text(v.profit_and_loss),
    ]
}

/// The field at position `i` of a row, `None` past its end.
pub open spec fn row_field(row: Seq<Seq<char>>, i: int) -> Option<Seq<char>> {
    if 0 <= i < row.len() {
        Some(row[i])
    } else {
        None
    }
}

/// A row as character sequences.
pub open spec fn row_view(row: Seq<String>) -> Seq<Seq<char>> {
    strings_view(row)
}

/// What a date column gives: nothing where the row has no such field, the
/// date where the text is `YYYY/MM/DD`, an error for any other text.
pub open spec fn date_field(field: Seq<char>, raw: Option<Seq<char>>) -> Result<
    Option<(int, int, int)>,
    ParseErrorView,
> {
    match raw {
        None => Ok(None),
        Some(text) => match date_text_value(text) {
            Some(ymd) => Ok(Some(ymd)),
            None => Err(ParseErrorView::MalformedDate { field, raw: text }),
        },
    }
}

/// What a text column gives: its text, or an error where the row has no
/// such field.
pub open spec fn string_field(field: Seq<char>, raw: Option<Seq<char>>) -> Result<
    Option<Seq<char>>,
    ParseErrorView,
> {
    match raw {
        None => Err(ParseErrorView::MissingField(field)),
        Some(text) => Ok(Some(text)),
    }
}

/// What an integer column gives: the value of its text once the commas
/// are taken out.
pub open spec fn int_field(field: Seq<char>, raw: Option<Seq<char>>) -> Result<
    Option<int>,
    ParseErrorView,
> {
    match raw {
        None => Err(ParseErrorView::MissingField(field)),
        Some(text) => match i32_text_value(without_char(text, ',')) {
            Some(v) => Ok(Some(v as int)),
            None => Err(ParseErrorView::MalformedNumber { field, raw: text }),
        },
    }
}

/// What a price column gives: the hundredths of its text once the commas
/// are taken out.
pub open spec fn decimal_field(field: Seq<char>, raw: Option<Seq<char>>) -> Result<
    Option<int>,
    ParseErrorView,
> {
    match raw {
        None => Err(ParseErrorView::MissingField(field)),
        Some(text) => match decimal_text_value(without_char(text, ',')) {
            Some(v) => Ok(Some(v)),
            None => Err(ParseErrorView::MalformedNumber { field, raw: text }),
        },
    }
}

/// The field at position `i` of a row, if the row is that long.
pub fn field_at(record: &Vec<String>, i: usize) -> (r: Option<&String>)
    ensures
        opt_ref_view(r) == row_field(row_view(record@), i as int),
{
    if i < record.len() {
        Some(&record[i])
    } else {
        None
    }
}

/// The record that a row of the ledger gives. The columns stand at fixed
/// positions: the two dates, code, name and account at 0 to 4; quantity,
/// selling price, proceeds, average cost and realized result at 7 to 11.
///
/// A row without a trade date, which is a row without fields, gives the
/// record without fields and no error: it will stand in no period. In any
/// other row the fields are read in column order and the first fault is
/// the error; a column other than a date that the row lacks is a fault.
pub open spec fn parse_row(row: Seq<Seq<char>>) -> Result<RecordView, ParseErrorView> {
    if row.len() == 0 {
        Ok(blank_record())
    } else {
        parse_fields(row)
    }
}

/// The record of a row that has fields.
pub open spec fn parse_fields(row: Seq<Seq<char>>) -> Result<RecordView, ParseErrorView> {
    match date_field("trade_date"@, row_field(row, 0)) {
        Err(e) => Err(e),
        Ok(trade_date) => match date_field("settlement_date"@, row_field(row, 1)) {
            Err(e) => Err(e),
            Ok(settlement_date) => match string_field("security_code"@, row_field(row, 2)) {
                Err(e) => Err(e),
                Ok(security_code) => match string_field("security_name"@, row_field(row, 3)) {
                    Err(e) => Err(e),
                    Ok(security_name) => match string_field("account"@, row_field(row, 4)) {
                        Err(e) => Err(e),
                        Ok(account) => match parse_amounts(row) {
                            Err(e) => Err(e),
                            Ok(amounts) => Ok(
                                RecordView {
                                    trade_date,
                                    settlement_date,
                                    security_code,
                                    security_name,
                                    account,
                                    ..amounts
                                },
                            ),
                        },
                    },
                },
            },
        },
    }
}

/// The five numeric columns of a row, in a record that is otherwise blank.
pub open spec fn parse_amounts(row: Seq<Seq<char>>) -> Result<RecordView, ParseErrorView> {
    match int_field("shares"@, row_field(row, 7)) {
        Err(e) => Err(e),
        Ok(shares) => match decimal_field("asked_price"@, row_field(row, 8)) {
            Err(e) => Err(e),
            Ok(asked_price) => match int_field("proceeds"@, row_field(row, 9)) {
                Err(e) => Err(e),
                Ok(proceeds) => match decimal_field("purchase_price"@, row_field(row, 10)) {
                    Err(e) => Err(e),
                    Ok(purchase_price) => match int_field(
                        "realized_profit_and_loss"@,
                        row_field(row, 11),
                    ) {
                        Err(e) => Err(e),
                        Ok(realized_profit_and_loss) => Ok(
                            RecordView {
                                shares,
                                asked_price,
                                proceeds,
                                purchase_price,
                                realized_profit_and_loss,
                                ..blank_record()
                            },
                        ),
                    },
                },
            },
        },
    }
}

impl ProfitAndLoss {
    pub open spec fn view(&self) -> RecordView {
        RecordView {
            trade_date: date_view(self.trade_date),
            settlement_date: date_view(self.settlement_date),
            security_code: opt_view(self.security_code),
            security_name: opt_view(self.security_name),
            account: opt_view(self.account),
            shares: i32_view(self.shares),
            asked_price: decimal_view(self.asked_price),
            proceeds: i32_view(self.proceeds),
            purchase_price: decimal_view(self.purchase_price),
            realized_profit_and_loss: i32_view(self.realized_profit_and_loss),
            total_realized_profit_and_loss: i128_view(self.total_realized_profit_and_loss),
            withholding_tax: i128_view(self.withholding_tax),
            profit_and_loss: i128_view(self.profit_and_loss),
        }
    }

    /// The record without any field.
    pub fn blank() -> (r: Self)
        ensures
            r@ == blank_record(),
    {
        ProfitAndLoss {
            trade_date: None,
            settlement_date: None,
            security_code: None,
            security_name: None,
            account: None,
            shares: None,
            asked_price: None,
            proceeds: None,
            purchase_price: None,
            realized_profit_and_loss: None,
            total_realized_profit_and_loss: None,
            withholding_tax: None,
            profit_and_loss: None,
        }
    }

    /// The record without any field: the row that stands for the header.
    /// It never fails.
    pub fn new() -> (r: Result<Self, &'static str>)
        ensures
            r matches Ok(p) && p@ == blank_record(),
    {
        Ok(Self::blank())
    }

    /// Reads one row of the ledger. A row without fields gives the record
    /// without fields.
    pub fn from_record(record: &Vec<String>) -> (r: Result<Self, ParseError>)
        ensures
            match r {
                Ok(p) => parse_row(row_view(record@)) == Ok::<RecordView, ParseErrorView>(p@),
                Err(e) => parse_row(row_view(record@)) == Err::<RecordView, ParseErrorView>(e@),
            },
    {
        if record.len() == 0 {
            return Ok(Self::blank());
        }
        let trade_date = match Self::parse_date("trade_date", field_at(record, 0)) {
            Ok(v) => v,
            Err(e) => {
                return Err(e);
            },
        };
        let settlement_date = match Self::parse_date("settlement_date", field_at(record, 1)) {
            Ok(v) => v,
            Err(e) => {
                return Err(e);
            },
        };
        let security_code = match Self::parse_string("security_code", field_at(record, 2)) {
            Ok(v) => v,
            Err(e) => {
                return Err(e);
            },
        };
        let security_name = match Self::parse_string("security_name", field_at(record, 3)) {
            Ok(v) => v,
            Err(e) => {
                return Err(e);
            },
        };
        let account = match Self::parse_string("account", field_at(record, 4)) {
            Ok(v) => v,
            Err(e) => {
                return Err(e);
            },
        };
        let shares = match Self::parse_int("shares", field_at(record, 7)) {
            Ok(v) => v,
            Err(e) => {
                return Err(e);
            },
        };
        let asked_price = match Self::parse_decimal("asked_price", field_at(record, 8)) {
            Ok(v) => v,
            Err(e) => {
                return Err(e);
            },
        };
        let proceeds = match Self::parse_int("proceeds", field_at(record, 9)) {
            Ok(v) => v,
            Err(e) => {
                return Err(e);
            },
        };
        let purchase_price = match Self::parse_decimal("purchase_price", field_at(record, 10)) {
            Ok(v) => v,
            Err(e) => {
                return Err(e);
            },
        };
        let realized_profit_and_loss = match Self::parse_int(
            "realized_profit_and_loss",
            field_at(record, 11),
        ) {
            Ok(v) => v,
            Err(e) => {
                return Err(e);
            },
        };
        Ok(
            ProfitAndLoss {
                trade_date,
                settlement_date,
                security_code,
                security_name,
                account,
                shares,
                asked_price,
                proceeds,
                purchase_price,
                realized_profit_and_loss,
                total_realized_profit_and_loss: None,
                withholding_tax: None,
                profit_and_loss: None,
            },
        )
    }

    /// Reads a date column.
    pub fn parse_date(field: &str, raw: Option<&String>) -> (r: Result<Option<Date>, ParseError>)
        ensures
            match r {
                Ok(d) => date_field(field@, opt_ref_view(raw)) == Ok::<
                    Option<(int, int, int)>,
                    ParseErrorView,
                >(date_view(d)),
                Err(e) => date_field(field@, opt_ref_view(raw)) == Err::<
                    Option<(int, int, int)>,
                    ParseErrorView,
                >(e@),
            },
    {
        match raw {
            None => Ok(None),
            Some(text) => match Date::parse(text.as_str()) {
                Some(d) => Ok(Some(d)),
                None => Err(
                    ParseError::MalformedDate { field: String::from_str(field), raw: text.clone() },
                ),
            },
        }
    }

    /// Reads an integer column.
    pub fn parse_int(field: &str, raw: Option<&String>) -> (r: Result<Option<i32>, ParseError>)
        ensures
            match r {
                Ok(n) => int_field(field@, opt_ref_view(raw)) == Ok::<Option<int>, ParseErrorView>(
                    i32_view(n),
                ),
                Err(e) => int_field(field@, opt_ref_view(raw)) == Err::<
                    Option<int>,
                    ParseErrorView,
                >(e@),
            },
    {
        match raw {
            None => Err(ParseError::MissingField(String::from_str(field))),
            Some(text) => {
                let digits = remove_char(text.as_str(), ',');
                match parse_i32(digits.as_str()) {
                    Some(v) => Ok(Some(v)),
                    None => Err(
                        ParseError::MalformedNumber {
                            field: String::from_str(field),
                            raw: text.clone(),
                        },
                    ),
                }
            },
        }
    }

    /// Reads a price column.
    pub fn parse_decimal(field: &str, raw: Option<&String>) -> (r: Result<
        Option<Decimal>,
        ParseError,
    >)
        ensures
            match r {
                Ok(n) => decimal_field(field@, opt_ref_view(raw)) == Ok::<
                    Option<int>,
                    ParseErrorView,
                >(decimal_view(n)),
                Err(e) => decimal_field(field@, opt_ref_view(raw)) == Err::<
                    Option<int>,
                    ParseErrorView,
                >(e@),
            },
    {
        match raw {
            None => Err(ParseError::MissingField(String::from_str(field))),
            Some(text) => {
                let digits = remove_char(text.as_str(), ',');
                match parse_decimal(digits.as_str()) {
                    Some(v) => Ok(Some(v)),
                    None => Err(
                        ParseError::MalformedNumber {
                            field: String::from_str(field),
                            raw: text.clone(),
                        },
                    ),
                }
            },
        }
    }

    /// Reads a text column.
    pub fn parse_string(field: &str, raw: Option<&String>) -> (r: Result<
        Option<String>,
        ParseError,
    >)
        ensures
            match r {
                Ok(s) => string_field(field@, opt_ref_view(raw)) == Ok::<
                    Option<Seq<char>>,
                    ParseErrorView,
                >(opt_view(s)),
                Err(e) => string_field(field@, opt_ref_view(raw)) == Err::<
                    Option<Seq<char>>,
                    ParseErrorView,
                >(e@),
            },
    {
        match raw {
            None => Err(ParseError::MissingField(String::from_str(field))),
            Some(text) => Ok(Some(text.clone())),
        }
    }
}

/// A named field of a record with its text, `None` where the field is not set.
pub open spec fn is_field_list(fields: Seq<(String, Option<String>)>, v: RecordView) -> bool {
    &&& fields.len() == FIELD_COUNT
    &&& forall|i: int|
        0 <= i < FIELD_COUNT ==> (#[trigger] fields[i]).0@ == field_names()[i] && opt_view(
            fields[i].1,
        ) == field_texts(v)[i]
}

fn date_string(d: &Option<Date>) -> (r: Option<String>)
    ensures
        opt_view(r) == opt_date_text(date_view(*d)),
{
    match d {
        Some(v) => Some(v.to_string()),
        None => None,
    }
}

fn int_string(n: &Option<i32>) -> (r: Option<String>)
    ensures
        opt_view(r) == opt_int_text(i32_view(*n)),
{
    match n {
        Some(v) => Some(int_to_string(*v as i128)),
        None => None,
    }
}

fn wide_string(n: &Option<i128>) -> (r: Option<String>)
    ensures
        opt_view(r) == opt_int_text(i128_view(*n)),
{
    match n {
        Some(v) => Some(int_to_string(*v)),
        None => None,
    }
}

fn price_string(d: &Option<Decimal>) -> (r: Option<String>)
    ensures
        opt_view(r) == opt_decimal_text(decimal_view(*d)),
{
    match d {
        Some(v) => Some(decimal_to_string(*v)),
        None => None,
    }
}

impl ProfitAndLoss {
    /// Every field by name, with its text, in column order.
    pub fn get_all_fields(&self) -> (r: Vec<(String, Option<String>)>)
        ensures
            is_field_list(r@, self@),
    {
        let mut out: Vec<(String, Option<String>)> = Vec::new();
        out.push((String::from_str("trade_date"), date_string(&self.trade_date)));
        out.push((String::from_str("settlement_date"), date_string(&self.settlement_date)));
        out.push((String::from_str("security_code"), copy_opt(&self.security_code)));
        out.push((String::from_str("security_name"), copy_opt(&self.security_name)));
        out.push((String::from_str("account"), copy_opt(&self.account)));
        out.push((String::from_str("shares"), int_string(&self.shares)));
        out.push((String::from_str("asked_price"), price_string(&self.asked_price)));
        out.push((String::from_str("proceeds"), int_string(&self.proceeds)));
        out.push((String::from_str("purchase_price"), price_string(&self.purchase_price)));
        out.push(
            (
                String::from_str("realized_profit_and_loss"),
                int_string(&self.realized_profit_and_loss),
            ),
        );
        out.push(
            (
                String::from_str("total_realized_profit_and_loss"),
                wide_string(&self.total_realized_profit_and_loss),
            ),
        );
        out.push((String::from_str("withholding_tax"), wide_string(&self.withholding_tax)));
        out.push((String::from_str("profit_and_loss"), wide_string(&self.profit_and_loss)));
        out
    }
}

/// A row that can be read comes back from its record as it was given, in
/// normal form: each date with dashes for its slashes, each text as it is,
/// and each number without its commas, wherever that number was written
/// plainly, and only there (`007` comes back as `7`, `1500.5` as `1500.50`).
/// A row without fields comes back without fields.
pub proof fn lemma_row_round_trip(row: Seq<Seq<char>>)
    requires
        parse_row(row) is Ok,
    ensures
        row.len() == 0 || row.len() >= 12,
        row.len() == 0 ==> forall|i: int|
            0 <= i < FIELD_COUNT ==> (#[trigger] field_texts(parse_row(row)->Ok_0)[i]) is None,
        row.len() > 0 ==> ({
            let texts = field_texts(parse_row(row)->Ok_0);
            &&& texts[0] == Some(with_char_replaced(row[0], '/', '-'))
            &&& texts[1] == Some(with_char_replaced(row[1], '/', '-'))
            &&& texts[2] == Some(row[2])
            &&& texts[3] == Some(row[3])
            &&& texts[4] == Some(row[4])
            &&& texts[5] == Some(without_char(row[7], ',')) <==> is_plain_int(
                without_char(row[7], ','),
            )
            &&& texts[6] == Some(without_char(row[8], ',')) <==> is_plain_decimal(
                without_char(row[8], ','),
            )
            &&& texts[7] == Some(without_char(row[9], ',')) <==> is_plain_int(
                without_char(row[9], ','),
            )
            &&& texts[8] == Some(without_char(row[10], ',')) <==> is_plain_decimal(
                without_char(row[10], ','),
            )
            &&& texts[9] == Some(without_char(row[11], ',')) <==> is_plain_int(
                without_char(row[11], ','),
            )
            &&& texts[10] is None
            &&& texts[11] is None
            &&& texts[12] is None
        }),
{
    if row.len() > 0 {
        lemma_date_round_trip(row[0]);
        lemma_date_round_trip(row[1]);
        lemma_int_round_trip(without_char(row[7], ','));
        lemma_decimal_round_trip(without_char(row[8], ','));
        lemma_int_round_trip(without_char(row[9], ','));
        lemma_decimal_round_trip(without_char(row[10], ','));
        lemma_int_round_trip(without_char(row[11], ','));
    }
}

/// A record that a row gives has its trade date unless the row has no
/// fields, and then it has no field at all.
pub proof fn lemma_row_without_trade_date(row: Seq<Seq<char>>)
    requires
        parse_row(row) is Ok,
    ensures
        (parse_row(row)->Ok_0).trade_date is None <==> row.len() == 0,
        row.len() == 0 ==> parse_row(row)->Ok_0 == blank_record(),
{
}

/// The built-in format of a price: yen with two places.
pub const YEN_DECIMAL_FORMAT: &'static str = "\"¥\"#,##0.00;\"¥\"-#,##0.00";

/// The built-in format of a total: whole yen.
pub const YEN_FORMAT: &'static str = "\"¥\"#,##0;\"¥\"-#,##0";

/// The built-in number format of the column at position `i`: none for the
/// dates, the texts and the quantity, two-place yen for the two unit
/// prices, whole yen for proceeds, realized result and the three totals.
pub open spec fn builtin_format(i: int) -> Option<Seq<char>> {
    if i == 6 || i == 8 {
        Some(YEN_DECIMAL_FORMAT@)
    } else if i == 7 || 9 <= i <= 12 {
        Some(YEN_FORMAT@)
    } else {
        None
    }
}

/// The characters of an optional string slice.
pub open spec fn opt_str_view(s: Option<&'static str>) -> Option<Seq<char>> {
    match s {
        Some(v) => Some(v@),
        None => None,
    }
}

impl ProfitAndLoss {
    /// The text of every field in column order, each with the built-in
    /// number format of its column.
    pub fn get_profit_and_loss_struct_list(&self) -> (r: Vec<(Option<String>, Option<&'static str>)>)
        ensures
            r@.len() == FIELD_COUNT,
            forall|i: int|
                0 <= i < FIELD_COUNT ==> opt_view((#[trigger] r@[i]).0) == field_texts(self@)[i]
                    && opt_str_view(r@[i].1) == builtin_format(i),
    {
        let mut out: Vec<(Option<String>, Option<&'static str>)> = Vec::new();
        out.push((date_string(&self.trade_date), None));
        out.push((date_string(&self.settlement_date), None));
        out.push((copy_opt(&self.security_code), None));
        out.push((copy_opt(&self.security_name), None));
        out.push((copy_opt(&self.account), None));
        out.push((int_string(&self.shares), None));
        out.push((price_string(&self.asked_price), Some(YEN_DECIMAL_FORMAT)));
        out.push((int_string(&self.proceeds), Some(YEN_FORMAT)));
        out.push((price_string(&self.purchase_price), Some(YEN_DECIMAL_FORMAT)));
        out.push((int_string(&self.realized_profit_and_loss), Some(YEN_FORMAT)));
        out.push((wide_string(&self.total_realized_profit_and_loss), Some(YEN_FORMAT)));
        out.push((wide_string(&self.withholding_tax), Some(YEN_FORMAT)));
        out.push((wide_string(&self.profit_and_loss), Some(YEN_FORMAT)));
        out
    }
}

} // verus!
