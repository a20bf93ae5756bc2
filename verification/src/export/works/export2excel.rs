//! Filling an export template: the fixed cells, the header of each column,
//! and the text written under it for each module.
use vstd::prelude::*;
use crate::app_data_bridge::Record;
use crate::error::MyError;
use crate::strmap::{text_lookup, StrMap};
use crate::text::{
    concat, decimal, decimal_text, seq_join, str_eq, strip_line_breaks, text, views, without_line_breaks, join_texts,
};

verus! {

/// Where the export templates are kept.
pub const TEMPLATE_DIR: &'static str = "\\\\192.168.10.142\\Excel_Templates\\";

/// The password that protects a filled sheet.
pub const SHEET_PASSWORD: &'static str = "test";


/// What a fixed cell of a template shows: "Date" stands for today's date,
/// "DateTime" for the current time, "Quantity" for the number of modules
/// exported; anything else is written as it is.
pub open spec fn fixed_cell_spec(value: Seq<char>, quantity: nat, today: Seq<char>, now: Seq<char>) -> Seq<char> {
    if value == "Date"@ {
        today
    } else if value == "DateTime"@ {
        now
    } else if value == "Quantity"@ {
        decimal(quantity)
    } else {
        value
    }
}

/// The text of a fixed cell, given today's date and the current time as text.
pub fn fixed_cell_value(value: &str, quantity: usize, today: &str, now: &str) -> (r: String)
    ensures
        r@ == fixed_cell_spec(value@, quantity as nat, today@, now@),
{
    if str_eq(value, "Date") {
        text(today)
    } else if str_eq(value, "DateTime") {
        text(now)
    } else if str_eq(value, "Quantity") {
        decimal_text(quantity)
    } else {
        text(value)
    }
}

/// The header texts without line breaks.
pub fn clean_headers(headers: &Vec<String>) -> (r: Vec<String>)
    ensures
        r@.len() == headers@.len(),
        forall|i: int| 0 <= i < r@.len() ==> (#[trigger] r@[i])@ == without_line_breaks(headers@[i]@),
{
    let mut r: Vec<String> = Vec::new();
    let mut i: usize = 0;
    while i < headers.len()
        invariant
            i <= headers@.len(),
            r@.len() == i,
            forall|k: int| 0 <= k < i ==> (#[trigger] r@[k])@ == without_line_breaks(headers@[k]@),
        decreases headers.len() - i,
    {
        r.push(strip_line_breaks(headers[i].as_str()));
        i = i + 1;
    }
    r
}

/// The column a sheet header reads from: its mapping, when the template maps
/// it to something other than "" or "none", else the header itself.
pub open spec fn resolved_header(header: Seq<char>, mapping: Seq<(Seq<char>, String)>) -> Seq<char> {
    match text_lookup(mapping, header) {
        Some(m) => if m.len() > 0 && m != "none"@ { m } else { header },
        None => header,
    }
}

/// The column a sheet header reads from.
pub fn resolve_header(header: &str, mapping: &StrMap<String>) -> (r: String)
    ensures
        r@ == resolved_header(header@, mapping@),
{
    match mapping.get(header) {
        Some(m) => {
            if m.unicode_len() > 0 && !str_eq(m.as_str(), "none") {
                m.clone()
            } else {
                text(header)
            }
        },
        None => text(header),
    }
}

/// How the value of a column is obtained.
#[derive(Debug, Clone, Copy, PartialEq, Eq)]
pub enum RowValueKind {
    /// Threshold current before temperature cycling, from "ith".
    BeforeIth,
    /// Monitor current before temperature cycling, from "im".
    BeforeIm,
    /// Output power before temperature cycling, from "po".
    BeforePo,
    /// Output power, from "po".
    Po,
    /// Forward voltage before temperature cycling, from "vf".
    BeforeVf,
    /// Slope efficiency before temperature cycling, from "po".
    BeforeSe,
    /// Power change over temperature cycling, from "po".
    DeltaP,
    /// Date of the test, from "testtime".
    TestTime,
    /// The row's value under the column name.
    Plain,
}

/// The kind of value a (resolved) column name asks for.
pub open spec fn row_value_kind_spec(header: Seq<char>) -> RowValueKind {
    if header == "beforeTC-Ith(mA)"@ {
        RowValueKind::BeforeIth
    } else if header == "beforeTC-Im(uA)"@ {
        RowValueKind::BeforeIm
    } else if header == "beforeTC-Po(mW)"@ {
        RowValueKind::BeforePo
    } else if header == "po"@ {
        RowValueKind::Po
    } else if header == "beforeTC-Vf(V)"@ {
        RowValueKind::BeforeVf
    } else if header == "beforeTC-SE(W/A)"@ {
        RowValueKind::BeforeSe
    } else if header == "deltaP（dB）"@ {
        RowValueKind::DeltaP
    } else if header == "testtime"@ {
        RowValueKind::TestTime
    } else {
        RowValueKind::Plain
    }
}

/// The kind of value a (resolved) column name asks for.
pub fn row_value_kind(header: &str) -> (r: RowValueKind)
    ensures
        r == row_value_kind_spec(header@),
{
    if str_eq(header, "beforeTC-Ith(mA)") {
        RowValueKind::BeforeIth
    } else if str_eq(header, "beforeTC-Im(uA)") {
        RowValueKind::BeforeIm
    } else if str_eq(header, "beforeTC-Po(mW)") {
        RowValueKind::BeforePo
    } else if str_eq(header, "po") {
        RowValueKind::Po
    } else if str_eq(header, "beforeTC-Vf(V)") {
        RowValueKind::BeforeVf
    } else if str_eq(header, "beforeTC-SE(W/A)") {
        RowValueKind::BeforeSe
    } else if str_eq(header, "deltaP（dB）") {
        RowValueKind::DeltaP
    } else if str_eq(header, "testtime") {
        RowValueKind::TestTime
    } else {
        RowValueKind::Plain
    }
}

/// The text a row holds under `key`, empty when it has none.
pub open spec fn row_text(row: Seq<(Seq<char>, String)>, key: Seq<char>) -> Seq<char> {
    match text_lookup(row, key) {
        Some(v) => v,
        None => Seq::empty(),
    }
}

/// The text a row holds under `key`, empty when it has none.
pub fn row_value(key: &str, row: &Record) -> (r: String)
    ensures
        r@ == row_text(row@, key@),
{
    match row.get(key) {
        Some(v) => v.clone(),
        None => String::new(),
    }
}

/// A column named "deviceinfo_id" or "NO." numbers the modules from 1;
/// any other column shows its value.
pub open spec fn numbered_spec(header: Seq<char>, row_idx: nat, value: Seq<char>) -> Seq<char> {
    if header == "deviceinfo_id"@ || header == "NO."@ {
        decimal(row_idx + 1)
    } else {
        value
    }
}

/// The text of a column for the module at position `row_idx`.
pub fn numbered_value(header: &str, row_idx: usize, value: String) -> (r: String)
    requires
        row_idx < usize::MAX,
    ensures
        r@ == numbered_spec(header@, row_idx as nat, value@),
{
    if str_eq(header, "deviceinfo_id") || str_eq(header, "NO.") {
        decimal_text(row_idx + 1)
    } else {
        value
    }
}

/// `s` without its escaped quotes `\"` and its quotes `"`.
pub open spec fn unquoted(s: Seq<char>) -> Seq<char>
    decreases s.len(),
{
    if s.len() == 0 {
        s
    } else if s.len() >= 2 && s[0] == '\\' && s[1] == '"' {
        unquoted(s.skip(2))
    } else if s[0] == '"' {
        unquoted(s.skip(1))
    } else {
        seq![s[0]] + unquoted(s.skip(1))
    }
}

/// The power unit of a template, without quotes.
pub fn strip_unit_quotes(unit: &str) -> (r: String)
    ensures
        r@ == unquoted(unit@),
{
    let n = unit.unicode_len();
    let mut out = String::new();
    let mut i: usize = 0;
    assert(unit@.skip(0) =~= unit@);
    assert(out@ + unquoted(unit@) =~= unquoted(unit@));
    while i < n
        invariant
            i <= n,
            n == unit@.len(),
            out@ + unquoted(unit@.skip(i as int)) == unquoted(unit@),
        decreases n - i,
    {
        let c = unit.get_char(i);
        let ghost t = unit@.skip(i as int);
        assert(t[0] == c);
        if c == '\\' && i + 1 < n && unit.get_char(i + 1) == '"' {
            assert(t.skip(2) =~= unit@.skip(i + 2));
            i = i + 2;
        } else if c == '"' {
            assert(t.skip(1) =~= unit@.skip(i + 1));
            i = i + 1;
        } else {
            assert(t.skip(1) =~= unit@.skip(i + 1));
            let ghost before = out@;
            let mut buf = String::new();
            buf.append(unit.substring_char(i, i + 1));
            assert(buf@ =~= seq![c]);
            out.append(buf.as_str());
            assert(out@ + unquoted(unit@.skip(i + 1)) =~= before + (seq![c] + unquoted(unit@.skip(i + 1))));
            i = i + 1;
        }
    }
    assert(unit@.skip(n as int) =~= Seq::<char>::empty());
    assert(out@ + Seq::<char>::empty() =~= out@);
    out
}

/// Whether a power value is converted from µW to mW before rounding: for the
/// "po" column of a template whose unit is "mW", and always for the
/// pre-cycling power.
pub open spec fn po_in_milliwatts_spec(unit: Seq<char>, header: Seq<char>) -> bool {
    (unit == "mW"@ && header == "po"@) || header == "beforeTC-Po(mW)"@
}

/// Whether a power value is converted from µW to mW before rounding.
pub fn po_in_milliwatts(unit: &str, header: &str) -> (r: bool)
    ensures
        r == po_in_milliwatts_spec(unit@, header@),
{
    (str_eq(unit, "mW") && str_eq(header, "po")) || str_eq(header, "beforeTC-Po(mW)")
}

/// The text of a cell that is not rounded: a configured text replaces the
/// value, unless it is empty or one of the units "mw" and "uw".
pub open spec fn text_config_spec(val: Seq<char>, config: Option<Seq<char>>) -> Seq<char> {
    match config {
        Some(s) => if s.len() > 0 && s != "mw"@ && s != "uw"@ { s } else { val },
        None => val,
    }
}

/// The text of a cell that is not rounded.
pub fn text_config_value(val: &str, config: &Option<String>) -> (r: String)
    ensures
        r@ == text_config_spec(val@, match config { Some(s) => Some(s@), None => None }),
        config is None ==> r@ == val@,
        config matches Some(s) ==> ((s@.len() == 0 || s@ == "mw"@ || s@ == "uw"@) ==> r@ == val@),
        config matches Some(s) ==> (s@.len() > 0 && s@ != "mw"@ && s@ != "uw"@ ==> r@ == s@),
{
    match config {
        Some(s) => {
            if s.unicode_len() > 0 && !str_eq(s.as_str(), "mw") && !str_eq(s.as_str(), "uw") {
                s.clone()
            } else {
                text(val)
            }
        },
        None => text(val),
    }
}

/// A text configuration that is empty or one of the units "mw" and "uw"
/// keeps the module's value in the cell, and so does no configuration; any
/// other configured text replaces the value.
pub proof fn law_text_config_keeps_units(val: Seq<char>, s: Seq<char>)
    ensures
        text_config_spec(val, None) == val,
        s == "mw"@ ==> text_config_spec(val, Some(s)) == val,
        s == "uw"@ ==> text_config_spec(val, Some(s)) == val,
        s.len() == 0 ==> text_config_spec(val, Some(s)) == val,
        s.len() > 0 && s != "mw"@ && s != "uw"@ ==> text_config_spec(val, Some(s)) == s,
{
}

/// The sheet row of the module at position `row_idx`: the rows after the
/// template's last row, in order.
pub fn cell_row(last_row: u32, row_idx: usize) -> (r: u32)
    requires
        last_row + row_idx + 1 <= u32::MAX,
    ensures
        r == last_row + row_idx + 1,
{
    let k = row_idx as u32;
    last_row + k + 1
}

/// The path of a template's sheet file.
pub fn template_file_path(base: &str, template_name: &str) -> (r: String)
    ensures
        r@ == base@ + template_name@ + ".xlsx"@,
{
    let mut r = concat(base, template_name);
    r.append(".xlsx");
    r
}

/// The file an export of a template is saved to: the template name and the
/// date.
pub fn output_file_name(template_name: &str, date: &str) -> (r: String)
    ensures
        r@ == template_name@ + "-"@ + date@ + ".xlsx"@,
{
    let mut r = concat(template_name, "-");
    r.append(date);
    r.append(".xlsx");
    r
}

/// The message of a template that failed: its name and what went wrong.
pub fn template_failure(template_name: &str, message: &str) -> (r: String)
    ensures
        r@ == template_name@ + ": "@ + message@,
{
    let mut r = concat(template_name, ": ");
    r.append(message);
    r
}

/// The outcome of an export over several templates: fine when no template
/// failed, else one error listing every failure, separated by ";".
pub fn export_outcome(errors: &Vec<String>) -> (r: Result<(), MyError>)
    ensures
        errors@.len() == 0 ==> r is Ok,
        errors@.len() > 0 ==> (r matches Err(MyError::Zdyknown(m)) && m@ == seq_join(views(errors@), ";"@)),
{
    if errors.len() == 0 {
        Ok(())
    } else {
        Err(MyError::Zdyknown(join_texts(errors, ";")))
    }
}

/// The date of a time text as chrono reads it with the pattern
/// `%Y-%m-%d %H:%M:%S`, written as `NaiveDate` displays it; `None` where
/// chrono does not accept the text.
pub uninterp spec fn chrono_date_of(s: Seq<char>) -> Option<Seq<char>>;

/// `chrono::NaiveDateTime::parse_from_str(s, "%Y-%m-%d %H:%M:%S")`, then the
/// `Display` text of its `date()`. The contract only names the result
/// (`chrono_date_of`): which texts chrono accepts is left to chrono's parser.
#[verifier::external_body]
fn parse_datetime_date(s: &str) -> (r: Option<String>)
    ensures
        match r {
            Some(t) => chrono_date_of(s@) == Some(t@),
            None => chrono_date_of(s@) is None,
        },
{
    match chrono::NaiveDateTime::parse_from_str(s, "%Y-%m-%d %H:%M:%S") {
        Ok(t) => Some(t.date().to_string()),
        Err(_) => None,
    }
}

/// The "testtime" column: the date of the row's test time, `None` when the
/// row holds no time chrono reads.
pub fn test_date_value(row: &Record) -> (r: Option<String>)
    ensures
        match r {
            Some(t) => chrono_date_of(row_text(row@, "testtime"@)) == Some(t@),
            None => chrono_date_of(row_text(row@, "testtime"@)) is None,
        },
{
    let t = row_value("testtime", row);
    parse_datetime_date(t.as_str())
}

} // verus!
