//! The logic of the command-line client: reading its arguments into requests,
//! and turning a reply into the lines it prints (as JSON, JSON lines, CSV or a
//! table) and its exit status.

use std::collections::BTreeMap;
use vstd::prelude::*;
use crate::json::{Json, Jv, obj_of, is_obj, field, fields_map, value_of};
use crate::text::{split_char, split_on, trim, trimmed, chars_of, string_of, join, joined, views, push_char};
use crate::remote::{decimal, decimal_text};

verus! {

/// What the client prints: lines for standard output and for standard error.
pub struct Printed {
    pub out: Vec<String>,
    pub err: Vec<String>,
}

/// The compact JSON text that `serde_json::Value`'s `Display` writes for `v`.
pub uninterp spec fn compact_json_of(v: serde_json::Value) -> Seq<char>;

/// `serde_json::Value`'s `Display` (`v.to_string()`): the text named
/// [`compact_json_of`] of `v`.
#[verifier::external_body]
pub(crate) fn compact_text(v: &serde_json::Value) -> (res: String)
    ensures
        res@ == compact_json_of(*v),
{
    v.to_string()
}

/// What `serde_json::to_string_pretty(v)` returns for `v`: the indented text,
/// or the text of its error.
pub uninterp spec fn pretty_json_of(v: serde_json::Value) -> Result<Seq<char>, Seq<char>>;

/// `serde_json::to_string_pretty(v)`, the error as text: the result named
/// [`pretty_json_of`] of `v`.
#[verifier::external_body]
fn pretty_text(v: &serde_json::Value) -> (res: Result<String, String>)
    ensures
        match res {
            Ok(t) => pretty_json_of(*v) == Ok::<Seq<char>, Seq<char>>(t@),
            Err(e) => pretty_json_of(*v) == Err::<Seq<char>, Seq<char>>(e@),
        },
{
    serde_json::to_string_pretty(v).map_err(|e| e.to_string())
}

/// What `serde_json::Value::as_str` gives for `v`: the text of a JSON string,
/// `None` for any other value.
pub uninterp spec fn value_str_of(v: serde_json::Value) -> Option<Seq<char>>;

/// `serde_json::Value::as_str`, the text copied: the result named
/// [`value_str_of`] of `v`.
#[verifier::external_body]
fn outside_as_str(v: &serde_json::Value) -> (res: Option<String>)
    ensures
        match res {
            Some(t) => value_str_of(*v) == Some(t@),
            None => value_str_of(*v) is None,
        },
{
    match v.as_str() {
        Some(t) => Some(t.to_string()),
        None => None,
    }
}

/// What `serde_json::Value::is_null` gives for `v`.
pub uninterp spec fn value_is_null(v: serde_json::Value) -> bool;

/// `serde_json::Value::is_null`: the result named [`value_is_null`] of `v`.
#[verifier::external_body]
fn outside_is_null(v: &serde_json::Value) -> (res: bool)
    ensures
        res == value_is_null(*v),
{
    v.is_null()
}

/// The indented JSON text of `v`, or its compact text where indenting fails.
pub open spec fn pretty_shown(v: serde_json::Value) -> Seq<char> {
    match pretty_json_of(v) {
        Ok(t) => t,
        Err(_) => compact_json_of(v),
    }
}

/// `v` as indented JSON text, falling back to the compact text.
fn pretty_or_compact(v: &serde_json::Value) -> (res: String)
    ensures
        res@ == pretty_shown(*v),
{
    match pretty_text(v) {
        Ok(t) => t,
        Err(_) => compact_text(v),
    }
}

/// The text of a reply written to a file: its indented JSON, or the error of
/// writing it.
pub fn file_text(result: &Json) -> (res: Result<String, String>)
    ensures
        match pretty_json_of(value_of(result@)) {
            Ok(t) => res matches Ok(s) && s@ == t,
            Err(e) => res matches Err(m) && m@ == e,
        },
{
    pretty_text(&result.to_outside())
}

/// What `==` on `serde_json::Value` gives for `a` and `b`.
pub uninterp spec fn values_equal(a: serde_json::Value, b: serde_json::Value) -> bool;

/// `PartialEq for serde_json::Value`: the result named [`values_equal`] of the
/// two values.
#[verifier::external_body]
fn outside_eq(a: &serde_json::Value, b: &serde_json::Value) -> (res: bool)
    ensures
        res == values_equal(*a, *b),
{
    a == b
}

/// The text that `prettytable` renders for a table with these column titles and
/// rows, in the format without borders or line separators.
pub uninterp spec fn table_text(headers: Seq<Seq<char>>, rows: Seq<Seq<Seq<char>>>) -> Seq<char>;

/// The model of a list of rows of texts.
pub open spec fn rows_views(rows: Seq<Vec<String>>) -> Seq<Seq<Seq<char>>> {
    rows.map_values(|r: Vec<String>| views(r@))
}

/// `prettytable::Table` with `headers` as titles and one row per `rows`, in the
/// format `FORMAT_NO_BORDER_LINE_SEPARATOR`, rendered to text.
#[verifier::external_body]
fn render_table(headers: &Vec<String>, rows: &Vec<Vec<String>>) -> (res: String)
    ensures
        res@ == table_text(views(headers@), rows_views(rows@)),
{
    let mut table = prettytable::Table::new();
    table.set_titles(prettytable::Row::new(headers.iter().map(|h| prettytable::Cell::new(h)).collect()));
    for row in rows {
        table.add_row(prettytable::Row::new(row.iter().map(|c| prettytable::Cell::new(c)).collect()));
    }
    table.set_format(*prettytable::format::consts::FORMAT_NO_BORDER_LINE_SEPARATOR);
    table.to_string()
}

proof fn lemma_fields_map_last(f: Seq<(Seq<char>, Jv)>, k: Seq<char>)
    requires
        f.len() > 0,
        f.last().0 != k,
    ensures
        fields_map(f).dom().contains(k) == fields_map(f.drop_last()).dom().contains(k),
        fields_map(f)[k] == fields_map(f.drop_last())[k],
{
}

/// Field `k` of `j`, when `j` is an object that has it.
pub fn get<'a>(j: &'a Json, k: &str) -> (res: Option<&'a Json>)
    ensures
        field(j@, k@) == match res {
            Some(v) => Some(v@),
            None => None,
        },
{
    match j {
        Json::Obj(fields) => {
            let key = String::from_str(k);
            let mut i = fields.len();
            let ghost f = j@->Obj_0;
            assert(f.take(i as int) =~= f);
            while i > 0
                invariant
                    *j == Json::Obj(*fields),
                    key@ == k@,
                    f == j@->Obj_0,
                    f.len() == fields@.len(),
                    i <= fields@.len(),
                    fields_map(f.take(i as int)).dom().contains(k@) == fields_map(f).dom().contains(k@),
                    fields_map(f.take(i as int))[k@] == fields_map(f)[k@],
                decreases i,
            {
                let ghost t = f.take(i as int);
                assert(t.last() == (fields@[i - 1].0@, fields@[i - 1].1@));
                if fields[i - 1].0 == key {
                    return Some(&fields[i - 1].1);
                }
                proof {
                    lemma_fields_map_last(t, k@);
                    assert(t.drop_last() =~= f.take(i - 1));
                }
                i = i - 1;
            }
            assert(f.take(0) =~= Seq::<(Seq<char>, Jv)>::empty());
            None
        },
        _ => None,
    }
}

/// The reply says it failed: its `"ok"` field is `false`.
pub open spec fn is_failure(j: Jv) -> bool {
    field(j, "ok"@) == Some(Jv::Bool(false))
}

/// Law: the client exits with a failure on every error reply, and never on the
/// reply of a read that succeeded or on a bare `{"ok": true}`.
pub proof fn law_failure_exit(j: Jv)
    ensures
        crate::reply::is_error(j) ==> is_failure(j),
        crate::reply::is_rows_ok(j) ==> !is_failure(j),
        is_obj(j, map!["ok"@ => Jv::Bool(true)]) ==> !is_failure(j),
{
    crate::reply::lemma_reply_keys();
    if crate::reply::is_error(j) {
        let m = choose|m: Seq<char>| is_obj(j, crate::reply::error_map(m));
        assert(obj_of(j).dom().contains("ok"@));
    }
    if crate::reply::is_rows_ok(j) {
        let r = choose|r: crate::db::DbRows| crate::reply::is_rows_json(
            j,
            crate::text::views(r.headers@),
            r.rows@,
            r.next@,
            map!["ok"@ => Jv::Bool(true)],
        );
        assert(map!["ok"@ => Jv::Bool(true)].dom().contains("ok"@));
        assert(obj_of(j)["ok"@] == Jv::Bool(true));
    }
}

/// Whether the reply says it failed; the client then exits with status 1.
pub fn failed(result: &Json) -> (res: bool)
    ensures
        res == is_failure(result@),
{
    match get(result, "ok") {
        Some(Json::Bool(b)) => !*b,
        _ => false,
    }
}

/// The line `Error: <message>` printed after a failed reply that carries a
/// text message.
pub open spec fn error_note(j: Jv) -> Option<Seq<char>> {
    if is_failure(j) && (field(j, "message"@) matches Some(Jv::Str(_))) {
        Some("Error: "@ + field(j, "message"@)->0->Str_0)
    } else {
        None
    }
}

fn error_line(result: &Json) -> (res: Option<String>)
    ensures
        match res {
            Some(s) => error_note(result@) == Some(s@),
            None => error_note(result@) is None,
        },
{
    if failed(result) {
        match get(result, "message") {
            Some(Json::Str(m)) => {
                let mut s = String::from_str("Error: ");
                s.append(m.as_str());
                Some(s)
            },
            _ => None,
        }
    } else {
        None
    }
}

/// The columns and rows of a tabular reply: its `"headers"` and `"rows"`
/// fields, when both are arrays.
pub open spec fn tabular(j: Jv) -> Option<(Seq<Jv>, Seq<Jv>)> {
    match (field(j, "headers"@), field(j, "rows"@)) {
        (Some(Jv::Arr(h)), Some(Jv::Arr(r))) => Some((h, r)),
        _ => None,
    }
}

/// The headers of a tabular reply (empty when it is not tabular).
pub open spec fn tabular_headers(j: Jv) -> Seq<Jv> {
    match tabular(j) {
        Some(p) => p.0,
        None => Seq::empty(),
    }
}

/// The rows of a tabular reply (empty when it is not tabular).
pub open spec fn tabular_rows(j: Jv) -> Seq<Jv> {
    match tabular(j) {
        Some(p) => p.1,
        None => Seq::empty(),
    }
}

fn table_parts<'a>(result: &'a Json) -> (res: Option<(&'a Vec<Json>, &'a Vec<Json>)>)
    ensures
        match res {
            Some((h, r)) => tabular(result@) == Some((h@.map_values(|x: Json| x@), r@.map_values(|x: Json| x@))),
            None => tabular(result@) is None,
        },
{
    let h = get(result, "headers");
    let r = get(result, "rows");
    match (h, r) {
        (Some(Json::Arr(hs)), Some(Json::Arr(rs))) => {
            assert(h->0@->Arr_0 =~= hs@.map_values(|x: Json| x@));
            assert(r->0@->Arr_0 =~= rs@.map_values(|x: Json| x@));
            Some((hs, rs))
        },
        _ => None,
    }
}

/// A column title as shown: the header's text, empty when it is not a string.
pub open spec fn title_text(h: Jv) -> Seq<char> {
    match h {
        Jv::Str(s) => s,
        _ => Seq::empty(),
    }
}

/// The text of an outside value in a cell: `null_text` for null, the text of a
/// string, the compact JSON text of anything else.
pub open spec fn outside_cell_text(x: serde_json::Value, null_text: Seq<char>) -> Seq<char> {
    if value_is_null(x) {
        null_text
    } else {
        match value_str_of(x) {
            Some(t) => t,
            None => compact_json_of(x),
        }
    }
}

/// The text of a cell: strings as themselves, `null` as `null_text`, booleans
/// as `true`/`false`, numbers in decimal, anything else as its compact JSON
/// text.
pub open spec fn cell_shown(v: Jv, null_text: Seq<char>) -> Seq<char> {
    match v {
        Jv::Str(s) => s,
        Jv::Null => null_text,
        Jv::Bool(b) => if b { "true"@ } else { "false"@ },
        Jv::UInt(n) => decimal(n),
        Jv::Ext(x) => outside_cell_text(x, null_text),
        _ => compact_json_of(value_of(v)),
    }
}

/// The text of a cell (see [`cell_shown`]).
pub fn cell_text(v: &Json, null_text: &str) -> (res: String)
    ensures
        res@ == cell_shown(v@, null_text@),
{
    match v {
        Json::Str(s) => s.clone(),
        Json::Null => String::from_str(null_text),
        Json::Bool(b) => if *b { String::from_str("true") } else { String::from_str("false") },
        Json::UInt(n) => decimal_text(*n),
        Json::Ext(x) => {
            if outside_is_null(x) {
                String::from_str(null_text)
            } else {
                match outside_as_str(x) {
                    Some(t) => t,
                    None => compact_text(x),
                }
            }
        },
        _ => compact_text(&v.to_outside()),
    }
}

/// The boolean that a text reads as: `true` or `false`, nothing for any other
/// text.
pub open spec fn bool_word(t: Seq<char>) -> Option<bool> {
    if t == "true"@ {
        Some(true)
    } else if t == "false"@ {
        Some(false)
    } else {
        None
    }
}

/// The digit that a character stands for (0 for any other character).
pub open spec fn digit_value(c: char) -> nat {
    if c == '1' { 1 }
    else if c == '2' { 2 }
    else if c == '3' { 3 }
    else if c == '4' { 4 }
    else if c == '5' { 5 }
    else if c == '6' { 6 }
    else if c == '7' { 7 }
    else if c == '8' { 8 }
    else if c == '9' { 9 }
    else { 0 }
}

/// The number that a text of decimal digits reads as.
pub open spec fn decimal_value(t: Seq<char>) -> nat
    decreases t.len(),
{
    if t.len() == 0 {
        0
    } else {
        decimal_value(t.drop_last()) * 10 + digit_value(t.last())
    }
}

proof fn lemma_decimal_reads_back(n: nat)
    ensures
        decimal_value(decimal(n)) == n,
    decreases n,
{
    if n < 10 {
        let t = decimal(n);
        assert(t.drop_last() =~= Seq::<char>::empty());
    } else {
        lemma_decimal_reads_back(n / 10);
        let t = decimal(n);
        assert(t.drop_last() =~= decimal(n / 10));
        assert((n / 10) * 10 + n % 10 == n) by (nonlinear_arith);
    }
}

proof fn lemma_bool_words()
    ensures
        bool_word("true"@) == Some(true),
        bool_word("false"@) == Some(false),
{
    reveal_strlit("true");
    reveal_strlit("false");
    assert("true"@ != "false"@) by {
        assert("true"@.len() != "false"@.len());
    }
}

/// Law: a boolean cell reads back as the same boolean, in a table, in CSV and
/// in the notes' JSON text: `true` prints as `true` and `false` as `false`.
pub proof fn law_bool_cells_read_back(b: bool, null_text: Seq<char>)
    ensures
        bool_word(cell_shown(Jv::Bool(b), null_text)) == Some(b),
        bool_word(csv_cell(Jv::Bool(b))) == Some(b),
        bool_word(json_text_of(Jv::Bool(b))) == Some(b),
{
    lemma_bool_words();
}

/// Law: a number cell reads back as the same number, in a table, in CSV and in
/// the notes' JSON text.
pub proof fn law_number_cells_read_back(n: nat, null_text: Seq<char>)
    ensures
        decimal_value(cell_shown(Jv::UInt(n), null_text)) == n,
        decimal_value(csv_cell(Jv::UInt(n))) == n,
        decimal_value(json_text_of(Jv::UInt(n))) == n,
{
    lemma_decimal_reads_back(n);
}

/// Law: a string cell is shown in a table as the string itself, and its CSV
/// field reads back as the string.
pub proof fn law_string_cells_read_back(t: Seq<char>, null_text: Seq<char>)
    ensures
        cell_shown(Jv::Str(t), null_text) == t,
        csv_read(csv_cell(Jv::Str(t))) == t,
{
    law_csv_round_trip(t);
}

/// Law: a cell that is neither a string nor an outside value is shown in a
/// table as its JSON text (the text `null` for null), and in CSV the same way
/// except that null is left empty.
pub proof fn law_cells_show_their_json_text(v: Jv)
    requires
        !(v is Str),
        !(v is Ext),
    ensures
        cell_shown(v, "null"@) == json_text_of(v),
        !(v is Null) ==> csv_cell(v) == json_text_of(v),
        v is Null ==> csv_cell(v) == Seq::<char>::empty(),
{
}

/// A CSV field needs quoting when it holds a comma, a double quote or a newline.
pub open spec fn needs_quotes(s: Seq<char>) -> bool {
    s.contains(',') || s.contains('"') || s.contains('\n')
}

/// `s` with each double quote doubled.
pub open spec fn doubled_quotes(s: Seq<char>) -> Seq<char>
    decreases s.len(),
{
    if s.len() == 0 {
        Seq::empty()
    } else {
        (if s[0] == '"' { seq!['"', '"'] } else { seq![s[0]] }) + doubled_quotes(s.drop_first())
    }
}

/// `s` as a CSV field: in double quotes with its double quotes doubled when it
/// needs quoting, as it is otherwise.
pub open spec fn csv_field(s: Seq<char>) -> Seq<char> {
    if needs_quotes(s) {
        seq!['"'] + doubled_quotes(s) + seq!['"']
    } else {
        s
    }
}

proof fn lemma_doubled_push(s: Seq<char>, c: char)
    ensures
        doubled_quotes(s.push(c)) == doubled_quotes(s) + (if c == '"' { seq!['"', '"'] } else { seq![c] }),
    decreases s.len(),
{
    if s.len() == 0 {
        assert(s.push(c).drop_first() =~= Seq::<char>::empty());
        assert(s.push(c)[0] == c);
        assert(doubled_quotes(Seq::<char>::empty()) == Seq::<char>::empty());
        assert(doubled_quotes(s.push(c)) =~= doubled_quotes(s) + (if c == '"' { seq!['"', '"'] } else { seq![c] }));
    } else {
        assert(s.push(c).drop_first() =~= s.drop_first().push(c));
        lemma_doubled_push(s.drop_first(), c);
        assert(doubled_quotes(s.push(c)) =~= doubled_quotes(s) + (if c == '"' { seq!['"', '"'] } else { seq![c] }));
    }
}

/// `s` as a CSV field.
pub fn csv_quote(s: &str) -> (res: String)
    ensures
        res@ == csv_field(s@),
{
    let cs = chars_of(s);
    let mut quote = false;
    let mut i: usize = 0;
    while i < cs.len()
        invariant
            cs@ == s@,
            i <= cs@.len(),
            quote == needs_quotes(s@.take(i as int)),
        decreases cs@.len() - i,
    {
        proof {
            let t = s@.take(i as int);
            let t2 = s@.take(i + 1);
            assert(t2 =~= t.push(cs@[i as int]));
            assert forall|c: char| t2.contains(c) <==> (t.contains(c) || cs@[i as int] == c) by {
                if t2.contains(c) {
                    let j = choose|j: int| 0 <= j < t2.len() && t2[j] == c;
                    if j < i {
                        assert(t[j] == c);
                    }
                }
                if t.contains(c) {
                    let j = choose|j: int| 0 <= j < t.len() && t[j] == c;
                    assert(t2[j] == c);
                }
                if cs@[i as int] == c {
                    assert(t2[i as int] == c);
                }
            }
        }
        if cs[i] == ',' || cs[i] == '"' || cs[i] == '\n' {
            quote = true;
        }
        i = i + 1;
    }
    assert(s@.take(cs@.len() as int) =~= s@);
    if !quote {
        return String::from_str(s);
    }
    let mut res = String::new();
    push_char(&mut res, '"');
    let mut i: usize = 0;
    while i < cs.len()
        invariant
            cs@ == s@,
            i <= cs@.len(),
            res@ == seq!['"'] + doubled_quotes(s@.take(i as int)),
        decreases cs@.len() - i,
    {
        let c = cs[i];
        proof {
            assert(s@.take(i + 1) =~= s@.take(i as int).push(c));
            lemma_doubled_push(s@.take(i as int), c);
        }
        if c == '"' {
            push_char(&mut res, '"');
        }
        push_char(&mut res, c);
        i = i + 1;
        assert(res@ =~= seq!['"'] + doubled_quotes(s@.take(i as int)));
    }
    push_char(&mut res, '"');
    res
}

/// What a CSV reader takes a field to hold: a field in double quotes holds its
/// inside with each doubled quote read as one.
pub open spec fn csv_read(t: Seq<char>) -> Seq<char> {
    if t.len() >= 2 && t[0] == '"' && t.last() == '"' {
        undoubled(t.subrange(1, t.len() - 1))
    } else {
        t
    }
}

/// The inside of a quoted CSV field with each doubled quote read as one.
pub open spec fn undoubled(t: Seq<char>) -> Seq<char>
    decreases t.len(),
{
    if t.len() >= 2 && t[0] == '"' && t[1] == '"' {
        seq!['"'] + undoubled(t.skip(2))
    } else if t.len() == 0 {
        Seq::empty()
    } else {
        seq![t[0]] + undoubled(t.drop_first())
    }
}

proof fn lemma_undoubled_doubled(s: Seq<char>)
    ensures
        undoubled(doubled_quotes(s)) == s,
    decreases s.len(),
{
    if s.len() > 0 {
        lemma_undoubled_doubled(s.drop_first());
        let d = doubled_quotes(s);
        let rest = doubled_quotes(s.drop_first());
        if s[0] == '"' {
            assert(d.skip(2) =~= rest);
        } else {
            assert(d.drop_first() =~= rest);
        }
        assert(undoubled(d) =~= s);
    } else {
        assert(doubled_quotes(s) == Seq::<char>::empty());
    }
}

/// Law: every text written as a CSV field reads back as itself.
pub proof fn law_csv_round_trip(s: Seq<char>)
    ensures
        csv_read(csv_field(s)) == s,
{
    if needs_quotes(s) {
        lemma_undoubled_doubled(s);
        let t = csv_field(s);
        assert(t.subrange(1, t.len() - 1) =~= doubled_quotes(s));
    } else {
        if s.len() >= 2 && s[0] == '"' {
            assert(s.contains('"'));
        }
    }
}

/// The JSON-lines record of one row, as a field list: each column whose title
/// is a string, with the cell at the same place, as long as both lists last.
pub open spec fn record_fields(headers: Seq<Jv>, row: Seq<Jv>) -> Seq<(Seq<char>, Jv)>
    decreases headers.len(),
{
    let n = if headers.len() <= row.len() { headers.len() } else { row.len() };
    if n == 0 {
        Seq::empty()
    } else {
        let rest = record_fields(headers.take(n - 1), row.take(n - 1));
        match headers[n - 1] {
            Jv::Str(h) => rest.push((h, row[n - 1])),
            _ => rest,
        }
    }
}

/// The rows of a tabular reply that are arrays, as their cells.
pub open spec fn array_rows(rows: Seq<Jv>) -> Seq<Seq<Jv>>
    decreases rows.len(),
{
    if rows.len() == 0 {
        Seq::empty()
    } else {
        let rest = array_rows(rows.drop_last());
        match rows.last() {
            Jv::Arr(cells) => rest.push(cells),
            _ => rest,
        }
    }
}

/// The JSON-lines record of one row: an object with the cells under the titles
/// of their columns (for a title that occurs twice, the later column's cell).
fn record(headers: &Vec<Json>, row: &Vec<Json>) -> (res: Json)
    ensures
        res@ == Jv::Obj(record_fields(headers@.map_values(|x: Json| x@), row@.map_values(|x: Json| x@))),
{
    let ghost h = headers@.map_values(|x: Json| x@);
    let ghost r = row@.map_values(|x: Json| x@);
    let n = if headers.len() <= row.len() { headers.len() } else { row.len() };
    let mut i: usize = 0;
    let mut res = Json::empty_obj();
    assert(record_fields(h.take(0), r.take(0)) =~= Seq::<(Seq<char>, Jv)>::empty());
    while i < n
        invariant
            n <= headers@.len(),
            n <= row@.len(),
            n == (if h.len() <= r.len() { h.len() } else { r.len() }),
            i <= n,
            h == headers@.map_values(|x: Json| x@),
            r == row@.map_values(|x: Json| x@),
            res@ == Jv::Obj(record_fields(h.take(i as int), r.take(i as int))),
        decreases n - i,
    {
        proof {
            assert(h.take(i + 1).take(i as int) =~= h.take(i as int));
            assert(r.take(i + 1).take(i as int) =~= r.take(i as int));
            assert(h.take(i + 1)[i as int] == h[i as int]);
            assert(r.take(i + 1)[i as int] == r[i as int]);
        }
        let ghost prev = record_fields(h.take(i as int), r.take(i as int));
        match &headers[i] {
            Json::Str(t) => {
                assert(h[i as int] == Jv::Str(t@));
                let ghost nf = prev.push((t@, r[i as int]));
                assert(record_fields(h.take(i + 1), r.take(i + 1)) == nf);
                assert(nf.drop_last() =~= prev);
                res.set(t.as_str(), row[i].duplicate());
            },
            _ => {
                assert(record_fields(h.take(i + 1), r.take(i + 1)) == prev);
            },
        }
        i = i + 1;
    }
    proof {
        lemma_record_fields_prefix(h, r, n as nat);
    }
    res
}

proof fn lemma_record_fields_prefix(h: Seq<Jv>, r: Seq<Jv>, n: nat)
    requires
        n == (if h.len() <= r.len() { h.len() } else { r.len() }),
    ensures
        record_fields(h.take(n as int), r.take(n as int)) == record_fields(h, r),
{
    if n == 0 {
        assert(record_fields(h.take(0), r.take(0)) =~= Seq::<(Seq<char>, Jv)>::empty());
    } else {
        assert(h.take(n as int).take(n - 1) =~= h.take(n - 1));
        assert(r.take(n as int).take(n - 1) =~= r.take(n - 1));
    }
}

/// The column titles of a table: each header's text, empty when it is not a
/// string.
fn titles_of(hs: &Vec<Json>) -> (res: Vec<String>)
    ensures
        views(res@) == hs@.map_values(|x: Json| x@).map_values(|x: Jv| title_text(x)),
{
    let ghost h = hs@.map_values(|x: Json| x@);
    let mut titles: Vec<String> = Vec::new();
    let mut i: usize = 0;
    while i < hs.len()
        invariant
            i <= hs@.len(),
            h == hs@.map_values(|x: Json| x@),
            titles@.len() == i,
            forall|k: int| 0 <= k < i ==> (#[trigger] titles@[k])@ == title_text(h[k]),
        decreases hs@.len() - i,
    {
        let t = match &hs[i] {
            Json::Str(s) => s.clone(),
            _ => String::new(),
        };
        titles.push(t);
        i = i + 1;
    }
    assert(views(titles@) =~= h.map_values(|x: Jv| title_text(x)));
    titles
}

/// The texts of the cells of `rows`, each written as [`cell_shown`] with
/// `null` for null.
pub open spec fn cell_grid(rows: Seq<Seq<Jv>>) -> Seq<Seq<Seq<char>>> {
    rows.map_values(|r: Seq<Jv>| r.map_values(|x: Jv| cell_shown(x, "null"@)))
}

/// `t` holds the texts of the cells of `rows`: one row of texts per row, one
/// text per cell, each written as [`cell_shown`] with `null` for null.
pub open spec fn is_cell_table(t: Seq<Seq<Seq<char>>>, rows: Seq<Seq<Jv>>) -> bool {
    &&& t.len() == rows.len()
    &&& forall|i: int| 0 <= i < t.len() ==> (#[trigger] t[i]).len() == rows[i].len()
    &&& forall|i: int, k: int|
        0 <= i < t.len() && 0 <= k < t[i].len()
            ==> #[trigger] t[i][k] == cell_shown(rows[i][k], "null"@)
}

proof fn lemma_cell_table_grid(t: Seq<Seq<Seq<char>>>, rows: Seq<Seq<Jv>>)
    requires
        is_cell_table(t, rows),
    ensures
        t == cell_grid(rows),
{
    let g = cell_grid(rows);
    assert forall|i: int| 0 <= i < t.len() implies #[trigger] t[i] == g[i] by {
        assert(t[i] =~= g[i]) by {
            assert forall|k: int| 0 <= k < t[i].len() implies t[i][k] == g[i][k] by {
                assert(t[i][k] == cell_shown(rows[i][k], "null"@));
            }
        }
    }
    assert(t =~= g);
}

proof fn lemma_cell_table_push(t: Seq<Seq<Seq<char>>>, rows: Seq<Seq<Jv>>, tr: Seq<Seq<char>>, row: Seq<Jv>)
    requires
        is_cell_table(t, rows),
        tr.len() == row.len(),
        forall|k: int| 0 <= k < tr.len() ==> #[trigger] tr[k] == cell_shown(row[k], "null"@),
    ensures
        is_cell_table(t.push(tr), rows.push(row)),
{
    let t2 = t.push(tr);
    let r2 = rows.push(row);
    assert forall|i: int| 0 <= i < t2.len() implies (#[trigger] t2[i]).len() == r2[i].len() by {
        if i < t.len() {
            assert(t2[i] == t[i] && r2[i] == rows[i]);
        }
    }
    assert forall|i: int, k: int|
        0 <= i < t2.len() && 0 <= k < t2[i].len()
            implies #[trigger] t2[i][k] == cell_shown(r2[i][k], "null"@) by {
        if i < t.len() {
            assert(t2[i] == t[i] && r2[i] == rows[i]);
        } else {
            assert(t2[i] == tr && r2[i] == row);
        }
    }
}

/// The texts of the cells of the rows that are arrays.
fn cell_rows(rs: &Vec<Json>) -> (res: Vec<Vec<String>>)
    ensures
        is_cell_table(rows_views(res@), array_rows(rs@.map_values(|x: Json| x@))),
{
    let ghost r = rs@.map_values(|x: Json| x@);
    let mut rows: Vec<Vec<String>> = Vec::new();
    let mut i: usize = 0;
    assert(array_rows(r.take(0)) =~= Seq::<Seq<Jv>>::empty());
    assert(rows_views(rows@) =~= Seq::<Seq<Seq<char>>>::empty());
    while i < rs.len()
        invariant
            i <= rs@.len(),
            r == rs@.map_values(|x: Json| x@),
            is_cell_table(rows_views(rows@), array_rows(r.take(i as int))),
        decreases rs@.len() - i,
    {
        proof { lemma_array_rows_step(r, i as int); }
        match &rs[i] {
            Json::Arr(cells) => {
                let ghost cv = cells@.map_values(|x: Json| x@);
                assert(cv =~= r[i as int]->Arr_0);
                let mut texts: Vec<String> = Vec::new();
                let mut c: usize = 0;
                while c < cells.len()
                    invariant
                        c <= cells@.len(),
                        cv == cells@.map_values(|x: Json| x@),
                        texts@.len() == c,
                        forall|k: int| 0 <= k < c ==> (#[trigger] texts@[k])@ == cell_shown(cv[k], "null"@),
                    decreases cells@.len() - c,
                {
                    texts.push(cell_text(&cells[c], "null"));
                    c = c + 1;
                }
                let ghost before = rows@;
                proof {
                    lemma_cell_table_push(rows_views(before), array_rows(r.take(i as int)), views(texts@), cv);
                }
                rows.push(texts);
                assert(rows_views(rows@) =~= rows_views(before).push(views(texts@)));
            },
            _ => {},
        }
        i = i + 1;
    }
    assert(r.take(rs@.len() as int) =~= r);
    rows
}

/// `t` is the text that `prettytable` renders for the table of a reply with
/// headers `h` and rows `r`: the headers' texts as titles, and the texts of the
/// cells of the rows that are arrays.
pub open spec fn is_table_text(t: Seq<char>, h: Seq<Jv>, r: Seq<Jv>) -> bool {
    t == table_text(h.map_values(|x: Jv| title_text(x)), cell_grid(array_rows(r)))
}

/// The JSON text of a value: `null`, `true`, `false` and the decimal digits of
/// a number written here, anything else as `serde_json` writes it compactly.
pub open spec fn json_text_of(v: Jv) -> Seq<char> {
    match v {
        Jv::Null => "null"@,
        Jv::Bool(b) => if b { "true"@ } else { "false"@ },
        Jv::UInt(n) => decimal(n),
        _ => compact_json_of(value_of(v)),
    }
}

/// The JSON text of a value (see [`json_text_of`]).
fn json_text(v: &Json) -> (res: String)
    ensures
        res@ == json_text_of(v@),
{
    match v {
        Json::Null => String::from_str("null"),
        Json::Bool(b) => if *b { String::from_str("true") } else { String::from_str("false") },
        Json::UInt(n) => decimal_text(*n),
        _ => compact_text(&v.to_outside()),
    }
}

/// Whether two values are equal: numbers of this crate's model by their value,
/// anything else as `serde_json` compares the values they are written as.
pub open spec fn same_json(a: Jv, b: Jv) -> bool {
    match (a, b) {
        (Jv::UInt(x), Jv::UInt(y)) => x == y,
        _ => values_equal(value_of(a), value_of(b)),
    }
}

/// Whether two JSON values are equal (see [`same_json`]).
fn same_value(a: &Json, b: &Json) -> (res: bool)
    ensures
        res == same_json(a@, b@),
{
    match (a, b) {
        (Json::UInt(x), Json::UInt(y)) => *x == *y,
        _ => outside_eq(&a.to_outside(), &b.to_outside()),
    }
}

/// The note on the time taken that follows a table: `Elapsed: <ms>ms`.
pub open spec fn elapsed_note(j: Jv) -> Option<Seq<char>> {
    match field(j, "elapsed_ms"@) {
        Some(v) => Some("Elapsed: "@ + json_text_of(v) + "ms"@),
        None => None,
    }
}

/// The note that follows a table when the row counts differ:
/// `Showing <returned> of <total> total rows`.
pub open spec fn paging_note(j: Jv) -> Option<Seq<char>> {
    match (field(j, "total_rows"@), field(j, "returned_rows"@)) {
        (Some(t), Some(r)) => if !same_json(t, r) {
            Some("Showing "@ + json_text_of(r) + " of "@ + json_text_of(t) + " total rows"@)
        } else {
            None
        },
        _ => None,
    }
}

/// A line when there is one, no line otherwise.
pub open spec fn opt_line(o: Option<Seq<char>>) -> Seq<Seq<char>> {
    match o {
        Some(t) => seq![t],
        None => Seq::empty(),
    }
}

/// A reply as a table when it has headers and rows, with the notes for
/// standard error (the time taken, and `Showing <returned> of <total> total
/// rows` when paging left rows out); any other reply as indented JSON, with no
/// notes.
fn table_output(result: &Json) -> (res: (String, Vec<String>))
    ensures
        match tabular(result@) {
            Some((h, r)) => is_table_text(res.0@, h, r),
            None => res.1@.len() == 0,
        },
        match tabular(result@) {
            Some(_) => views(res.1@) == opt_line(elapsed_note(result@)) + opt_line(paging_note(result@)),
            None => res.0@ == pretty_shown(value_of(result@)),
        },
{
    match table_parts(result) {
        Some((hs, rs)) => {
            let titles = titles_of(hs);
            let rows = cell_rows(rs);
            let text = render_table(&titles, &rows);
            proof {
                let h = hs@.map_values(|x: Json| x@);
                let r = rs@.map_values(|x: Json| x@);
                assert(tabular(result@) == Some((h, r)));
                assert(is_cell_table(rows_views(rows@), array_rows(r)));
                assert(text@ == table_text(h.map_values(|x: Jv| title_text(x)), rows_views(rows@)));
                lemma_cell_table_grid(rows_views(rows@), array_rows(r));
                assert(is_table_text(text@, h, r));
            }
            let mut notes: Vec<String> = Vec::new();
            match get(result, "elapsed_ms") {
                Some(e) => {
                    let mut line = String::from_str("Elapsed: ");
                    let t = json_text(e);
                    line.append(t.as_str());
                    line.append("ms");
                    notes.push(line);
                },
                None => {},
            }
            let ghost first = notes@;
            match (get(result, "total_rows"), get(result, "returned_rows")) {
                (Some(total), Some(returned)) => {
                    if !same_value(total, returned) {
                        let mut line = String::from_str("Showing ");
                        let r = json_text(returned);
                        line.append(r.as_str());
                        line.append(" of ");
                        let t = json_text(total);
                        line.append(t.as_str());
                        line.append(" total rows");
                        notes.push(line);
                    }
                },
                _ => {},
            }
            assert(views(first) =~= opt_line(elapsed_note(result@)));
            assert(views(notes@) =~= opt_line(elapsed_note(result@)) + opt_line(paging_note(result@)));
            (text, notes)
        },
        None => (pretty_or_compact(&result.to_outside()), Vec::new()),
    }
}


proof fn lemma_array_rows_step(rows: Seq<Jv>, i: int)
    requires
        0 <= i < rows.len(),
    ensures
        array_rows(rows.take(i + 1)) == match rows[i] {
            Jv::Arr(cells) => array_rows(rows.take(i)).push(cells),
            _ => array_rows(rows.take(i)),
        },
{
    assert(rows.take(i + 1).drop_last() =~= rows.take(i));
}

/// The JSON-lines records of a tabular reply: one per row that is an array.
pub fn jsonl_records(result: &Json) -> (res: Option<Vec<Json>>)
    ensures
        tabular(result@) is None ==> res is None,
        tabular(result@) matches Some((h, r)) ==> (res matches Some(v) && v@.len() == array_rows(r).len()
            && forall|i: int| 0 <= i < v@.len() ==> (#[trigger] v@[i])@ == Jv::Obj(record_fields(h, array_rows(r)[i]))),
{
    match table_parts(result) {
        None => None,
        Some((hs, rs)) => {
            let ghost h = hs@.map_values(|x: Json| x@);
            let ghost r = rs@.map_values(|x: Json| x@);
            let mut out: Vec<Json> = Vec::new();
            let mut i: usize = 0;
            assert(array_rows(r.take(0)) =~= Seq::<Seq<Jv>>::empty());
            while i < rs.len()
                invariant
                    i <= rs@.len(),
                    h == hs@.map_values(|x: Json| x@),
                    r == rs@.map_values(|x: Json| x@),
                    out@.len() == array_rows(r.take(i as int)).len(),
                    forall|k: int| 0 <= k < out@.len() ==> (#[trigger] out@[k])@ == Jv::Obj(record_fields(h, array_rows(r.take(i as int))[k])),
                decreases rs@.len() - i,
            {
                proof { lemma_array_rows_step(r, i as int); }
                match &rs[i] {
                    Json::Arr(cells) => {
                        assert(cells@.map_values(|x: Json| x@) =~= r[i as int]->Arr_0);
                        let rec = record(hs, cells);
                        out.push(rec);
                    },
                    _ => {},
                }
                i = i + 1;
            }
            assert(r.take(rs@.len() as int) =~= r);
            Some(out)
        },
    }
}

/// How a cell is written in CSV: a string (of this crate's model or an outside
/// one) as a CSV field, `null` as nothing, anything else as [`cell_shown`]
/// writes it.
pub open spec fn csv_cell(v: Jv) -> Seq<char> {
    match v {
        Jv::Str(s) => csv_field(s),
        Jv::Ext(x) => if !value_is_null(x) && value_str_of(x) is Some {
            csv_field(value_str_of(x)->0)
        } else {
            outside_cell_text(x, Seq::empty())
        },
        _ => cell_shown(v, Seq::empty()),
    }
}

/// The CSV text of a cell (see [`csv_cell`]).
fn csv_cell_text(v: &Json) -> (res: String)
    ensures
        res@ == csv_cell(v@),
{
    match v {
        Json::Str(s) => csv_quote(s.as_str()),
        Json::Ext(x) => {
            if outside_is_null(x) {
                String::new()
            } else {
                match outside_as_str(x) {
                    Some(t) => csv_quote(t.as_str()),
                    None => compact_text(x),
                }
            }
        },
        _ => {
            let empty = String::new();
            cell_text(v, empty.as_str())
        },
    }
}

/// The CSV line of the column titles.
pub open spec fn csv_header(h: Seq<Jv>) -> Seq<char> {
    joined(h.map_values(|x: Jv| title_text(x)), ","@)
}

/// The CSV line of a row: its cells written by [`csv_cell`], joined by commas.
pub open spec fn csv_row(cells: Seq<Jv>) -> Seq<char> {
    joined(cells.map_values(|x: Jv| csv_cell(x)), ","@)
}

/// The CSV lines of a tabular reply: the titles, then one line per row that is
/// an array.
pub fn csv_lines(result: &Json) -> (res: Option<Vec<String>>)
    ensures
        tabular(result@) is None ==> res is None,
        tabular(result@) matches Some((h, r)) ==> (res matches Some(v) && v@.len() == array_rows(r).len() + 1
            && v@[0]@ == csv_header(h)
            && forall|i: int| 0 <= i < array_rows(r).len() ==> (#[trigger] v@[i + 1])@ == csv_row(array_rows(r)[i])),
{
    match table_parts(result) {
        None => None,
        Some((hs, rs)) => {
            let ghost h = hs@.map_values(|x: Json| x@);
            let ghost r = rs@.map_values(|x: Json| x@);
            let titles = titles_of(hs);
            let header = join(titles.as_slice(), ",");
            let mut out: Vec<String> = Vec::new();
            out.push(header);
            let mut i: usize = 0;
            assert(array_rows(r.take(0)) =~= Seq::<Seq<Jv>>::empty());
            while i < rs.len()
                invariant
                    i <= rs@.len(),
                    r == rs@.map_values(|x: Json| x@),
                    h == hs@.map_values(|x: Json| x@),
                    out@.len() == array_rows(r.take(i as int)).len() + 1,
                    out@[0]@ == csv_header(h),
                    forall|k: int| 0 <= k < array_rows(r.take(i as int)).len() ==> (#[trigger] out@[k + 1])@ == csv_row(array_rows(r.take(i as int))[k]),
                decreases rs@.len() - i,
            {
                proof { lemma_array_rows_step(r, i as int); }
                match &rs[i] {
                    Json::Arr(cells) => {
                        let ghost cv = cells@.map_values(|x: Json| x@);
                        assert(cv =~= r[i as int]->Arr_0);
                        let mut texts: Vec<String> = Vec::new();
                        let mut c: usize = 0;
                        while c < cells.len()
                            invariant
                                c <= cells@.len(),
                                cv == cells@.map_values(|x: Json| x@),
                                texts@.len() == c,
                                forall|k: int| 0 <= k < c ==> (#[trigger] texts@[k])@ == csv_cell(cv[k]),
                            decreases cells@.len() - c,
                        {
                            texts.push(csv_cell_text(&cells[c]));
                            c = c + 1;
                        }
                        let line = join(texts.as_slice(), ",");
                        assert(views(texts@) =~= cv.map_values(|x: Jv| csv_cell(x)));
                        out.push(line);
                    },
                    _ => {},
                }
                i = i + 1;
            }
            assert(r.take(rs@.len() as int) =~= r);
            Some(out)
        },
    }
}

proof fn lemma_format_names()
    ensures
        "json"@ == seq!['j', 's', 'o', 'n'],
        "jsonl"@ == seq!['j', 's', 'o', 'n', 'l'],
        "csv"@ == seq!['c', 's', 'v'],
        "json"@.len() == 4,
        "jsonl"@.len() == 5,
        "csv"@.len() == 3,
{
    reveal_strlit("json");
    reveal_strlit("jsonl");
    reveal_strlit("csv");
}

/// Whether two texts are the same.
fn same_text(a: &str, b: &str) -> (res: bool)
    ensures
        res == (a@ == b@),
{
    String::from_str(a) == String::from_str(b)
}

/// The JSON lines of a reply: for a tabular reply, the compact JSON text of the
/// record of each row that is an array; otherwise the compact JSON text of the
/// whole reply.
pub open spec fn jsonl_lines(j: Jv) -> Seq<Seq<char>> {
    match tabular(j) {
        Some((h, r)) => array_rows(r).map_values(|cells: Seq<Jv>| compact_json_of(value_of(Jv::Obj(record_fields(h, cells))))),
        None => seq![compact_json_of(value_of(j))],
    }
}

/// The CSV lines of a reply: for a tabular reply, the titles and then one line
/// per row that is an array; otherwise the compact JSON text of the whole reply.
pub open spec fn csv_output(j: Jv) -> Seq<Seq<char>> {
    match tabular(j) {
        Some((h, r)) => seq![csv_header(h)] + array_rows(r).map_values(|cells: Seq<Jv>| csv_row(cells)),
        None => seq![compact_json_of(value_of(j))],
    }
}

/// The lines printed for a reply in `format` (`json`, `jsonl`, `csv`, anything
/// else meaning a table): indented JSON; one JSON object per row; CSV with a
/// title line; or a table with the time taken and any paging note on standard
/// error. Replies that are not tabular are printed as JSON. A failed reply with
/// a message adds `Error: <message>` on standard error.
pub fn format_output(result: &Json, format: &str) -> (res: Printed)
    ensures
        format@ == "json"@ ==> views(res.out@) == seq![pretty_shown(value_of(result@))],
        format@ == "jsonl"@ ==> views(res.out@) == jsonl_lines(result@),
        format@ == "csv"@ ==> views(res.out@) == csv_output(result@),
        format@ != "json"@ && format@ != "jsonl"@ && format@ != "csv"@ ==> res.out@.len() == 1 && match tabular(result@) {
            Some((h, r)) => is_table_text(res.out@[0]@, h, r),
            None => res.out@[0]@ == pretty_shown(value_of(result@)),
        },
        (format@ == "json"@ || format@ == "jsonl"@ || format@ == "csv"@ || tabular(result@) is None) ==> views(res.err@) == opt_line(error_note(result@)),
        (format@ != "json"@ && format@ != "jsonl"@ && format@ != "csv"@ && tabular(result@) is Some) ==>
            views(res.err@) == opt_line(elapsed_note(result@)) + opt_line(paging_note(result@)) + opt_line(error_note(result@)),
{
    proof { lemma_format_names(); }
    let mut out: Vec<String> = Vec::new();
    let mut err: Vec<String> = Vec::new();
    if same_text(format, "json") {
        out.push(pretty_or_compact(&result.to_outside()));
        assert(views(out@) =~= seq![pretty_shown(value_of(result@))]);
    } else if same_text(format, "jsonl") {
        match jsonl_records(result) {
            Some(recs) => {
                let ghost h = tabular_headers(result@);
                let ghost rows = array_rows(tabular_rows(result@));
                let ghost lines = jsonl_lines(result@);
                assert(recs@.len() == rows.len());
                let mut i: usize = 0;
                while i < recs.len()
                    invariant
                        i <= recs@.len(),
                        recs@.len() == rows.len(),
                        lines == rows.map_values(|cells: Seq<Jv>| compact_json_of(value_of(Jv::Obj(record_fields(h, cells))))),
                        forall|k: int| 0 <= k < recs@.len() ==> (#[trigger] recs@[k])@ == Jv::Obj(record_fields(h, rows[k])),
                        out@.len() == i,
                        forall|k: int| 0 <= k < i ==> (#[trigger] out@[k])@ == lines[k],
                    decreases recs@.len() - i,
                {
                    out.push(compact_text(&recs[i].to_outside()));
                    i = i + 1;
                }
                assert(views(out@) =~= lines);
            },
            None => {
                out.push(compact_text(&result.to_outside()));
                assert(views(out@) =~= jsonl_lines(result@));
            },
        }
    } else if same_text(format, "csv") {
        match csv_lines(result) {
            Some(lines) => {
                let ghost t = tabular(result@);
                let ghost rows = array_rows(tabular_rows(result@));
                assert(views(lines@) =~= csv_output(result@)) by {
                    assert forall|k: int| 0 <= k < lines@.len() implies views(lines@)[k] == csv_output(result@)[k] by {
                        if k > 0 {
                            assert(lines@[(k - 1) + 1]@ == csv_row(rows[k - 1]));
                        }
                    }
                }
                out = lines;
            },
            None => {
                out.push(compact_text(&result.to_outside()));
                assert(views(out@) =~= csv_output(result@));
            },
        }
    } else {
        let (text, notes) = table_output(result);
        out.push(text);
        err = notes;
    }
    let ghost notes = err@;
    match error_line(result) {
        Some(e) => err.push(e),
        None => {},
    }
    assert(views(err@) =~= views(notes) + opt_line(error_note(result@)));
    Printed { out, err }
}

/// The text `Invalid rename pair '<pair>'. Expected 'from:to'`.
pub open spec fn bad_pair_message(pair: Seq<char>) -> Seq<char> {
    "Invalid rename pair '"@ + pair + "'. Expected 'from:to'"@
}

/// A rename given as `from:to`: the two sides of its only colon; any other
/// number of colons is an error.
pub fn parse_rename_pair(pair: &str) -> (res: Result<(String, String), String>)
    ensures
        res is Ok <==> split_on(pair@, ':').len() == 2,
        res is Ok ==> res->Ok_0.0@ == split_on(pair@, ':')[0] && res->Ok_0.1@ == split_on(pair@, ':')[1],
        res is Err ==> res->Err_0@ == bad_pair_message(pair@),
{
    let cs = chars_of(pair);
    let parts = split_char(cs.as_slice(), ':');
    if parts.len() != 2 {
        let mut m = String::from_str("Invalid rename pair '");
        m.append(pair);
        m.append("'. Expected 'from:to'");
        Err(m)
    } else {
        let from = string_of(parts[0].as_slice(), 0, parts[0].len());
        let to = string_of(parts[1].as_slice(), 0, parts[1].len());
        assert(parts@[0]@.subrange(0, parts@[0]@.len() as int) =~= parts@[0]@);
        assert(parts@[1]@.subrange(0, parts@[1]@.len() as int) =~= parts@[1]@);
        Ok((from, to))
    }
}

/// Law: a rename written `from:to`, from two names without a colon, parses back
/// into those two names.
pub proof fn law_rename_pair_round_trip(from: Seq<char>, to: Seq<char>)
    requires
        !from.contains(':'),
        !to.contains(':'),
    ensures
        split_on(from + seq![':'] + to, ':') == seq![from, to],
{
    crate::text::lemma_split_append_plain(Seq::empty(), from, ':');
    assert(Seq::<char>::empty() + from =~= from);
    assert(split_on(Seq::<char>::empty(), ':') == seq![Seq::<char>::empty()]);
    assert(split_on(from, ':') =~= seq![from]);
    let fc = from + seq![':'];
    assert(fc.drop_last() =~= from);
    assert(fc.last() == ':');
    assert(split_on(fc, ':') =~= seq![from, Seq::<char>::empty()]);
    crate::text::lemma_split_append_plain(fc, to, ':');
    assert(Seq::<char>::empty() + to =~= to);
    assert(split_on(fc + to, ':') =~= seq![from, to]);
}

/// All renames given as `from:to`, or the error of the first that is not.
pub fn parse_rename_pairs(pairs: &[String]) -> (res: Result<Vec<(String, String)>, String>)
    ensures
        res matches Ok(v) ==> v@.len() == pairs@.len()
            && (forall|i: int| 0 <= i < pairs@.len() ==> split_on(#[trigger] pairs@[i]@, ':').len() == 2)
            && (forall|i: int| 0 <= i < pairs@.len() ==> (#[trigger] v@[i]).0@ == split_on(pairs@[i]@, ':')[0] && v@[i].1@ == split_on(pairs@[i]@, ':')[1]),
        res matches Err(m) ==> exists|i: int| 0 <= i < pairs@.len() && split_on(pairs@[i]@, ':').len() != 2 && m@ == bad_pair_message(pairs@[i]@)
            && forall|j: int| 0 <= j < i ==> split_on(#[trigger] pairs@[j]@, ':').len() == 2,
        (forall|i: int| 0 <= i < pairs@.len() ==> split_on(#[trigger] pairs@[i]@, ':').len() == 2) ==> res is Ok,
{
    let mut out: Vec<(String, String)> = Vec::new();
    let mut i: usize = 0;
    while i < pairs.len()
        invariant
            i <= pairs@.len(),
            out@.len() == i,
            forall|k: int| 0 <= k < i ==> split_on(#[trigger] pairs@[k]@, ':').len() == 2,
            forall|k: int| 0 <= k < i ==> (#[trigger] out@[k]).0@ == split_on(pairs@[k]@, ':')[0] && out@[k].1@ == split_on(pairs@[k]@, ':')[1],
        decreases pairs@.len() - i,
    {
        let r = parse_rename_pair(pairs[i].as_str());
        match r {
            Ok(p) => {
                assert(split_on(pairs@[i as int]@, ':').len() == 2);
                assert(p.0@ == split_on(pairs@[i as int]@, ':')[0]);
                out.push(p);
                assert(out@[i as int].0@ == split_on(pairs@[i as int]@, ':')[0]);
            },
            Err(m) => {
                return Err(m);
            },
        }
        i = i + 1;
    }
    Ok(out)
}

/// A comma-separated list: the pieces between the commas, each trimmed of
/// surrounding whitespace.
pub fn split_list(s: &str) -> (res: Vec<String>)
    ensures
        res@.len() == split_on(s@, ',').len(),
        forall|i: int| 0 <= i < res@.len() ==> (#[trigger] res@[i])@ == trimmed(split_on(s@, ',')[i]),
{
    let cs = chars_of(s);
    let parts = split_char(cs.as_slice(), ',');
    let mut out: Vec<String> = Vec::new();
    let mut i: usize = 0;
    while i < parts.len()
        invariant
            i <= parts@.len(),
            cs@ == s@,
            parts@.len() == split_on(s@, ',').len(),
            forall|k: int| 0 <= k < parts@.len() ==> (#[trigger] parts@[k])@ == split_on(s@, ',')[k],
            out@.len() == i,
            forall|k: int| 0 <= k < i ==> (#[trigger] out@[k])@ == trimmed(split_on(s@, ',')[k]),
        decreases parts@.len() - i,
    {
        out.push(trim(parts[i].as_slice()));
        i = i + 1;
    }
    out
}

/// What `serde_json::from_str` gives for `text` read as a map from parameter
/// name to JSON value: the map's entries, or the text of its error.
pub uninterp spec fn param_map_parse(text: Seq<char>) -> Result<Map<String, serde_json::Value>, Seq<char>>;

/// `serde_json::from_str` into a map from parameter name to JSON value, the
/// error as text.
#[verifier::external_body]
fn parse_param_map(text: &str) -> (res: Result<BTreeMap<String, serde_json::Value>, String>)
    ensures
        match res {
            Ok(m) => param_map_parse(text@) == Ok::<Map<String, serde_json::Value>, Seq<char>>(m@),
            Err(e) => param_map_parse(text@) == Err::<Map<String, serde_json::Value>, Seq<char>>(e@),
        },
{
    serde_json::from_str(text).map_err(|e| e.to_string())
}

/// The parameters from the outcome of parsing them: the map, or `Invalid params
/// JSON: <error>`.
pub fn params_result(parsed: Result<BTreeMap<String, serde_json::Value>, String>) -> (res: Result<BTreeMap<String, serde_json::Value>, String>)
    ensures
        match parsed {
            Ok(m) => res == Ok::<BTreeMap<String, serde_json::Value>, String>(m),
            Err(e) => res matches Err(msg) && msg@ == "Invalid params JSON: "@ + e@,
        },
{
    match parsed {
        Ok(m) => Ok(m),
        Err(e) => {
            let mut m = String::from_str("Invalid params JSON: ");
            m.append(e.as_str());
            Err(m)
        },
    }
}

/// The query parameters given as a JSON object, or `Invalid params JSON: <error>`.
pub fn parse_params(text: &str) -> (res: Result<BTreeMap<String, serde_json::Value>, String>)
    ensures
        match param_map_parse(text@) {
            Ok(m) => res matches Ok(p) && p@ == m,
            Err(e) => res matches Err(msg) && msg@ == "Invalid params JSON: "@ + e,
        },
{
    params_result(parse_param_map(text))
}

/// What `serde_json::from_str` gives for `text` read as any JSON value: the
/// value, or the text of its error.
pub uninterp spec fn json_value_parse(text: Seq<char>) -> Result<serde_json::Value, Seq<char>>;

/// `serde_json::from_str` into a JSON value, the error as text.
#[verifier::external_body]
pub(crate) fn parse_json_value(text: &str) -> (res: Result<serde_json::Value, String>)
    ensures
        match res {
            Ok(v) => json_value_parse(text@) == Ok::<serde_json::Value, Seq<char>>(v),
            Err(e) => json_value_parse(text@) == Err::<serde_json::Value, Seq<char>>(e@),
        },
{
    serde_json::from_str(text).map_err(|e| e.to_string())
}

/// The parameters of a query sent to a server, from the outcome of parsing
/// them: the JSON value as it is, or `Invalid params JSON: <error>`.
pub fn params_value_result(parsed: Result<serde_json::Value, String>) -> (res: Result<serde_json::Value, String>)
    ensures
        match parsed {
            Ok(v) => res == Ok::<serde_json::Value, String>(v),
            Err(e) => res matches Err(msg) && msg@ == "Invalid params JSON: "@ + e@,
        },
{
    match parsed {
        Ok(v) => Ok(v),
        Err(e) => {
            let mut m = String::from_str("Invalid params JSON: ");
            m.append(e.as_str());
            Err(m)
        },
    }
}

/// The parameters of a query sent to a server: any JSON value, or `Invalid
/// params JSON: <error>`.
pub fn parse_params_value(text: &str) -> (res: Result<serde_json::Value, String>)
    ensures
        match json_value_parse(text@) {
            Ok(v) => res == Ok::<serde_json::Value, String>(v),
            Err(e) => res matches Err(msg) && msg@ == "Invalid params JSON: "@ + e,
        },
{
    params_value_result(parse_json_value(text))
}

/// The JSON of a file from the outcome of parsing it: the value, or `Invalid
/// JSON in file: <error>`.
pub fn file_json_result(parsed: Result<serde_json::Value, String>) -> (res: Result<serde_json::Value, String>)
    ensures
        match parsed {
            Ok(v) => res == Ok::<serde_json::Value, String>(v),
            Err(e) => res matches Err(msg) && msg@ == "Invalid JSON in file: "@ + e@,
        },
{
    match parsed {
        Ok(v) => Ok(v),
        Err(e) => {
            let mut m = String::from_str("Invalid JSON in file: ");
            m.append(e.as_str());
            Err(m)
        },
    }
}

/// The JSON content of a file, or `Invalid JSON in file: <error>`.
pub fn parse_file_json(text: &str) -> (res: Result<serde_json::Value, String>)
    ensures
        match json_value_parse(text@) {
            Ok(v) => res == Ok::<serde_json::Value, String>(v),
            Err(e) => res matches Err(msg) && msg@ == "Invalid JSON in file: "@ + e,
        },
{
    file_json_result(parse_json_value(text))
}

/// `l` without one trailing carriage return.
pub open spec fn strip_cr(l: Seq<char>) -> Seq<char> {
    if l.len() > 0 && l.last() == '\r' { l.drop_last() } else { l }
}

/// `s.lines()`: the pieces between newlines, each without the carriage return
/// before its newline; a final empty piece (after a last newline, or of an
/// empty text) is not a line.
pub open spec fn lines_of(s: Seq<char>) -> Seq<Seq<char>> {
    let p = split_on(s, '\n');
    let ended = p.drop_last().map_values(|l: Seq<char>| strip_cr(l));
    if p.last().len() == 0 { ended } else { ended.push(p.last()) }
}

/// The payloads of the `data: ` lines of an event stream, in order.
pub open spec fn data_payloads(lines: Seq<Seq<char>>) -> Seq<Seq<char>>
    decreases lines.len(),
{
    if lines.len() == 0 {
        Seq::empty()
    } else {
        let rest = data_payloads(lines.drop_last());
        let l = lines.last();
        if l.len() >= 6 && l.take(6) == "data: "@ {
            rest.push(l.skip(6))
        } else {
            rest
        }
    }
}

proof fn lemma_data_payloads_step(lines: Seq<Seq<char>>, i: int)
    requires
        0 <= i < lines.len(),
    ensures
        data_payloads(lines.take(i + 1)) == {
            let l = lines[i];
            if l.len() >= 6 && l.take(6) == "data: "@ {
                data_payloads(lines.take(i)).push(l.skip(6))
            } else {
                data_payloads(lines.take(i))
            }
        },
{
    assert(lines.take(i + 1).drop_last() =~= lines.take(i));
}

/// One payload of an event stream: its JSON value when it parses, its text as
/// it is otherwise.
pub enum StreamItem {
    Value(serde_json::Value),
    Text(String),
}

/// The item of the payload `p` (see [`StreamItem`]).
pub open spec fn stream_item_of(p: Seq<char>, item: StreamItem) -> bool {
    match json_value_parse(p) {
        Ok(v) => item == StreamItem::Value(v),
        Err(_) => item matches StreamItem::Text(t) && t@ == p,
    }
}

/// The payloads of the `data: ` lines of an event-stream body, each read as
/// JSON where it parses.
pub fn stream_items(body: &str) -> (res: Vec<StreamItem>)
    ensures
        res@.len() == data_payloads(lines_of(body@)).len(),
        forall|i: int| 0 <= i < res@.len() ==> stream_item_of(data_payloads(lines_of(body@))[i], #[trigger] res@[i]),
{
    let payloads = sse_payloads(body);
    let mut out: Vec<StreamItem> = Vec::new();
    let mut i: usize = 0;
    while i < payloads.len()
        invariant
            i <= payloads@.len(),
            payloads@.len() == data_payloads(lines_of(body@)).len(),
            forall|k: int| 0 <= k < payloads@.len() ==> (#[trigger] payloads@[k])@ == data_payloads(lines_of(body@))[k],
            out@.len() == i,
            forall|k: int| 0 <= k < i ==> stream_item_of(data_payloads(lines_of(body@))[k], #[trigger] out@[k]),
        decreases payloads@.len() - i,
    {
        let item = match parse_json_value(payloads[i].as_str()) {
            Ok(v) => StreamItem::Value(v),
            Err(_) => StreamItem::Text(payloads[i].clone()),
        };
        assert(payloads@[i as int]@ == data_payloads(lines_of(body@))[i as int]);
        out.push(item);
        i = i + 1;
    }
    out
}

/// The payloads of the `data: ` lines of an event-stream body.
pub fn sse_payloads(body: &str) -> (res: Vec<String>)
    ensures
        res@.len() == data_payloads(lines_of(body@)).len(),
        forall|i: int| 0 <= i < res@.len() ==> (#[trigger] res@[i])@ == data_payloads(lines_of(body@))[i],
{
    proof {
        lemma_split_len_pos(body@);
        reveal_strlit("data: ");
    }
    let cs = chars_of(body);
    let pieces = split_char(cs.as_slice(), '\n');
    let ghost p = split_on(body@, '\n');
    let ghost ls = lines_of(body@);
    let n = pieces.len();
    let mut out: Vec<String> = Vec::new();
    let mut i: usize = 0;
    assert(data_payloads(ls.take(0)) =~= Seq::<Seq<char>>::empty());
    let last_empty = pieces[n - 1].len() == 0;
    let count: usize = if last_empty { n - 1 } else { n };
    assert(ls.len() == count);
    while i < count
        invariant
            n == pieces@.len(),
            n >= 1,
            p == split_on(body@, '\n'),
            ls == lines_of(body@),
            pieces@.len() == p.len(),
            forall|k: int| 0 <= k < pieces@.len() ==> (#[trigger] pieces@[k])@ == p[k],
            count == ls.len(),
            last_empty == (p.last().len() == 0),
            count as int == (if last_empty { n - 1 } else { n as int }),
            i <= count,
            out@.len() == data_payloads(ls.take(i as int)).len(),
            forall|k: int| 0 <= k < out@.len() ==> (#[trigger] out@[k])@ == data_payloads(ls.take(i as int))[k],
            "data: "@ == seq!['d', 'a', 't', 'a', ':', ' '],
        decreases count - i,
    {
        let piece = &pieces[i];
        let mut len = piece.len();
        if i + 1 < n && len > 0 && piece[len - 1] == '\r' {
            len = len - 1;
        }
        let ghost line = ls[i as int];
        assert(piece@.take(len as int) =~= line);
        proof { lemma_data_payloads_step(ls, i as int); }
        if len >= 6 && piece[0] == 'd' && piece[1] == 'a' && piece[2] == 't' && piece[3] == 'a' && piece[4] == ':' && piece[5] == ' ' {
            assert(line.take(6) =~= "data: "@);
            let payload = string_of(piece.as_slice(), 6, len);
            assert(payload@ =~= line.skip(6));
            out.push(payload);
        } else {
            assert(!(line.len() >= 6 && line.take(6) == "data: "@)) by {
                if line.len() >= 6 && line.take(6) == "data: "@ {
                    assert(line.take(6)[0] == 'd');
                    assert(line.take(6)[5] == ' ');
                }
            }
        }
        i = i + 1;
    }
    assert(ls.take(count as int) =~= ls);
    out
}

proof fn lemma_split_len_pos(s: Seq<char>)
    ensures
        split_on(s, '\n').len() >= 1,
    decreases s.len(),
{
    if s.len() > 0 {
        lemma_split_len_pos(s.drop_last());
    }
}

/// The message given when a change stream is asked of the embedded backend.
pub fn watch_unavailable() -> (res: String)
    ensures
        res@ == "Watch is only available in remote mode (--remote)"@,
{
    String::from_str("Watch is only available in remote mode (--remote)")
}

} // verus!
