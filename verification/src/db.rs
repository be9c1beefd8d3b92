//! The calls into the CozoDB engine (`cozo`) and into the clock, each behind a
//! trusted wrapper, and the plain form in which this crate holds a result.
//!
//! What the engine answers depends on the database's contents, so no wrapper
//! here promises what a script returns; the verified code states what holds of
//! every answer and builds its replies from whatever came back.

use std::collections::BTreeMap;
use vstd::prelude::*;
use crate::json::{Json, Jv};
use crate::engine::{self, Asked, Database, ExportAsked, Tx};
use crate::text::views;

verus! {

/// `cozo::DbInstance`: an open database.
#[verifier::external_type_specification]
#[verifier::external_body]
pub struct ExDbInstance(cozo::DbInstance);

/// `cozo::DataValue`: one cell of a result row.
#[verifier::external_type_specification]
#[verifier::external_body]
pub struct ExDataValue(cozo::DataValue);

/// `cozo::NamedRows`: the result of a script.
#[verifier::external_type_specification]
#[verifier::external_body]
pub struct ExNamedRows(cozo::NamedRows);

/// `cozo::MultiTransaction`: an open transaction.
#[verifier::external_type_specification]
#[verifier::external_body]
pub struct ExMultiTransaction(cozo::MultiTransaction);

/// `std::time::Instant`: the moment a request started.
#[verifier::external_type_specification]
#[verifier::external_body]
pub struct ExInstant(std::time::Instant);

/// The result of one script, as this crate holds it: the column names, the rows,
/// and the JSON of the results of any further statements (`null` when none).
pub struct DbRows {
    pub headers: Vec<String>,
    pub rows: Vec<Vec<cozo::DataValue>>,
    pub next: Json,
}

/// The error text for an engine that this build does not hold.
pub open spec fn unsupported_engine(engine: Seq<char>) -> Seq<char> {
    "database engine '"@ + engine + "' not supported (maybe not compiled in)"@
}

/// What `cozo::NamedRows::flatten` gives for a result: the result followed by
/// the results chained after it, in order, each as its column names and rows.
pub uninterp spec fn flattened_of(nr: cozo::NamedRows) -> Seq<(Seq<Seq<char>>, Seq<Vec<cozo::DataValue>>)>;

/// The column names and rows of a list of results, by their views.
pub open spec fn parts_view(p: Seq<(Vec<String>, Vec<Vec<cozo::DataValue>>)>) -> Seq<(Seq<Seq<char>>, Seq<Vec<cozo::DataValue>>)> {
    p.map_values(|x: (Vec<String>, Vec<Vec<cozo::DataValue>>)| (views(x.0@), x.1@))
}

/// `cozo::NamedRows::flatten`, each result's column names and rows moved out:
/// the list named [`flattened_of`] of `nr`. The source always puts the result
/// itself first, so the list is never empty.
#[verifier::external_body]
fn flatten_rows(nr: cozo::NamedRows) -> (res: Vec<(Vec<String>, Vec<Vec<cozo::DataValue>>)>)
    ensures
        parts_view(res@) == flattened_of(nr),
        res@.len() >= 1,
{
    nr.flatten().into_iter().map(|n| (n.headers, n.rows)).collect()
}

/// `d` holds the result `nr` of the engine: its column names and rows, and the
/// results chained after it as the JSON of `next`.
pub open spec fn is_rows_of(d: DbRows, nr: cozo::NamedRows) -> bool {
    let p = flattened_of(nr);
    &&& p.len() >= 1
    &&& views(d.headers@) == p[0].0
    &&& d.rows@ == p[0].1
    &&& crate::reply::is_chain_json(d.next@, p, 1)
}

/// A result of the engine as this crate holds it (see [`is_rows_of`]).
pub(crate) fn rows_of(nr: cozo::NamedRows) -> (res: DbRows)
    ensures
        is_rows_of(res, nr),
{
    let parts = flatten_rows(nr);
    let ghost p = parts@;
    let res = crate::reply::chain_rows(parts);
    assert(parts_view(p)[0] == (views(p[0].0@), p[0].1@));
    res
}

/// The kinds of cell that a reply tells apart: null, strings, the bottom value
/// (on which `cozo`'s conversion to JSON panics), vectors (whose array it
/// unwraps), lists and sets (converted item by item), and every other cell.
pub enum CellKind {
    Null,
    Str,
    Bottom,
    Vector,
    Collection,
    Plain,
}

/// The kind of a cell, as `cell_kind` tells it.
pub uninterp spec fn cell_kind_of(c: cozo::DataValue) -> CellKind;

/// The items of a list or set cell, as `cell_items` gives them.
pub uninterp spec fn cell_items_of(c: cozo::DataValue) -> Seq<cozo::DataValue>;

/// What `serde_json::Value::from(c)` (`cozo`'s conversion) returns for a cell.
pub uninterp spec fn cell_json_of(c: cozo::DataValue) -> serde_json::Value;

/// The text of a cell as `cell_text` gives it.
pub uninterp spec fn cell_text_of(c: cozo::DataValue) -> Seq<char>;

/// Which variant of `cozo::DataValue` a cell is: `Null`, `Str`, `Bot`, `Vec`,
/// `List` or `Set`, or any other.
#[verifier::external_body]
pub(crate) fn cell_kind(cell: &cozo::DataValue) -> (res: CellKind)
    ensures
        res == cell_kind_of(*cell),
{
    match cell {
        cozo::DataValue::Null => CellKind::Null,
        cozo::DataValue::Str(_) => CellKind::Str,
        cozo::DataValue::Bot => CellKind::Bottom,
        cozo::DataValue::Vec(_) => CellKind::Vector,
        cozo::DataValue::List(_) => CellKind::Collection,
        cozo::DataValue::Set(_) => CellKind::Collection,
        cozo::DataValue::Bool(_) => CellKind::Plain,
        cozo::DataValue::Num(_) => CellKind::Plain,
        cozo::DataValue::Bytes(_) => CellKind::Plain,
        cozo::DataValue::Uuid(_) => CellKind::Plain,
        cozo::DataValue::Regex(_) => CellKind::Plain,
        cozo::DataValue::Json(_) => CellKind::Plain,
        cozo::DataValue::Validity(_) => CellKind::Plain,
    }
}

/// The items of a `DataValue::List` or `DataValue::Set` cell, cloned, in the
/// order the collection iterates them.
#[verifier::external_body]
pub(crate) fn cell_items(cell: &cozo::DataValue) -> (res: Vec<cozo::DataValue>)
    requires
        cell_kind_of(*cell) == CellKind::Collection,
    ensures
        res@ == cell_items_of(*cell),
{
    match cell {
        cozo::DataValue::List(l) => l.clone(),
        cozo::DataValue::Set(s) => s.iter().cloned().collect(),
        _ => Vec::new(),
    }
}

/// What `as_slice` on the array of a vector cell gives: whether the array is
/// laid out as one contiguous slice.
pub uninterp spec fn vector_is_slice_of(c: cozo::DataValue) -> bool;

/// Whether the array of a `DataValue::Vec` cell is one contiguous slice
/// (`as_slice` returns `Some`): the result named [`vector_is_slice_of`].
#[verifier::external_body]
pub(crate) fn vector_is_slice(cell: &cozo::DataValue) -> (res: bool)
    requires
        cell_kind_of(*cell) == CellKind::Vector,
    ensures
        res == vector_is_slice_of(*cell),
{
    match cell {
        cozo::DataValue::Vec(cozo::Vector::F32(a)) => a.as_slice().is_some(),
        cozo::DataValue::Vec(cozo::Vector::F64(a)) => a.as_slice().is_some(),
        _ => false,
    }
}

/// How deep lists and sets are followed when a cell is checked before its
/// conversion to JSON: the checks need a bound to end, and no nesting that
/// fits in memory reaches this one.
pub const CELL_DEPTH: u64 = 18446744073709551615;

/// `cozo`'s conversion of cell `c` to JSON returns, within `depth` levels of
/// lists and sets: it meets no bottom value and no vector whose array is not
/// one contiguous slice, at any level.
pub open spec fn json_ready(c: cozo::DataValue, depth: nat) -> bool
    decreases depth,
{
    match cell_kind_of(c) {
        CellKind::Bottom => false,
        CellKind::Vector => vector_is_slice_of(c),
        CellKind::Null | CellKind::Str | CellKind::Plain => true,
        CellKind::Collection => depth > 0 && forall|i: int|
            0 <= i < cell_items_of(c).len() ==> json_ready(#[trigger] cell_items_of(c)[i], (depth - 1) as nat),
    }
}

/// Whether cell `c` can be converted to JSON (see [`json_ready`]).
pub fn cell_ready(c: &cozo::DataValue, depth: u64) -> (res: bool)
    ensures
        res == json_ready(*c, depth as nat),
    decreases depth,
{
    match cell_kind(c) {
        CellKind::Bottom => false,
        CellKind::Vector => vector_is_slice(c),
        CellKind::Null | CellKind::Str | CellKind::Plain => true,
        CellKind::Collection => {
            if depth == 0 {
                return false;
            }
            let items = cell_items(c);
            let mut i: usize = 0;
            while i < items.len()
                invariant
                    0 < depth,
                    items@ == cell_items_of(*c),
                    cell_kind_of(*c) == CellKind::Collection,
                    i <= items@.len(),
                    forall|k: int| 0 <= k < i ==> json_ready(#[trigger] items@[k], (depth - 1) as nat),
                decreases items@.len() - i,
            {
                if !cell_ready(&items[i], depth - 1) {
                    return false;
                }
                i = i + 1;
            }
            true
        },
    }
}

/// `serde_json::Value::from(cell)` (the conversion that `cozo` provides), kept
/// as JSON from outside the crate. The conversion panics on the bottom value
/// and unwraps the slice of a vector's array, so it is only called on cells that
/// [`json_ready`] admits.
#[verifier::external_body]
pub(crate) fn cell_json(cell: &cozo::DataValue) -> (res: Json)
    requires
        json_ready(*cell, CELL_DEPTH as nat),
    ensures
        res@ == Jv::Ext(cell_json_of(*cell)),
{
    Json::Ext(serde_json::Value::from(cell.clone()))
}

/// The text of a cell: a string cell's own text, any other cell as `cozo`
/// displays it (`Display for DataValue`).
#[verifier::external_body]
pub(crate) fn cell_text(cell: &cozo::DataValue) -> (res: String)
    ensures
        res@ == cell_text_of(*cell),
{
    match cell {
        cozo::DataValue::Str(s) => s.to_string(),
        other => format!("{}", other),
    }
}

/// The JSON of a cell in a reply: `null` for null, the string of a string
/// cell, `cozo`'s own JSON for any other cell that can be converted, and its
/// text as a JSON string otherwise (a bottom value or a vector whose array is
/// not one slice, on which the conversion would panic, or a list or set
/// holding one).
pub open spec fn cell_model(c: cozo::DataValue) -> Jv {
    match cell_kind_of(c) {
        CellKind::Null => Jv::Null,
        CellKind::Str => Jv::Str(cell_text_of(c)),
        _ => if json_ready(c, CELL_DEPTH as nat) {
            Jv::Ext(cell_json_of(c))
        } else {
            Jv::Str(cell_text_of(c))
        },
    }
}

/// The JSON of a cell in a reply (see [`cell_model`]): for every cell other
/// than null and strings that `cozo` can convert (lists and sets among them),
/// `cozo`'s own JSON of it.
pub fn cell_value(c: &cozo::DataValue) -> (res: Json)
    ensures
        res@ == cell_model(*c),
        cell_kind_of(*c) != CellKind::Null && cell_kind_of(*c) != CellKind::Str && json_ready(*c, CELL_DEPTH as nat)
            ==> res@ == Jv::Ext(cell_json_of(*c)),
{
    match cell_kind(c) {
        CellKind::Null => Json::Null,
        CellKind::Str => Json::Str(cell_text(c)),
        _ => if cell_ready(c, CELL_DEPTH) {
            cell_json(c)
        } else {
            Json::Str(cell_text(c))
        },
    }
}

/// Law: a cell in a reply is `cozo`'s own JSON of it whenever `cozo` can
/// convert it, except null and strings: in particular a list or set cell whose
/// items all convert is the JSON array that `cozo` makes, never a text.
pub proof fn law_convertible_cells_are_cozo_json(c: cozo::DataValue)
    requires
        cell_kind_of(c) != CellKind::Null,
        cell_kind_of(c) != CellKind::Str,
        json_ready(c, CELL_DEPTH as nat),
    ensures
        cell_model(c) == Jv::Ext(cell_json_of(c)),
{
}

/// Law: a list or set cell whose items all convert is kept as `cozo`'s JSON
/// of it, not as its text.
pub proof fn law_collection_cells_are_arrays(c: cozo::DataValue)
    requires
        cell_kind_of(c) == CellKind::Collection,
        json_ready(c, CELL_DEPTH as nat),
    ensures
        cell_model(c) == Jv::Ext(cell_json_of(c)),
        !(cell_model(c) is Str),
{
}

/// The set of texts of a list of strings.
pub open spec fn text_set(v: Seq<String>) -> Set<Seq<char>> {
    Set::new(|k: Seq<char>| exists|i: int| 0 <= i < v.len() && v[i]@ == k)
}

/// The set of names of a list of (name, rows) pairs.
pub open spec fn named_set(v: Seq<(String, cozo::NamedRows)>) -> Set<Seq<char>> {
    Set::new(|k: Seq<char>| exists|i: int| 0 <= i < v.len() && v[i].0@ == k)
}

/// What `serde_json::Value::as_object` gives for `v`: the fields of an object,
/// in the order the map holds them, or `None` for any other value.
pub uninterp spec fn object_fields_of(v: serde_json::Value) -> Option<Seq<(Seq<char>, serde_json::Value)>>;

/// The fields of a list of (name, value) pairs, names by their text.
pub open spec fn pair_views(f: Seq<(String, serde_json::Value)>) -> Seq<(Seq<char>, serde_json::Value)> {
    f.map_values(|p: (String, serde_json::Value)| (p.0@, p.1))
}

/// `serde_json::Value::as_object`, the fields copied out as a list of pairs:
/// the fields named [`object_fields_of`] of `v`.
#[verifier::external_body]
pub(crate) fn object_fields(v: &serde_json::Value) -> (res: Option<Vec<(String, serde_json::Value)>>)
    ensures
        match res {
            Some(f) => object_fields_of(*v) == Some(pair_views(f@)),
            None => object_fields_of(*v) is None,
        },
{
    v.as_object().map(|o| o.iter().map(|(k, v)| (k.clone(), v.clone())).collect())
}

/// What `cozo::NamedRows::from_json` gives for `v`: the rows it reads, or the
/// text of its error.
pub uninterp spec fn rows_from_json_of(v: serde_json::Value) -> Result<cozo::NamedRows, Seq<char>>;

/// What `cozo::NamedRows::from_json` reports for `v`: the text of its error, or
/// `None` where it reads the rows.
pub open spec fn rows_json_error(v: serde_json::Value) -> Option<Seq<char>> {
    match rows_from_json_of(v) {
        Ok(_) => None,
        Err(e) => Some(e),
    }
}

/// `cozo::NamedRows::from_json`, the error as text: the result named
/// [`rows_from_json_of`] of `v`.
#[verifier::external_body]
pub(crate) fn named_rows_from_json(v: &serde_json::Value) -> (res: Result<cozo::NamedRows, String>)
    ensures
        match res {
            Ok(nr) => rows_from_json_of(*v) == Ok::<cozo::NamedRows, Seq<char>>(nr),
            Err(e) => rows_from_json_of(*v) == Err::<cozo::NamedRows, Seq<char>>(e@),
        },
        res is Ok ==> rows_json_error(*v) is None,
        res matches Err(e) ==> rows_json_error(*v) == Some(e@),
{
    cozo::NamedRows::from_json(v).map_err(|e| e.to_string())
}

/// What `serde_json::Value::from(i)` returns for a signed number.
pub uninterp spec fn i64_value(i: i64) -> serde_json::Value;

/// `serde_json::Value::from(i)`: the JSON integer `i`, the value named
/// [`i64_value`] of `i`.
#[verifier::external_body]
pub(crate) fn json_int(i: i64) -> (res: serde_json::Value)
    ensures
        res == i64_value(i),
{
    serde_json::Value::from(i)
}

/// `m` maps exactly one parameter, named `name`, to `value`.
pub open spec fn is_one_param(m: Map<String, serde_json::Value>, name: Seq<char>, value: serde_json::Value) -> bool {
    exists|k: String| #![trigger k@] k@ == name && m == map![k => value]
}

/// `BTreeMap::from([(name, value)])` (std): the map of the one entry `name`
/// (as a `String`) to `value`.
#[verifier::external_body]
pub(crate) fn one_param(name: &str, value: serde_json::Value) -> (res: BTreeMap<String, serde_json::Value>)
    ensures
        is_one_param(res@, name@, value),
{
    BTreeMap::from([(name.to_string(), value)])
}

/// `std::time::Instant::now()`.
#[verifier::external_body]
pub(crate) fn clock_start() -> (res: std::time::Instant) {
    std::time::Instant::now()
}

/// `std::time::Instant::elapsed`: the time since `start`.
#[verifier::external_body]
fn elapsed_since(start: &std::time::Instant) -> (res: std::time::Duration) {
    start.elapsed()
}

/// `std::time::Duration::as_millis`: the whole milliseconds of `d`.
#[verifier::external_body]
fn whole_millis(d: &std::time::Duration) -> (res: u128) {
    d.as_millis()
}

/// A number of whole milliseconds as a reply reports it: itself, or `u64::MAX`
/// when it does not fit.
pub open spec fn capped(ms: nat) -> nat {
    if ms > 0xffff_ffff_ffff_ffff { 0xffff_ffff_ffff_ffff } else { ms }
}

/// `ms` whole milliseconds as a reply reports them (see [`capped`]).
pub fn capped_millis(ms: u128) -> (res: u64)
    ensures
        res == capped(ms as nat),
{
    if ms > 0xffff_ffff_ffff_ffffu128 {
        0xffff_ffff_ffff_ffffu64
    } else {
        ms as u64
    }
}

/// Law: a reported time keeps every millisecond that fits: below `u64::MAX` it
/// is the number of whole milliseconds itself, so one more millisecond reports
/// one more; and it never reports more than were measured.
pub proof fn law_millis_are_kept(ms: nat)
    ensures
        ms <= 0xffff_ffff_ffff_ffff ==> capped(ms) == ms,
        capped(ms) <= ms,
        ms < 0xffff_ffff_ffff_ffff ==> capped(ms + 1) == capped(ms) + 1,
{
}

/// The whole milliseconds since `start`, at most `u64::MAX`.
pub(crate) fn elapsed_ms(start: &std::time::Instant) -> (res: u64) {
    let ms = whole_millis(&elapsed_since(start));
    capped_millis(ms)
}


/// A script run on the database: the record of what was handed to the engine
/// (the script, its parameters, whether it may write, and whether it ran inside
/// a transaction), which only the call to the engine makes, and the engine's
/// answer as this crate holds it.
pub struct Ran {
    asked: Asked,
    outcome: Result<DbRows, String>,
}

impl Ran {
    /// The outcome is the engine's answer: the result it gave, or its error.
    #[verifier::type_invariant]
    spec fn answered(self) -> bool {
        match (self.asked.answer(), self.outcome) {
            (Ok(nr), Ok(d)) => is_rows_of(d, nr),
            (Err(a), Err(b)) => a == b,
            _ => false,
        }
    }

    /// The script handed to the engine.
    pub closed spec fn script(&self) -> Seq<char> {
        self.asked.script()
    }

    /// The parameters handed to the engine.
    pub closed spec fn params(&self) -> BTreeMap<String, serde_json::Value> {
        self.asked.params()
    }

    /// Whether the script was allowed to write.
    pub closed spec fn mutable(&self) -> bool {
        self.asked.mutable()
    }

    /// Whether the script ran inside a transaction.
    pub closed spec fn in_transaction(&self) -> bool {
        self.asked.in_transaction()
    }

    /// What the engine answered, as this crate holds it.
    pub closed spec fn outcome(&self) -> Result<DbRows, String> {
        self.outcome
    }

    /// `script` was run outside a transaction with no parameters, writing when
    /// `mutable`.
    pub open spec fn is_plain_call(&self, script: Seq<char>, mutable: bool) -> bool {
        &&& self.script() == script
        &&& self.params()@ == Map::<String, serde_json::Value>::empty()
        &&& self.mutable() == mutable
        &&& !self.in_transaction()
    }

    /// What the engine answered.
    pub fn into_outcome(self) -> (res: Result<DbRows, String>)
        ensures
            res == self.outcome(),
    {
        self.outcome
    }
}

/// The engine's answer as this crate holds it.
fn held(asked: Asked, out: Result<cozo::NamedRows, String>) -> (res: Ran)
    requires
        asked.answer() == out,
    ensures
        res.asked == asked,
{
    let outcome = match out {
        Ok(nr) => Ok(rows_of(nr)),
        Err(e) => Err(e),
    };
    Ran { asked, outcome }
}

/// Runs `script` with `params` on the database, writing when `mutable`.
pub fn run(db: &Database, script: &str, params: &BTreeMap<String, serde_json::Value>, mutable: bool) -> (res: Ran)
    ensures
        res.script() == script@,
        res.params() == *params,
        res.mutable() == mutable,
        !res.in_transaction(),
{
    let (asked, out) = engine::run_script(db, script, params, mutable);
    held(asked, out)
}

/// Runs `script` with `params` inside the write transaction `tx`.
pub fn run_in(tx: &Tx, script: &str, params: &BTreeMap<String, serde_json::Value>) -> (res: Ran)
    ensures
        res.script() == script@,
        res.params() == *params,
        res.mutable(),
        res.in_transaction(),
{
    let (asked, out) = engine::run_in_transaction(tx, script, params);
    held(asked, out)
}

/// Runs `script` with no parameters and records the call and its outcome.
pub fn run_plain(db: &Database, script: &str, mutable: bool) -> (res: Ran)
    ensures
        res.is_plain_call(script@, mutable),
{
    let params: BTreeMap<String, serde_json::Value> = BTreeMap::new();
    run(db, script, &params, mutable)
}

/// A request to read the named relations: the record of the names asked for,
/// which only the call to the engine makes, and the engine's answer as this
/// crate holds it: each relation's rows under its name, or the error.
pub struct Exported {
    asked: ExportAsked,
    outcome: Result<Vec<(String, DbRows)>, String>,
}

/// `ps` holds the engine's answer `raw`: the same names in the same order, each
/// with its result.
pub open spec fn holds_export(ps: Seq<(String, DbRows)>, raw: Seq<(String, cozo::NamedRows)>) -> bool {
    &&& ps.len() == raw.len()
    &&& forall|i: int| 0 <= i < ps.len() ==> (#[trigger] ps[i]).0 == raw[i].0 && is_rows_of(ps[i].1, raw[i].1)
}

impl Exported {
    /// The outcome is the engine's answer.
    #[verifier::type_invariant]
    spec fn answered(self) -> bool {
        match (self.asked.answer(), self.outcome) {
            (Ok(raw), Ok(ps)) => holds_export(ps@, raw@),
            (Err(a), Err(b)) => a == b,
            _ => false,
        }
    }

    /// The names of the relations asked for, in order.
    pub closed spec fn requested(&self) -> Seq<Seq<char>> {
        self.asked.requested()
    }

    /// What the engine answered, as this crate holds it.
    pub closed spec fn outcome(&self) -> Result<Vec<(String, DbRows)>, String> {
        self.outcome
    }

    /// What the engine answered.
    pub fn into_outcome(self) -> (res: Result<Vec<(String, DbRows)>, String>)
        ensures
            res == self.outcome(),
    {
        self.outcome
    }
}

/// Reads the rows of the named relations: on success one entry per requested
/// name (the engine reads them all or fails as a whole).
pub fn export(db: &Database, relations: &[String]) -> (res: Exported)
    ensures
        res.requested() == views(relations@),
        res.outcome() matches Ok(ps) ==> crate::reply::pair_names(ps@) == text_set(relations@),
{
    let (asked, out) = engine::export_relations(db, relations);
    let outcome = match out {
        Ok(data) => {
            let ghost d = data@;
            let mut pairs: Vec<(String, DbRows)> = Vec::new();
            let mut rest = data;
            while rest.len() > 0
                invariant
                    pairs@.len() + rest@.len() == d.len(),
                    rest@ == d.skip(pairs@.len() as int),
                    holds_export(pairs@, d.take(pairs@.len() as int)),
                decreases rest@.len(),
            {
                let ghost k = pairs@.len();
                let (name, nr) = rest.remove(0);
                assert(name == d[k as int].0 && nr == d[k as int].1);
                let ghost before = pairs@;
                pairs.push((name, rows_of(nr)));
                assert(rest@ =~= d.skip(pairs@.len() as int));
                assert forall|i: int| 0 <= i < pairs@.len() implies (#[trigger] pairs@[i]).0 == d.take(pairs@.len() as int)[i].0
                    && is_rows_of(pairs@[i].1, d.take(pairs@.len() as int)[i].1) by {
                    if i < k {
                        assert(pairs@[i] == before[i]);
                        assert(d.take(k as int)[i] == d[i]);
                    }
                }
            }
            assert(d.take(d.len() as int) =~= d);
            let ghost ps = pairs@;
            assert(crate::reply::pair_names(ps) =~= named_set(d)) by {
                assert forall|k: Seq<char>| crate::reply::pair_names(ps).contains(k) <==> named_set(d).contains(k) by {
                    if crate::reply::pair_names(ps).contains(k) {
                        let i = choose|i: int| 0 <= i < ps.len() && ps[i].0@ == k;
                        assert(ps[i].0 == d[i].0);
                    }
                    if named_set(d).contains(k) {
                        let i = choose|i: int| 0 <= i < d.len() && d[i].0@ == k;
                        assert(ps[i].0 == d[i].0);
                    }
                }
            }
            Ok(pairs)
        },
        Err(e) => Err(e),
    };
    Exported { asked, outcome }
}

/// The relations of an import payload, every entry of which was read: the
/// payload, and each entry's name and rows in the payload's order. Only
/// [`parse_payload`] makes one, and only when no entry is bad, so the engine is
/// never handed part of a payload.
pub struct Parsed {
    source: Ghost<serde_json::Value>,
    data: Vec<(String, cozo::NamedRows)>,
}

impl Parsed {
    /// Every entry of the payload was read, and the data holds them in order.
    #[verifier::type_invariant]
    spec fn complete(self) -> bool {
        &&& object_fields_of(self.source@) matches Some(fs)
        &&& forall|k: int| 0 <= k < fs.len() ==> rows_json_error(#[trigger] fs[k].1) is None
        &&& engine::import_names(self.data@) == crate::embedded::field_names(fs)
        &&& is_read_from(self.data@, fs)
    }

    /// The payload whose entries these are.
    pub closed spec fn source(&self) -> serde_json::Value {
        self.source@
    }

    /// The entries' names and rows, in the payload's order.
    pub closed spec fn entries(&self) -> Seq<(String, cozo::NamedRows)> {
        self.data@
    }

    /// The entries' names and rows, to hand to the engine.
    pub(crate) fn into_data(self) -> (res: Vec<(String, cozo::NamedRows)>)
        ensures
            res@ == self.entries(),
    {
        self.data
    }
}

/// `data` holds, entry by entry, the name of field `k` of the payload and the
/// rows that `cozo` reads from that field's own value.
pub open spec fn is_read_from(data: Seq<(String, cozo::NamedRows)>, fs: Seq<(Seq<char>, serde_json::Value)>) -> bool {
    &&& data.len() == fs.len()
    &&& forall|k: int| 0 <= k < fs.len() ==> {
        &&& (#[trigger] data[k]).0@ == fs[k].0
        &&& rows_from_json_of(fs[k].1) == Ok::<cozo::NamedRows, Seq<char>>(data[k].1)
    }
}

/// Reads every entry of an import payload: fails with `payload must be a JSON
/// object` when `data` is not an object, and with `Bad data for '<name>':
/// <error>` for the first entry whose rows cannot be read.
pub fn parse_payload(data: &serde_json::Value) -> (res: Result<Parsed, String>)
    ensures
        match object_fields_of(*data) {
            None => (res matches Err(m) && m@ == "payload must be a JSON object"@),
            Some(fs) => if exists|k: int| crate::embedded::first_bad_rows(fs, k) {
                exists|k: int| #[trigger] crate::embedded::first_bad_rows(fs, k)
                    && (res matches Err(m) && m@ == crate::embedded::bad_data_message(fs[k].0, rows_json_error(fs[k].1)->0))
            } else {
                (res matches Ok(p) && p.source() == *data && is_read_from(p.entries(), fs))
            },
        },
{
    match object_fields(data) {
        None => Err(String::from_str("payload must be a JSON object")),
        Some(fields) => {
            let ghost fs = pair_views(fields@);
            let mut relations: Vec<(String, cozo::NamedRows)> = Vec::new();
            let mut i: usize = 0;
            while i < fields.len()
                invariant
                    i <= fields@.len(),
                    fs == pair_views(fields@),
                    object_fields_of(*data) == Some(fs),
                    forall|k: int| 0 <= k < i ==> rows_json_error(#[trigger] fs[k].1) is None,
                    engine::import_names(relations@) == crate::embedded::field_names(fs.take(i as int)),
                    is_read_from(relations@, fs.take(i as int)),
                decreases fields@.len() - i,
            {
                match named_rows_from_json(&fields[i].1) {
                    Ok(nr) => {
                        let ghost before = relations@;
                        relations.push((fields[i].0.clone(), nr));
                        assert(crate::embedded::field_names(fs.take(i + 1)) =~= crate::embedded::field_names(fs.take(i as int)).push(fs[i as int].0));
                        assert(engine::import_names(relations@) =~= engine::import_names(before).push(fs[i as int].0));
                        assert forall|k: int| 0 <= k < i + 1 implies {
                            &&& (#[trigger] relations@[k]).0@ == fs.take(i + 1)[k].0
                            &&& rows_from_json_of(fs.take(i + 1)[k].1) == Ok::<cozo::NamedRows, Seq<char>>(relations@[k].1)
                        } by {
                            if k < i {
                                assert(relations@[k] == before[k]);
                                assert(fs.take(i + 1)[k] == fs.take(i as int)[k]);
                            }
                        }
                    },
                    Err(err) => {
                        let msg = crate::embedded::bad_data(fields[i].0.as_str(), err.as_str());
                        assert(crate::embedded::first_bad_rows(fs, i as int));
                        return Err(msg);
                    },
                }
                i = i + 1;
            }
            assert forall|k: int| !crate::embedded::first_bad_rows(fs, k) by {
                if 0 <= k < fs.len() {
                    assert(rows_json_error(fs[k].1) is None);
                }
            }
            assert(fs.take(fields@.len() as int) =~= fs);
            Ok(Parsed { source: Ghost(*data), data: relations })
        },
    }
}

} // verus!
