//! The calls that reach the database engine. Each call hands back, beside the
//! engine's answer, a record of what it was handed; the records' fields are
//! private to this module and only the calls themselves fill them in, so a
//! record always tells what reached the engine.

use std::collections::BTreeMap;
use vstd::prelude::*;
use crate::db::{unsupported_engine, text_set, named_set, Parsed};
use crate::text::views;

verus! {

/// An open database, with the engine, path and configuration it was opened
/// with.
pub struct Database {
    instance: cozo::DbInstance,
    opened: Ghost<(Seq<char>, Seq<char>, Seq<char>)>,
}

impl Database {
    /// The engine name, path and configuration handed to the engine on opening.
    pub closed spec fn opened(&self) -> (Seq<char>, Seq<char>, Seq<char>) {
        self.opened@
    }

    /// The database, to run requests on.
    pub fn instance(&self) -> &cozo::DbInstance {
        &self.instance
    }

    /// `Clone for cozo::DbInstance`: a second handle on the same database,
    /// opened as this one was.
    #[verifier::external_body]
    pub fn duplicate(&self) -> (res: Database)
        ensures
            res.opened() == self.opened(),
    {
        Database { instance: self.instance.clone(), opened: Ghost(self.opened@) }
    }
}

/// `cozo::DbInstance::new(engine, path, config)`, its error as text: the
/// database records that it was opened with exactly these three. This build of
/// `cozo` holds the `mem` and `sqlite` engines: for any other engine name the
/// call fails with [`unsupported_engine`]. Whether it succeeds for those two is
/// not stated (it depends on the file system for `sqlite`).
#[verifier::external_body]
pub fn open(engine: &str, path: &str, config: &str) -> (res: Result<Database, String>)
    ensures
        res matches Ok(d) ==> d.opened() == (engine@, path@, config@),
        engine@ != "mem"@ && engine@ != "sqlite"@ ==> (res is Err && res->Err_0@ == unsupported_engine(engine@)),
{
    match cozo::DbInstance::new(engine, path, config) {
        Ok(instance) => Ok(Database { instance, opened: Ghost((engine@, path@, config@)) }),
        Err(e) => Err(e.to_string()),
    }
}

/// What one script handed to the engine was: the script, its parameters,
/// whether it could write, whether it ran inside a transaction, and what the
/// engine answered.
pub struct Asked {
    script: Ghost<Seq<char>>,
    params: Ghost<BTreeMap<String, serde_json::Value>>,
    mutable: Ghost<bool>,
    in_transaction: Ghost<bool>,
    answer: Ghost<Result<cozo::NamedRows, String>>,
}

impl Asked {
    /// The script handed to the engine.
    pub closed spec fn script(&self) -> Seq<char> {
        self.script@
    }

    /// The parameters handed to the engine.
    pub closed spec fn params(&self) -> BTreeMap<String, serde_json::Value> {
        self.params@
    }

    /// Whether the script was allowed to write.
    pub closed spec fn mutable(&self) -> bool {
        self.mutable@
    }

    /// Whether the script ran inside a transaction.
    pub closed spec fn in_transaction(&self) -> bool {
        self.in_transaction@
    }

    /// What the engine answered.
    pub closed spec fn answer(&self) -> Result<cozo::NamedRows, String> {
        self.answer@
    }
}

/// `cozo::DbInstance::run_script`, with each JSON parameter turned into a
/// `DataValue` by `DataValue::from`, and the error as text; with the record of
/// what was handed to the engine and of its answer. What the engine answers is
/// not stated: it depends on what the database holds.
#[verifier::external_body]
pub fn run_script(
    db: &Database,
    script: &str,
    params: &BTreeMap<String, serde_json::Value>,
    mutable: bool,
) -> (res: (Asked, Result<cozo::NamedRows, String>))
    ensures
        res.0.script() == script@,
        res.0.params() == *params,
        res.0.mutable() == mutable,
        !res.0.in_transaction(),
        res.0.answer() == res.1,
{
    let converted = params.iter().map(|(k, v)| (k.clone(), cozo::DataValue::from(v.clone()))).collect();
    let mutability = if mutable {
        cozo::ScriptMutability::Mutable
    } else {
        cozo::ScriptMutability::Immutable
    };
    let out = db.instance.run_script(script, converted, mutability).map_err(|e| e.to_string());
    let asked = Asked {
        script: Ghost(script@),
        params: Ghost(*params),
        mutable: Ghost(mutable),
        in_transaction: Ghost(false),
        answer: Ghost(out),
    };
    (asked, out)
}

/// How far a write transaction has got: still open, aborted, or committed.
pub enum TxEnd {
    Open,
    Aborted,
    Committed,
}

/// A write transaction, with how far it has got and what its commit answered.
pub struct Tx {
    tx: cozo::MultiTransaction,
    end: Ghost<TxEnd>,
    committed: Ghost<Option<Result<(), String>>>,
}

impl Tx {
    /// How far the transaction has got.
    pub closed spec fn end(&self) -> TxEnd {
        self.end@
    }

    /// What the engine answered to the commit, once it was asked to commit.
    pub closed spec fn committed(&self) -> Option<Result<(), String>> {
        self.committed@
    }
}

/// `cozo::DbInstance::multi_transaction(true)`: opens a write transaction.
#[verifier::external_body]
pub fn begin(db: &Database) -> (res: Tx)
    ensures
        res.end() == TxEnd::Open,
        res.committed() is None,
{
    Tx { tx: db.instance.multi_transaction(true), end: Ghost(TxEnd::Open), committed: Ghost(None) }
}

/// `cozo::MultiTransaction::abort`: nothing the transaction wrote stays. Its
/// outcome is ignored, as the caller's is.
#[verifier::external_body]
pub fn abort(tx: &mut Tx)
    ensures
        final(tx).end() == TxEnd::Aborted,
        final(tx).committed() == old(tx).committed(),
{
    let _ = tx.tx.abort();
    tx.end = Ghost(TxEnd::Aborted);
}

/// `cozo::MultiTransaction::commit`, the error as text.
#[verifier::external_body]
pub fn commit(tx: &mut Tx) -> (res: Result<(), String>)
    ensures
        final(tx).end() == TxEnd::Committed,
        final(tx).committed() == Some(res),
{
    let res = tx.tx.commit().map_err(|e| e.to_string());
    tx.end = Ghost(TxEnd::Committed);
    tx.committed = Ghost(Some(res));
    res
}

/// `cozo::MultiTransaction::run_script`, parameters converted as in
/// [`run_script`], the error as text; with the record of what was handed to the
/// engine (writing, inside the transaction) and of its answer, which is not
/// stated.
#[verifier::external_body]
pub fn run_in_transaction(
    tx: &Tx,
    script: &str,
    params: &BTreeMap<String, serde_json::Value>,
) -> (res: (Asked, Result<cozo::NamedRows, String>))
    ensures
        res.0.script() == script@,
        res.0.params() == *params,
        res.0.mutable(),
        res.0.in_transaction(),
        res.0.answer() == res.1,
{
    let converted = params.iter().map(|(k, v)| (k.clone(), cozo::DataValue::from(v.clone()))).collect();
    let out = tx.tx.run_script(script, converted).map_err(|e| e.to_string());
    let asked = Asked {
        script: Ghost(script@),
        params: Ghost(*params),
        mutable: Ghost(true),
        in_transaction: Ghost(true),
        answer: Ghost(out),
    };
    (asked, out)
}

/// A request to the database whose result is only a success or an error.
pub enum Chore {
    /// Writing a backup to the path.
    Backup(Seq<char>),
    /// Importing the named relations from the backup at the path.
    Restore(Seq<char>, Seq<Seq<char>>),
    /// Importing the relations of the payload, every entry of which was read.
    Import(serde_json::Value),
}

/// A request of kind [`Chore`] handed to the database, with the engine's answer.
pub struct Done {
    chore: Ghost<Chore>,
    outcome: Result<(), String>,
}

impl Done {
    /// The request handed to the database.
    pub closed spec fn chore(&self) -> Chore {
        self.chore@
    }

    /// What the engine answered.
    pub closed spec fn outcome(&self) -> Result<(), String> {
        self.outcome
    }

    /// What the engine answered.
    pub fn into_outcome(self) -> (res: Result<(), String>)
        ensures
            res == self.outcome(),
    {
        self.outcome
    }
}

/// `cozo::DbInstance::backup_db(path)`, the error as text, with the record of
/// the request. Whether it succeeds is not stated.
#[verifier::external_body]
pub fn backup_db(db: &Database, path: &str) -> (res: Done)
    ensures
        res.chore() == Chore::Backup(path@),
{
    Done { chore: Ghost(Chore::Backup(path@)), outcome: db.instance.backup_db(path).map_err(|e| e.to_string()) }
}

/// `cozo::DbInstance::import_from_backup(path, relations)`, the error as text,
/// with the record of the request. Whether it succeeds is not stated.
#[verifier::external_body]
pub fn import_from_backup(db: &Database, path: &str, relations: &[String]) -> (res: Done)
    ensures
        res.chore() == Chore::Restore(path@, views(relations@)),
{
    Done {
        chore: Ghost(Chore::Restore(path@, views(relations@))),
        outcome: db.instance.import_from_backup(path, relations).map_err(|e| e.to_string()),
    }
}

/// The names of a list of (name, rows) pairs, in order.
pub open spec fn import_names(data: Seq<(String, cozo::NamedRows)>) -> Seq<Seq<char>> {
    data.map_values(|p: (String, cozo::NamedRows)| p.0@)
}

/// `cozo::DbInstance::import_relations` of the (name, rows) pairs of a payload
/// every entry of which was read, the error as text, with the record of the
/// payload handed over. Whether it succeeds is not stated.
#[verifier::external_body]
pub fn import_relations(db: &Database, parsed: Parsed) -> (res: Done)
    ensures
        res.chore() == Chore::Import(parsed.source()),
{
    let source = Ghost(parsed.source());
    let data = parsed.into_data();
    Done { chore: Ghost(Chore::Import(source@)), outcome: db.instance.import_relations(data.into_iter().collect()).map_err(|e| e.to_string()) }
}

/// What a request to read relations was: the names asked for, in order, and
/// what the engine answered.
pub struct ExportAsked {
    requested: Ghost<Seq<Seq<char>>>,
    answer: Ghost<Result<Vec<(String, cozo::NamedRows)>, String>>,
}

impl ExportAsked {
    /// The names of the relations asked for, in order.
    pub closed spec fn requested(&self) -> Seq<Seq<char>> {
        self.requested@
    }

    /// What the engine answered.
    pub closed spec fn answer(&self) -> Result<Vec<(String, cozo::NamedRows)>, String> {
        self.answer@
    }
}

/// `cozo::DbInstance::export_relations`, the map of results as a list of
/// (name, result) pairs in the map's order, the error as text; with the record
/// of the names asked for and of the answer. The source inserts one entry under
/// each requested name, and fails as a whole when any relation cannot be read:
/// the names of a success are the requested ones.
#[verifier::external_body]
pub fn export_relations(db: &Database, relations: &[String]) -> (res: (ExportAsked, Result<Vec<(String, cozo::NamedRows)>, String>))
    ensures
        res.0.requested() == views(relations@),
        res.0.answer() == res.1,
        res.1 is Ok ==> named_set(res.1->Ok_0@) == text_set(relations@),
{
    let out: Result<Vec<(String, cozo::NamedRows)>, String> =
        db.instance.export_relations(relations.iter()).map(|m| m.into_iter().collect()).map_err(|e| e.to_string());
    let asked = ExportAsked { requested: Ghost(views(relations@)), answer: Ghost(out) };
    (asked, out)
}

} // verus!
