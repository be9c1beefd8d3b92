//! The CozoScript system commands that the backends and the HTTP API run.

use vstd::prelude::*;
use crate::text::{join, joined, push_char, chars_of, views};

verus! {

/// Whether `c` is written with a backslash before it inside a literal quoted
/// with `quote` (the backslash itself too when `with_backslash`).
pub open spec fn needs_escape(c: char, quote: char, with_backslash: bool) -> bool {
    c == quote || (with_backslash && c == '\\')
}

/// How one character is written inside the literal.
pub open spec fn escape_char(c: char, quote: char, with_backslash: bool) -> Seq<char> {
    if needs_escape(c, quote, with_backslash) {
        seq!['\\', c]
    } else {
        seq![c]
    }
}

/// `s` written inside a literal quoted with `quote`: each character that needs it
/// gets a backslash before it.
pub open spec fn escaped(s: Seq<char>, quote: char, with_backslash: bool) -> Seq<char>
    decreases s.len(),
{
    if s.len() == 0 {
        Seq::empty()
    } else {
        escape_char(s[0], quote, with_backslash) + escaped(s.drop_first(), quote, with_backslash)
    }
}

/// What a reader of a backslash-escaped literal body takes it to hold: a
/// backslash stands for the character after it.
pub open spec fn unescaped(t: Seq<char>) -> Seq<char>
    decreases t.len(),
{
    if t.len() == 0 {
        Seq::empty()
    } else if t[0] == '\\' && t.len() >= 2 {
        seq![t[1]] + unescaped(t.skip(2))
    } else {
        seq![t[0]] + unescaped(t.drop_first())
    }
}

proof fn lemma_escaped_push(s: Seq<char>, c: char, quote: char, wb: bool)
    ensures
        escaped(s.push(c), quote, wb) == escaped(s, quote, wb) + escape_char(c, quote, wb),
    decreases s.len(),
{
    if s.len() == 0 {
        assert(s.push(c).drop_first() =~= Seq::<char>::empty());
        assert(s.push(c)[0] == c);
        assert(escaped(Seq::<char>::empty(), quote, wb) == Seq::<char>::empty());
        assert(escaped(s, quote, wb) == Seq::<char>::empty());
        assert(escaped(s.push(c), quote, wb) =~= escape_char(c, quote, wb));
    } else {
        assert(s.push(c).drop_first() =~= s.drop_first().push(c));
        lemma_escaped_push(s.drop_first(), c, quote, wb);
        assert(escaped(s.push(c), quote, wb) =~= escaped(s, quote, wb) + escape_char(c, quote, wb));
    }
}

/// `s` with a backslash put before each `quote` (and each backslash when
/// `with_backslash`).
pub fn escape(s: &str, quote: char, with_backslash: bool) -> (res: String)
    ensures
        res@ == escaped(s@, quote, with_backslash),
{
    let cs = chars_of(s);
    let mut res = String::new();
    let mut i: usize = 0;
    while i < cs.len()
        invariant
            i <= cs@.len(),
            cs@ == s@,
            res@ == escaped(s@.take(i as int), quote, with_backslash),
        decreases cs@.len() - i,
    {
        let c = cs[i];
        proof {
            assert(s@.take(i + 1) =~= s@.take(i as int).push(c));
            lemma_escaped_push(s@.take(i as int), c, quote, with_backslash);
        }
        if c == quote || (with_backslash && c == '\\') {
            push_char(&mut res, '\\');
        }
        push_char(&mut res, c);
        proof {
            if needs_escape(c, quote, with_backslash) {
                assert(res@ =~= escaped(s@.take(i as int), quote, with_backslash) + seq!['\\', c]);
            } else {
                assert(res@ =~= escaped(s@.take(i as int), quote, with_backslash) + seq![c]);
            }
        }
        i = i + 1;
    }
    assert(s@.take(cs@.len() as int) =~= s@);
    res
}

/// Law: a description escaped for a double-quoted literal (backslashes escaped
/// too) reads back as exactly the description.
pub proof fn law_escape_round_trip(s: Seq<char>, quote: char)
    ensures
        unescaped(escaped(s, quote, true)) == s,
    decreases s.len(),
{
    if s.len() > 0 {
        law_escape_round_trip(s.drop_first(), quote);
        let rest = escaped(s.drop_first(), quote, true);
        let t = escaped(s, quote, true);
        if needs_escape(s[0], quote, true) {
            assert(t.skip(2) =~= rest);
        } else {
            assert(t.drop_first() =~= rest);
        }
        assert(unescaped(t) =~= s);
    }
}

/// Law: when only the quote is escaped, the text reads back as itself as long
/// as it holds no backslash.
pub proof fn law_quote_only_escape_round_trip(s: Seq<char>, quote: char)
    requires
        !s.contains('\\'),
        quote != '\\',
    ensures
        unescaped(escaped(s, quote, false)) == s,
    decreases s.len(),
{
    if s.len() > 0 {
        assert(!s.drop_first().contains('\\')) by {
            if s.drop_first().contains('\\') {
                let i = choose|i: int| 0 <= i < s.drop_first().len() && s.drop_first()[i] == '\\';
                assert(s[i + 1] == '\\');
            }
        }
        assert(s[0] != '\\') by {
            if s[0] == '\\' {
                assert(s.contains('\\'));
            }
        }
        law_quote_only_escape_round_trip(s.drop_first(), quote);
        let rest = escaped(s.drop_first(), quote, false);
        let t = escaped(s, quote, false);
        if needs_escape(s[0], quote, false) {
            assert(t.skip(2) =~= rest);
        } else {
            assert(t.drop_first() =~= rest);
        }
        assert(unescaped(t) =~= s);
    }
}

/// `prefix` followed by `s`, as a new string.
fn prefixed(prefix: &str, s: &str) -> (res: String)
    ensures
        res@ == prefix@ + s@,
{
    let mut r = String::from_str(prefix);
    r.append(s);
    r
}

/// `::explain { <script> }`.
pub fn explain_script(script: &str) -> (res: String)
    ensures
        res@ == "::explain { "@ + script@ + " }"@,
{
    let mut r = prefixed("::explain { ", script);
    r.append(" }");
    r
}

/// `::columns <relation>`.
pub fn columns_script(relation: &str) -> (res: String)
    ensures
        res@ == "::columns "@ + relation@,
{
    prefixed("::columns ", relation)
}

/// `::indices <relation>`.
pub fn indices_script(relation: &str) -> (res: String)
    ensures
        res@ == "::indices "@ + relation@,
{
    prefixed("::indices ", relation)
}

/// `::show_triggers <relation>`.
pub fn triggers_script(relation: &str) -> (res: String)
    ensures
        res@ == "::show_triggers "@ + relation@,
{
    prefixed("::show_triggers ", relation)
}

/// `::describe <relation>`, followed by the description (when one is given) as
/// a literal in `quote`s, escaped as [`escaped`] says.
pub open spec fn describe_text(relation: Seq<char>, description: Option<&str>, quote: char, with_backslash: bool) -> Seq<char> {
    match description {
        None => "::describe "@ + relation,
        Some(d) => "::describe "@ + relation + seq![' ', quote] + escaped(d@, quote, with_backslash) + seq![quote],
    }
}

/// `::describe <relation>`, followed by the description as a double-quoted
/// literal (backslashes and double quotes escaped) when one is given.
pub fn describe_script(relation: &str, description: Option<&str>) -> (res: String)
    ensures
        description is None ==> res@ == "::describe "@ + relation@,
        description matches Some(d) ==> res@ == "::describe "@ + relation@ + " \""@ + escaped(
            d@,
            '"',
            true,
        ) + "\""@,
        res@ == describe_text(relation@, description, '"', true),
{
    proof {
        reveal_strlit(" \"");
        reveal_strlit("\"");
    }
    let mut r = prefixed("::describe ", relation);
    match description {
        Some(d) => {
            r.append(" \"");
            let e = escape(d, '"', true);
            r.append(e.as_str());
            r.append("\"");
        },
        None => {},
    }
    r
}

/// `::describe <name>`, followed by the description as a single-quoted literal
/// (single quotes escaped) when one is given: the form the HTTP API runs.
pub fn describe_script_single_quoted(name: &str, description: &Option<String>) -> (res: String)
    ensures
        description is None ==> res@ == "::describe "@ + name@,
        description matches Some(d) ==> res@ == "::describe "@ + name@ + " '"@ + escaped(
            d@,
            '\'',
            false,
        ) + "'"@,
{
    let mut r = prefixed("::describe ", name);
    match description {
        Some(d) => {
            r.append(" '");
            let e = escape(d.as_str(), '\'', false);
            r.append(e.as_str());
            r.append("'");
        },
        None => {},
    }
    r
}

/// `::remove <r1>, <r2>, ...`.
pub fn remove_script(relations: &[String]) -> (res: String)
    ensures
        res@ == "::remove "@ + joined(views(relations@), ", "@),
{
    let rels = join(relations, ", ");
    prefixed("::remove ", rels.as_str())
}

/// One rename clause, `<from> -> <to>`.
pub open spec fn rename_clause(p: (String, String)) -> Seq<char> {
    p.0@ + " -> "@ + p.1@
}

/// The text of `::rename <from1> -> <to1>, <from2> -> <to2>, ...`.
pub open spec fn rename_text(renames: Seq<(String, String)>) -> Seq<char> {
    "::rename "@ + joined(renames.map_values(|p: (String, String)| rename_clause(p)), ", "@)
}

/// `::rename <from1> -> <to1>, <from2> -> <to2>, ...`.
pub fn rename_script(renames: &[(String, String)]) -> (res: String)
    ensures
        res@ == rename_text(renames@),
{
    let mut clauses: Vec<String> = Vec::new();
    let mut i: usize = 0;
    while i < renames.len()
        invariant
            i <= renames@.len(),
            clauses@.len() == i,
            forall|j: int| 0 <= j < i ==> #[trigger] clauses@[j]@ == rename_clause(renames@[j]),
        decreases renames@.len() - i,
    {
        let mut c = String::new();
        c.append(renames[i].0.as_str());
        c.append(" -> ");
        c.append(renames[i].1.as_str());
        clauses.push(c);
        i = i + 1;
    }
    assert(views(clauses@) =~= renames@.map_values(|p: (String, String)| rename_clause(p)));
    let joined_clauses = join(clauses.as_slice(), ", ");
    prefixed("::rename ", joined_clauses.as_str())
}

/// `::access_level <level> <r1>, <r2>, ...`.
pub fn access_level_script(level: &str, relations: &[String]) -> (res: String)
    ensures
        res@ == "::access_level "@ + level@ + " "@ + joined(views(relations@), ", "@),
{
    let mut r = prefixed("::access_level ", level);
    r.append(" ");
    let rels = join(relations, ", ");
    r.append(rels.as_str());
    r
}

/// `::index create <relation>:<index> { <c1>, <c2>, ... }`.
pub fn create_index_script(relation: &str, index_name: &str, columns: &[String]) -> (res: String)
    ensures
        res@ == "::index create "@ + relation@ + ":"@ + index_name@ + " { "@ + joined(
            views(columns@),
            ", "@,
        ) + " }"@,
{
    let mut r = prefixed("::index create ", relation);
    r.append(":");
    r.append(index_name);
    r.append(" { ");
    let cols = join(columns, ", ");
    r.append(cols.as_str());
    r.append(" }");
    r
}

/// `::index drop <relation>:<index>`.
pub fn drop_index_script(relation: &str, index_name: &str) -> (res: String)
    ensures
        res@ == "::index drop "@ + relation@ + ":"@ + index_name@,
{
    let mut r = prefixed("::index drop ", relation);
    r.append(":");
    r.append(index_name);
    r
}

} // verus!
