//! Text operations with exact contracts: joining with a separator, trimming,
//! splitting, and building strings character by character.

use vstd::prelude::*;

verus! {

broadcast use vstd::string::group_string_axioms;

/// `String::push` (std): appends one character.
#[verifier::external_body]
pub(crate) fn push_char(s: &mut String, c: char)
    ensures
        final(s)@ == old(s)@.push(c),
{
    s.push(c)
}

/// The characters of `s`, in order.
pub fn chars_of(s: &str) -> (res: Vec<char>)
    ensures
        res@ == s@,
{
    let mut res: Vec<char> = Vec::new();
    for c in it: s.chars()
        invariant
            it.seq() == s@,
            res@ == it.seq().take(it.index()),
    {
        res.push(c);
    }
    res
}


/// The string made of the characters `cs[lo..hi]`.
pub fn string_of(cs: &[char], lo: usize, hi: usize) -> (res: String)
    requires
        lo <= hi <= cs@.len(),
    ensures
        res@ == cs@.subrange(lo as int, hi as int),
{
    let mut res = String::new();
    let mut i: usize = lo;
    while i < hi
        invariant
            lo <= i <= hi <= cs@.len(),
            res@ == cs@.subrange(lo as int, i as int),
        decreases hi - i,
    {
        push_char(&mut res, cs[i]);
        i = i + 1;
        assert(res@ =~= cs@.subrange(lo as int, i as int));
    }
    res
}

/// `parts` joined with `sep` between each two of them.
pub open spec fn joined(parts: Seq<Seq<char>>, sep: Seq<char>) -> Seq<char>
    decreases parts.len(),
{
    if parts.len() == 0 {
        Seq::empty()
    } else if parts.len() == 1 {
        parts[0]
    } else {
        joined(parts.drop_last(), sep) + sep + parts.last()
    }
}

/// The model of a list of exec strings.
pub open spec fn views(v: Seq<String>) -> Seq<Seq<char>> {
    v.map_values(|s: String| s@)
}

/// `parts.join(sep)`.
pub fn join(parts: &[String], sep: &str) -> (res: String)
    ensures
        res@ == joined(views(parts@), sep@),
{
    let mut res = String::new();
    let mut i: usize = 0;
    while i < parts.len()
        invariant
            i <= parts@.len(),
            res@ == joined(views(parts@).take(i as int), sep@),
        decreases parts@.len() - i,
    {
        let ghost before = res@;
        if i > 0 {
            res.append(sep);
        }
        res.append(parts[i].as_str());
        proof {
            let v = views(parts@);
            assert(v.take(i + 1).drop_last() =~= v.take(i as int));
            if i == 0 {
                assert(before =~= Seq::<char>::empty());
                assert(res@ =~= v.take(1)[0]);
            }
        }
        i = i + 1;
    }
    assert(views(parts@).take(parts@.len() as int) =~= views(parts@));
    res
}

/// `s` with every trailing `c` removed (`str::trim_end_matches(c)`).
pub open spec fn strip_trailing(s: Seq<char>, c: char) -> Seq<char>
    decreases s.len(),
{
    if s.len() > 0 && s.last() == c {
        strip_trailing(s.drop_last(), c)
    } else {
        s
    }
}

/// `s.trim_end_matches(c)`.
pub fn trim_end_char(s: &str, c: char) -> (res: String)
    ensures
        res@ == strip_trailing(s@, c),
{
    let cs = chars_of(s);
    let mut k = cs.len();
    assert(s@.take(k as int) =~= s@);
    while k > 0 && cs[k - 1] == c
        invariant
            k <= cs@.len(),
            cs@ == s@,
            strip_trailing(s@.take(k as int), c) == strip_trailing(s@, c),
        decreases k,
    {
        assert(s@.take(k as int).drop_last() =~= s@.take(k - 1));
        k = k - 1;
    }
    assert(cs@.subrange(0, k as int) =~= s@.take(k as int));
    string_of(cs.as_slice(), 0, k)
}


/// A Unicode `White_Space` character, the whitespace of `str::trim`.
pub open spec fn is_white(c: char) -> bool {
    let u = c as u32;
    ||| 0x9 <= u <= 0xD
    ||| u == 0x20
    ||| u == 0x85
    ||| u == 0xA0
    ||| u == 0x1680
    ||| 0x2000 <= u <= 0x200A
    ||| u == 0x2028
    ||| u == 0x2029
    ||| u == 0x202F
    ||| u == 0x205F
    ||| u == 0x3000
}

/// Whether `c` is whitespace.
pub fn white(c: char) -> (res: bool)
    ensures
        res == is_white(c),
{
    let u = c as u32;
    (0x9 <= u && u <= 0xD) || u == 0x20 || u == 0x85 || u == 0xA0 || u == 0x1680 || (0x2000 <= u
        && u <= 0x200A) || u == 0x2028 || u == 0x2029 || u == 0x202F || u == 0x205F || u == 0x3000
}

/// `s` without its leading whitespace.
pub open spec fn trim_front(s: Seq<char>) -> Seq<char>
    decreases s.len(),
{
    if s.len() > 0 && is_white(s[0]) {
        trim_front(s.drop_first())
    } else {
        s
    }
}

/// `s` without its trailing whitespace.
pub open spec fn trim_back(s: Seq<char>) -> Seq<char>
    decreases s.len(),
{
    if s.len() > 0 && is_white(s.last()) {
        trim_back(s.drop_last())
    } else {
        s
    }
}

/// `s.trim()`: `s` without leading and trailing whitespace.
pub open spec fn trimmed(s: Seq<char>) -> Seq<char> {
    trim_back(trim_front(s))
}

/// `s.trim()`.
pub fn trim(s: &[char]) -> (res: String)
    ensures
        res@ == trimmed(s@),
{
    let mut lo: usize = 0;
    assert(s@.skip(0) =~= s@);
    while lo < s.len() && white(s[lo])
        invariant
            lo <= s@.len(),
            trim_front(s@.skip(lo as int)) == trim_front(s@),
        decreases s@.len() - lo,
    {
        assert(s@.skip(lo as int).drop_first() =~= s@.skip(lo + 1));
        lo = lo + 1;
    }
    let ghost front = s@.skip(lo as int);
    assert(trim_front(s@) == front);
    let mut hi: usize = s.len();
    assert(front.take(front.len() as int) =~= front);
    while hi > lo && white(s[hi - 1])
        invariant
            lo <= hi <= s@.len(),
            front == s@.skip(lo as int),
            trim_back(front.take(hi - lo)) == trim_back(front),
        decreases hi,
    {
        assert(front.take(hi - lo).drop_last() =~= front.take(hi - 1 - lo));
        hi = hi - 1;
    }
    assert(s@.subrange(lo as int, hi as int) =~= front.take(hi - lo));
    string_of(s, lo, hi)
}

/// `s.split(c)` as texts: the pieces between the occurrences of `c`; there is
/// always one piece more than there are occurrences.
pub open spec fn split_on(s: Seq<char>, c: char) -> Seq<Seq<char>>
    decreases s.len(),
{
    if s.len() == 0 {
        seq![Seq::empty()]
    } else {
        let pre = split_on(s.drop_last(), c);
        if s.last() == c {
            pre.push(Seq::empty())
        } else {
            pre.update(pre.len() - 1, pre.last().push(s.last()))
        }
    }
}

proof fn lemma_split_nonempty(s: Seq<char>, c: char)
    ensures
        split_on(s, c).len() >= 1,
    decreases s.len(),
{
    if s.len() > 0 {
        lemma_split_nonempty(s.drop_last(), c);
    }
}

/// The pieces of `s` between the occurrences of `c`, as character lists.
pub fn split_char(s: &[char], c: char) -> (res: Vec<Vec<char>>)
    ensures
        res@.len() == split_on(s@, c).len(),
        forall|i: int| 0 <= i < res@.len() ==> #[trigger] res@[i]@ == split_on(s@, c)[i],
{
    let mut done: Vec<Vec<char>> = Vec::new();
    let mut cur: Vec<char> = Vec::new();
    let mut i: usize = 0;
    assert(s@.take(0) =~= Seq::<char>::empty());
    while i < s.len()
        invariant
            i <= s@.len(),
            done@.len() + 1 == split_on(s@.take(i as int), c).len(),
            forall|j: int| 0 <= j < done@.len() ==> #[trigger] done@[j]@ == split_on(s@.take(i as int), c)[j],
            cur@ == split_on(s@.take(i as int), c).last(),
        decreases s@.len() - i,
    {
        let ghost pre = split_on(s@.take(i as int), c);
        assert(s@.take(i + 1).drop_last() =~= s@.take(i as int));
        proof {
            lemma_split_nonempty(s@.take(i as int), c);
        }
        if s[i] == c {
            done.push(cur);
            cur = Vec::new();
            assert(cur@ =~= Seq::<char>::empty());
        } else {
            cur.push(s[i]);
        }
        i = i + 1;
    }
    done.push(cur);
    assert(s@.take(s@.len() as int) =~= s@);
    done
}

/// Law: joining the pieces of `s.split(c)` with `c` gives back `s`.
/// Text after the last separator that holds no separator extends the last
/// piece.
pub proof fn lemma_split_append_plain(x: Seq<char>, b: Seq<char>, c: char)
    requires
        !b.contains(c),
    ensures
        split_on(x + b, c) == split_on(x, c).update(
            split_on(x, c).len() - 1,
            split_on(x, c).last() + b,
        ),
    decreases b.len(),
{
    lemma_split_nonempty(x, c);
    if b.len() == 0 {
        assert(x + b =~= x);
        assert(split_on(x, c).last() + b =~= split_on(x, c).last());
        assert(split_on(x, c).update(split_on(x, c).len() - 1, split_on(x, c).last()) =~= split_on(x, c));
    } else {
        let b0 = b.drop_last();
        assert(!b0.contains(c)) by {
            if b0.contains(c) {
                let j = choose|j: int| 0 <= j < b0.len() && b0[j] == c;
                assert(b[j] == c);
            }
        }
        lemma_split_append_plain(x, b0, c);
        let s = x + b;
        assert(s.drop_last() =~= x + b0);
        assert(s.last() == b.last());
        assert(b.last() != c) by {
            assert(b[b.len() - 1] == b.last());
        }
        let p = split_on(x, c);
        let pre = split_on(x + b0, c);
        assert(pre == p.update(p.len() - 1, p.last() + b0));
        assert(pre.last() == p.last() + b0);
        assert(p.last() + b0 + seq![b.last()] =~= p.last() + b);
        assert(pre.len() == p.len());
        assert(pre.last().push(s.last()) =~= p.last() + b);
        assert(pre.update(pre.len() - 1, pre.last().push(s.last())) =~= p.update(p.len() - 1, p.last() + b));
    }
}

pub proof fn law_split_then_join(s: Seq<char>, c: char)
    ensures
        joined(split_on(s, c), seq![c]) == s,
    decreases s.len(),
{
    if s.len() > 0 {
        let pre = split_on(s.drop_last(), c);
        law_split_then_join(s.drop_last(), c);
        lemma_split_nonempty(s.drop_last(), c);
        if s.last() == c {
            assert(pre.push(Seq::empty()).drop_last() =~= pre);
            assert(joined(pre, seq![c]) + seq![c] + Seq::<char>::empty() =~= s);
        } else {
            let upd = pre.update(pre.len() - 1, pre.last().push(s.last()));
            if pre.len() == 1 {
                assert(upd[0] =~= s);
            } else {
                assert(upd.drop_last() =~= pre.drop_last());
                assert(joined(pre.drop_last(), seq![c]) + seq![c] + pre.last().push(s.last()) =~= (
                joined(pre.drop_last(), seq![c]) + seq![c] + pre.last()).push(s.last()));
            }
            assert(s =~= s.drop_last().push(s.last()));
        }
    }
}

} // verus!
