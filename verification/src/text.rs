//! Character-level text operations that the message handling relies on:
//! substring search, prefixes, character removal and replacement, and
//! line splitting. Every operation works on the character sequence of a
//! string (its view), never on its UTF-8 bytes.
use vstd::prelude::*;

verus! {

/// `p` occurs in `s` starting at index `i`.
pub open spec fn occurs_at(s: Seq<char>, p: Seq<char>, i: int) -> bool {
    0 <= i && i + p.len() <= s.len() && s.subrange(i, i + p.len()) == p
}

/// `p` occurs somewhere in `s` (what `str::contains` answers for a string pattern).
pub open spec fn has_sub(s: Seq<char>, p: Seq<char>) -> bool {
    exists|i: int| #[trigger] occurs_at(s, p, i)
}

/// `s` with every occurrence of `c` replaced by the sequence `r`.
pub open spec fn replace_each(s: Seq<char>, c: char, r: Seq<char>) -> Seq<char>
    decreases s.len(),
{
    if s.len() == 0 {
        Seq::empty()
    } else {
        replace_each(s.drop_last(), c, r) + (if s.last() == c {
            r
        } else {
            seq![s.last()]
        })
    }
}

/// `s` with every occurrence of `c` left out.
pub open spec fn without_char(s: Seq<char>, c: char) -> Seq<char> {
    s.filter(other_than(c))
}

/// The predicate "is not `c`".
pub open spec fn other_than(c: char) -> spec_fn(char) -> bool {
    |x: char| x != c
}

/// The predicate "is `c`".
pub open spec fn equal_to(c: char) -> spec_fn(char) -> bool {
    |x: char| x == c
}

/// The number of occurrences of `c` in `s`.
pub open spec fn count_char(s: Seq<char>, c: char) -> nat {
    s.filter(equal_to(c)).len()
}

/// The pieces of `s` between occurrences of `sep`, as `str::split` with a
/// one-character pattern yields them: `k` separators give `k + 1` pieces.
pub open spec fn split_on(s: Seq<char>, sep: char) -> Seq<Seq<char>>
    decreases s.len(),
{
    if s.len() == 0 {
        seq![Seq::empty()]
    } else {
        let init = split_on(s.drop_last(), sep);
        if s.last() == sep {
            init.push(Seq::empty())
        } else {
            init.update(init.len() - 1, init.last().push(s.last()))
        }
    }
}

/// The pieces joined back together with `sep` between neighbours.
pub open spec fn join_with(pieces: Seq<Seq<char>>, sep: char) -> Seq<char>
    decreases pieces.len(),
{
    if pieces.len() == 0 {
        Seq::empty()
    } else if pieces.len() == 1 {
        pieces[0]
    } else {
        join_with(pieces.drop_last(), sep) + seq![sep] + pieces.last()
    }
}

/// The views of a vector of strings.
pub open spec fn views(v: Seq<String>) -> Seq<Seq<char>> {
    v.map_values(|s: String| s@)
}

/// Appends one character to a `String` (std's `String::push`).
#[verifier::external_body]
fn push_char(s: &mut String, c: char)
    ensures
        final(s)@ == old(s)@.push(c),
{
    s.push(c);
}

/// The characters of `s`, in order.
pub fn chars_of(s: &str) -> (v: Vec<char>)
    ensures
        v@ == s@,
{
    broadcast use vstd::string::group_string_axioms;

    let mut v: Vec<char> = Vec::new();
    for c in it: s.chars()
        invariant
            v@ == it.seq().take(it.index() as int),
    {
        v.push(c);
    }
    v
}

/// A `String` holding exactly the characters of `v`.
pub fn string_of(v: &Vec<char>) -> (s: String)
    ensures
        s@ == v@,
{
    let mut s = String::new();
    for i in 0..v.len()
        invariant
            s@ == v@.take(i as int),
    {
        push_char(&mut s, v[i]);
        assert(v@.take(i + 1) == v@.take(i as int).push(v@[i as int]));
    }
    assert(v@.take(v.len() as int) == v@);
    s
}

/// Whether `p` occurs in `s` at index `i`.
fn matches_at(s: &Vec<char>, p: &Vec<char>, i: usize) -> (b: bool)
    requires
        i + p.len() <= s.len(),
    ensures
        b == occurs_at(s@, p@, i as int),
{
    let mut j: usize = 0;
    while j < p.len()
        invariant
            j <= p.len(),
            i + p.len() <= s.len(),
            forall|k: int| 0 <= k < j ==> s@[i + k] == p@[k],
        decreases p.len() - j,
    {
        if s[i + j] != p[j] {
            assert(s@.subrange(i as int, i + p.len())[j as int] != p@[j as int]);
            return false;
        }
        j += 1;
    }
    assert(s@.subrange(i as int, i + p.len()) =~= p@);
    true
}

/// Whether `p` occurs anywhere in `s`.
pub fn contains_seq(s: &Vec<char>, p: &Vec<char>) -> (b: bool)
    ensures
        b == has_sub(s@, p@),
{
    if p.len() == 0 {
        assert(s@.subrange(0, 0) =~= p@);
        assert(occurs_at(s@, p@, 0));
        return true;
    }
    if p.len() > s.len() {
        assert forall|k: int| !occurs_at(s@, p@, k) by {}
        return false;
    }
    let last: usize = s.len() - p.len();
    let mut i: usize = 0;
    while i <= last
        invariant
            last == s.len() - p.len(),
            1 <= p.len() <= s.len(),
            i <= last + 1,
            forall|k: int| 0 <= k < i ==> !occurs_at(s@, p@, k),
        decreases last + 1 - i,
    {
        if matches_at(s, p, i) {
            return true;
        }
        i += 1;
    }
    assert forall|k: int| !occurs_at(s@, p@, k) by {
        if 0 <= k < i {
        }
    }
    false
}

/// Whether the text `s` contains the text `p`.
pub fn str_contains(s: &str, p: &str) -> (b: bool)
    ensures
        b == has_sub(s@, p@),
{
    let sv = chars_of(s);
    let pv = chars_of(p);
    contains_seq(&sv, &pv)
}

/// Whether `s` begins with `p`.
pub fn starts_with_seq(s: &Vec<char>, p: &Vec<char>) -> (b: bool)
    ensures
        b == p@.is_prefix_of(s@),
{
    if p.len() > s.len() {
        return false;
    }
    let b = matches_at(s, p, 0);
    assert(s@.subrange(0, p@.len() as int) == s@.take(p@.len() as int));
    b
}

/// Whether the text `s` begins with the text `p`.
pub fn str_starts_with(s: &str, p: &str) -> (b: bool)
    ensures
        b == p@.is_prefix_of(s@),
{
    let sv = chars_of(s);
    let pv = chars_of(p);
    starts_with_seq(&sv, &pv)
}

/// Whether the character `c` occurs in `s`.
pub fn has_char(s: &Vec<char>, c: char) -> (b: bool)
    ensures
        b == s@.contains(c),
{
    let mut i: usize = 0;
    while i < s.len()
        invariant
            i <= s.len(),
            forall|k: int| 0 <= k < i ==> s@[k] != c,
        decreases s.len() - i,
    {
        if s[i] == c {
            return true;
        }
        i += 1;
    }
    false
}

/// `s` with every `c` left out.
pub fn remove_char(s: &Vec<char>, c: char) -> (r: Vec<char>)
    ensures
        r@ == without_char(s@, c),
{
    let mut r: Vec<char> = Vec::new();
    for i in 0..s.len()
        invariant
            r@ == without_char(s@.take(i as int), c),
    {
        assert(s@.take(i + 1) == s@.take(i as int).push(s@[i as int]));
        proof { s@.take(i as int).lemma_filter_push(s@[i as int], other_than(c)); }
        if s[i] != c {
            r.push(s[i]);
        }
    }
    assert(s@.take(s.len() as int) == s@);
    r
}

/// The number of times `c` occurs in `s`.
pub fn count_of(s: &Vec<char>, c: char) -> (n: usize)
    ensures
        n == count_char(s@, c),
{
    let mut n: usize = 0;
    for i in 0..s.len()
        invariant
            n == count_char(s@.take(i as int), c),
            n <= i,
    {
        assert(s@.take(i + 1) == s@.take(i as int).push(s@[i as int]));
        proof { s@.take(i as int).lemma_filter_push(s@[i as int], equal_to(c)); }
        if s[i] == c {
            n += 1;
        }
    }
    assert(s@.take(s.len() as int) == s@);
    n
}

/// `s` with every `c` replaced by the characters of `r`.
pub fn replace_char(s: &Vec<char>, c: char, r: &Vec<char>) -> (out: Vec<char>)
    ensures
        out@ == replace_each(s@, c, r@),
{
    let mut out: Vec<char> = Vec::new();
    for i in 0..s.len()
        invariant
            out@ == replace_each(s@.take(i as int), c, r@),
    {
        let ghost before = out@;
        assert(s@.take(i + 1).drop_last() == s@.take(i as int));
        if s[i] == c {
            let mut j: usize = 0;
            while j < r.len()
                invariant
                    j <= r.len(),
                    out@ == before + r@.take(j as int),
                decreases r.len() - j,
            {
                out.push(r[j]);
                assert(r@.take(j + 1) == r@.take(j as int).push(r@[j as int]));
                j += 1;
            }
            assert(r@.take(r.len() as int) == r@);
        } else {
            out.push(s[i]);
        }
    }
    assert(s@.take(s.len() as int) == s@);
    out
}

/// Splitting a text at a separator between two parts gives the pieces of
/// the first part followed by the pieces of the second.
pub proof fn lemma_split_concat(s: Seq<char>, sep: char, y: Seq<char>)
    ensures
        split_on(s + seq![sep] + y, sep) == split_on(s, sep) + split_on(y, sep),
    decreases y.len(),
{
    let t = s + seq![sep] + y;
    lemma_split_nonempty(s, sep);
    if y.len() == 0 {
        assert(t =~= s.push(sep));
        assert(t.drop_last() =~= s);
        assert(split_on(t, sep) =~= split_on(s, sep) + split_on(y, sep));
    } else {
        let yi = y.drop_last();
        lemma_split_concat(s, sep, yi);
        lemma_split_nonempty(yi, sep);
        assert(t.drop_last() =~= s + seq![sep] + yi);
        assert(t.last() == y.last());
        let a = split_on(s, sep);
        let b = split_on(yi, sep);
        if y.last() == sep {
            assert(split_on(t, sep) =~= a + b.push(Seq::empty()));
        } else {
            assert((a + b).last() == b.last());
            assert(split_on(t, sep) =~= a + b.update(b.len() - 1, b.last().push(y.last())));
        }
        assert(split_on(t, sep) =~= split_on(s, sep) + split_on(y, sep));
    }
}

/// A text made of `a`, then `p`, then `b` holds `p`.
pub proof fn lemma_holds_inserted(a: Seq<char>, p: Seq<char>, b: Seq<char>)
    ensures
        has_sub(a + p + b, p),
{
    assert((a + p + b).subrange(a.len() as int, (a.len() + p.len()) as int) =~= p);
    assert(occurs_at(a + p + b, p, a.len() as int));
}

/// The predicate "begins with `p`".
pub open spec fn begins_with(p: Seq<char>) -> spec_fn(Seq<char>) -> bool {
    |l: Seq<char>| p.is_prefix_of(l)
}

/// Splitting always yields at least one piece.
pub proof fn lemma_split_nonempty(s: Seq<char>, sep: char)
    ensures
        split_on(s, sep).len() >= 1,
    decreases s.len(),
{
    if s.len() > 0 {
        lemma_split_nonempty(s.drop_last(), sep);
    }
}

/// No piece of a split holds the separator.
pub proof fn lemma_split_pieces_free_of_sep(s: Seq<char>, sep: char)
    ensures
        forall|k: int| 0 <= k < split_on(s, sep).len() ==> !(#[trigger] split_on(s, sep)[k]).contains(sep),
    decreases s.len(),
{
    if s.len() > 0 {
        let init = split_on(s.drop_last(), sep);
        lemma_split_pieces_free_of_sep(s.drop_last(), sep);
        lemma_split_nonempty(s.drop_last(), sep);
        if s.last() != sep {
            let l = init.last().push(s.last());
            assert forall|j: int| 0 <= j < l.len() implies l[j] != sep by {
                if j < init.last().len() {
                    assert(init[init.len() - 1][j] == l[j]);
                }
            }
        }
    }
}

/// Joining the pieces of a split with the separator gives back the text.
pub proof fn lemma_join_split(s: Seq<char>, sep: char)
    ensures
        join_with(split_on(s, sep), sep) == s,
    decreases s.len(),
{
    if s.len() > 0 {
        let init = s.drop_last();
        let p = split_on(init, sep);
        lemma_join_split(init, sep);
        lemma_split_nonempty(init, sep);
        if s.last() == sep {
            assert(split_on(s, sep).drop_last() == p);
            assert(join_with(split_on(s, sep), sep) =~= s);
        } else {
            let q = split_on(s, sep);
            if p.len() == 1 {
                assert(join_with(q, sep) =~= s);
            } else {
                assert(q.drop_last() =~= p.drop_last());
                assert(q.last() == p.last().push(s.last()));
                assert(join_with(q, sep) == join_with(p.drop_last(), sep) + seq![sep] + q.last());
                assert(join_with(p, sep) == join_with(p.drop_last(), sep) + seq![sep] + p.last());
                assert(join_with(q, sep) =~= join_with(p, sep).push(s.last()));
                assert(s =~= init.push(s.last()));
            }
        }
    }
}

/// The lines of `text` (pieces between `'\n'` characters) that begin with
/// `prefix`, in order.
pub fn lines_starting_with(text: &str, prefix: &str) -> (lines: Vec<String>)
    ensures
        views(lines@) == split_on(text@, '\n').filter(begins_with(prefix@)),
        forall|k: int|
            0 <= k < lines.len() ==> prefix@.is_prefix_of(#[trigger] lines@[k]@) && !lines@[k]@.contains(
                '\n',
            ),
{
    let s = chars_of(text);
    let p = chars_of(prefix);
    let mut done: Vec<String> = Vec::new();
    let mut cur: Vec<char> = Vec::new();
    let ghost pred = begins_with(prefix@);
    proof {
        assert(s@.take(0) =~= Seq::<char>::empty());
    }
    for i in 0..s.len()
        invariant
            s@ == text@,
            p@ == prefix@,
            pred == begins_with(prefix@),
            split_on(s@.take(i as int), '\n').len() >= 1,
            views(done@) == split_on(s@.take(i as int), '\n').drop_last().filter(pred),
            cur@ == split_on(s@.take(i as int), '\n').last(),
    {
        let ghost sp = split_on(s@.take(i as int), '\n');
        assert(s@.take(i + 1).drop_last() == s@.take(i as int));
        assert(s@.take(i + 1).last() == s@[i as int]);
        let c = s[i];
        if c == '\n' {
            proof {
                assert(sp.drop_last().push(sp.last()) == sp);
                sp.drop_last().lemma_filter_push(sp.last(), pred);
            }
            if starts_with_seq(&cur, &p) {
                let line = string_of(&cur);
                let ghost before = done@;
                done.push(line);
                assert(views(done@) =~= views(before).push(line@));
            }
            cur = Vec::new();
            assert(split_on(s@.take(i + 1), '\n').drop_last() == sp);
        } else {
            cur.push(c);
            assert(split_on(s@.take(i + 1), '\n').drop_last() =~= sp.drop_last());
        }
    }
    proof {
        assert(s@.take(s.len() as int) == s@);
    }
    let ghost sp = split_on(s@, '\n');
    proof {
        assert(sp.drop_last().push(sp.last()) == sp);
        sp.drop_last().lemma_filter_push(sp.last(), pred);
    }
    if starts_with_seq(&cur, &p) {
        let line = string_of(&cur);
        let ghost before = done@;
        done.push(line);
        assert(views(done@) =~= views(before).push(line@));
    }
    proof {
        lemma_split_pieces_free_of_sep(text@, '\n');
        assert forall|k: int| 0 <= k < done.len() implies prefix@.is_prefix_of(
            #[trigger] done@[k]@,
        ) && !done@[k]@.contains('\n') by {
            assert(views(done@)[k] == done@[k]@);
            sp.lemma_filter_pred(pred, k);
            sp.lemma_filter_contains_rev(pred, done@[k]@);
            assert(sp.filter(pred).contains(done@[k]@));
        }
    }
    done
}

} // verus!
