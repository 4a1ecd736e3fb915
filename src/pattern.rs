//! Marker templates matched with tolerance: in a template a space stands for
//! any non-empty run of whitespace, and `%` for any identifier that the code
//! generator may choose; every other character must appear as it is.
//!
//! A run is always taken whole. Templates never let a whitespace slot be
//! followed by whitespace, nor an identifier slot by an identifier character,
//! so taking the whole run is the only way a match can go on.

use vstd::prelude::*;

verus! {

/// A whitespace character.
pub open spec fn is_space(c: char) -> bool {
    c == ' ' || c == '\t' || c == '\n' || c == '\r'
}

/// A character that can stand in an identifier.
pub open spec fn is_name_char(c: char) -> bool {
    ('a' <= c <= 'z') || ('A' <= c <= 'Z') || ('0' <= c <= '9') || c == '_' || c == '$'
}

/// A character of a run: an identifier's when `names`, whitespace otherwise.
pub open spec fn in_run(c: char, names: bool) -> bool {
    if names {
        is_name_char(c)
    } else {
        is_space(c)
    }
}

/// The index where the run that starts at `i` ends.
pub open spec fn run_end(t: Seq<char>, i: int, names: bool) -> int
    decreases t.len() - i,
{
    if 0 <= i < t.len() && in_run(t[i], names) {
        run_end(t, i + 1, names)
    } else {
        i
    }
}

/// Where a match of the template `p`, from its element `k` on, that starts at
/// index `i` of `t` ends.
pub open spec fn match_end(t: Seq<char>, p: Seq<char>, i: int, k: int) -> Option<int>
    decreases p.len() - k,
{
    if k < 0 || k >= p.len() {
        Some(i)
    } else if i < 0 || i >= t.len() {
        None
    } else if p[k] == ' ' {
        if is_space(t[i]) {
            match_end(t, p, run_end(t, i, false), k + 1)
        } else {
            None
        }
    } else if p[k] == '%' {
        if is_name_char(t[i]) {
            match_end(t, p, run_end(t, i, true), k + 1)
        } else {
            None
        }
    } else if t[i] == p[k] {
        match_end(t, p, i + 1, k + 1)
    } else {
        None
    }
}

/// The template `p` matches `t` at index `i`.
pub open spec fn matches_at(t: Seq<char>, p: Seq<char>, i: int) -> bool {
    match_end(t, p, i, 0) is Some
}

/// The whole of `m` is one match of the template `p`.
pub open spec fn instance_of(m: Seq<char>, p: Seq<char>) -> bool {
    match_end(m, p, 0, 0) == Some(m.len() as int)
}

/// A template whose last element is a literal character.
pub open spec fn ends_literal(p: Seq<char>) -> bool {
    p.len() > 0 && p.last() != ' ' && p.last() != '%'
}

/// The first index at or after `i` where `p` matches `t`.
pub open spec fn find_match(t: Seq<char>, p: Seq<char>, i: int) -> Option<int>
    decreases t.len() + 1 - i,
{
    if i < 0 || i >= t.len() {
        None
    } else if matches_at(t, p, i) {
        Some(i)
    } else {
        find_match(t, p, i + 1)
    }
}

/// The only index at or after `from` where `p` matches `t`.
pub open spec fn only_from(t: Seq<char>, p: Seq<char>, from: int) -> Option<int> {
    match find_match(t, p, from) {
        Some(q) => if find_match(t, p, q + 1) is None {
            Some(q)
        } else {
            None
        },
        None => None,
    }
}

/// `p` matches `t` at `at`, and nowhere else at or after `from`.
pub open spec fn only_at(t: Seq<char>, p: Seq<char>, from: int, at: int) -> bool {
    &&& 0 <= from <= at
    &&& matches_at(t, p, at)
    &&& forall|j: int| from <= j && j != at ==> !matches_at(t, p, j)
}

pub proof fn lemma_run_end(t: Seq<char>, i: int, names: bool)
    requires
        0 <= i <= t.len(),
    ensures
        i <= run_end(t, i, names) <= t.len(),
        run_end(t, i, names) < t.len() ==> !in_run(t[run_end(t, i, names)], names),
    decreases t.len() - i,
{
    if i < t.len() && in_run(t[i], names) {
        lemma_run_end(t, i + 1, names);
    }
}

pub proof fn lemma_match_end(t: Seq<char>, p: Seq<char>, i: int, k: int)
    requires
        0 <= i <= t.len(),
        0 <= k,
    ensures
        match_end(t, p, i, k) matches Some(e) ==> i <= e <= t.len() && (k < p.len() ==> i < e),
    decreases p.len() - k,
{
    if k < p.len() && i < t.len() {
        if p[k] == ' ' {
            lemma_run_end(t, i, false);
            if is_space(t[i]) {
                lemma_match_end(t, p, run_end(t, i, false), k + 1);
            }
        } else if p[k] == '%' {
            lemma_run_end(t, i, true);
            if is_name_char(t[i]) {
                lemma_match_end(t, p, run_end(t, i, true), k + 1);
            }
        } else {
            lemma_match_end(t, p, i + 1, k + 1);
        }
    }
}

/// `find_match` gives a match at or after `i` before which there is none.
pub proof fn lemma_find_match(t: Seq<char>, p: Seq<char>, i: int)
    requires
        0 <= i,
        p.len() > 0,
    ensures
        match find_match(t, p, i) {
            Some(q) => i <= q < t.len() && matches_at(t, p, q) && forall|j: int|
                i <= j < q ==> !matches_at(t, p, j),
            None => forall|j: int| i <= j ==> !matches_at(t, p, j),
        },
    decreases t.len() + 1 - i,
{
    if i < t.len() && !matches_at(t, p, i) {
        lemma_find_match(t, p, i + 1);
    }
}

/// `only_from` finds exactly the index at which the match is the only one.
pub proof fn lemma_only_from(t: Seq<char>, p: Seq<char>, from: int, at: int)
    requires
        0 <= from,
        p.len() > 0,
    ensures
        only_from(t, p, from) == Some(at) <==> only_at(t, p, from, at),
{
    lemma_find_match(t, p, from);
    if let Some(q) = find_match(t, p, from) {
        lemma_find_match(t, p, q + 1);
        if only_at(t, p, from, at) {
            assert(q == at);
        }
        if only_from(t, p, from) == Some(at) {
            assert forall|j: int| from <= j && j != at implies !matches_at(t, p, j) by {
                if j > at {
                    assert(q + 1 <= j);
                }
            }
        }
    } else {
        if only_at(t, p, from, at) {
            assert(matches_at(t, p, at));
        }
    }
}

proof fn lemma_run_shift(t: Seq<char>, off: int, m: Seq<char>, i: int, names: bool)
    requires
        0 <= off,
        0 <= i <= m.len(),
        off + m.len() <= t.len(),
        forall|j: int| 0 <= j < m.len() ==> t[off + j] == m[j],
        run_end(m, i, names) < m.len(),
    ensures
        run_end(t, off + i, names) == off + run_end(m, i, names),
    decreases m.len() - i,
{
    if i < m.len() && in_run(m[i], names) {
        lemma_run_shift(t, off, m, i + 1, names);
    }
}

/// A match of the rest of a template to the end of `m` carries over to any
/// text that holds `m` at `off`, where the template ends in a literal.
proof fn lemma_window_from(t: Seq<char>, off: int, m: Seq<char>, p: Seq<char>, i: int, k: int)
    requires
        0 <= off,
        0 <= i <= m.len(),
        0 <= k,
        off + m.len() <= t.len(),
        forall|j: int| 0 <= j < m.len() ==> t[off + j] == m[j],
        ends_literal(p),
        match_end(m, p, i, k) == Some(m.len() as int),
    ensures
        match_end(t, p, off + i, k) == Some(off + m.len()),
    decreases p.len() - k,
{
    if k < p.len() {
        if p[k] == ' ' || p[k] == '%' {
            let names = p[k] == '%';
            let e = run_end(m, i, names);
            lemma_run_end(m, i, names);
            lemma_match_end(m, p, e, k + 1);
            lemma_run_shift(t, off, m, i, names);
            lemma_window_from(t, off, m, p, e, k + 1);
        } else {
            lemma_window_from(t, off, m, p, i + 1, k + 1);
        }
    }
}

/// A text holding an instance of a template at `off` matches it there, the
/// match ending with the instance.
pub proof fn lemma_instance_matches(t: Seq<char>, off: int, m: Seq<char>, p: Seq<char>)
    requires
        0 <= off,
        off + m.len() <= t.len(),
        t.subrange(off, off + m.len()) == m,
        ends_literal(p),
        instance_of(m, p),
    ensures
        match_end(t, p, off, 0) == Some(off + m.len()),
{
    assert forall|j: int| 0 <= j < m.len() implies t[off + j] == m[j] by {
        assert(t.subrange(off, off + m.len())[j] == m[j]);
    }
    lemma_window_from(t, off, m, p, 0, 0);
}

fn in_run_exec(c: char, names: bool) -> (r: bool)
    ensures
        r == in_run(c, names),
{
    if names {
        ('a' <= c && c <= 'z') || ('A' <= c && c <= 'Z') || ('0' <= c && c <= '9') || c == '_'
            || c == '$'
    } else {
        c == ' ' || c == '\t' || c == '\n' || c == '\r'
    }
}

fn run_end_exec(t: &Vec<char>, i: usize, names: bool) -> (r: usize)
    requires
        i <= t@.len(),
    ensures
        r == run_end(t@, i as int, names),
        i <= r <= t@.len(),
{
    let mut j = i;
    while j < t.len() && in_run_exec(t[j], names)
        invariant
            i <= j <= t@.len(),
            run_end(t@, i as int, names) == run_end(t@, j as int, names),
        decreases t@.len() - j,
    {
        j = j + 1;
    }
    j
}

/// Where a match of the template `p` that starts at index `i` of `t` ends.
pub fn match_end_exec(t: &Vec<char>, p: &Vec<char>, i: usize) -> (r: Option<usize>)
    requires
        i <= t@.len(),
    ensures
        match r {
            Some(e) => match_end(t@, p@, i as int, 0) == Some(e as int) && e <= t@.len(),
            None => match_end(t@, p@, i as int, 0) is None,
        },
{
    let mut pos = i;
    let mut k: usize = 0;
    while k < p.len()
        invariant
            pos <= t@.len(),
            k <= p@.len(),
            match_end(t@, p@, i as int, 0) == match_end(t@, p@, pos as int, k as int),
        decreases p@.len() - k,
    {
        if pos >= t.len() {
            return None;
        }
        let c = p[k];
        if c == ' ' || c == '%' {
            let names = c == '%';
            if !in_run_exec(t[pos], names) {
                return None;
            }
            pos = run_end_exec(t, pos, names);
        } else {
            if t[pos] != c {
                return None;
            }
            pos = pos + 1;
        }
        k = k + 1;
    }
    Some(pos)
}

/// The first index at or after `start` where `p` matches `t`.
pub fn find_match_exec(t: &Vec<char>, p: &Vec<char>, start: usize) -> (r: Option<usize>)
    ensures
        match r {
            Some(q) => find_match(t@, p@, start as int) == Some(q as int) && q < t@.len(),
            None => find_match(t@, p@, start as int) is None,
        },
{
    let mut i = start;
    while i < t.len()
        invariant
            start <= i,
            find_match(t@, p@, start as int) == find_match(t@, p@, i as int),
        decreases t@.len() - i,
    {
        if match_end_exec(t, p, i).is_some() {
            return Some(i);
        }
        i = i + 1;
    }
    None
}

/// The only index at or after `start` where `p` matches `t`.
pub fn only_from_exec(t: &Vec<char>, p: &Vec<char>, start: usize) -> (r: Option<usize>)
    ensures
        match r {
            Some(q) => only_from(t@, p@, start as int) == Some(q as int),
            None => only_from(t@, p@, start as int) is None,
        },
{
    let n = t.len();
    match find_match_exec(t, p, start) {
        None => None,
        Some(q) => match find_match_exec(t, p, q + 1) {
            None => Some(q),
            Some(_) => None,
        },
    }
}

} // verus!
