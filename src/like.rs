//! The SQL `LIKE` pattern language: `_` matches one character, `%` matches
//! any run of characters, and every other character matches itself.

use vstd::prelude::*;

use crate::text::{chars_of, lowercase_of, to_lowercase};

verus! {

/// Whether pattern `p` from position `i` on matches text `t` from position
/// `j` on.
pub open spec fn like_from(p: Seq<char>, t: Seq<char>, i: int, j: int) -> bool
    decreases p.len() - i, t.len() - j,
{
    if i < 0 || j < 0 || i > p.len() || j > t.len() {
        false
    } else if i == p.len() {
        j == t.len()
    } else if p[i] == '%' {
        like_from(p, t, i + 1, j) || (j < t.len() && like_from(p, t, i, j + 1))
    } else if j == t.len() {
        false
    } else if p[i] == '_' || p[i] == t[j] {
        like_from(p, t, i + 1, j + 1)
    } else {
        false
    }
}

/// Whether pattern `p` matches the whole of text `t`.
pub open spec fn like(p: Seq<char>, t: Seq<char>) -> bool {
    like_from(p, t, 0, 0)
}

/// Whether `p` holds no wildcard.
pub open spec fn is_literal(p: Seq<char>) -> bool {
    forall|k: int| 0 <= k < p.len() ==> #[trigger] p[k] != '%' && p[k] != '_'
}

fn match_from(f: &Vec<char>, v: &Vec<char>, i: usize, j: usize) -> (r: bool)
    requires
        i <= f.len(),
        j <= v.len(),
    ensures
        r == like_from(f@, v@, i as int, j as int),
    decreases f.len() - i, v.len() - j,
{
    if i == f.len() {
        j == v.len()
    } else if f[i] == '%' {
        match_from(f, v, i + 1, j) || (j < v.len() && match_from(f, v, i, j + 1))
    } else if j == v.len() {
        false
    } else if f[i] == '_' || f[i] == v[j] {
        match_from(f, v, i + 1, j + 1)
    } else {
        false
    }
}

/// Whether `value` matches the `LIKE` pattern `filter`.
pub fn sql_like(filter: &str, value: &str) -> (r: bool)
    ensures
        r == like(filter@, value@),
{
    let f = chars_of(filter);
    let v = chars_of(value);
    match_from(&f, &v, 0, 0)
}

/// Case-insensitive `LIKE`: both sides are lowercased first.
pub fn sql_ilike(filter: &str, value: &str) -> (r: bool)
    ensures
        r == like(lowercase_of(filter@), lowercase_of(value@)),
{
    let f = to_lowercase(filter);
    let v = to_lowercase(value);
    sql_like(f.as_str(), v.as_str())
}

proof fn lemma_percent_from(t: Seq<char>, j: int)
    requires
        0 <= j <= t.len(),
    ensures
        like_from(seq!['%'], t, 0, j),
    decreases t.len() - j,
{
    let p = seq!['%'];
    assert(like_from(p, t, 1, j) == (j == t.len()));
    if j < t.len() {
        lemma_percent_from(t, j + 1);
    }
}

/// A lone `%` matches every text, the empty one included.
pub proof fn lemma_percent_matches_any(t: Seq<char>)
    ensures
        like(seq!['%'], t),
{
    lemma_percent_from(t, 0);
}

/// A lone `_` matches exactly the texts of one character.
pub proof fn lemma_underscore_matches_one(t: Seq<char>)
    ensures
        like(seq!['_'], t) <==> t.len() == 1,
{
    let p = seq!['_'];
    if t.len() > 0 {
        assert(like_from(p, t, 1, 1) == (1 == t.len()));
    }
}

proof fn lemma_literal_from(p: Seq<char>, t: Seq<char>, i: int, j: int)
    requires
        is_literal(p),
        0 <= i <= p.len(),
        0 <= j <= t.len(),
    ensures
        like_from(p, t, i, j) <==> p.subrange(i, p.len() as int) == t.subrange(j, t.len() as int),
    decreases p.len() - i,
{
    let ps = p.subrange(i, p.len() as int);
    let ts = t.subrange(j, t.len() as int);
    if i == p.len() || j == t.len() {
        if ps == ts {
            assert(ps.len() == ts.len());
        }
        if i == p.len() && j == t.len() {
            assert(ps =~= ts);
        }
    } else {
        assert(p[i] != '%' && p[i] != '_');
        lemma_literal_from(p, t, i + 1, j + 1);
        let ps1 = p.subrange(i + 1, p.len() as int);
        let ts1 = t.subrange(j + 1, t.len() as int);
        if ps == ts {
            assert(ps[0] == ts[0]);
            assert(ps1 =~= ps.subrange(1, ps.len() as int));
            assert(ts1 =~= ts.subrange(1, ts.len() as int));
        }
        if p[i] == t[j] && ps1 == ts1 {
            assert forall|k: int| 0 <= k < ps.len() implies ps[k] == ts[k] by {
                if k > 0 {
                    assert(ps1[k - 1] == ts1[k - 1]);
                }
            }
            assert(ps =~= ts);
        }
    }
}

/// A pattern without wildcards matches exactly the text equal to it.
pub proof fn lemma_literal_matches_itself(p: Seq<char>, t: Seq<char>)
    requires
        is_literal(p),
    ensures
        like(p, t) <==> p == t,
{
    lemma_literal_from(p, t, 0, 0);
    assert(p.subrange(0, p.len() as int) =~= p);
    assert(t.subrange(0, t.len() as int) =~= t);
}

} // verus!
