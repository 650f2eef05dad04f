//! The mathematical model of the searched text: substring containment and
//! splitting a text into lines.

use vstd::prelude::*;

verus! {

/// The query `q` occurs in `t` as a contiguous substring starting at index `i`.
pub open spec fn contains_at(t: Seq<char>, q: Seq<char>, i: int) -> bool {
    &&& 0 <= i
    &&& i + q.len() <= t.len()
    &&& t.subrange(i, i + q.len() as int) == q
}

/// The query `q` occurs somewhere in `t` as a contiguous substring.
/// An empty `q` occurs in every text.
pub open spec fn contains_seq(t: Seq<char>, q: Seq<char>) -> bool {
    exists|i: int| contains_at(t, q, i)
}

/// A segment that ends at a line feed loses a trailing carriage return: line
/// boundaries are both a bare line feed and a carriage return followed by a
/// line feed. A carriage return anywhere else is ordinary line text.
pub open spec fn strip_cr(l: Seq<char>) -> Seq<char> {
    if l.len() > 0 && l.last() == '\r' {
        l.drop_last()
    } else {
        l
    }
}

/// The index of the first line feed in `t`, or `t.len()` if there is none.
pub open spec fn first_nl(t: Seq<char>) -> int
    decreases t.len(),
{
    if t.len() == 0 {
        0
    } else if t[0] == '\n' {
        0
    } else {
        1 + first_nl(t.subrange(1, t.len() as int))
    }
}

pub proof fn lemma_first_nl_bounds(t: Seq<char>)
    ensures
        0 <= first_nl(t) <= t.len(),
        first_nl(t) < t.len() ==> t[first_nl(t)] == '\n',
        forall|j: int| 0 <= j < first_nl(t) ==> t[j] != '\n',
    decreases t.len(),
{
    if t.len() > 0 && t[0] != '\n' {
        let rest = t.subrange(1, t.len() as int);
        lemma_first_nl_bounds(rest);
        assert(forall|j: int| 0 <= j < first_nl(rest) ==> rest[j] != '\n');
        assert forall|j: int| 0 <= j < first_nl(t) implies t[j] != '\n' by {
            if j > 0 {
                assert(rest[j - 1] != '\n');
            }
        }
    }
}

/// `first_nl` is pinned by exhibiting the first line feed (or its absence).
pub proof fn lemma_first_nl_at(t: Seq<char>, k: int)
    requires
        0 <= k <= t.len(),
        forall|j: int| 0 <= j < k ==> t[j] != '\n',
        k < t.len() ==> t[k] == '\n',
    ensures
        first_nl(t) == k,
    decreases k,
{
    if t.len() > 0 && k > 0 {
        let rest = t.subrange(1, t.len() as int);
        assert(t[0] != '\n');
        assert forall|j: int| 0 <= j < k - 1 implies rest[j] != '\n' by {
            assert(t[j + 1] != '\n');
        }
        lemma_first_nl_at(rest, k - 1);
    }
}

/// The lines of `t`: the pieces between line feeds, each stripped of the
/// carriage return of a preceding carriage-return-line-feed boundary. A
/// trailing line terminator does not produce a trailing empty line; a text
/// with no terminator is a single line, kept as it stands; an empty text has
/// no lines.
pub open spec fn lines_of(t: Seq<char>) -> Seq<Seq<char>>
    decreases t.len(),
    via lines_of_decreases
{
    if t.len() == 0 {
        Seq::empty()
    } else {
        let i = first_nl(t);
        if i >= t.len() {
            seq![t]
        } else {
            seq![strip_cr(t.subrange(0, i))] + lines_of(t.subrange(i + 1, t.len() as int))
        }
    }
}

#[via_fn]
proof fn lines_of_decreases(t: Seq<char>) {
    lemma_first_nl_bounds(t);
}

/// Checks whether `q` occurs in `t` starting exactly at character index `i`.
fn matches_at(t: &str, q: &str, i: usize) -> (r: bool)
    requires
        i + q@.len() <= t@.len(),
        t@.len() <= usize::MAX,
    ensures
        r == contains_at(t@, q@, i as int),
{
    let m = q.unicode_len();
    let mut j: usize = 0;
    while j < m
        invariant
            0 <= j <= m,
            m == q@.len(),
            i + m <= t@.len() <= usize::MAX,
            forall|k: int| 0 <= k < j ==> t@[i + k] == q@[k],
        decreases m - j,
    {
        if t.get_char(i + j) != q.get_char(j) {
            assert(t@.subrange(i as int, i + m as int)[j as int] != q@[j as int]);
            return false;
        }
        j = j + 1;
    }
    assert(t@.subrange(i as int, i + m as int) =~= q@);
    true
}

/// Reports whether `q` occurs in `t` as a contiguous substring of characters.
pub fn contains_str(t: &str, q: &str) -> (r: bool)
    ensures
        r == contains_seq(t@, q@),
{
    let n = t.unicode_len();
    let m = q.unicode_len();
    if m > n {
        assert(forall|i: int| !contains_at(t@, q@, i));
        return false;
    }
    let mut i: usize = 0;
    loop
        invariant
            0 <= i <= n - m,
            m <= n,
            n == t@.len(),
            m == q@.len(),
            forall|k: int| 0 <= k < i ==> !contains_at(t@, q@, k),
        decreases n - m - i,
    {
        if matches_at(t, q, i) {
            return true;
        }
        if i >= n - m {
            assert(forall|k: int| !contains_at(t@, q@, k));
            return false;
        }
        i = i + 1;
    }
}

/// Splits `content` into its lines, as owned copies of the line text.
pub fn split_lines(content: &str) -> (r: Vec<String>)
    ensures
        r.deep_view() == lines_of(content@),
{
    let ghost t = content@;
    let n = content.unicode_len();
    let mut r: Vec<String> = Vec::new();
    let mut start: usize = 0;
    let mut pos: usize = 0;
    proof {
        assert(t.subrange(0, n as int) =~= t);
        assert(r.deep_view() + lines_of(t) =~= lines_of(t));
    }
    while pos < n
        invariant
            0 <= start <= pos <= n,
            n == t.len(),
            t == content@,
            lines_of(t) == r.deep_view() + lines_of(t.subrange(start as int, n as int)),
            forall|j: int| start <= j < pos ==> t[j] != '\n',
        decreases n - pos,
    {
        let c = content.get_char(pos);
        if c == '\n' {
            let end: usize = if pos > start && content.get_char(pos - 1) == '\r' {
                pos - 1
            } else {
                pos
            };
            let line = content.substring_char(start, end).to_owned();
            proof {
                let u = t.subrange(start as int, n as int);
                let k = pos - start;
                assert forall|j: int| 0 <= j < k implies u[j] != '\n' by {
                    assert(t[start + j] != '\n');
                }
                lemma_first_nl_at(u, k);
                let cur = t.subrange(start as int, pos as int);
                assert(u.subrange(0, k) =~= cur);
                assert(u.subrange(k + 1, u.len() as int) =~= t.subrange(pos + 1, n as int));
                if pos > start && t[pos - 1] == '\r' {
                    assert(cur.last() == '\r');
                    assert(line@ =~= cur.drop_last());
                } else {
                    assert(line@ =~= strip_cr(cur));
                }
                assert(lines_of(u) == seq![strip_cr(cur)] + lines_of(
                    t.subrange(pos + 1, n as int),
                ));
                assert(r.deep_view().push(line@) + lines_of(t.subrange(pos + 1, n as int))
                    =~~= r.deep_view() + lines_of(u));
            }
            let ghost r_old = r.deep_view();
            r.push(line);
            proof {
                assert(r.deep_view() =~~= r_old.push(line@));
            }
            pos = pos + 1;
            start = pos;
        } else {
            pos = pos + 1;
        }
    }
    proof {
        let u = t.subrange(start as int, n as int);
        if start == n {
            assert(u =~= Seq::<char>::empty());
            assert(r.deep_view() + lines_of(u) =~= r.deep_view());
        }
    }
    if start < n {
        let line = content.substring_char(start, n).to_owned();
        proof {
            let u = t.subrange(start as int, n as int);
            assert forall|j: int| 0 <= j < u.len() implies u[j] != '\n' by {
                assert(t[start + j] != '\n');
            }
            lemma_first_nl_at(u, u.len() as int);
            assert(line@ == u);
            assert(lines_of(u) == seq![u]);
            assert(r.deep_view().push(line@) =~~= r.deep_view() + lines_of(u));
        }
        let ghost r_old = r.deep_view();
        r.push(line);
        proof {
            assert(r.deep_view() =~~= r_old.push(line@));
        }
    }
    r
}

} // verus!
