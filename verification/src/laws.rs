//! The laws of the line filter, each stated and proved over the
//! specification-level results that the executable functions are pinned to.

use vstd::prelude::*;
use vstd::utf8::is_ascii_chars;

use crate::casefold::ascii_lower;
use crate::casefold::ascii_lower_char;
use crate::casefold::fold_of;
use crate::search::ci_matching_lines;
use crate::search::matching_lines;
use crate::text::contains_at;
use crate::text::contains_seq;
use crate::text::first_nl;
use crate::text::lemma_first_nl_bounds;
use crate::text::lines_of;
use crate::text::strip_cr;

verus! {

/// `a` is an ordered selection from `b`: `a` can be had from `b` by deleting
/// elements, keeping the rest in their relative order.
pub open spec fn is_subseq_of<A>(a: Seq<A>, b: Seq<A>) -> bool
    decreases a.len() + b.len(),
{
    if a.len() == 0 {
        true
    } else if b.len() == 0 {
        false
    } else {
        ||| (a.last() == b.last() && is_subseq_of(a.drop_last(), b.drop_last()))
        ||| is_subseq_of(a, b.drop_last())
    }
}

proof fn lemma_subseq_push<A>(a: Seq<A>, b: Seq<A>, x: A)
    requires
        is_subseq_of(a, b),
    ensures
        is_subseq_of(a.push(x), b.push(x)),
{
    assert(a.push(x).drop_last() =~= a);
    assert(b.push(x).drop_last() =~= b);
}

proof fn lemma_subseq_skip<A>(a: Seq<A>, b: Seq<A>, x: A)
    requires
        is_subseq_of(a, b),
    ensures
        is_subseq_of(a, b.push(x)),
{
    assert(b.push(x).drop_last() =~= b);
}

/// Filtering a sequence yields an ordered selection from it.
pub proof fn lemma_filter_subseq<A>(s: Seq<A>, pred: spec_fn(A) -> bool)
    ensures
        is_subseq_of(s.filter(pred), s),
    decreases s.len(),
{
    reveal(Seq::filter);
    if s.len() > 0 {
        let s0 = s.drop_last();
        lemma_filter_subseq(s0, pred);
        if pred(s.last()) {
            lemma_subseq_push(s0.filter(pred), s0, s.last());
        } else {
            lemma_subseq_skip(s0.filter(pred), s0, s.last());
        }
        assert(s0.push(s.last()) =~= s);
    }
}

/// A filter by a stronger predicate yields an ordered selection from the
/// filter by a weaker one.
pub proof fn lemma_filter_implies_subseq<A>(
    s: Seq<A>,
    strong: spec_fn(A) -> bool,
    weak: spec_fn(A) -> bool,
)
    requires
        forall|i: int| 0 <= i < s.len() && strong(#[trigger] s[i]) ==> weak(s[i]),
    ensures
        is_subseq_of(s.filter(strong), s.filter(weak)),
    decreases s.len(),
{
    reveal(Seq::filter);
    if s.len() > 0 {
        let s0 = s.drop_last();
        assert forall|i: int| 0 <= i < s0.len() && strong(#[trigger] s0[i]) implies weak(s0[i]) by {
            assert(s0[i] == s[i]);
        }
        lemma_filter_implies_subseq(s0, strong, weak);
        let x = s.last();
        if strong(x) {
            lemma_subseq_push(s0.filter(strong), s0.filter(weak), x);
        } else if weak(x) {
            lemma_subseq_skip(s0.filter(strong), s0.filter(weak), x);
        }
        assert(s0.push(x) =~= s);
    }
}

/// A filter by a predicate that holds everywhere returns the sequence itself.
pub proof fn lemma_filter_all<A>(s: Seq<A>, pred: spec_fn(A) -> bool)
    requires
        forall|i: int| 0 <= i < s.len() ==> pred(#[trigger] s[i]),
    ensures
        s.filter(pred) == s,
    decreases s.len(),
{
    reveal(Seq::filter);
    if s.len() > 0 {
        let s0 = s.drop_last();
        assert forall|i: int| 0 <= i < s0.len() implies pred(#[trigger] s0[i]) by {
            assert(s0[i] == s[i]);
        }
        lemma_filter_all(s0, pred);
        assert(s0.push(s.last()) =~= s);
    }
}

/// Law: the case-sensitive result holds exactly the matching lines. Every
/// returned line contains the query as an exact substring, and every line of
/// the text that contains the query is returned; a line of the text that is
/// not returned therefore does not contain the query.
pub proof fn lemma_search_exact(q: Seq<char>, t: Seq<char>)
    ensures
        forall|i: int|
            0 <= i < matching_lines(q, t).len() ==> contains_seq(
                #[trigger] matching_lines(q, t)[i],
                q,
            ),
        forall|j: int|
            0 <= j < lines_of(t).len() && contains_seq(#[trigger] lines_of(t)[j], q)
                ==> matching_lines(q, t).contains(lines_of(t)[j]),
{
    broadcast use vstd::seq_lib::group_filter_ensures;

    let ls = lines_of(t);
    let pred = |l: Seq<char>| contains_seq(l, q);
    assert forall|i: int| 0 <= i < matching_lines(q, t).len() implies contains_seq(
        #[trigger] matching_lines(q, t)[i],
        q,
    ) by {
        ls.lemma_filter_pred(pred, i);
    }
    assert forall|j: int|
        0 <= j < ls.len() && contains_seq(#[trigger] ls[j], q) implies matching_lines(
        q,
        t,
    ).contains(ls[j]) by {
        ls.lemma_filter_contains(pred, j);
    }
}

/// Law: the case-insensitive result holds exactly the lines whose lowercase
/// fold contains the lowercase fold of the query, with the original line text.
pub proof fn lemma_search_case_ins_exact(q: Seq<char>, t: Seq<char>)
    ensures
        forall|i: int|
            0 <= i < ci_matching_lines(q, t).len() ==> contains_seq(
                fold_of(#[trigger] ci_matching_lines(q, t)[i]),
                fold_of(q),
            ),
        forall|j: int|
            0 <= j < lines_of(t).len() && contains_seq(fold_of(#[trigger] lines_of(t)[j]), fold_of(q))
                ==> ci_matching_lines(q, t).contains(lines_of(t)[j]),
{
    let ls = lines_of(t);
    let pred = |l: Seq<char>| contains_seq(fold_of(l), fold_of(q));
    assert forall|i: int| 0 <= i < ci_matching_lines(q, t).len() implies contains_seq(
        fold_of(#[trigger] ci_matching_lines(q, t)[i]),
        fold_of(q),
    ) by {
        ls.lemma_filter_pred(pred, i);
    }
    assert forall|j: int|
        0 <= j < ls.len() && contains_seq(fold_of(#[trigger] ls[j]), fold_of(q))
        implies ci_matching_lines(q, t).contains(ls[j]) by {
        ls.lemma_filter_contains(pred, j);
    }
}

/// Law: both result sequences preserve the original line order of the text:
/// each is an ordered selection from the lines, with no reordering and no
/// deduplication.
pub proof fn lemma_search_order(q: Seq<char>, t: Seq<char>)
    ensures
        is_subseq_of(matching_lines(q, t), lines_of(t)),
        is_subseq_of(ci_matching_lines(q, t), lines_of(t)),
{
    lemma_filter_subseq(lines_of(t), |l: Seq<char>| contains_seq(l, q));
    lemma_filter_subseq(lines_of(t), |l: Seq<char>| contains_seq(fold_of(l), fold_of(q)));
}

/// Law: the empty query matches every line: both variants return all lines of
/// the text, unchanged and in order.
pub proof fn lemma_empty_query(t: Seq<char>)
    ensures
        matching_lines(Seq::empty(), t) == lines_of(t),
        ci_matching_lines(Seq::empty(), t) == lines_of(t),
{
    let ls = lines_of(t);
    let empty = Seq::<char>::empty();
    assert(fold_of(empty) =~= empty);
    assert forall|i: int| 0 <= i < ls.len() implies contains_seq(#[trigger] ls[i], empty) by {
        assert(ls[i].subrange(0, 0) =~= empty);
        assert(contains_at(ls[i], empty, 0));
    }
    assert forall|i: int| 0 <= i < ls.len() implies contains_seq(
        fold_of(#[trigger] ls[i]),
        fold_of(empty),
    ) by {
        assert(fold_of(ls[i]).subrange(0, 0) =~= empty);
        assert(contains_at(fold_of(ls[i]), fold_of(empty), 0));
    }
    lemma_filter_all(ls, |l: Seq<char>| contains_seq(l, empty));
    lemma_filter_all(ls, |l: Seq<char>| contains_seq(fold_of(l), fold_of(empty)));
}

/// The character-wise ASCII fold preserves substring containment.
proof fn lemma_ascii_lower_contains(l: Seq<char>, q: Seq<char>)
    requires
        contains_seq(l, q),
    ensures
        contains_seq(ascii_lower(l), ascii_lower(q)),
{
    let i = choose|i: int| contains_at(l, q, i);
    assert forall|k: int| 0 <= k < q.len() implies ascii_lower(l)[i + k] == ascii_lower(q)[k] by {
        assert(l.subrange(i, i + q.len() as int)[k] == q[k]);
    }
    assert(ascii_lower(l).subrange(i, i + q.len() as int) =~= ascii_lower(q));
    assert(contains_at(ascii_lower(l), ascii_lower(q), i));
}

/// Every character of every line of `t` is a character of `t`, so the lines
/// of an ASCII text are ASCII.
proof fn lemma_lines_ascii(t: Seq<char>)
    requires
        is_ascii_chars(t),
    ensures
        forall|j: int| 0 <= j < lines_of(t).len() ==> is_ascii_chars(#[trigger] lines_of(t)[j]),
    decreases t.len(),
{
    if t.len() > 0 {
        lemma_first_nl_bounds(t);
        let i = first_nl(t);
        if i >= t.len() {
            assert(lines_of(t)[0] == t);
        } else {
            let front = t.subrange(0, i);
            let rest = t.subrange(i + 1, t.len() as int);
            assert(is_ascii_chars(front));
            assert(is_ascii_chars(rest));
            assert(is_ascii_chars(strip_cr(front)));
            lemma_lines_ascii(rest);
            assert forall|j: int| 0 <= j < lines_of(t).len() implies is_ascii_chars(
                #[trigger] lines_of(t)[j],
            ) by {
                if j == 0 {
                    assert(lines_of(t)[0] == strip_cr(front));
                } else {
                    assert(lines_of(t)[j] == lines_of(rest)[j - 1]);
                }
            }
        }
    }
}

/// Law: on an ASCII query and an ASCII text, the case-insensitive result is a
/// superset of the case-sensitive result, by line identity and relative
/// position: the case-sensitive result is an ordered selection from the
/// case-insensitive one, and every line that contains the query exactly also
/// appears in the case-insensitive result.
pub proof fn lemma_ci_superset(q: Seq<char>, t: Seq<char>)
    requires
        is_ascii_chars(q),
        is_ascii_chars(t),
    ensures
        is_subseq_of(matching_lines(q, t), ci_matching_lines(q, t)),
        forall|j: int|
            0 <= j < lines_of(t).len() && contains_seq(#[trigger] lines_of(t)[j], q)
                ==> ci_matching_lines(q, t).contains(lines_of(t)[j]),
{
    broadcast use vstd::seq_lib::group_filter_ensures;

    let ls = lines_of(t);
    let strong = |l: Seq<char>| contains_seq(l, q);
    let weak = |l: Seq<char>| contains_seq(fold_of(l), fold_of(q));
    lemma_lines_ascii(t);
    assert forall|i: int| 0 <= i < ls.len() && strong(#[trigger] ls[i]) implies weak(ls[i]) by {
        lemma_ascii_lower_contains(ls[i], q);
        assert(fold_of(ls[i]) == ascii_lower(ls[i]));
        assert(fold_of(q) == ascii_lower(q));
    }
    lemma_filter_implies_subseq(ls, strong, weak);
    assert forall|j: int|
        0 <= j < ls.len() && contains_seq(#[trigger] ls[j], q) implies ci_matching_lines(
        q,
        t,
    ).contains(ls[j]) by {
        assert(weak(ls[j]));
        ls.lemma_filter_contains(weak, j);
    }
}

} // verus!
