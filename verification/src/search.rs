//! The line filter: the lines of a text that contain a query, either by exact
//! character comparison or after lowercase folding.

use vstd::prelude::*;

use crate::casefold::fold_of;
use crate::casefold::to_lowercase_str;
use crate::text::contains_seq;
use crate::text::contains_str;
use crate::text::lines_of;
use crate::text::split_lines;

verus! {

/// The members of `ls` that contain `q`, in order.
pub open spec fn matching_of(ls: Seq<Seq<char>>, q: Seq<char>) -> Seq<Seq<char>> {
    ls.filter(|l: Seq<char>| contains_seq(l, q))
}

/// The members of `ls` whose lowercase fold contains the lowercase fold of
/// `q`, in order.
pub open spec fn ci_matching_of(ls: Seq<Seq<char>>, q: Seq<char>) -> Seq<Seq<char>> {
    ls.filter(|l: Seq<char>| contains_seq(fold_of(l), fold_of(q)))
}

/// The lines of `t` that contain `q` as an exact substring, in original order.
pub open spec fn matching_lines(q: Seq<char>, t: Seq<char>) -> Seq<Seq<char>> {
    matching_of(lines_of(t), q)
}

/// The lines of `t` whose lowercase fold contains the lowercase fold of `q`,
/// in original order and with their original text.
pub open spec fn ci_matching_lines(q: Seq<char>, t: Seq<char>) -> Seq<Seq<char>> {
    ci_matching_of(lines_of(t), q)
}

/// Appending one element to a sequence extends its filtered form by that
/// element exactly when the element satisfies the predicate.
pub proof fn lemma_filter_push<A>(s: Seq<A>, pred: spec_fn(A) -> bool, x: A)
    ensures
        s.push(x).filter(pred) == if pred(x) {
            s.filter(pred).push(x)
        } else {
            s.filter(pred)
        },
{
    reveal(Seq::filter);
    assert(s.push(x).drop_last() =~= s);
    assert(s.push(x).last() == x);
}

/// Case-sensitive search: returns exactly the lines of `content` that contain
/// `query` as a contiguous substring, in original order.
pub fn search(query: &str, content: &str) -> (r: Vec<String>)
    ensures
        r.deep_view() == matching_lines(query@, content@),
{
    let ghost q = query@;
    let ghost ls = lines_of(content@);
    let lines = split_lines(content);
    let mut r: Vec<String> = Vec::new();
    proof {
        reveal(Seq::filter);
        assert(ls.subrange(0, 0) =~= Seq::<Seq<char>>::empty());
    }
    let n = lines.len();
    let mut i: usize = 0;
    while i < n
        invariant
            0 <= i <= n,
            n == lines.len(),
            q == query@,
            lines.deep_view() == ls,
            r.deep_view() == matching_of(ls.subrange(0, i as int), q),
        decreases n - i,
    {
        let ghost r_old = r.deep_view();
        let matched = contains_str(lines[i].as_str(), query);
        if matched {
            r.push(lines[i].clone());
        }
        proof {
            assert(lines[i as int]@ == ls[i as int]);
            lemma_filter_push(
                ls.subrange(0, i as int),
                |l: Seq<char>| contains_seq(l, q),
                ls[i as int],
            );
            assert(ls.subrange(0, i + 1) =~= ls.subrange(0, i as int).push(ls[i as int]));
            if matched {
                assert(r.deep_view() =~~= r_old.push(ls[i as int]));
            }
        }
        i = i + 1;
    }
    proof {
        assert(ls.subrange(0, n as int) =~= ls);
    }
    r
}

/// Case-insensitive search: returns exactly the lines of `content` whose
/// lowercase fold contains the lowercase fold of `query`, in original order;
/// the returned text is the original, unfolded line.
pub fn search_case_ins(query: &str, content: &str) -> (r: Vec<String>)
    ensures
        r.deep_view() == ci_matching_lines(query@, content@),
{
    let ghost q = query@;
    let ghost ls = lines_of(content@);
    let folded_query = to_lowercase_str(query);
    let lines = split_lines(content);
    let mut r: Vec<String> = Vec::new();
    proof {
        reveal(Seq::filter);
        assert(ls.subrange(0, 0) =~= Seq::<Seq<char>>::empty());
    }
    let n = lines.len();
    let mut i: usize = 0;
    while i < n
        invariant
            0 <= i <= n,
            n == lines.len(),
            q == query@,
            lines.deep_view() == ls,
            folded_query@ == fold_of(q),
            r.deep_view() == ci_matching_of(ls.subrange(0, i as int), q),
        decreases n - i,
    {
        let ghost r_old = r.deep_view();
        let folded_line = to_lowercase_str(lines[i].as_str());
        let matched = contains_str(folded_line.as_str(), folded_query.as_str());
        if matched {
            r.push(lines[i].clone());
        }
        proof {
            assert(lines[i as int]@ == ls[i as int]);
            lemma_filter_push(
                ls.subrange(0, i as int),
                |l: Seq<char>| contains_seq(fold_of(l), fold_of(q)),
                ls[i as int],
            );
            assert(ls.subrange(0, i + 1) =~= ls.subrange(0, i as int).push(ls[i as int]));
            if matched {
                assert(r.deep_view() =~~= r_old.push(ls[i as int]));
            }
        }
        i = i + 1;
    }
    proof {
        assert(ls.subrange(0, n as int) =~= ls);
    }
    r
}

} // verus!

