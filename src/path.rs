//! Paths: `/`-separated segments, and the checks on a single segment.
use vstd::prelude::*;
use vstd::string::*;

verus! {

/// The segments of `s` followed by `tail`, where `tail` holds no `/`.
pub open spec fn split_from(s: Seq<char>, tail: Seq<char>) -> Seq<Seq<char>>
    decreases s.len(),
{
    if s.len() == 0 {
        seq![tail]
    } else if s.last() == '/' {
        split_from(s.drop_last(), Seq::empty()).push(tail)
    } else {
        split_from(s.drop_last(), seq![s.last()] + tail)
    }
}

/// The `/`-separated segments of `s`, in order; there is always at least one.
pub open spec fn split_path(s: Seq<char>) -> Seq<Seq<char>> {
    split_from(s, Seq::empty())
}

/// The segments of a path as a stack: the first segment is on top (last).
pub open spec fn path_stack(s: Seq<char>) -> Seq<Seq<char>> {
    split_path(s).reverse()
}

pub open spec fn parent_segment() -> Seq<char> {
    seq!['.', '.']
}

pub open spec fn wildcard_segment() -> Seq<char> {
    seq!['*']
}

pub proof fn lemma_split_from_nonempty(s: Seq<char>, tail: Seq<char>)
    ensures
        split_from(s, tail).len() >= 1,
    decreases s.len(),
{
    if s.len() > 0 {
        if s.last() == '/' {
            lemma_split_from_nonempty(s.drop_last(), Seq::empty());
        } else {
            lemma_split_from_nonempty(s.drop_last(), seq![s.last()] + tail);
        }
    }
}

/// The segments of `path`, the first one last, so that popping yields them
/// in order.
pub fn segment_stack(path: &str) -> (r: Vec<String>)
    ensures
        r@.map_values(|t: String| t@) == path_stack(path@),
        r@.len() >= 1,
{
    let n = path.unicode_len();
    let mut stack: Vec<String> = Vec::new();
    let mut i: usize = n;
    let mut end: usize = n;
    let ghost s = path@;
    assert(s.subrange(0, n as int) =~= s);
    assert(s.subrange(n as int, n as int) =~= Seq::<char>::empty());
    assert(split_path(s) =~= split_path(s) + stack@.map_values(|t: String| t@).reverse());
    while i > 0
        invariant
            s == path@,
            n == s.len(),
            i <= end <= n,
            split_path(s) == split_from(s.subrange(0, i as int), s.subrange(i as int, end as int))
                + stack@.map_values(|t: String| t@).reverse(),
        decreases i,
    {
        let c = path.get_char(i - 1);
        let ghost pre = s.subrange(0, i as int);
        let ghost done = stack@.map_values(|t: String| t@);
        assert(pre.drop_last() =~= s.subrange(0, i - 1));
        assert(pre.last() == c);
        if c == '/' {
            let seg = path.substring_char(i, end).to_string();
            stack.push(seg);
            proof {
                let now = stack@.map_values(|t: String| t@);
                assert(now =~= done.push(seg@));
                assert(now.reverse() =~= seq![seg@] + done.reverse());
                assert(split_from(pre, s.subrange(i as int, end as int)) == split_from(
                    s.subrange(0, i - 1),
                    Seq::empty(),
                ).push(seg@));
                assert(split_from(s.subrange(0, i - 1), Seq::empty()).push(seg@) + done.reverse()
                    =~= split_from(s.subrange(0, i - 1), Seq::empty()) + now.reverse());
            }
            end = i - 1;
            assert(s.subrange(i - 1, end as int) =~= Seq::<char>::empty());
        } else {
            assert(seq![c] + s.subrange(i as int, end as int) =~= s.subrange(i - 1, end as int));
        }
        i = i - 1;
    }
    let first = path.substring_char(0, end).to_string();
    let ghost done = stack@.map_values(|t: String| t@);
    stack.push(first);
    proof {
        let now = stack@.map_values(|t: String| t@);
        assert(s.subrange(0, 0) =~= Seq::<char>::empty());
        assert(now =~= done.push(first@));
        assert(now.reverse() =~= seq![first@] + done.reverse());
        assert(split_path(s) =~= now.reverse());
        assert(now =~= now.reverse().reverse());
    }
    stack
}

/// Whether the segment `s` is exactly `lit`.
fn segment_is(s: &str, lit: &str) -> (r: bool)
    ensures
        r == (s@ == lit@),
{
    let n = s.unicode_len();
    let m = lit.unicode_len();
    if n != m {
        return false;
    }
    let mut i: usize = 0;
    while i < n
        invariant
            n == s@.len(),
            m == lit@.len(),
            n == m,
            i <= n,
            forall|j: int| 0 <= j < i ==> s@[j] == lit@[j],
        decreases n - i,
    {
        if s.get_char(i) != lit.get_char(i) {
            return false;
        }
        i = i + 1;
    }
    assert(s@ =~= lit@);
    true
}

/// Whether `s` is `..`, the segment that climbs to the parent.
pub fn is_parent_segment(s: &str) -> (r: bool)
    ensures
        r == (s@ == parent_segment()),
{
    proof {
        reveal_strlit("..");
        assert(".."@ =~= parent_segment());
    }
    segment_is(s, "..")
}

/// Whether `s` is `*`, the segment that fans out to every child.
pub fn is_wildcard_segment(s: &str) -> (r: bool)
    ensures
        r == (s@ == wildcard_segment()),
{
    proof {
        reveal_strlit("*");
        assert("*"@ =~= wildcard_segment());
    }
    segment_is(s, "*")
}

} // verus!
