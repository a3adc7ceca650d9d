//! Base names: the last path segment of a string, read up to its first NUL.

use vstd::prelude::*;

verus! {

/// Both separators of path segments are honoured, `/` and `\`.
pub open spec fn is_path_sep(c: char) -> bool {
    c == '/' || c == '\\'
}

/// The characters of `s` before its first NUL, or all of `s` when it has none.
pub open spec fn before_nul(s: Seq<char>) -> Seq<char>
    decreases s.len(),
{
    if s.len() == 0 {
        s
    } else if s[0] == '\0' {
        Seq::empty()
    } else {
        seq![s[0]] + before_nul(s.drop_first())
    }
}

/// The characters of `s` after its last separator, or all of `s` when it has none.
pub open spec fn last_segment(s: Seq<char>) -> Seq<char>
    decreases s.len(),
{
    if s.len() == 0 {
        s
    } else if is_path_sep(s.last()) {
        Seq::empty()
    } else {
        last_segment(s.drop_last()).push(s.last())
    }
}

/// The base name of `s`: the last segment of its NUL-free prefix, when that
/// segment is not empty.
pub open spec fn base_name(s: Seq<char>) -> Option<Seq<char>> {
    let seg = last_segment(before_nul(s));
    if seg.len() > 0 {
        Some(seg)
    } else {
        None
    }
}

/// Derives the base name of `s`: the text is cut at its first NUL, split on
/// `/` and `\`, and the last segment is kept. Gives `None` where that segment
/// is empty (an empty string, or one that ends in a separator).
pub fn get_name_from_str(s: &str) -> (r: Option<String>)
    ensures
        r is Some <==> base_name(s@) is Some,
        r is Some ==> r->0@ == base_name(s@)->0,
{
    let n = s.unicode_len();
    let mut end: usize = 0;
    assert(s@.skip(0) =~= s@);
    assert(s@.take(0) + s@ =~= s@);
    while end < n && s.get_char(end) != '\0'
        invariant
            n == s@.len(),
            end <= n,
            before_nul(s@) == s@.take(end as int) + before_nul(s@.skip(end as int)),
        decreases n - end,
    {
        let ghost rest = s@.skip(end as int);
        assert(rest.drop_first() =~= s@.skip(end + 1));
        assert(s@.take(end as int) + seq![s@[end as int]] =~= s@.take(end + 1));
        end = end + 1;
    }
    let ghost t = s@.take(end as int);
    proof {
        assert(before_nul(s@.skip(end as int)) =~= Seq::<char>::empty());
        assert(before_nul(s@) =~= t);
    }
    let mut start: usize = end;
    assert(t.take(end as int) =~= t);
    assert(t + t.subrange(end as int, end as int) =~= t);
    while start > 0 && !(s.get_char(start - 1) == '/' || s.get_char(start - 1) == '\\')
        invariant
            n == s@.len(),
            start <= end <= n,
            t == s@.take(end as int),
            last_segment(t) == last_segment(t.take(start as int)) + t.subrange(
                start as int,
                end as int,
            ),
        decreases start,
    {
        assert(t.take(start as int).drop_last() =~= t.take(start - 1));
        assert(t.subrange(start - 1, end as int) =~= seq![t[start - 1]] + t.subrange(
            start as int,
            end as int,
        ));
        start = start - 1;
    }
    proof {
        assert(last_segment(t.take(start as int)) =~= Seq::<char>::empty());
        assert(last_segment(t) =~= s@.subrange(start as int, end as int));
    }
    if start == end {
        None
    } else {
        Some(s.substring_char(start, end).to_owned())
    }
}

/// A string with no separator and no NUL is its own base name; the empty
/// string has none.
pub proof fn lemma_plain_name_is_own_base_name(s: Seq<char>)
    requires
        forall|i: int| 0 <= i < s.len() ==> !is_path_sep(#[trigger] s[i]) && s[i] != '\0',
    ensures
        s.len() > 0 ==> base_name(s) == Some(s),
        s.len() == 0 ==> base_name(s) is None,
{
    lemma_before_nul_of_nul_free(s);
    lemma_last_segment_of_sep_free(s);
}

proof fn lemma_before_nul_of_nul_free(s: Seq<char>)
    requires
        forall|i: int| 0 <= i < s.len() ==> #[trigger] s[i] != '\0',
    ensures
        before_nul(s) == s,
    decreases s.len(),
{
    if s.len() > 0 {
        let r = s.drop_first();
        assert forall|i: int| 0 <= i < r.len() implies #[trigger] r[i] != '\0' by {
            assert(r[i] == s[i + 1]);
        }
        lemma_before_nul_of_nul_free(r);
        assert(seq![s[0]] + r =~= s);
    }
}

proof fn lemma_last_segment_of_sep_free(s: Seq<char>)
    requires
        forall|i: int| 0 <= i < s.len() ==> !is_path_sep(#[trigger] s[i]),
    ensures
        last_segment(s) == s,
    decreases s.len(),
{
    if s.len() > 0 {
        let r = s.drop_last();
        assert forall|i: int| 0 <= i < r.len() implies !is_path_sep(#[trigger] r[i]) by {
            assert(r[i] == s[i]);
        }
        lemma_last_segment_of_sep_free(r);
        assert(r.push(s.last()) =~= s);
    }
}

} // verus!
