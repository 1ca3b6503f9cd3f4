//! String primitives used by the row decoder and the search facade:
//! locale-independent lowercasing, the relationship-type classifier, and
//! case-insensitive substring matching.

use vstd::prelude::*;

verus! {

/// ASCII lowercasing of one character. Deterministic and locale-independent:
/// only the 26 uppercase ASCII letters are mapped.
pub open spec fn lower_char(c: char) -> char {
    if 'A' <= c && c <= 'Z' {
        ((c as u32) + 32) as char
    } else {
        c
    }
}

/// A character sequence lowered character by character.
pub open spec fn lower_seq(s: Seq<char>) -> Seq<char> {
    s.map_values(|c: char| lower_char(c))
}

/// Length of the leading segment of `s` before the first underscore
/// (the whole length when no underscore occurs).
pub open spec fn head_segment_len(s: Seq<char>) -> int
    decreases s.len(),
{
    if s.len() == 0 {
        0
    } else if s[0] == '_' {
        0
    } else {
        1 + head_segment_len(s.drop_first())
    }
}

/// The classifier derived from a relationship-type label: the label is
/// lowered and cut at the first underscore, keeping the first segment.
pub open spec fn classifier(rel: Seq<char>) -> Seq<char> {
    lower_seq(rel.take(head_segment_len(rel)))
}

/// The segment length is pinned by its pointwise description.
pub proof fn lemma_head_segment_len_is(s: Seq<char>, i: int)
    requires
        0 <= i <= s.len(),
        forall|j: int| 0 <= j < i ==> s[j] != '_',
        i < s.len() ==> s[i] == '_',
    ensures
        head_segment_len(s) == i,
    decreases s.len(),
{
    if s.len() != 0 && s[0] != '_' {
        assert(i != 0);
        lemma_head_segment_len_is(s.drop_first(), i - 1);
    }
}

fn lower_char_x(c: char) -> (r: char)
    ensures
        r == lower_char(c),
{
    if 'A' <= c && c <= 'Z' {
        ((c as u8) + 32) as char
    } else {
        c
    }
}

/// Relies on std's `String::push`: appends the given character to the end
/// of the string.
pub assume_specification[ String::push ](s: &mut String, c: char)
    ensures
        final(s)@ == old(s)@.push(c),
;

/// Character-exact string equality.
pub fn str_eq(a: &str, b: &str) -> (r: bool)
    ensures
        r == (a@ == b@),
{
    let na = a.unicode_len();
    let nb = b.unicode_len();
    if na != nb {
        return false;
    }
    let mut i: usize = 0;
    while i < na
        invariant
            na == a@.len(),
            na == b@.len(),
            0 <= i <= na,
            forall|j: int| 0 <= j < i ==> a@[j] == b@[j],
        decreases na - i,
    {
        if a.get_char(i) != b.get_char(i) {
            return false;
        }
        i += 1;
    }
    proof {
        assert(a@ =~= b@);
    }
    true
}

/// Derives the job/role classifier from a relationship-type label:
/// lowercases it and keeps the segment before the first underscore.
pub fn classify(rel: &str) -> (r: String)
    ensures
        r@ == classifier(rel@),
{
    let n = rel.unicode_len();
    let mut out = String::new();
    let mut i: usize = 0;
    while i < n
        invariant
            n == rel@.len(),
            0 <= i <= n,
            forall|j: int| 0 <= j < i ==> rel@[j] != '_',
            out@ =~= lower_seq(rel@.take(i as int)),
        decreases n - i,
    {
        let c = rel.get_char(i);
        if c == '_' {
            proof {
                lemma_head_segment_len_is(rel@, i as int);
            }
            return out;
        }
        out.push(lower_char_x(c));
        proof {
            assert(rel@.take(i + 1 as int).drop_last() =~= rel@.take(i as int));
            assert(out@ =~= lower_seq(rel@.take(i + 1 as int)));
        }
        i += 1;
    }
    proof {
        lemma_head_segment_len_is(rel@, n as int);
        assert(rel@.take(n as int) =~= rel@);
    }
    out
}

/// `pat` occurs contiguously inside `text`.
pub open spec fn is_substring(pat: Seq<char>, text: Seq<char>) -> bool {
    exists|i: int|
        0 <= i && i + pat.len() <= text.len() && #[trigger] text.subrange(i, i + pat.len()) == pat
}

/// An empty search fragment matches every title: substring matching
/// against the empty string is universally true.
pub proof fn lemma_empty_fragment_matches(title: Seq<char>, fragment: Seq<char>)
    requires
        fragment.len() == 0,
    ensures
        is_substring(lower_seq(fragment), lower_seq(title)),
{
    assert(lower_seq(title).subrange(0, 0 + lower_seq(fragment).len() as int) =~= lower_seq(
        fragment,
    ));
}

fn match_at(text: &str, pat: &str, i: usize) -> (r: bool)
    requires
        i + pat@.len() <= text@.len(),
    ensures
        r == (lower_seq(text@).subrange(i as int, i + pat@.len()) == lower_seq(pat@)),
{
    let m = pat.unicode_len();
    let tn = text.unicode_len();
    let mut j: usize = 0;
    while j < m
        invariant
            m == pat@.len(),
            tn == text@.len(),
            i + m <= tn,
            0 <= j <= m,
            forall|k: int| 0 <= k < j ==> lower_char(text@[i + k]) == lower_char(pat@[k]),
        decreases m - j,
    {
        let tc = lower_char_x(text.get_char(i + j));
        let pc = lower_char_x(pat.get_char(j));
        if tc != pc {
            proof {
                let lt = lower_seq(text@).subrange(i as int, i + pat@.len());
                let lp = lower_seq(pat@);
                assert(lt[j as int] == lower_char(text@[i + j]));
                assert(lp[j as int] == lower_char(pat@[j as int]));
            }
            return false;
        }
        j += 1;
    }
    proof {
        assert(lower_seq(text@).subrange(i as int, i + pat@.len()) =~= lower_seq(pat@));
    }
    true
}

/// Case-insensitive substring match: whether the lowered fragment occurs in
/// the lowered title. An empty fragment matches every title.
pub fn title_matches(title: &str, fragment: &str) -> (r: bool)
    ensures
        r == is_substring(lower_seq(fragment@), lower_seq(title@)),
{
    let n = title.unicode_len();
    let m = fragment.unicode_len();
    if m > n {
        proof {
            if is_substring(lower_seq(fragment@), lower_seq(title@)) {
                let i = choose|i: int|
                    0 <= i && i + lower_seq(fragment@).len() <= lower_seq(title@).len()
                        && #[trigger] lower_seq(title@).subrange(i, i + lower_seq(fragment@).len())
                        == lower_seq(fragment@);
                assert(false);
            }
        }
        return false;
    }
    if m == 0 {
        proof {
            assert(lower_seq(title@).subrange(0, 0 + lower_seq(fragment@).len() as int) =~= lower_seq(
                fragment@,
            ));
        }
        return true;
    }
    let mut i: usize = 0;
    while i <= n - m
        invariant
            n == title@.len(),
            m == fragment@.len(),
            0 < m <= n,
            0 <= i <= n - m + 1,
            forall|p: int|
                0 <= p < i ==> #[trigger] lower_seq(title@).subrange(p, p + fragment@.len())
                    != lower_seq(fragment@),
        decreases n - m + 1 - i,
    {
        if match_at(title, fragment, i) {
            proof {
                let li = i as int;
                assert(0 <= li && li + lower_seq(fragment@).len() <= lower_seq(title@).len());
            }
            return true;
        }
        i += 1;
    }
    false
}

} // verus!
