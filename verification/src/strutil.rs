//! Character-level helpers shared by the parser and the machine.
//!
//! All runtime values of the language are text. The parser and the numeric
//! routines work on `Vec<char>` so that every step is visible to the
//! verifier; the two conversions to and from `String` are the only places
//! where the standard library is taken on trust.

use vstd::prelude::*;
use vstd::string::StrSliceExecFns;

verus! {

/// Relies on str::chars: yields exactly the characters of the string, in order.
#[verifier::external_body]
pub fn str_to_chars(s: &str) -> (r: Vec<char>)
    ensures
        r@ == s@,
{
    s.chars().collect()
}

/// Relies on String::from_iter: builds the string holding exactly the given
/// characters, in order.
#[verifier::external_body]
pub fn chars_to_string(v: &Vec<char>) -> (r: String)
    ensures
        r@ == v@,
{
    v.iter().collect()
}

/// Character-for-character equality of two string slices.
pub fn str_eq(a: &str, b: &str) -> (r: bool)
    ensures
        r == (a@ == b@),
{
    let alen = a.unicode_len();
    let blen = b.unicode_len();
    if alen != blen {
        return false;
    }
    let mut i: usize = 0;
    while i < alen
        invariant
            alen == a@.len(),
            alen == b@.len(),
            i <= alen,
            forall|j: int| 0 <= j < i ==> a@[j] == b@[j],
        decreases alen - i,
    {
        if a.get_char(i) != b.get_char(i) {
            return false;
        }
        i = i + 1;
    }
    proof {
        assert(a@ =~= b@);
    }
    true
}

/// Equality of an owned string and a string slice.
pub fn string_eq_str(a: &String, b: &str) -> (r: bool)
    ensures
        r == (a@ == b@),
{
    str_eq(a.as_str(), b)
}

/// The whitespace characters that separate bare words in source text.
pub open spec fn is_space_char(c: char) -> bool {
    c == ' ' || c == '\t' || c == '\r' || c == '\n'
}

pub fn is_space(c: char) -> (r: bool)
    ensures
        r == is_space_char(c),
{
    c == ' ' || c == '\t' || c == '\r' || c == '\n'
}

/// The longest prefix of `s` made of whitespace is dropped.
pub open spec fn spec_trim_front(s: Seq<char>) -> Seq<char>
    decreases s.len(),
{
    if s.len() == 0 {
        s
    } else if is_space_char(s[0]) {
        spec_trim_front(s.drop_first())
    } else {
        s
    }
}

/// The longest suffix of `s` made of whitespace is dropped.
pub open spec fn spec_trim_back(s: Seq<char>) -> Seq<char>
    decreases s.len(),
{
    if s.len() == 0 {
        s
    } else if is_space_char(s[s.len() - 1]) {
        spec_trim_back(s.drop_last())
    } else {
        s
    }
}

/// Leading and trailing whitespace of `s` is dropped.
pub open spec fn spec_trim(s: Seq<char>) -> Seq<char> {
    spec_trim_back(spec_trim_front(s))
}

proof fn lemma_trim_front_subrange(s: Seq<char>, i: int)
    requires
        0 <= i <= s.len(),
        forall|j: int| 0 <= j < i ==> is_space_char(s[j]),
    ensures
        spec_trim_front(s) == spec_trim_front(s.subrange(i, s.len() as int)),
    decreases i,
{
    if i > 0 {
        assert(is_space_char(s[0]));
        let t = s.drop_first();
        assert forall|j: int| 0 <= j < i - 1 implies is_space_char(t[j]) by {
            assert(t[j] == s[j + 1]);
        }
        lemma_trim_front_subrange(t, i - 1);
        assert(t.subrange(i - 1, t.len() as int) =~= s.subrange(i, s.len() as int));
        assert(spec_trim_front(s) == spec_trim_front(t));
    } else {
        assert(s.subrange(0, s.len() as int) =~= s);
    }
}

pub proof fn lemma_trim_front_clean(s: Seq<char>)
    requires
        s.len() > 0 ==> !is_space_char(s[0]),
    ensures
        spec_trim_front(s) == s,
{
}

proof fn lemma_trim_back_subrange(s: Seq<char>, i: int)
    requires
        0 <= i <= s.len(),
        forall|j: int| i <= j < s.len() ==> is_space_char(s[j]),
    ensures
        spec_trim_back(s) == spec_trim_back(s.subrange(0, i)),
    decreases s.len() - i,
{
    if i < s.len() {
        assert(is_space_char(s[s.len() - 1]));
        let t = s.drop_last();
        assert forall|j: int| i <= j < t.len() implies is_space_char(t[j]) by {
            assert(t[j] == s[j]);
        }
        lemma_trim_back_subrange(t, i);
        assert(t.subrange(0, i) =~= s.subrange(0, i));
        assert(spec_trim_back(s) == spec_trim_back(t));
    } else {
        assert(s.subrange(0, i) =~= s);
    }
}

pub proof fn lemma_trim_back_clean(s: Seq<char>)
    requires
        s.len() > 0 ==> !is_space_char(s[s.len() - 1]),
    ensures
        spec_trim_back(s) == s,
{
}

/// A copy of `s` with leading and trailing whitespace dropped.
pub fn trim_chars(s: &Vec<char>) -> (r: Vec<char>)
    ensures
        r@ == spec_trim(s@),
{
    let mut start: usize = 0;
    while start < s.len() && is_space(s[start])
        invariant
            start <= s@.len(),
            forall|j: int| 0 <= j < start ==> is_space_char(s@[j]),
        decreases s@.len() - start,
    {
        start = start + 1;
    }
    let mut end: usize = s.len();
    while end > start && is_space(s[end - 1])
        invariant
            start <= end <= s@.len(),
            forall|j: int| 0 <= j < start ==> is_space_char(s@[j]),
            forall|j: int| end <= j < s@.len() ==> is_space_char(s@[j]),
        decreases end,
    {
        end = end - 1;
    }
    let mut r: Vec<char> = Vec::new();
    let mut i: usize = start;
    while i < end
        invariant
            start <= i <= end <= s@.len(),
            r@ =~= s@.subrange(start as int, i as int),
        decreases end - i,
    {
        r.push(s[i]);
        assert(r@ =~= s@.subrange(start as int, i + 1));
        i = i + 1;
    }
    proof {
        lemma_trim_front_subrange(s@, start as int);
        let mid = s@.subrange(start as int, s@.len() as int);
        if mid.len() > 0 {
            assert(!is_space_char(mid[0]));
        }
        lemma_trim_front_clean(mid);
        assert(spec_trim_front(s@) == mid);
        lemma_trim_back_subrange(mid, end - start);
        assert(mid.subrange(0, end - start) =~= s@.subrange(start as int, end as int));
        let out = s@.subrange(start as int, end as int);
        if out.len() > 0 {
            assert(out[out.len() - 1] == s@[end - 1]);
            assert(!is_space_char(out[out.len() - 1]));
        }
        lemma_trim_back_clean(out);
        assert(r@ =~= out);
    }
    r
}

} // verus!
