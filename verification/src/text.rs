//! Small verified helpers for character and string handling.
//!
//! The library works on `Vec<char>` internally; these helpers move between
//! `&str`/`String` and character vectors, fold ASCII case, and classify
//! characters.  The two `char` classification wrappers lean on std where
//! vstd gives no specification.

use vstd::prelude::*;

verus! {

use vstd::string::StrSliceExecFns;

/// Relies on `String::push`: appends exactly one character.
#[verifier::external_body]
pub(crate) fn push_char(s: &mut String, c: char)
    ensures
        final (s)@ == old(s)@.push(c),
{
    s.push(c);
}

/// What `char::is_alphabetic` returns; it depends on the character alone.
pub uninterp spec fn alphabetic_of(c: char) -> bool;

/// What `char::is_alphanumeric` returns; it depends on the character alone.
pub uninterp spec fn alphanumeric_of(c: char) -> bool;

/// Relies on `char::is_alphabetic`: true exactly for Unicode letters, and
/// never for ASCII digits.
#[verifier::external_body]
pub(crate) fn char_is_alphabetic(c: char) -> (r: bool)
    ensures
        r == alphabetic_of(c),
        ('a' <= c && c <= 'z') || ('A' <= c && c <= 'Z') ==> r,
        ('0' <= c && c <= '9') ==> !r,
        c == ' ' || c == '\t' || c == '_' || c == '.' || c == ',' || c == '%' ==> !r,
{
    c.is_alphabetic()
}

/// Relies on `char::is_alphanumeric`: true exactly for Unicode letters and
/// numeric characters; ASCII letters and digits are such, whitespace and
/// ASCII punctuation are not.
#[verifier::external_body]
pub(crate) fn char_is_alphanumeric(c: char) -> (r: bool)
    ensures
        r == alphanumeric_of(c),
        ('a' <= c && c <= 'z') || ('A' <= c && c <= 'Z') || ('0' <= c && c <= '9') ==> r,
        c == ' ' || c == '\t' || c == '_' || c == '.' || c == ',' || c == '%' ==> !r,
{
    c.is_alphanumeric()
}

/// ASCII lower case of one character.
pub open spec fn spec_lower_char(c: char) -> char {
    if 'A' <= c && c <= 'Z' {
        (c as u32 + 32) as char
    } else {
        c
    }
}

/// ASCII lower case of a character sequence.
pub open spec fn spec_lower(s: Seq<char>) -> Seq<char> {
    s.map_values(|c: char| spec_lower_char(c))
}

/// Relies on `char::to_ascii_lowercase`: maps `A`..`Z` to `a`..`z` and
/// leaves every other character unchanged.
#[verifier::external_body]
pub(crate) fn lower_char(c: char) -> (r: char)
    ensures
        r == spec_lower_char(c),
{
    c.to_ascii_lowercase()
}

/// The characters of a string slice.
pub fn str_chars(s: &str) -> (v: Vec<char>)
    ensures
        v@ == s@,
{
    let n = s.unicode_len();
    let mut v: Vec<char> = Vec::new();
    let mut i: usize = 0;
    while i < n
        invariant
            i <= n,
            n == s@.len(),
            v@ == s@.subrange(0, i as int),
        decreases n - i,
    {
        let c = s.get_char(i);
        v.push(c);
        proof {
            assert(v@ =~= s@.subrange(0, i + 1 as int));
        }
        i = i + 1;
    }
    proof {
        assert(v@ =~= s@);
    }
    v
}

/// A `String` holding exactly the given characters.
pub fn chars_string(v: &[char]) -> (s: String)
    ensures
        s@ == v@,
{
    let mut s = String::new();
    let mut i: usize = 0;
    while i < v.len()
        invariant
            i <= v@.len(),
            s@ == v@.subrange(0, i as int),
        decreases v@.len() - i,
    {
        push_char(&mut s, v[i]);
        proof {
            assert(s@ =~= v@.subrange(0, i + 1 as int));
        }
        i = i + 1;
    }
    proof {
        assert(s@ =~= v@);
    }
    s
}

/// ASCII-lower-cased copy of a character slice.
pub fn lower_chars(v: &[char]) -> (r: Vec<char>)
    ensures
        r@ == spec_lower(v@),
{
    let mut r: Vec<char> = Vec::new();
    let mut i: usize = 0;
    while i < v.len()
        invariant
            i <= v@.len(),
            r@ == spec_lower(v@.subrange(0, i as int)),
        decreases v@.len() - i,
    {
        r.push(lower_char(v[i]));
        proof {
            assert(r@ =~= spec_lower(v@.subrange(0, i + 1 as int)));
        }
        i = i + 1;
    }
    proof {
        assert(r@ =~= spec_lower(v@));
    }
    r
}

/// True iff the slice equals the string, character for character.
pub fn chars_eq_str(v: &[char], s: &str) -> (r: bool)
    ensures
        r == (v@ == s@),
{
    let n = s.unicode_len();
    if v.len() != n {
        proof {
            assert(v@.len() != s@.len());
        }
        return false;
    }
    let mut i: usize = 0;
    while i < n
        invariant
            i <= n,
            n == s@.len(),
            v@.len() == n,
            forall|j: int| 0 <= j < i ==> v@[j] == s@[j],
        decreases n - i,
    {
        if v[i] != s.get_char(i) {
            return false;
        }
        i = i + 1;
    }
    proof {
        assert(v@ =~= s@);
    }
    true
}

/// True iff the slice equals the string after ASCII case folding of both.
pub fn chars_eq_str_nocase(v: &[char], s: &str) -> (r: bool)
    ensures
        r == (spec_lower(v@) == spec_lower(s@)),
{
    let n = s.unicode_len();
    if v.len() != n {
        proof {
            assert(spec_lower(v@).len() == v@.len());
            assert(spec_lower(s@).len() == s@.len());
        }
        return false;
    }
    let mut i: usize = 0;
    while i < n
        invariant
            i <= n,
            n == s@.len(),
            v@.len() == n,
            forall|j: int| 0 <= j < i ==> spec_lower_char(v@[j]) == spec_lower_char(s@[j]),
        decreases n - i,
    {
        if lower_char(v[i]) != lower_char(s.get_char(i)) {
            proof {
                assert(spec_lower(v@)[i as int] != spec_lower(s@)[i as int]);
            }
            return false;
        }
        i = i + 1;
    }
    proof {
        assert(spec_lower(v@) =~= spec_lower(s@));
    }
    true
}

/// True iff two character slices are equal.
pub fn chars_eq(a: &[char], b: &[char]) -> (r: bool)
    ensures
        r == (a@ == b@),
{
    if a.len() != b.len() {
        proof {
            assert(a@.len() != b@.len());
        }
        return false;
    }
    let mut i: usize = 0;
    while i < a.len()
        invariant
            i <= a@.len(),
            a@.len() == b@.len(),
            forall|j: int| 0 <= j < i ==> a@[j] == b@[j],
        decreases a@.len() - i,
    {
        if a[i] != b[i] {
            return false;
        }
        i = i + 1;
    }
    proof {
        assert(a@ =~= b@);
    }
    true
}

/// A copy of a character vector.
pub fn copy_chars(v: &Vec<char>) -> (r: Vec<char>)
    ensures
        r@ == v@,
{
    let mut r: Vec<char> = Vec::new();
    let mut i: usize = 0;
    while i < v.len()
        invariant
            i <= v@.len(),
            r@ == v@.subrange(0, i as int),
        decreases v@.len() - i,
    {
        r.push(v[i]);
        proof {
            assert(r@ =~= v@.subrange(0, i + 1 as int));
        }
        i = i + 1;
    }
    proof {
        assert(r@ =~= v@);
    }
    r
}

} // verus!
