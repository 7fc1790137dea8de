//! First-character case mapping.
//!
//! Each helper maps the first character of a text by the standard Unicode
//! case mapping and leaves the rest untouched; an empty text stays empty.
use vstd::prelude::*;

verus! {

/// What `char::to_lowercase` maps a character to (one or more characters).
pub uninterp spec fn lowercase_of(c: char) -> Seq<char>;

/// What `char::to_uppercase` maps a character to (one or more characters).
pub uninterp spec fn uppercase_of(c: char) -> Seq<char>;

/// Relies on char::to_lowercase: the Unicode lowercase mapping of `c`,
/// which depends on `c` alone and is documented to be one or more characters.
#[verifier::external_body]
fn char_to_lowercase(c: char) -> (r: String)
    ensures
        r@ == lowercase_of(c),
        r@.len() >= 1,
{
    c.to_lowercase().to_string()
}

/// Relies on char::to_uppercase: the Unicode uppercase mapping of `c`,
/// which depends on `c` alone and is documented to be one or more characters.
#[verifier::external_body]
fn char_to_uppercase(c: char) -> (r: String)
    ensures
        r@ == uppercase_of(c),
        r@.len() >= 1,
{
    c.to_uppercase().to_string()
}

/// `s` with its first character replaced by `mapped`; an empty `s` stays empty.
pub open spec fn with_initial(s: Seq<char>, mapped: Seq<char>) -> Seq<char> {
    if s.len() == 0 {
        s
    } else {
        mapped + s.drop_first()
    }
}

/// Replaces the first character of `s` by `mapped`; an empty `s` gives an
/// empty result.
pub fn replace_initial(s: &str, mapped: &str) -> (r: String)
    ensures
        r@ == with_initial(s@, mapped@),
{
    if s.is_empty() {
        return String::new();
    }
    let n = s.unicode_len();
    let rest = s.substring_char(1, n);
    let mut r = String::from_str(mapped);
    r.append(rest);
    assert(rest@ =~= s@.drop_first());
    r
}

/// `s` with its first character lowercased; the rest, and an empty `s`, unchanged.
pub fn to_lower_initials(s: &str) -> (r: String)
    ensures
        r@ == (if s@.len() == 0 { s@ } else { lowercase_of(s@[0]) + s@.drop_first() }),
        s@.len() > 0 ==> r@.len() >= s@.len() && r@.subrange(r@.len() - (s@.len() - 1), r@.len() as int)
            == s@.subrange(1, s@.len() as int),
{
    if s.is_empty() {
        return String::new();
    }
    let initial = char_to_lowercase(s.get_char(0));
    let r = replace_initial(s, initial.as_str());
    assert(r@.subrange(r@.len() - (s@.len() - 1), r@.len() as int) =~= s@.subrange(
        1,
        s@.len() as int,
    ));
    r
}

/// `s` with its first character uppercased; the rest, and an empty `s`, unchanged.
pub fn to_upper_initials(s: &str) -> (r: String)
    ensures
        r@ == (if s@.len() == 0 { s@ } else { uppercase_of(s@[0]) + s@.drop_first() }),
        s@.len() > 0 ==> r@.len() >= s@.len() && r@.subrange(r@.len() - (s@.len() - 1), r@.len() as int)
            == s@.subrange(1, s@.len() as int),
{
    if s.is_empty() {
        return String::new();
    }
    let initial = char_to_uppercase(s.get_char(0));
    let r = replace_initial(s, initial.as_str());
    assert(r@.subrange(r@.len() - (s@.len() - 1), r@.len() as int) =~= s@.subrange(
        1,
        s@.len() as int,
    ));
    r
}

} // verus!
