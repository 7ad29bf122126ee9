//! Character-level string helpers and the calls into outside crates that
//! compute on text.
use vstd::prelude::*;

verus! {

/// Relies on `String::push`: the character is appended at the end.
#[verifier::external_body]
pub(crate) fn push_char(s: &mut String, c: char)
    ensures
        final(s)@ == old(s)@.push(c),
{
    s.push(c);
}

/// Relies on `str::chars`: the characters of the text, in order.
#[verifier::external_body]
pub(crate) fn chars_of(s: &str) -> (r: Vec<char>)
    ensures
        r@ == s@,
{
    s.chars().collect()
}

/// What `str::to_lowercase` makes of a text.
pub uninterp spec fn lower_of(s: Seq<char>) -> Seq<char>;

/// Relies on `str::to_lowercase`: the result depends on the characters alone,
/// and no uppercase ASCII letter is left in it.
#[verifier::external_body]
pub(crate) fn lowercase(s: &str) -> (r: String)
    ensures
        r@ == lower_of(s@),
        forall|i: int| 0 <= i < r@.len() ==> !('A' <= #[trigger] r@[i] && r@[i] <= 'Z'),
{
    s.to_lowercase()
}

/// The bit pattern of the `f64` that `strsim::jaro` returns for two texts.
pub uninterp spec fn jaro_bits_of(a: Seq<char>, b: Seq<char>) -> u64;

/// The bits of the `f64` 1.0; no bits of a double in `[0, 1]` exceed them.
pub const ONE_BITS: u64 = 0x3FF0_0000_0000_0000;

/// Relies on `strsim::jaro`: the Jaro similarity of the two texts, a number
/// in `[0, 1]` that depends on the texts alone, handed back as its bits. Two
/// equal texts match at every position with no transposition, which gives
/// exactly 1.0 (and two empty texts give 1.0 outright).
#[verifier::external_body]
pub(crate) fn jaro_bits(a: &str, b: &str) -> (r: u64)
    ensures
        r == jaro_bits_of(a@, b@),
        r <= ONE_BITS,
        a@ == b@ ==> r == ONE_BITS,
{
    strsim::jaro(a, b).to_bits()
}

/// A character that a module name may not hold.
pub open spec fn is_invalid_name_char(c: char) -> bool {
    c == '-' || c == ' ' || c == '.' || ('A' <= c && c <= 'Z')
}

/// Whether a text holds a character that a module name may not hold.
pub open spec fn has_invalid_name_char(s: Seq<char>) -> bool {
    exists|i: int| 0 <= i < s.len() && is_invalid_name_char(#[trigger] s[i])
}

/// The character class of what a module name may not hold.
pub const INVALID_NAME_CLASS: &'static str = "[-A-Z. ]";

/// Relies on `regex::Regex::new` and `Regex::is_match`: the class of invalid
/// name characters compiles, and an unanchored search for it succeeds exactly
/// when some character of the text lies in the class.
#[verifier::external_body]
pub(crate) fn class_matches(pattern: &str, text: &str) -> (r: Option<bool>)
    ensures
        pattern@ == INVALID_NAME_CLASS@ ==> r == Some(has_invalid_name_char(text@)),
{
    match regex::Regex::new(pattern) {
        Ok(re) => Some(re.is_match(text)),
        Err(_) => None,
    }
}

} // verus!
