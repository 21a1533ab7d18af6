//! Username validation.
//!
//! A username is five to thirty-two characters long, is made of ASCII
//! letters, ASCII digits and underscores, and holds at least one letter.
//! Nothing is trimmed: white space around a name is content like any other,
//! and it is not allowed.

use vstd::prelude::*;
use crate::json::JsonValue;

verus! {

/// The pattern that fixes a username's length and alphabet.
pub const USERNAME_PATTERN: &'static str = "^[_a-zA-Z0-9]{5,32}$";

/// The fewest characters a username may have.
pub const MIN_LENGTH: usize = 5;

/// The most characters a username may have.
pub const MAX_LENGTH: usize = 32;

/// Why a submitted username was turned down.
#[derive(Clone, Copy, Debug, PartialEq, Eq, Structural)]
pub enum Rejection {
    /// There was no username, or it was not a text.
    MalformedPayload,
    /// The text breaks the rules for usernames.
    InvalidFormat,
}

/// Whether `c` is one of `a` to `z` or `A` to `Z`.
pub open spec fn is_letter(c: char) -> bool {
    ('a' <= c && c <= 'z') || ('A' <= c && c <= 'Z')
}

/// Whether `c` is one of `0` to `9`.
pub open spec fn is_digit(c: char) -> bool {
    '0' <= c && c <= '9'
}

/// Whether `c` may stand in a username.
pub open spec fn allowed(c: char) -> bool {
    is_letter(c) || is_digit(c) || c == '_'
}

/// Whether `text` has a username's length and alphabet.
pub open spec fn well_shaped(text: Seq<char>) -> bool {
    &&& MIN_LENGTH <= text.len() <= MAX_LENGTH
    &&& forall|i: int| 0 <= i < text.len() ==> allowed(#[trigger] text[i])
}

/// Whether `text` holds a letter.
pub open spec fn has_letter(text: Seq<char>) -> bool {
    exists|i: int| 0 <= i < text.len() && is_letter(#[trigger] text[i])
}

/// Whether `text` is a username.
pub open spec fn valid_username(text: Seq<char>) -> bool {
    well_shaped(text) && has_letter(text)
}

/// The verdict on a submitted value: the username it holds, or the reason why
/// it holds none.
pub open spec fn validation(raw: Option<&JsonValue>) -> Result<Seq<char>, Rejection> {
    match raw {
        Some(value) => match value.text() {
            Some(text) => if valid_username(text) {
                Ok(text)
            } else {
                Err(Rejection::InvalidFormat)
            },
            None => Err(Rejection::MalformedPayload),
        },
        None => Err(Rejection::MalformedPayload),
    }
}

/// Compiles `pattern` with `regex::Regex::new` and searches `text` with
/// `regex::Regex::is_match`; a pattern that does not compile matches nothing.
///
/// The contract speaks of one pattern only, `USERNAME_PATTERN`. In the
/// syntax of `regex`, `^` and `$` stand for the two ends of the searched
/// text, the bracketed class for exactly the characters `_`, `a` to `z`, `A`
/// to `Z` and `0` to `9`, and `{5,32}` for five to thirty-two repetitions.
/// So that pattern matches exactly the texts of that length over that
/// alphabet. This is believed, not proved.
#[verifier::external_body]
fn pattern_matches(pattern: &str, text: &str) -> (matched: bool)
    ensures
        pattern@ == USERNAME_PATTERN@ ==> matched == well_shaped(text@),
{
    match regex::Regex::new(pattern) {
        Ok(compiled) => compiled.is_match(text),
        Err(_) => false,
    }
}

/// Decides whether `c` is an ASCII letter.
pub fn letter(c: char) -> (yes: bool)
    ensures
        yes == is_letter(c),
{
    ('a' <= c && c <= 'z') || ('A' <= c && c <= 'Z')
}

/// Decides whether `text` holds an ASCII letter.
pub fn contains_letter(text: &str) -> (found: bool)
    ensures
        found == has_letter(text@),
{
    let mut found = false;
    for c in it: text.chars()
        invariant
            it.seq() == text@,
            found == exists|i: int| 0 <= i < it.index() && is_letter(#[trigger] text@[i]),
    {
        if letter(c) {
            found = true;
        }
    }
    found
}

/// Decides whether `text` is a username.
pub fn is_valid_username(text: &str) -> (valid: bool)
    ensures
        valid == valid_username(text@),
{
    pattern_matches(USERNAME_PATTERN, text) && contains_letter(text)
}

/// Checks a submitted value and hands back the username it holds.
///
/// A missing value and a value that is not a text are malformed. A text that
/// is too short, too long, holds a character outside the alphabet or holds no
/// letter has an invalid format. Every other text is accepted as it stands.
pub fn validate(raw: Option<&JsonValue>) -> (checked: Result<String, Rejection>)
    ensures
        match validation(raw) {
            Ok(name) => checked matches Ok(accepted) && accepted@ == name,
            Err(reason) => checked == Err::<String, Rejection>(reason),
        },
{
    let value = match raw {
        Some(value) => value,
        None => {
            return Err(Rejection::MalformedPayload);
        },
    };
    match value.as_str() {
        Some(text) => {
            if is_valid_username(text) {
                Ok(text.to_owned())
            } else {
                Err(Rejection::InvalidFormat)
            }
        },
        None => Err(Rejection::MalformedPayload),
    }
}

/// A text of fewer than five or more than thirty-two characters is turned
/// down for its format.
pub proof fn lemma_wrong_length_rejected(name: String)
    requires
        name@.len() < 5 || name@.len() > 32,
    ensures
        validation(Some(&JsonValue::String(name))) == Err::<Seq<char>, Rejection>(
            Rejection::InvalidFormat,
        ),
{
}

/// A text of five to thirty-two letters, digits and underscores that holds
/// at least one letter is accepted, and accepted unchanged.
pub proof fn lemma_conforming_accepted(name: String)
    requires
        5 <= name@.len() <= 32,
        forall|i: int| 0 <= i < name@.len() ==> allowed(#[trigger] name@[i]),
        exists|i: int| 0 <= i < name@.len() && is_letter(#[trigger] name@[i]),
    ensures
        validation(Some(&JsonValue::String(name))) == Ok::<Seq<char>, Rejection>(name@),
{
}

/// Digits and underscores alone make no username, whatever their number.
pub proof fn lemma_letter_needed(name: String)
    requires
        forall|i: int| 0 <= i < name@.len() ==> !is_letter(#[trigger] name@[i]),
    ensures
        validation(Some(&JsonValue::String(name))) == Err::<Seq<char>, Rejection>(
            Rejection::InvalidFormat,
        ),
{
}

/// One character outside the alphabet spoils the whole text.
pub proof fn lemma_foreign_character_rejected(name: String, at: int)
    requires
        0 <= at < name@.len(),
        !allowed(name@[at]),
    ensures
        validation(Some(&JsonValue::String(name))) == Err::<Seq<char>, Rejection>(
            Rejection::InvalidFormat,
        ),
{
}

} // verus!
