//! Regular-expression rules, evaluated by the `regex` crate.
//!
//! A rule is kept as its pattern text. What the engine answers for a pattern
//! and a text is not restated here: it is given a name, and the stages
//! are specified over that name.

use vstd::prelude::*;

verus! {

/// What the `regex` crate answers when asked whether `pattern` matches
/// somewhere in `text`: `None` where it does not accept `pattern` as a
/// regular expression, the answer of `Regex::is_match` otherwise.
pub uninterp spec fn regex_match(pattern: Seq<char>, text: Seq<char>) -> Option<bool>;

/// `text` with every non-overlapping match of `pattern` replaced by
/// `replacement`, as `Regex::replace_all` writes it; `None` where the crate
/// does not accept `pattern`.
pub uninterp spec fn regex_replaced(
    pattern: Seq<char>,
    text: Seq<char>,
    replacement: Seq<char>,
) -> Option<Seq<char>>;

/// A rule that has to match: it holds only when the engine accepts the
/// pattern and finds a match.
pub open spec fn matches_rule(pattern: Seq<char>, text: Seq<char>) -> bool {
    regex_match(pattern, text) == Some(true)
}

/// A rule that must not match: it is violated unless the engine accepts the
/// pattern and finds no match, so a rule that cannot be read rejects.
pub open spec fn violates_rule(pattern: Seq<char>, text: Seq<char>) -> bool {
    regex_match(pattern, text) != Some(false)
}

/// Compiles `pattern` with `regex::Regex::new` and asks `Regex::is_match`
/// for `text`. The contract only names the answer; it claims nothing about
/// which texts a pattern matches.
#[verifier::external_body]
pub(crate) fn regex_is_match(pattern: &str, text: &str) -> (r: Option<bool>)
    ensures
        r == regex_match(pattern@, text@),
{
    match regex::Regex::new(pattern) {
        Ok(re) => Some(re.is_match(text)),
        Err(_) => None,
    }
}

/// Compiles `pattern` with `regex::Regex::new` and calls
/// `Regex::replace_all` on `text`. The contract only names the result.
#[verifier::external_body]
pub(crate) fn regex_replace_all(pattern: &str, text: &str, replacement: &str) -> (r: Option<
    String,
>)
    ensures
        r matches Some(s) ==> regex_replaced(pattern@, text@, replacement@) == Some(s@),
        r is None ==> regex_replaced(pattern@, text@, replacement@) is None,
{
    match regex::Regex::new(pattern) {
        Ok(re) => Some(re.replace_all(text, replacement).into_owned()),
        Err(_) => None,
    }
}

/// Whether `text` satisfies a rule that has to match.
pub fn satisfies(pattern: &str, text: &str) -> (r: bool)
    ensures
        r == matches_rule(pattern@, text@),
{
    rule_holds(regex_is_match(pattern, text))
}

/// Whether `text` violates a rule that must not match.
pub fn violates(pattern: &str, text: &str) -> (r: bool)
    ensures
        r == violates_rule(pattern@, text@),
{
    rule_broken(regex_is_match(pattern, text))
}

/// Reads the engine's answer for a rule that has to match.
pub fn rule_holds(answer: Option<bool>) -> (r: bool)
    ensures
        r == (answer == Some(true)),
{
    match answer {
        Some(hit) => hit,
        None => false,
    }
}

/// Reads the engine's answer for a rule that must not match.
pub fn rule_broken(answer: Option<bool>) -> (r: bool)
    ensures
        r == (answer != Some(false)),
{
    match answer {
        Some(hit) => hit,
        None => true,
    }
}

/// Whether `text` violates one of `patterns`.
pub open spec fn violates_any(patterns: Seq<Seq<char>>, text: Seq<char>) -> bool {
    exists|i: int| 0 <= i < patterns.len() && violates_rule(#[trigger] patterns[i], text)
}

/// The patterns of a rule table, as texts.
pub open spec fn pattern_texts(table: Seq<String>) -> Seq<Seq<char>> {
    Seq::new(table.len(), |i: int| table[i]@)
}

/// Whether `text` violates one of the rules in `table`, tried in order.
pub fn violates_any_of(table: &Vec<String>, text: &str) -> (r: bool)
    ensures
        r == violates_any(pattern_texts(table@), text@),
{
    let mut i: usize = 0;
    while i < table.len()
        invariant
            i <= table.len(),
            forall|j: int| 0 <= j < i ==> !violates_rule(#[trigger] pattern_texts(table@)[j], text@),
        decreases table.len() - i,
    {
        if violates(table[i].as_str(), text) {
            assert(violates_rule(pattern_texts(table@)[i as int], text@));
            return true;
        }
        i += 1;
    }
    false
}

} // verus!
