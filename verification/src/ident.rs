//! Random identifiers and their text.

use vstd::prelude::*;

verus! {

/// The lower-case hexadecimal digit for `n`, which is below sixteen.
pub open spec fn hex_digit(n: u8) -> char {
    if n == 0 {
        '0'
    } else if n == 1 {
        '1'
    } else if n == 2 {
        '2'
    } else if n == 3 {
        '3'
    } else if n == 4 {
        '4'
    } else if n == 5 {
        '5'
    } else if n == 6 {
        '6'
    } else if n == 7 {
        '7'
    } else if n == 8 {
        '8'
    } else if n == 9 {
        '9'
    } else if n == 10 {
        'a'
    } else if n == 11 {
        'b'
    } else if n == 12 {
        'c'
    } else if n == 13 {
        'd'
    } else if n == 14 {
        'e'
    } else {
        'f'
    }
}

/// `bytes` in lower-case hexadecimal: two digits for each byte, the high
/// one first.
pub open spec fn hex(bytes: Seq<u8>) -> Seq<char>
    decreases bytes.len(),
{
    if bytes.len() == 0 {
        Seq::empty()
    } else {
        hex(bytes.drop_last()).push(hex_digit(bytes.last() / 16)).push(
            hex_digit(bytes.last() % 16),
        )
    }
}

/// The text of the identifier made of the sixteen `bytes`: their digits in
/// groups of 8, 4, 4, 4 and 12, joined by hyphens.
pub open spec fn hyphenated(bytes: Seq<u8>) -> Seq<char> {
    hex(bytes.subrange(0, 4)) + seq!['-'] + hex(bytes.subrange(4, 6)) + seq!['-'] + hex(
        bytes.subrange(6, 8),
    ) + seq!['-'] + hex(bytes.subrange(8, 10)) + seq!['-'] + hex(bytes.subrange(10, 16))
}

/// Whether `text` is the text of an identifier: the hyphenated form of some
/// sixteen bytes.
pub open spec fn identifier_text(text: Seq<char>) -> bool {
    exists|bytes: Seq<u8>| bytes.len() == 16 && text == #[trigger] hyphenated(bytes)
}

pub proof fn lemma_hex_len(bytes: Seq<u8>)
    ensures
        hex(bytes).len() == 2 * bytes.len(),
    decreases bytes.len(),
{
    if bytes.len() > 0 {
        lemma_hex_len(bytes.drop_last());
    }
}

/// The text of an identifier has thirty-six characters.
pub proof fn lemma_identifier_len(text: Seq<char>)
    requires
        identifier_text(text),
    ensures
        text.len() == 36,
{
    let bytes = choose|bytes: Seq<u8>| bytes.len() == 16 && text == #[trigger] hyphenated(bytes);
    lemma_hex_len(bytes.subrange(0, 4));
    lemma_hex_len(bytes.subrange(4, 6));
    lemma_hex_len(bytes.subrange(6, 8));
    lemma_hex_len(bytes.subrange(8, 10));
    lemma_hex_len(bytes.subrange(10, 16));
}

/// Draws a random identifier with `uuid::Uuid::new_v4` and gives it twice:
/// as its text (`to_string`) and as its bytes (`as_bytes`). Which bytes
/// come is left open: two draws may give anything. What is taken from the
/// crate is that there are sixteen of them and that the text is their
/// lower-case hyphenated form.
#[verifier::external_body]
pub(crate) fn fresh_identifier() -> (id: (String, Vec<u8>))
    ensures
        id.1@.len() == 16,
        id.0@ == hyphenated(id.1@),
{
    let id = uuid::Uuid::new_v4();
    (id.to_string(), id.as_bytes().to_vec())
}

/// The text of a fresh random identifier: the hyphenated form of sixteen
/// bytes drawn at random, thirty-six characters long.
pub fn new_id() -> (id: String)
    ensures
        identifier_text(id@),
        id@.len() == 36,
{
    let drawn = fresh_identifier();
    proof {
        assert(drawn.1@.len() == 16 && drawn.0@ == hyphenated(drawn.1@));
        lemma_identifier_len(drawn.0@);
    }
    drawn.0
}

/// The sixteen bytes of a fresh random identifier.
pub fn random_bytes() -> (bytes: Vec<u8>)
    ensures
        bytes@.len() == 16,
{
    fresh_identifier().1
}

} // verus!
