//! Identifiers of entries: type-ids with the prefix `tent`, kept as text.

use vstd::prelude::*;
use crate::text::{option_text, same_text};

verus! {

/// The prefix of every entry's identifier.
pub const ENTRY_ID_PREFIX: &'static str = "tent";

/// Identifier of the row that is shown while a day is loading.
pub const LOADING_ID: &'static str = "tent_3s3pcceez08nfrqywmet8k291w";

/// A reading of an identifier, as plain characters.
pub open spec fn type_id_outcome(r: Option<(String, String)>) -> Option<(Seq<char>, Seq<char>)> {
    match r {
        Some(parts) => Some((parts.0@, parts.1@)),
        None => None,
    }
}

/// Whether `c` may stand in a type-id's prefix.
pub open spec fn is_prefix_char(c: char) -> bool {
    ('a' <= c && c <= 'z') || c == '_'
}

/// What `DynamicType::new` accepts: at most 63 lower-case letters and
/// underscores, no underscore first or last.
pub open spec fn is_type_prefix(prefix: Seq<char>) -> bool {
    &&& prefix.len() <= 63
    &&& forall|i: int| 0 <= i < prefix.len() ==> is_prefix_char(#[trigger] prefix[i])
    &&& prefix.len() > 0 ==> prefix.first() != '_' && prefix.last() != '_'
}

/// Whether `c` is one of the thirty-two characters in which a type-id
/// writes its number: the digits and the lower-case letters but for `i`,
/// `l`, `o` and `u`.
pub open spec fn is_base32_char(c: char) -> bool {
    ('0' <= c && c <= '9') || ('a' <= c && c <= 'z' && c != 'i' && c != 'l' && c != 'o' && c != 'u')
}

/// How many characters a type-id's number takes.
pub const ENCODED_ID_LEN: usize = 26;

/// Whether `text` has the form of a type-id with the prefix `prefix`: the
/// prefix and an underscore, unless the prefix is empty, and then the
/// number in twenty-six characters.
pub open spec fn is_type_id_text(prefix: Seq<char>, text: Seq<char>) -> bool {
    let lead = if prefix.len() == 0 {
        Seq::<char>::empty()
    } else {
        prefix.push('_')
    };
    &&& text.len() == lead.len() + ENCODED_ID_LEN
    &&& text.take(lead.len() as int) == lead
    &&& forall|i: int| lead.len() <= i < text.len() ==> is_base32_char(#[trigger] text[i])
}

/// What is left of `text` before its last twenty-seven characters: the
/// prefix, where `text` is a type-id with one.
pub open spec fn prefix_part(text: Seq<char>) -> Seq<char> {
    if text.len() > ENCODED_ID_LEN {
        text.take(text.len() - ENCODED_ID_LEN - 1)
    } else {
        Seq::empty()
    }
}

/// What `str::parse::<TypeSafeId<DynamicType>>` makes of `text`: the prefix
/// of the identifier it reads and the identifier written out again, if it
/// reads one. It reads a text that has the form of a type-id with a prefix
/// which `DynamicType::new` accepts, and whose number starts with one of
/// `0` to `7`, so that it fits in 128 bits. Written out again, the
/// identifier is the text itself.
pub open spec fn type_id_reading(text: Seq<char>) -> Option<(Seq<char>, Seq<char>)> {
    let prefix = prefix_part(text);
    if is_type_prefix(prefix) && is_type_id_text(prefix, text) && '0' <= text[text.len()
        - ENCODED_ID_LEN] <= '7' {
        Some((prefix, text))
    } else {
        None
    }
}

/// The identifier that `text` stands for, written out again, if `text` is a
/// type-id with the entries' prefix.
pub open spec fn entry_id_reading(text: Seq<char>) -> Option<Seq<char>> {
    match type_id_reading(text) {
        Some(parts) => if parts.0 == ENTRY_ID_PREFIX@ {
            Some(parts.1)
        } else {
            None
        },
        None => None,
    }
}

/// Calls `str::parse::<TypeSafeId<DynamicType>>` and hands back the prefix
/// and the text of the identifier read. The contract states the outcome in
/// full, as `type_id_reading` has it: the parser splits the text at its
/// last underscore, takes what stands before it as the prefix, which must be
/// one that `DynamicType::new` accepts and not empty, and what stands after
/// it, or all of a text without an underscore, as the number, which must be
/// twenty-six characters of the alphabet, the first of them `0` to `7`.
/// Only ASCII text is handed in: on other text the parser may cut a
/// character in two.
#[verifier::external_body]
pub(crate) fn read_type_id(text: &str) -> (r: Option<(String, String)>)
    requires
        text.is_ascii(),
    ensures
        type_id_outcome(r) == type_id_reading(text@),
{
    match text.parse::<type_safe_id::TypeSafeId<type_safe_id::DynamicType>>() {
        Ok(id) => Some((id.type_prefix().to_string(), id.to_string())),
        Err(_) => None,
    }
}

/// Calls `TypeSafeId::new_with_type`, which draws on the clock and on
/// chance, and hands back the new identifier as text. Which identifier
/// comes is not said. The contract says what holds of every one: a prefix
/// which `DynamicType::new` accepts yields one; it is written as the
/// type-id's `Display` writes it, the prefix, an underscore and twenty-six
/// characters of its alphabet; and the parser reads it back as itself, as
/// the crate's documentation shows. The generator reads the machine's
/// clock and gives up where that stands before the year 1970: this is a
/// matter of the machine, which no argument decides.
#[verifier::external_body]
pub(crate) fn fresh_type_id(prefix: &str) -> (text: Option<String>)
    ensures
        is_type_prefix(prefix@) ==> text.is_some(),
        text matches Some(t) ==> is_type_id_text(prefix@, t@),
        text matches Some(t) ==> type_id_reading(t@) == Some((prefix@, t@)),
{
    match type_safe_id::DynamicType::new(prefix) {
        Ok(tag) => Some(type_safe_id::TypeSafeId::new_with_type(tag).to_string()),
        Err(_) => None,
    }
}

/// Reads an entry's identifier: `text` must be a type-id with the prefix of
/// entries.
pub fn read_entry_id(text: &str) -> (id: Option<String>)
    ensures
        text.is_ascii() ==> option_text(id) == entry_id_reading(text@),
        !text.is_ascii() ==> id.is_none(),
{
    if !text.is_ascii() {
        return None;
    }
    match read_type_id(text) {
        Some(parts) => {
            if same_text(parts.0.as_str(), ENTRY_ID_PREFIX) {
                Some(parts.1)
            } else {
                None
            }
        },
        None => None,
    }
}

/// A type-id with a prefix that `DynamicType::new` accepts is ASCII text.
pub proof fn lemma_type_id_text_is_ascii(prefix: Seq<char>, text: Seq<char>)
    requires
        is_type_prefix(prefix),
        is_type_id_text(prefix, text),
    ensures
        vstd::utf8::is_ascii_chars(text),
{
    let lead = if prefix.len() == 0 {
        Seq::<char>::empty()
    } else {
        prefix.push('_')
    };
    assert forall|i: int| 0 <= i < text.len() implies '\0' <= #[trigger] text[i] <= '\u{7f}' by {
        if i < lead.len() {
            assert(text[i] == text.take(lead.len() as int)[i]);
            if i < prefix.len() {
                assert(is_prefix_char(prefix[i]));
            }
        } else {
            assert(is_base32_char(text[i]));
        }
    }
}

/// A new identifier for an entry. Which one comes is left to the
/// generator; every one is a type-id with the entries' prefix, in ASCII,
/// that reads back as itself, so that the store takes it.
pub fn new_entry_id() -> (id: String)
    ensures
        is_type_id_text(ENTRY_ID_PREFIX@, id@),
        id.is_ascii(),
        entry_id_reading(id@) == Some(id@),
{
    proof {
        reveal_strlit("tent");
    }
    match fresh_type_id(ENTRY_ID_PREFIX) {
        Some(id) => {
            proof {
                lemma_type_id_text_is_ascii(ENTRY_ID_PREFIX@, id@);
            }
            id
        },
        None => vstd::pervasive::unreached(),
    }
}

} // verus!
