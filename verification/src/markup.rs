//! HTML text: character escaping and the few elements that the pages use.

use vstd::prelude::*;

verus! {

/// What a character becomes in HTML text: the five characters that HTML
/// reserves become entities, every other character stands for itself.
pub open spec fn text_entity(c: char) -> Seq<char> {
    if c == '"' {
        "&quot;"@
    } else if c == '&' {
        "&amp;"@
    } else if c == '\'' {
        "&#x27;"@
    } else if c == '<' {
        "&lt;"@
    } else if c == '>' {
        "&gt;"@
    } else {
        seq![c]
    }
}

/// `text` as HTML text, character by character.
pub open spec fn text_markup(text: Seq<char>) -> Seq<char>
    decreases text.len(),
{
    if text.len() == 0 {
        Seq::empty()
    } else {
        text_markup(text.drop_last()) + text_entity(text.last())
    }
}

/// Whether `c` is an ASCII letter or digit.
pub open spec fn is_ascii_alphanumeric(c: char) -> bool {
    ('a' <= c && c <= 'z') || ('A' <= c && c <= 'Z') || ('0' <= c && c <= '9')
}

/// The uppercase hexadecimal digit for a value below sixteen.
pub open spec fn upper_hex_digit(nibble: int) -> char {
    "0123456789ABCDEF"@[nibble]
}

/// What a character becomes in an attribute value: the five reserved
/// characters become the same entities as in text, every other character
/// below U+0100 that is no ASCII letter or digit becomes a two-digit
/// hexadecimal character reference, and the rest stand for themselves.
pub open spec fn attribute_entity(c: char) -> Seq<char> {
    if c == '"' || c == '&' || c == '\'' || c == '<' || c == '>' {
        text_entity(c)
    } else if (c as int) < 256 && !is_ascii_alphanumeric(c) {
        "&#x"@ + seq![upper_hex_digit((c as int) / 16), upper_hex_digit((c as int) % 16)] + ";"@
    } else {
        seq![c]
    }
}

/// `value` as the text of an attribute value, character by character.
pub open spec fn attribute_markup(value: Seq<char>) -> Seq<char>
    decreases value.len(),
{
    if value.len() == 0 {
        Seq::empty()
    } else {
        attribute_markup(value.drop_last()) + attribute_entity(value.last())
    }
}

/// An `a` element around `text`, with `href` as its target where there is one.
pub open spec fn anchor_markup(href: Option<Seq<char>>, text: Seq<char>) -> Seq<char> {
    match href {
        Some(target) => "<a href=\""@ + attribute_markup(target) + "\">"@ + text_markup(text)
            + "</a>"@,
        None => "<a>"@ + text_markup(text) + "</a>"@,
    }
}

/// Makes a `typed_html::dom::TextNode` of `text` and renders it with
/// `to_string`. As the crate's source has it, the node writes its text
/// through `htmlescape::encode_minimal`: an entity for each of the five
/// reserved characters, and every other character as it is.
#[verifier::external_body]
pub(crate) fn escape_text(text: &str) -> (escaped: String)
    ensures
        escaped@ == text_markup(text@),
{
    typed_html::dom::TextNode::<String>::new(text).to_string()
}

/// Calls `htmlescape::encode_attribute`, which `typed_html` hands on and
/// writes the attribute values of its elements with, on `value`: an entity
/// for each of the five reserved characters, `&#x`, two uppercase
/// hexadecimal digits and `;` for every other character below U+0100 that is
/// no ASCII letter or digit, and every other character as it is.
#[verifier::external_body]
pub(crate) fn escape_attribute(value: &str) -> (escaped: String)
    ensures
        escaped@ == attribute_markup(value@),
{
    typed_html::htmlescape::encode_attribute(value)
}

/// An `a` element around `text`, with `href` as its target where there is one.
pub fn anchor(href: Option<&str>, text: &str) -> (element: String)
    ensures
        element@ == anchor_markup(
            match href {
                Some(target) => Some(target@),
                None => None,
            },
            text@,
        ),
{
    let mut element = String::new();
    match href {
        Some(target) => {
            element.append("<a href=\"");
            element.append(escape_attribute(target).as_str());
            element.append("\">");
        },
        None => {
            element.append("<a>");
        },
    }
    element.append(escape_text(text).as_str());
    element.append("</a>");
    element
}

} // verus!
