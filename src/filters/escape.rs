//! HTML and XML escaping of the five special characters, and decoding of
//! character references.
use crate::error::FilterError;
use crate::value::{Args, Value};
use vstd::prelude::*;

verus! {

/// What a character becomes when escaped: `&`, `<`, `>`, `"` and `'` turn into
/// `&amp;`, `&lt;`, `&gt;`, `&quot;` and `&#x27;`; the rest stay as they are.
pub open spec fn escaped_char(c: char) -> Seq<char> {
    if c == '&' {
        seq!['&', 'a', 'm', 'p', ';']
    } else if c == '<' {
        seq!['&', 'l', 't', ';']
    } else if c == '>' {
        seq!['&', 'g', 't', ';']
    } else if c == '"' {
        seq!['&', 'q', 'u', 'o', 't', ';']
    } else if c == '\'' {
        seq!['&', '#', 'x', '2', '7', ';']
    } else {
        seq![c]
    }
}

/// A text with each character escaped.
pub open spec fn html_escaped(s: Seq<char>) -> Seq<char>
    decreases s.len(),
{
    if s.len() == 0 {
        seq![]
    } else {
        escaped_char(s[0]) + html_escaped(s.drop_first())
    }
}

/// How many characters of the five references `s` starts with, or 0.
pub open spec fn reference_len(s: Seq<char>) -> int {
    if s.len() >= 5 && s[0] == '&' && s[1] == 'a' && s[2] == 'm' && s[3] == 'p' && s[4] == ';' {
        5
    } else if s.len() >= 4 && s[0] == '&' && (s[1] == 'l' || s[1] == 'g') && s[2] == 't' && s[3]
        == ';' {
        4
    } else if s.len() >= 6 && s[0] == '&' && s[1] == 'q' && s[2] == 'u' && s[3] == 'o' && s[4]
        == 't' && s[5] == ';' {
        6
    } else if s.len() >= 6 && s[0] == '&' && s[1] == '#' && s[2] == 'x' && s[3] == '2' && s[4]
        == '7' && s[5] == ';' {
        6
    } else {
        0
    }
}

/// The character that the reference at the start of `s` stands for.
pub open spec fn referenced_char(s: Seq<char>) -> char {
    if s[1] == 'a' {
        '&'
    } else if s[1] == 'l' {
        '<'
    } else if s[1] == 'g' {
        '>'
    } else if s[1] == 'q' {
        '"'
    } else {
        '\''
    }
}

/// Whether a text is made of characters other than `&` and of the five
/// references alone.
pub open spec fn is_escaped_form(s: Seq<char>) -> bool
    decreases s.len(),
{
    if s.len() == 0 {
        true
    } else if reference_len(s) > 0 {
        is_escaped_form(s.subrange(reference_len(s), s.len() as int))
    } else {
        s[0] != '&' && is_escaped_form(s.drop_first())
    }
}

/// A text with the five references replaced by their characters.
pub open spec fn unescaped_five(s: Seq<char>) -> Seq<char>
    decreases s.len(),
{
    if s.len() == 0 {
        seq![]
    } else if reference_len(s) > 0 {
        seq![referenced_char(s)] + unescaped_five(s.subrange(reference_len(s), s.len() as int))
    } else {
        seq![s[0]] + unescaped_five(s.drop_first())
    }
}

/// A text with its HTML character references decoded.
pub uninterp spec fn html_decoded(s: Seq<char>) -> Seq<char>;

/// Relies on `html_escape::encode_quoted_attribute`, which escapes exactly the
/// five characters of `escaped_char`.
#[verifier::external_body]
fn encode_quoted(s: &str) -> (r: String)
    ensures
        r@ == html_escaped(s@),
{
    ::html_escape::encode_quoted_attribute(s).into_owned()
}

/// Relies on `html_escape::decode_html_entities`: the result depends on the
/// text alone, and text without `&` but in the five references (which it
/// decodes) is copied as it stands.
#[verifier::external_body]
fn decode_entities(s: &str) -> (r: String)
    ensures
        r@ == html_decoded(s@),
        is_escaped_form(s@) ==> r@ == unescaped_five(s@),
{
    ::html_escape::decode_html_entities(s).into_owned()
}

/// A string with `&`, `<`, `>`, `"` and `'` escaped; any other input reads as `""`.
pub fn filter_html_escape(value: &Value, args: &Args) -> (r: Result<Value, FilterError>)
    ensures
        r matches Ok(Value::String(t)) && t@ == html_escaped(value.spec_text()),
{
    Ok(Value::String(encode_quoted(value.as_str_or_empty())))
}

/// The same escaping as `filter_html_escape`, which also suits XML text.
pub fn filter_xml_escape(value: &Value, args: &Args) -> (r: Result<Value, FilterError>)
    ensures
        r matches Ok(Value::String(t)) && t@ == html_escaped(value.spec_text()),
{
    Ok(Value::String(encode_quoted(value.as_str_or_empty())))
}

/// A string with named and numeric character references decoded; any other
/// input reads as `""`.
pub fn filter_html_unescape(value: &Value, args: &Args) -> (r: Result<Value, FilterError>)
    ensures
        r matches Ok(Value::String(t)) && t@ == html_decoded(value.spec_text()) && (
        is_escaped_form(value.spec_text()) ==> t@ == unescaped_five(value.spec_text())),
{
    Ok(Value::String(decode_entities(value.as_str_or_empty())))
}

/// Escaped text is in the escaped form, and unescaping it gives the text back.
pub proof fn lemma_html_round_trip(s: Seq<char>)
    ensures
        is_escaped_form(html_escaped(s)),
        unescaped_five(html_escaped(s)) == s,
    decreases s.len(),
{
    if s.len() > 0 {
        let c = s[0];
        let e = html_escaped(s);
        let head = escaped_char(c);
        let rest = html_escaped(s.drop_first());
        lemma_html_round_trip(s.drop_first());
        assert(e == head + rest);
        if c == '&' || c == '<' || c == '>' || c == '"' || c == '\'' {
            assert(reference_len(e) == head.len());
            assert(e.subrange(head.len() as int, e.len() as int) =~= rest);
        } else {
            assert(reference_len(e) == 0);
            assert(e.drop_first() =~= rest);
        }
        assert(unescaped_five(e) =~= s);
    }
}

} // verus!
