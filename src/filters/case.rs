//! Word-boundary-aware case conversion.
//!
//! Words are split the way the `convert_case` crate splits them by default:
//! at spaces, `_` and `-`, at a lower-case letter followed by an upper-case
//! one, between letters and digits, and before the last capital of a run of
//! capitals that a lower-case letter follows (`"HTTPServer"` gives `http` and
//! `server`).
use crate::error::FilterError;
use crate::text::{lowercased, push_char, to_lower};
use crate::value::{Args, Value};
use vstd::prelude::*;
use vstd::string::StrSliceExecFns;

verus! {

/// The target conventions of case conversion.
#[derive(Debug, Clone, Copy, PartialEq, Eq, Structural)]
pub enum CaseStyle {
    /// Words joined by `_`, all lower case.
    Snake,
    /// Words joined by `-`, all lower case.
    Kebab,
    /// First word lower case, the others capitalised, no separator.
    Camel,
    /// Every word capitalised, no separator.
    Pascal,
}

/// A string converted to a case style.
pub uninterp spec fn case_converted(s: Seq<char>, style: CaseStyle) -> Seq<char>;

/// Relies on `convert_case::Casing::to_case`: the result depends on the text
/// and the style alone, and empty text (which splits into no words) gives
/// empty text.
#[verifier::external_body]
fn to_case(s: &str, style: CaseStyle) -> (r: String)
    ensures
        r@ == case_converted(s@, style),
        s@.len() == 0 ==> r@.len() == 0,
{
    let case = match style {
        CaseStyle::Snake => ::convert_case::Case::Snake,
        CaseStyle::Kebab => ::convert_case::Case::Kebab,
        CaseStyle::Camel => ::convert_case::Case::Camel,
        CaseStyle::Pascal => ::convert_case::Case::Pascal,
    };
    ::convert_case::Casing::to_case(&s, case)
}

/// A string converted to a case style; any other input reads as `""`.
pub fn convert_value(value: &Value, style: CaseStyle) -> (r: Result<Value, FilterError>)
    ensures
        r matches Ok(Value::String(t)) && t@ == case_converted(value.spec_text(), style)
            && (!(value is String) ==> t@.len() == 0),
{
    Ok(Value::String(to_case(value.as_str_or_empty(), style)))
}

/// `snake_case` of a string; any other input reads as `""`.
pub fn filter_snake_case(value: &Value, args: &Args) -> (r: Result<Value, FilterError>)
    ensures
        r matches Ok(Value::String(t)) && t@ == case_converted(value.spec_text(), CaseStyle::Snake)
            && (!(value is String) ==> t@.len() == 0),
{
    convert_value(value, CaseStyle::Snake)
}

/// `kebab-case` of a string; any other input reads as `""`.
pub fn filter_kebab_case(value: &Value, args: &Args) -> (r: Result<Value, FilterError>)
    ensures
        r matches Ok(Value::String(t)) && t@ == case_converted(value.spec_text(), CaseStyle::Kebab)
            && (!(value is String) ==> t@.len() == 0),
{
    convert_value(value, CaseStyle::Kebab)
}

/// `camelCase` of a string; any other input reads as `""`.
pub fn filter_camel_case(value: &Value, args: &Args) -> (r: Result<Value, FilterError>)
    ensures
        r matches Ok(Value::String(t)) && t@ == case_converted(value.spec_text(), CaseStyle::Camel)
            && (!(value is String) ==> t@.len() == 0),
{
    convert_value(value, CaseStyle::Camel)
}

/// `PascalCase` of a string; any other input reads as `""`.
pub fn filter_pascal_case(value: &Value, args: &Args) -> (r: Result<Value, FilterError>)
    ensures
        r matches Ok(Value::String(t)) && t@ == case_converted(value.spec_text(), CaseStyle::Pascal)
            && (!(value is String) ==> t@.len() == 0),
{
    convert_value(value, CaseStyle::Pascal)
}

/// The characters dropped before a text is made a slug: ASCII punctuation
/// other than the word separators `-` and `_`.
pub open spec fn is_slug_dropped(c: char) -> bool {
    ('!' <= c <= '/' && c != '-') || (':' <= c <= '@') || ('[' <= c <= '`' && c != '_') || ('{'
        <= c <= '~')
}

/// A text with the characters of `is_slug_dropped` taken out.
pub open spec fn without_punctuation(s: Seq<char>) -> Seq<char>
    decreases s.len(),
{
    if s.len() == 0 {
        seq![]
    } else {
        let rest = without_punctuation(s.drop_last());
        if is_slug_dropped(s.last()) {
            rest
        } else {
            rest.push(s.last())
        }
    }
}

/// A text with the characters of `is_slug_dropped` taken out.
pub fn strip_punctuation(s: &str) -> (r: String)
    ensures
        r@ == without_punctuation(s@),
{
    let n = s.unicode_len();
    let mut r = String::new();
    let mut i: usize = 0;
    while i < n
        invariant
            n == s@.len(),
            i <= n,
            r@ == without_punctuation(s@.subrange(0, i as int)),
        decreases n - i,
    {
        let c = s.get_char(i);
        assert(s@.subrange(0, i + 1).drop_last() =~= s@.subrange(0, i as int));
        let dropped = ('!' <= c && c <= '/' && c != '-') || (':' <= c && c <= '@') || ('[' <= c
            && c <= '`' && c != '_') || ('{' <= c && c <= '~');
        if !dropped {
            push_char(&mut r, c);
        }
        i = i + 1;
    }
    assert(s@.subrange(0, n as int) =~= s@);
    r
}

/// A URL-friendly slug: ASCII punctuation other than `-` and `_` is taken
/// out, then the text is put in kebab-case and lower-cased
/// (`"Hello World!"` gives `"hello-world"`); any other input reads as `""`.
pub fn filter_slug(value: &Value, args: &Args) -> (r: Result<Value, FilterError>)
    ensures
        r matches Ok(Value::String(t)) && t@ == lowercased(
            case_converted(without_punctuation(value.spec_text()), CaseStyle::Kebab),
        ) && (!(value is String) ==> t@.len() == 0),
{
    let plain = strip_punctuation(value.as_str_or_empty());
    let kebab = to_case(plain.as_str(), CaseStyle::Kebab);
    Ok(Value::String(to_lower(kebab.as_str())))
}

} // verus!
