//! The table that binds each filter to the name templates call it by.
use crate::error::FilterError;
use crate::filters::base64::{filter_base64_decode, filter_base64_encode};
use crate::filters::bytes::{filter_bytes_to_str, filter_str_to_bytes};
use crate::filters::case::{
    filter_camel_case, filter_kebab_case, filter_pascal_case, filter_slug, filter_snake_case,
};
use crate::filters::escape::{filter_html_escape, filter_html_unescape, filter_xml_escape};
use crate::filters::hash::{filter_md5, filter_sha1, filter_sha256};
use crate::filters::url::{filter_url_decode, filter_url_encode};
use crate::text::str_eq;
use crate::value::{Args, Value};
use vstd::prelude::*;

verus! {

/// The filters of the library, one variant each.
#[derive(Debug, Clone, Copy, PartialEq, Eq, Structural)]
pub enum FilterKind {
    Base64Encode,
    Base64Decode,
    BytesToStr,
    StrToBytes,
    Md5,
    Sha1,
    Sha256,
    UrlEncode,
    UrlDecode,
    HtmlEscape,
    HtmlUnescape,
    XmlEscape,
    SnakeCase,
    KebabCase,
    CamelCase,
    PascalCase,
    Slug,
}
impl FilterKind {
    /// The name templates call the filter by.
    pub open spec fn spec_name(self) -> Seq<char> {
        match self {
            FilterKind::Base64Encode => "base64_encode"@,
            FilterKind::Base64Decode => "base64_decode"@,
            FilterKind::BytesToStr => "bytes_to_str"@,
            FilterKind::StrToBytes => "str_to_bytes"@,
            FilterKind::Md5 => "md5"@,
            FilterKind::Sha1 => "sha1"@,
            FilterKind::Sha256 => "sha256"@,
            FilterKind::UrlEncode => "url_encode"@,
            FilterKind::UrlDecode => "url_decode"@,
            FilterKind::HtmlEscape => "html_escape"@,
            FilterKind::HtmlUnescape => "html_unescape"@,
            FilterKind::XmlEscape => "xml_escape"@,
            FilterKind::SnakeCase => "snake_case"@,
            FilterKind::KebabCase => "kebab_case"@,
            FilterKind::CamelCase => "camel_case"@,
            FilterKind::PascalCase => "pascal_case"@,
            FilterKind::Slug => "slug"@,
        }
    }

    pub fn name(&self) -> (r: &'static str)
        ensures
            r@ == self.spec_name(),
    {
        match self {
            FilterKind::Base64Encode => "base64_encode",
            FilterKind::Base64Decode => "base64_decode",
            FilterKind::BytesToStr => "bytes_to_str",
            FilterKind::StrToBytes => "str_to_bytes",
            FilterKind::Md5 => "md5",
            FilterKind::Sha1 => "sha1",
            FilterKind::Sha256 => "sha256",
            FilterKind::UrlEncode => "url_encode",
            FilterKind::UrlDecode => "url_decode",
            FilterKind::HtmlEscape => "html_escape",
            FilterKind::HtmlUnescape => "html_unescape",
            FilterKind::XmlEscape => "xml_escape",
            FilterKind::SnakeCase => "snake_case",
            FilterKind::KebabCase => "kebab_case",
            FilterKind::CamelCase => "camel_case",
            FilterKind::PascalCase => "pascal_case",
            FilterKind::Slug => "slug",
        }
    }

    /// Every filter, in the order they are registered.
    pub open spec fn spec_all() -> Seq<FilterKind> {
        seq![
            FilterKind::Base64Encode,
            FilterKind::Base64Decode,
            FilterKind::BytesToStr,
            FilterKind::StrToBytes,
            FilterKind::Md5,
            FilterKind::Sha1,
            FilterKind::Sha256,
            FilterKind::UrlEncode,
            FilterKind::UrlDecode,
            FilterKind::HtmlEscape,
            FilterKind::HtmlUnescape,
            FilterKind::XmlEscape,
            FilterKind::SnakeCase,
            FilterKind::KebabCase,
            FilterKind::CamelCase,
            FilterKind::PascalCase,
            FilterKind::Slug,
        ]
    }

    pub fn all() -> (r: Vec<FilterKind>)
        ensures
            r@ == Self::spec_all(),
    {
        let r = vec![
            FilterKind::Base64Encode,
            FilterKind::Base64Decode,
            FilterKind::BytesToStr,
            FilterKind::StrToBytes,
            FilterKind::Md5,
            FilterKind::Sha1,
            FilterKind::Sha256,
            FilterKind::UrlEncode,
            FilterKind::UrlDecode,
            FilterKind::HtmlEscape,
            FilterKind::HtmlUnescape,
            FilterKind::XmlEscape,
            FilterKind::SnakeCase,
            FilterKind::KebabCase,
            FilterKind::CamelCase,
            FilterKind::PascalCase,
            FilterKind::Slug,
        ];
        assert(r@ =~= Self::spec_all());
        r
    }

    /// Runs the filter on a value and its named arguments.
    pub fn apply(&self, value: &Value, args: &Args) -> (r: Result<Value, FilterError>)
        ensures
            *self == FilterKind::Base64Encode ==> call_ensures(filter_base64_encode, (value, args), r),
            *self == FilterKind::Base64Decode ==> call_ensures(filter_base64_decode, (value, args), r),
            *self == FilterKind::BytesToStr ==> call_ensures(filter_bytes_to_str, (value, args), r),
            *self == FilterKind::StrToBytes ==> call_ensures(filter_str_to_bytes, (value, args), r),
            *self == FilterKind::Md5 ==> call_ensures(filter_md5, (value, args), r),
            *self == FilterKind::Sha1 ==> call_ensures(filter_sha1, (value, args), r),
            *self == FilterKind::Sha256 ==> call_ensures(filter_sha256, (value, args), r),
            *self == FilterKind::UrlEncode ==> call_ensures(filter_url_encode, (value, args), r),
            *self == FilterKind::UrlDecode ==> call_ensures(filter_url_decode, (value, args), r),
            *self == FilterKind::HtmlEscape ==> call_ensures(filter_html_escape, (value, args), r),
            *self == FilterKind::HtmlUnescape ==> call_ensures(filter_html_unescape, (value, args), r),
            *self == FilterKind::XmlEscape ==> call_ensures(filter_xml_escape, (value, args), r),
            *self == FilterKind::SnakeCase ==> call_ensures(filter_snake_case, (value, args), r),
            *self == FilterKind::KebabCase ==> call_ensures(filter_kebab_case, (value, args), r),
            *self == FilterKind::CamelCase ==> call_ensures(filter_camel_case, (value, args), r),
            *self == FilterKind::PascalCase ==> call_ensures(filter_pascal_case, (value, args), r),
            *self == FilterKind::Slug ==> call_ensures(filter_slug, (value, args), r),
    {
        match self {
            FilterKind::Base64Encode => filter_base64_encode(value, args),
            FilterKind::Base64Decode => filter_base64_decode(value, args),
            FilterKind::BytesToStr => filter_bytes_to_str(value, args),
            FilterKind::StrToBytes => filter_str_to_bytes(value, args),
            FilterKind::Md5 => filter_md5(value, args),
            FilterKind::Sha1 => filter_sha1(value, args),
            FilterKind::Sha256 => filter_sha256(value, args),
            FilterKind::UrlEncode => filter_url_encode(value, args),
            FilterKind::UrlDecode => filter_url_decode(value, args),
            FilterKind::HtmlEscape => filter_html_escape(value, args),
            FilterKind::HtmlUnescape => filter_html_unescape(value, args),
            FilterKind::XmlEscape => filter_xml_escape(value, args),
            FilterKind::SnakeCase => filter_snake_case(value, args),
            FilterKind::KebabCase => filter_kebab_case(value, args),
            FilterKind::CamelCase => filter_camel_case(value, args),
            FilterKind::PascalCase => filter_pascal_case(value, args),
            FilterKind::Slug => filter_slug(value, args),
        }
    }
}

/// The place of a filter in the registration order.
pub open spec fn kind_index(k: FilterKind) -> int {
    match k {
        FilterKind::Base64Encode => 0,
        FilterKind::Base64Decode => 1,
        FilterKind::BytesToStr => 2,
        FilterKind::StrToBytes => 3,
        FilterKind::Md5 => 4,
        FilterKind::Sha1 => 5,
        FilterKind::Sha256 => 6,
        FilterKind::UrlEncode => 7,
        FilterKind::UrlDecode => 8,
        FilterKind::HtmlEscape => 9,
        FilterKind::HtmlUnescape => 10,
        FilterKind::XmlEscape => 11,
        FilterKind::SnakeCase => 12,
        FilterKind::KebabCase => 13,
        FilterKind::CamelCase => 14,
        FilterKind::PascalCase => 15,
        FilterKind::Slug => 16,
    }
}

/// The number of filters.
pub const FILTER_COUNT: usize = 17;

/// The filter at a place of the registration order.
pub fn kind_at(i: usize) -> (k: FilterKind)
    requires
        i < FILTER_COUNT,
    ensures
        kind_index(k) == i,
{
    match i {
        0 => FilterKind::Base64Encode,
        1 => FilterKind::Base64Decode,
        2 => FilterKind::BytesToStr,
        3 => FilterKind::StrToBytes,
        4 => FilterKind::Md5,
        5 => FilterKind::Sha1,
        6 => FilterKind::Sha256,
        7 => FilterKind::UrlEncode,
        8 => FilterKind::UrlDecode,
        9 => FilterKind::HtmlEscape,
        10 => FilterKind::HtmlUnescape,
        11 => FilterKind::XmlEscape,
        12 => FilterKind::SnakeCase,
        13 => FilterKind::KebabCase,
        14 => FilterKind::CamelCase,
        15 => FilterKind::PascalCase,
        _ => FilterKind::Slug,
    }
}

impl FilterKind {
    /// The filter that a name stands for, if any.
    pub fn from_name(name: &str) -> (r: Option<FilterKind>)
        ensures
            match r {
                Some(k) => k.spec_name() == name@,
                None => forall|k: FilterKind| k.spec_name() != name@,
            },
    {
        let mut i: usize = 0;
        while i < FILTER_COUNT
            invariant
                i <= FILTER_COUNT,
                forall|k: FilterKind| kind_index(k) < i ==> k.spec_name() != name@,
            decreases FILTER_COUNT - i,
        {
            let k = kind_at(i);
            if str_eq(k.name(), name) {
                return Some(k);
            }
            i = i + 1;
        }
        None
    }
}

/// Why a registration was refused.
#[derive(Debug, Clone, PartialEq)]
pub enum RegistryError {
    /// A filter is already registered under this name.
    DuplicateName(String),
}

/// Names bound to filters, each name at most once.
pub struct FilterRegistry {
    entries: Vec<(String, FilterKind)>,
}

/// Whether no name occurs twice.
pub open spec fn names_unique(entries: Seq<(Seq<char>, FilterKind)>) -> bool {
    forall|i: int, j: int| 0 <= i < j < entries.len() ==> entries[i].0 != entries[j].0
}

/// Whether a name is bound.
pub open spec fn has_name(entries: Seq<(Seq<char>, FilterKind)>, name: Seq<char>) -> bool {
    exists|i: int| 0 <= i < entries.len() && entries[i].0 == name
}

impl View for FilterRegistry {
    type V = Seq<(Seq<char>, FilterKind)>;

    closed spec fn view(&self) -> Seq<(Seq<char>, FilterKind)> {
        self.entries@.map_values(|e: (String, FilterKind)| (e.0@, e.1))
    }
}

impl FilterRegistry {
    /// A registry with no filter.
    pub fn new() -> (r: FilterRegistry)
        ensures
            r@ == Seq::<(Seq<char>, FilterKind)>::empty(),
    {
        let r = FilterRegistry { entries: Vec::new() };
        assert(r@ =~= Seq::<(Seq<char>, FilterKind)>::empty());
        r
    }

    pub fn len(&self) -> (r: usize)
        ensures
            r == self@.len(),
    {
        self.entries.len()
    }

    /// The name and filter at a place of the registration order.
    pub fn entry(&self, i: usize) -> (r: (&str, FilterKind))
        requires
            i < self@.len(),
        ensures
            r.0@ == self@[i as int].0,
            r.1 == self@[i as int].1,
    {
        let e = &self.entries[i];
        (e.0.as_str(), e.1)
    }

    /// The filter bound to a name, if any.
    pub fn lookup(&self, name: &str) -> (r: Option<FilterKind>)
        ensures
            match r {
                Some(k) => self@.contains((name@, k)),
                None => !has_name(self@, name@),
            },
    {
        let mut i: usize = 0;
        while i < self.entries.len()
            invariant
                i <= self@.len(),
                self@.len() == self.entries@.len(),
                forall|j: int| 0 <= j < i ==> self@[j].0 != name@,
            decreases self@.len() - i,
        {
            let e = &self.entries[i];
            assert(self@[i as int] == (e.0@, e.1));
            if str_eq(e.0.as_str(), name) {
                assert(self@[i as int] == (name@, e.1));
                return Some(e.1);
            }
            i = i + 1;
        }
        None
    }

    /// Binds a name to a filter; a name that is already bound is refused and
    /// the registry is left as it was.
    pub fn register(&mut self, name: &str, kind: FilterKind) -> (r: Result<(), RegistryError>)
        requires
            names_unique(old(self)@),
        ensures
            names_unique(final(self)@),
            if has_name(old(self)@, name@) {
                r is Err && final(self)@ == old(self)@
            } else {
                r is Ok && final(self)@ == old(self)@.push((name@, kind))
            },
    {
        match self.lookup(name) {
            Some(_) => Err(RegistryError::DuplicateName(name.to_string())),
            None => {
                let ghost before = self@;
                self.entries.push((name.to_string(), kind));
                assert(self@ =~= before.push((name@, kind)));
                Ok(())
            },
        }
    }

    /// The registry of every filter of the library under its name.
    pub fn standard() -> (r: FilterRegistry)
        ensures
            names_unique(r@),
            r@.len() == FILTER_COUNT,
            forall|k: FilterKind| r@.contains((k.spec_name(), k)),
    {
        let mut r = FilterRegistry::new();
        let mut i: usize = 0;
        while i < FILTER_COUNT
            invariant
                i <= FILTER_COUNT,
                names_unique(r@),
                r@.len() == i,
                forall|j: int| 0 <= j < i ==> kind_index(#[trigger] r@[j].1) == j && r@[j].0
                    == r@[j].1.spec_name(),
            decreases FILTER_COUNT - i,
        {
            let k = kind_at(i);
            proof {
                assert forall|j: int| 0 <= j < r@.len() implies r@[j].0 != k.spec_name() by {
                    lemma_names_distinct(r@[j].1, k);
                }
            }
            let registered = r.register(k.name(), k);
            assert(registered is Ok);
            i = i + 1;
        }
        proof {
            assert forall|k: FilterKind| r@.contains((k.spec_name(), k)) by {
                let j = kind_index(k);
                assert(kind_index(r@[j].1) == j);
                assert(r@[j] == (k.spec_name(), k));
            }
        }
        r
    }
}

/// A few characters of a name, enough to tell the filters' names apart.
spec fn name_key(n: Seq<char>) -> (int, char, char, char, char) {
    let at = |i: int| if i < n.len() { n[i] } else { ' ' };
    (n.len() as int, at(0), at(1), at(4), at(7))
}

spec fn kind_key(k: FilterKind) -> (int, char, char, char, char) {
    match k {
        FilterKind::Base64Encode => (13, 'b', 'a', '6', 'e'),
        FilterKind::Base64Decode => (13, 'b', 'a', '6', 'd'),
        FilterKind::BytesToStr => (12, 'b', 'y', 's', 'o'),
        FilterKind::StrToBytes => (12, 's', 't', 't', 'b'),
        FilterKind::Md5 => (3, 'm', 'd', ' ', ' '),
        FilterKind::Sha1 => (4, 's', 'h', ' ', ' '),
        FilterKind::Sha256 => (6, 's', 'h', '5', ' '),
        FilterKind::UrlEncode => (10, 'u', 'r', 'e', 'o'),
        FilterKind::UrlDecode => (10, 'u', 'r', 'd', 'o'),
        FilterKind::HtmlEscape => (11, 'h', 't', '_', 'c'),
        FilterKind::HtmlUnescape => (13, 'h', 't', '_', 'e'),
        FilterKind::XmlEscape => (10, 'x', 'm', 'e', 'a'),
        FilterKind::SnakeCase => (10, 's', 'n', 'e', 'a'),
        FilterKind::KebabCase => (10, 'k', 'e', 'b', 'a'),
        FilterKind::CamelCase => (10, 'c', 'a', 'l', 'a'),
        FilterKind::PascalCase => (11, 'p', 'a', 'a', 'c'),
        FilterKind::Slug => (4, 's', 'l', ' ', ' '),
    }
}

proof fn lemma_name_key(k: FilterKind)
    ensures
        name_key(k.spec_name()) == kind_key(k),
{
    reveal_strlit("base64_encode");
    reveal_strlit("base64_decode");
    reveal_strlit("bytes_to_str");
    reveal_strlit("str_to_bytes");
    reveal_strlit("md5");
    reveal_strlit("sha1");
    reveal_strlit("sha256");
    reveal_strlit("url_encode");
    reveal_strlit("url_decode");
    reveal_strlit("html_escape");
    reveal_strlit("html_unescape");
    reveal_strlit("xml_escape");
    reveal_strlit("snake_case");
    reveal_strlit("kebab_case");
    reveal_strlit("camel_case");
    reveal_strlit("pascal_case");
    reveal_strlit("slug");
}

/// Different filters have different names.
pub proof fn lemma_names_distinct(a: FilterKind, b: FilterKind)
    ensures
        a != b ==> a.spec_name() != b.spec_name(),
{
    lemma_name_key(a);
    lemma_name_key(b);
}

} // verus!
