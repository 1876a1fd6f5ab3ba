//! Filter library for a template renderer: byte and text codecs, digests,
//! case conversion, and a registry that binds each filter to its name.
pub mod error;
pub mod filters;
pub mod registry;
pub mod source;
pub mod text;
pub mod utils;
pub mod value;

pub use error::{ErrorKind, FilterError, TeraclioError};
pub use filters::base64::{filter_base64_decode, filter_base64_encode};
pub use filters::bytes::{filter_bytes_to_str, filter_str_to_bytes};
pub use filters::case::{
    filter_camel_case, filter_kebab_case, filter_pascal_case, filter_slug, filter_snake_case,
    CaseStyle,
};
pub use filters::escape::{filter_html_escape, filter_html_unescape, filter_xml_escape};
pub use filters::hash::{filter_md5, filter_sha1, filter_sha256, to_hex};
pub use filters::url::{filter_url_decode, filter_url_encode};
pub use registry::{FilterKind, FilterRegistry, RegistryError};
pub use source::{parse_data_source, resolve_format};
pub use utils::InputFormat;
pub use value::{Args, Number, Value};
