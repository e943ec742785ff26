//! The core data model: commands on the aggregation channel, HTTP methods,
//! output formats, configuration errors, and the immutable request
//! description shared by every sender.

use vstd::prelude::*;

verus! {

use crate::text::{
    eq_ignore_ascii_case, eq_ignore_case, is_valid_header_name, is_valid_header_value,
};

/// A command sent to the counting aggregator: one outcome to record, or the
/// shutdown sentinel.
#[derive(Debug, Clone, Copy, PartialEq, Eq, Structural)]
pub enum Command {
    Increment(u16),
    Exit,
}

/// The HTTP methods a request description may use.
#[derive(Debug, Clone, Copy, PartialEq, Eq, Structural)]
pub enum HttpMethods {
    Get,
    Post,
    Put,
    Delete,
    Patch,
}

/// The method named by a method string, compared without regard to ASCII
/// case, as the configuration format allows it to be spelled.
pub open spec fn method_of_ci(s: Seq<char>) -> Option<HttpMethods> {
    if eq_ignore_ascii_case(s, "get"@) {
        Some(HttpMethods::Get)
    } else if eq_ignore_ascii_case(s, "post"@) {
        Some(HttpMethods::Post)
    } else if eq_ignore_ascii_case(s, "put"@) {
        Some(HttpMethods::Put)
    } else if eq_ignore_ascii_case(s, "delete"@) {
        Some(HttpMethods::Delete)
    } else if eq_ignore_ascii_case(s, "patch"@) {
        Some(HttpMethods::Patch)
    } else {
        None
    }
}

impl HttpMethods {
    /// Parses a method name, in any ASCII case.
    pub fn fromstr(method: &str) -> (r: Option<HttpMethods>)
        ensures
            r == method_of_ci(method@),
    {
        proof {
            reveal_strlit("get");
            reveal_strlit("post");
            reveal_strlit("put");
            reveal_strlit("delete");
            reveal_strlit("patch");
        }
        if eq_ignore_case(method, "get") {
            Some(HttpMethods::Get)
        } else if eq_ignore_case(method, "post") {
            Some(HttpMethods::Post)
        } else if eq_ignore_case(method, "put") {
            Some(HttpMethods::Put)
        } else if eq_ignore_case(method, "delete") {
            Some(HttpMethods::Delete)
        } else if eq_ignore_case(method, "patch") {
            Some(HttpMethods::Patch)
        } else {
            None
        }
    }
}

/// The output format selected by configuration.
#[derive(Debug, Clone, Copy, PartialEq, Eq, Structural)]
pub enum OutputFormat {
    Json,
    Table,
}

/// The format named by a format string: `json` in any ASCII case selects the
/// JSON renderer, anything else the table renderer.
pub open spec fn format_of(s: Seq<char>) -> OutputFormat {
    if eq_ignore_ascii_case(s, "json"@) {
        OutputFormat::Json
    } else {
        OutputFormat::Table
    }
}

impl OutputFormat {
    /// Parses a format name.
    pub fn from_name(format: &str) -> (r: OutputFormat)
        ensures
            r == format_of(format@),
    {
        proof {
            reveal_strlit("json");
        }
        if eq_ignore_case(format, "json") {
            OutputFormat::Json
        } else {
            OutputFormat::Table
        }
    }
}

impl From<String> for OutputFormat {
    fn from(output_format: String) -> (r: OutputFormat) {
        OutputFormat::from_name(output_format.as_str())
    }
}

impl vstd::std_specs::convert::FromSpecImpl<String> for OutputFormat {
    open spec fn obeys_from_spec() -> bool {
        true
    }

    open spec fn from_spec(output_format: String) -> OutputFormat {
        format_of(output_format@)
    }
}

impl<'a> From<&'a str> for OutputFormat {
    fn from(output_format: &'a str) -> (r: OutputFormat) {
        OutputFormat::from_name(output_format)
    }
}

impl<'a> vstd::std_specs::convert::FromSpecImpl<&'a str> for OutputFormat {
    open spec fn obeys_from_spec() -> bool {
        true
    }

    open spec fn from_spec(output_format: &'a str) -> OutputFormat {
        format_of(output_format@)
    }
}

/// A fatal configuration error: the reason a request description cannot be
/// built from the configuration document.
#[derive(Debug, Clone, Copy, PartialEq, Eq, Structural)]
pub enum ConfigError {
    /// The configuration text is not well-formed JSON.
    InvalidJson,
    /// The `headers` field is present but not an object.
    HeadersNotObject,
    /// A header value is not a string.
    HeaderValueNotString,
    /// A header name is not acceptable to the transport.
    InvalidHeaderName,
    /// A header value holds a character the transport refuses.
    InvalidHeaderValue,
    /// The required `method` field is missing.
    MissingMethod,
    /// The `method` field is not a string.
    MethodNotString,
    /// The `method` field names no supported HTTP method.
    InvalidMethod,
    /// The required `url` field is missing.
    MissingUrl,
    /// The `url` field is not a string.
    UrlNotString,
    /// The `url` field is an empty string.
    EmptyUrl,
}

impl ConfigError {
    /// A human-readable diagnostic for the error.
    pub fn message(&self) -> (r: String)
        ensures
            r@ == match *self {
                ConfigError::InvalidJson => "invalid JSON in configuration file"@,
                ConfigError::HeadersNotObject => "headers must be a JSON object"@,
                ConfigError::HeaderValueNotString => "header values must be strings"@,
                ConfigError::InvalidHeaderName => "invalid HTTP header name"@,
                ConfigError::InvalidHeaderValue => "invalid HTTP header value"@,
                ConfigError::MissingMethod => "please specify method in payload file"@,
                ConfigError::MethodNotString => "method must be a string"@,
                ConfigError::InvalidMethod => "invalid HTTP method"@,
                ConfigError::MissingUrl => "please specify URL in payload file"@,
                ConfigError::UrlNotString => "url must be a string"@,
                ConfigError::EmptyUrl => "url must not be empty"@,
            },
    {
        let text: &str = match *self {
            ConfigError::InvalidJson => "invalid JSON in configuration file",
            ConfigError::HeadersNotObject => "headers must be a JSON object",
            ConfigError::HeaderValueNotString => "header values must be strings",
            ConfigError::InvalidHeaderName => "invalid HTTP header name",
            ConfigError::InvalidHeaderValue => "invalid HTTP header value",
            ConfigError::MissingMethod => "please specify method in payload file",
            ConfigError::MethodNotString => "method must be a string",
            ConfigError::InvalidMethod => "invalid HTTP method",
            ConfigError::MissingUrl => "please specify URL in payload file",
            ConfigError::UrlNotString => "url must be a string",
            ConfigError::EmptyUrl => "url must not be empty",
        };
        text.to_owned()
    }
}

/// The immutable description of one request, built once from validated
/// configuration and shared read-only by every sender.
#[derive(Debug, Clone)]
pub struct RequestData {
    /// The JSON payload attached as the request body, as serialized text.
    pub payload: String,
    /// The request headers: lowercased names mapped to values, names unique.
    pub headers: Vec<(String, String)>,
    /// The HTTP method to use.
    pub method: HttpMethods,
    /// The target URL.
    pub url: String,
    /// Path to a PEM root certificate; empty means the default trust store.
    pub cert_path: String,
}

impl RequestData {
    /// The headers as a sequence of (name, value) character sequences.
    pub open spec fn headers_view(self) -> Seq<(Seq<char>, Seq<char>)> {
        Seq::new(self.headers@.len(), |i: int| (self.headers@[i].0@, self.headers@[i].1@))
    }

    /// Well-formedness: the URL is non-empty, header names are valid, unique
    /// and lowercased, and header values are valid.
    pub open spec fn wf(self) -> bool {
        &&& self.url@.len() > 0
        &&& forall|i: int|
            0 <= i < self.headers_view().len() ==> is_valid_header_name(
                #[trigger] self.headers_view()[i].0,
            )
        &&& forall|i: int|
            0 <= i < self.headers_view().len() ==> is_valid_header_value(
                #[trigger] self.headers_view()[i].1,
            )
        &&& forall|i: int, j: int|
            0 <= i < j < self.headers_view().len() ==> self.headers_view()[i].0
                != self.headers_view()[j].0
    }

    /// Whether a sender must trust a custom root certificate.
    pub fn uses_custom_cert(&self) -> (r: bool)
        ensures
            r <==> self.cert_path@.len() != 0,
    {
        !self.cert_path.as_str().is_empty()
    }
}

impl Default for RequestData {
    /// The request description before any configuration field is applied:
    /// an empty JSON object payload, no headers, a GET to an empty URL, and
    /// the default trust store.
    fn default() -> (r: RequestData)
        ensures
            r.payload@ == "{}"@,
            r.headers@.len() == 0,
            r.method == HttpMethods::Get,
            r.url@ == Seq::<char>::empty(),
            r.cert_path@ == Seq::<char>::empty(),
    {
        RequestData {
            payload: "{}".to_owned(),
            headers: Vec::new(),
            method: HttpMethods::Get,
            url: String::new(),
            cert_path: String::new(),
        }
    }
}

} // verus!
