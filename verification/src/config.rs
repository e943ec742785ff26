//! Building the request description from the JSON configuration document:
//! the plain-value form of the document, the fully specified validation and
//! defaulting rules, and the thin trusted layer over `serde_json` that
//! extracts that plain form from the parsed text.

use vstd::prelude::*;

verus! {

use crate::assoc::{
    assoc_map, has_key, lemma_assoc_map_push, lemma_assoc_map_update, unique_keys,
};
use crate::text::{
    header_value_ok, is_valid_header_name, is_valid_header_value, is_valid_source_header_name,
    lower_of, normalize_header_name,
};
use crate::types::{method_of_ci, ConfigError, HttpMethods, RequestData};
use vstd::pervasive::VecAdditionalExecFns;

/// A string-typed field of the configuration document: missing, present but
/// not a string, or present as a string.
#[derive(Debug, Clone)]
pub enum TextField {
    Absent,
    NotText,
    Text(String),
}

/// The `headers` field of the configuration document: missing, present but
/// not an object, or the object's entries in document order — each value
/// kept only when it is a string.
#[derive(Debug, Clone)]
pub enum HeadersField {
    Absent,
    NotObject,
    Entries(Vec<(String, Option<String>)>),
}

/// The configuration document reduced to plain values: everything the
/// validation rules read.
#[derive(Debug, Clone)]
pub struct ConfigDoc {
    /// The `payload` field as serialized text, when present.
    pub payload: Option<String>,
    /// The `headers` field.
    pub headers: HeadersField,
    /// The `method` field.
    pub method: TextField,
    /// The `url` field.
    pub url: TextField,
    /// The `ssl_cert` field.
    pub ssl_cert: TextField,
}

/// The view of raw header entries: names and optional values as character
/// sequences.
pub open spec fn entries_view(es: Seq<(String, Option<String>)>) -> Seq<
    (Seq<char>, Option<Seq<char>>),
> {
    Seq::new(
        es.len(),
        |i: int|
            (
                es[i].0@,
                match es[i].1 {
                    Some(v) => Some(v@),
                    None => None,
                },
            ),
    )
}

/// The raw header entries of a document; empty when the field is absent.
pub open spec fn doc_entries(doc: ConfigDoc) -> Seq<(Seq<char>, Option<Seq<char>>)> {
    match doc.headers {
        HeadersField::Entries(es) => entries_view(es@),
        _ => Seq::empty(),
    }
}

/// The entries after validation: names lowercased, values unwrapped.
pub open spec fn cleaned_entries(es: Seq<(Seq<char>, Option<Seq<char>>)>) -> Seq<
    (Seq<char>, Seq<char>),
> {
    Seq::new(
        es.len(),
        |i: int|
            (
                lower_of(es[i].0),
                match es[i].1 {
                    Some(v) => v,
                    None => Seq::empty(),
                },
            ),
    )
}

/// The first error among the header entries from position `i` on, checking
/// each entry's name, then that its value is a string, then the value's
/// characters.
pub open spec fn header_error_from(
    es: Seq<(Seq<char>, Option<Seq<char>>)>,
    i: int,
) -> Option<ConfigError>
    decreases es.len() - i,
{
    if i < 0 || i >= es.len() {
        None
    } else if !is_valid_source_header_name(es[i].0) {
        Some(ConfigError::InvalidHeaderName)
    } else if es[i].1 is None {
        Some(ConfigError::HeaderValueNotString)
    } else if !is_valid_header_value(es[i].1.unwrap()) {
        Some(ConfigError::InvalidHeaderValue)
    } else {
        header_error_from(es, i + 1)
    }
}

/// The first error among the header entries.
pub open spec fn header_error(es: Seq<(Seq<char>, Option<Seq<char>>)>) -> Option<ConfigError> {
    header_error_from(es, 0)
}

/// The error a configuration document is rejected with, if any: the headers
/// are checked first, then the method, then the URL, exactly as the fields
/// are applied.
pub open spec fn config_error_of(doc: ConfigDoc) -> Option<ConfigError> {
    if doc.headers is NotObject {
        Some(ConfigError::HeadersNotObject)
    } else if header_error(doc_entries(doc)) is Some {
        header_error(doc_entries(doc))
    } else {
        match doc.method {
            TextField::Absent => Some(ConfigError::MissingMethod),
            TextField::NotText => Some(ConfigError::MethodNotString),
            TextField::Text(m) => {
                if method_of_ci(m@) is None {
                    Some(ConfigError::InvalidMethod)
                } else {
                    match doc.url {
                        TextField::Absent => Some(ConfigError::MissingUrl),
                        TextField::NotText => Some(ConfigError::UrlNotString),
                        TextField::Text(u) => {
                            if u@.len() == 0 {
                                Some(ConfigError::EmptyUrl)
                            } else {
                                None
                            }
                        },
                    }
                }
            },
        }
    }
}

/// The payload text a document yields: the serialized `payload` field, or
/// the empty JSON object.
pub open spec fn payload_text_of(doc: ConfigDoc) -> Seq<char> {
    match doc.payload {
        Some(p) => p@,
        None => "{}"@,
    }
}

/// The certificate path a document yields: the `ssl_cert` field when it is
/// a string, else the empty path, meaning the default trust store.
pub open spec fn cert_path_of(doc: ConfigDoc) -> Seq<char> {
    match doc.ssl_cert {
        TextField::Text(s) => s@,
        _ => Seq::empty(),
    }
}

/// The view of a built header list.
pub open spec fn header_pairs_view(hs: Seq<(String, String)>) -> Seq<(Seq<char>, Seq<char>)> {
    Seq::new(hs.len(), |i: int| (hs[i].0@, hs[i].1@))
}

/// Inserts a header, overwriting the value of an existing name: last write
/// wins, names stay unique and well-formed.
fn upsert_header(hs: &mut Vec<(String, String)>, name: String, value: String)
    requires
        unique_keys(header_pairs_view(old(hs)@)),
        forall|i: int|
            0 <= i < old(hs)@.len() ==> is_valid_header_name(
                (#[trigger] header_pairs_view(old(hs)@)[i]).0,
            ) && is_valid_header_value(header_pairs_view(old(hs)@)[i].1),
        is_valid_header_name(name@),
        is_valid_header_value(value@),
    ensures
        unique_keys(header_pairs_view(final(hs)@)),
        forall|i: int|
            0 <= i < final(hs)@.len() ==> is_valid_header_name(
                (#[trigger] header_pairs_view(final(hs)@)[i]).0,
            ) && is_valid_header_value(header_pairs_view(final(hs)@)[i].1),
        assoc_map(header_pairs_view(final(hs)@)) == assoc_map(header_pairs_view(old(hs)@)).insert(
            name@,
            value@,
        ),
{
    let n = hs.len();
    let mut i: usize = 0;
    while i < n
        invariant
            *hs == *old(hs),
            n == hs@.len(),
            i <= n,
            unique_keys(header_pairs_view(hs@)),
            forall|j: int|
                0 <= j < hs@.len() ==> is_valid_header_name(
                    (#[trigger] header_pairs_view(hs@)[j]).0,
                ) && is_valid_header_value(header_pairs_view(hs@)[j].1),
            is_valid_header_name(name@),
            is_valid_header_value(value@),
            forall|j: int| 0 <= j < i ==> (#[trigger] header_pairs_view(hs@)[j]).0 != name@,
        decreases n - i,
    {
        if str_eq_pair(&hs[i].0, &name) {
            let ghost before = hs@;
            proof {
                assert(header_pairs_view(hs@)[i as int].0 == name@);
                lemma_assoc_map_update(header_pairs_view(hs@), i as int, name@, value@);
            }
            hs.set(i, (name, value));
            proof {
                assert(header_pairs_view(hs@) =~= header_pairs_view(before).update(
                    i as int,
                    (name@, value@),
                ));
                assert(forall|j: int|
                    0 <= j < hs@.len() ==> is_valid_header_name(
                        (#[trigger] header_pairs_view(hs@)[j]).0,
                    ) && is_valid_header_value(header_pairs_view(hs@)[j].1)) by {
                    assert(forall|j: int|
                        0 <= j < hs@.len() && j != i ==> #[trigger] header_pairs_view(hs@)[j]
                            == header_pairs_view(before)[j]);
                    assert(header_pairs_view(hs@)[i as int] == (name@, value@));
                }
            }
            return ;
        }
        i = i + 1;
    }
    proof {
        assert(!has_key(header_pairs_view(hs@), name@)) by {
            if has_key(header_pairs_view(hs@), name@) {
                let j = choose|j: int|
                    0 <= j < header_pairs_view(hs@).len() && (#[trigger] header_pairs_view(
                        hs@,
                    )[j]).0 == name@;
            }
        }
        lemma_assoc_map_push(header_pairs_view(hs@), name@, value@);
    }
    let ghost before = hs@;
    hs.push((name, value));
    proof {
        assert(header_pairs_view(hs@) =~= header_pairs_view(before).push((name@, value@)));
        assert(forall|j: int|
            0 <= j < hs@.len() ==> is_valid_header_name(
                (#[trigger] header_pairs_view(hs@)[j]).0,
            ) && is_valid_header_value(header_pairs_view(hs@)[j].1)) by {
            assert(forall|j: int|
                0 <= j < before.len() ==> #[trigger] header_pairs_view(hs@)[j]
                    == header_pairs_view(before)[j]);
            assert(header_pairs_view(hs@)[hs@.len() - 1] == (name@, value@));
        }
    }
}

/// String equality between two owned strings.
fn str_eq_pair(a: &String, b: &String) -> (r: bool)
    ensures
        r <==> a@ == b@,
{
    a.eq(b)
}

/// Validates and lowercases the raw header entries in order: yields the
/// header list with the first error in checking order, or the finished
/// list, whose names are valid, lowercased and unique, whose values are
/// valid, and which denotes the last-write-wins map of the entries.
pub fn build_headers(es: &Vec<(String, Option<String>)>) -> (r: Result<
    Vec<(String, String)>,
    ConfigError,
>)
    ensures
        match r {
            Err(e) => header_error(entries_view(es@)) == Some(e),
            Ok(hs) => {
                &&& header_error(entries_view(es@)) is None
                &&& unique_keys(header_pairs_view(hs@))
                &&& forall|i: int|
                    0 <= i < hs@.len() ==> is_valid_header_name(
                        (#[trigger] header_pairs_view(hs@)[i]).0,
                    ) && is_valid_header_value(header_pairs_view(hs@)[i].1)
                &&& assoc_map(header_pairs_view(hs@)) == assoc_map(
                    cleaned_entries(entries_view(es@)),
                )
            },
        },
{
    let ghost esv = entries_view(es@);
    let mut headers: Vec<(String, String)> = Vec::new();
    let n = es.len();
    let mut i: usize = 0;
    proof {
        assert(cleaned_entries(esv.take(0)) =~= Seq::<(Seq<char>, Seq<char>)>::empty());
    }
    while i < n
        invariant
            n == es@.len(),
            esv == entries_view(es@),
            i <= n,
            header_error(esv) == header_error_from(esv, i as int),
            unique_keys(header_pairs_view(headers@)),
            forall|j: int|
                0 <= j < headers@.len() ==> is_valid_header_name(
                    (#[trigger] header_pairs_view(headers@)[j]).0,
                ) && is_valid_header_value(header_pairs_view(headers@)[j].1),
            assoc_map(header_pairs_view(headers@)) == assoc_map(
                cleaned_entries(esv.take(i as int)),
            ),
        decreases n - i,
    {
        proof {
            assert(esv[i as int] == (
                es@[i as int].0@,
                match es@[i as int].1 {
                    Some(v) => Some(v@),
                    None => None::<Seq<char>>,
                },
            ));
        }
        let pair = &es[i];
        match normalize_header_name(pair.0.as_str()) {
            None => {
                return Err(ConfigError::InvalidHeaderName);
            },
            Some(lowered) => {
                match &pair.1 {
                    None => {
                        return Err(ConfigError::HeaderValueNotString);
                    },
                    Some(val) => {
                        if !header_value_ok(val.as_str()) {
                            return Err(ConfigError::InvalidHeaderValue);
                        }
                        upsert_header(&mut headers, lowered, val.clone());
                        proof {
                            let prev = cleaned_entries(esv.take(i as int));
                            let cur = cleaned_entries(esv.take(i + 1));
                            assert(cur.drop_last() =~= prev);
                            assert(cur.last() == (
                                lower_of(esv[i as int].0),
                                esv[i as int].1.unwrap(),
                            ));
                        }
                    },
                }
            },
        }
        i = i + 1;
    }
    proof {
        assert(esv.take(n as int) =~= esv);
    }
    Ok(headers)
}

/// What building a request description from a document must yield: the
/// first error in checking order, or a well-formed description pinned
/// field by field — the payload text with its default, the method the
/// `method` field names, the non-empty URL, the certificate path with its
/// default, and the last-write-wins map of the validated, lowercased
/// headers.
pub open spec fn request_data_outcome(doc: ConfigDoc, r: Result<RequestData, ConfigError>) -> bool {
    match config_error_of(doc) {
        Some(e) => r == Err::<RequestData, ConfigError>(e),
        None => match r {
            Ok(rd) => {
                &&& rd.wf()
                &&& rd.payload@ == payload_text_of(doc)
                &&& Some(rd.method) == method_of_ci(doc.method->Text_0@)
                &&& rd.url@ == doc.url->Text_0@
                &&& rd.url@.len() > 0
                &&& rd.cert_path@ == cert_path_of(doc)
                &&& assoc_map(rd.headers_view()) == assoc_map(cleaned_entries(doc_entries(doc)))
            },
            Err(_) => false,
        },
    }
}

/// Builds the request description from the plain form of the configuration
/// document: applies the defaulting and validation rules exactly, returning
/// the first error in checking order, or a well-formed description.
pub fn build_request_data(doc: &ConfigDoc) -> (r: Result<RequestData, ConfigError>)
    ensures
        request_data_outcome(*doc, r),
{
    let mut rd = RequestData::default();
    match &doc.payload {
        Some(p) => {
            rd.payload = p.clone();
        },
        None => {},
    }
    match &doc.headers {
        HeadersField::NotObject => {
            return Err(ConfigError::HeadersNotObject);
        },
        HeadersField::Absent => {
            proof {
                assert(cleaned_entries(doc_entries(*doc)) =~= Seq::<
                    (Seq<char>, Seq<char>),
                >::empty());
            }
        },
        HeadersField::Entries(es) => {
            match build_headers(es) {
                Err(e) => {
                    return Err(e);
                },
                Ok(hs) => {
                    rd.headers = hs;
                },
            }
        },
    }
    let method = match &doc.method {
        TextField::Absent => {
            return Err(ConfigError::MissingMethod);
        },
        TextField::NotText => {
            return Err(ConfigError::MethodNotString);
        },
        TextField::Text(m) => {
            match HttpMethods::fromstr(m.as_str()) {
                None => {
                    return Err(ConfigError::InvalidMethod);
                },
                Some(meth) => meth,
            }
        },
    };
    rd.method = method;
    match &doc.url {
        TextField::Absent => {
            return Err(ConfigError::MissingUrl);
        },
        TextField::NotText => {
            return Err(ConfigError::UrlNotString);
        },
        TextField::Text(u) => {
            if u.as_str().is_empty() {
                return Err(ConfigError::EmptyUrl);
            }
            rd.url = u.clone();
        },
    }
    match &doc.ssl_cert {
        TextField::Text(s) => {
            rd.cert_path = s.clone();
        },
        _ => {},
    }
    proof {
        assert(rd.headers_view() =~= header_pairs_view(rd.headers@));
    }
    Ok(rd)
}


/// The plain form that the configuration text reduces to: `None` exactly
/// when the text is not valid JSON, else the document's five fields. The
/// parse and the field extraction depend on the text alone, so the result
/// carries this name; what is then accepted or rejected is stated exactly
/// over the document by [`config_error_of`] and [`request_data_outcome`].
pub uninterp spec fn config_doc_of(text: Seq<char>) -> Option<ConfigDoc>;

/// The declared shape of `serde_json`'s JSON value type; values of it are
/// carried through the extraction helpers opaquely.
#[verifier::external_type_specification]
#[verifier::external_body]
pub struct ExValue(serde_json::Value);

/// Relies on serde_json::Value::get and Value::as_str: one string-typed
/// field of the parsed document — absent, present but not a string, or its
/// string content.
#[verifier::external_body]
fn extract_field(v: &serde_json::Value, k: &str) -> (r: TextField) {
    match v.get(k).map(|f| f.as_str()) {
        None => TextField::Absent,
        Some(None) => TextField::NotText,
        Some(Some(s)) => TextField::Text(s.to_owned()),
    }
}

/// Relies on serde_json::Value::get, Value::as_object and serde_json::Map
/// iteration: the `headers` field — absent, present but not an object, or
/// its entries in the map's (sorted) order, each value kept where it is a
/// string.
#[verifier::external_body]
fn extract_headers(v: &serde_json::Value) -> (r: HeadersField) {
    match v.get("headers").map(|h| h.as_object()) {
        None => HeadersField::Absent,
        Some(None) => HeadersField::NotObject,
        Some(Some(m)) => HeadersField::Entries(
            m.iter().map(|(k, x)| (k.clone(), x.as_str().map(|s| s.to_owned()))).collect(),
        ),
    }
}

/// Relies on serde_json::from_str, Value::get and serde_json::to_string,
/// together with the two extraction helpers above: parses the text and
/// reduces the document to its plain form, the `payload` field as its
/// compact serialization. The parse and every extraction depend on the
/// text alone, so the result carries the name; none of the calls can
/// panic.
#[verifier::external_body]
fn extract_config_doc(text: &str) -> (r: Option<ConfigDoc>)
    ensures
        r == config_doc_of(text@),
{
    let v: serde_json::Value = serde_json::from_str(text).ok()?;
    Some(ConfigDoc {
        payload: v.get("payload").map(|p| serde_json::to_string(p).unwrap_or_default()),
        headers: extract_headers(&v),
        method: extract_field(&v, "method"),
        url: extract_field(&v, "url"),
        ssl_cert: extract_field(&v, "ssl_cert"),
    })
}

/// Parses the configuration text and builds the request description from
/// it: text that is not valid JSON is rejected, and otherwise the document
/// it reduces to decides the outcome exactly, by the validation and
/// defaulting rules of [`build_request_data`].
pub fn parse_request_config(text: &str) -> (r: Result<RequestData, ConfigError>)
    ensures
        match config_doc_of(text@) {
            None => r == Err::<RequestData, ConfigError>(ConfigError::InvalidJson),
            Some(doc) => request_data_outcome(doc, r),
        },
{
    match extract_config_doc(text) {
        None => Err(ConfigError::InvalidJson),
        Some(doc) => build_request_data(&doc),
    }
}

} // verus!
