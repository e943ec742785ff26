//! Character-level helpers: string equality, ASCII lowercasing, header-field
//! validity rules, and decimal rendering of counters.

use vstd::prelude::*;

verus! {

use vstd::string::StringSliceAdditionalSpecFns;

broadcast use vstd::utf8::char_is_scalar, vstd::utf8::char_u32_cast;

/// String equality on views, built from `String`'s specified `eq`.
pub fn str_eq(a: &str, b: &str) -> (r: bool)
    ensures
        r <==> a@ == b@,
{
    let a_owned: String = a.to_owned();
    let b_owned: String = b.to_owned();
    a_owned.eq(&b_owned)
}

/// ASCII lowercasing of a single character; anything outside `A`..`Z` is kept.
pub open spec fn lower_char(c: char) -> char {
    if 65 <= c as u32 && c as u32 <= 90 {
        ((c as u32 + 32) as u8) as char
    } else {
        c
    }
}

/// ASCII lowercasing of a whole character sequence.
pub open spec fn lower_of(s: Seq<char>) -> Seq<char> {
    s.map_values(|c: char| lower_char(c))
}

/// Relies on String::from_utf8: bytes below 128 decode one to one into the
/// characters with the same code points.
#[verifier::external_body]
pub(crate) fn ascii_bytes_to_string(bytes: Vec<u8>) -> (r: String)
    requires
        forall|i: int| 0 <= i < bytes@.len() ==> bytes@[i] < 128,
    ensures
        r@ == bytes@.map_values(|b: u8| b as char),
{
    match String::from_utf8(bytes) {
        Ok(s) => s,
        Err(_) => String::new(),
    }
}

/// ASCII lowercase of an ASCII string.
pub fn ascii_lowercase(s: &str) -> (r: String)
    requires
        s.is_ascii(),
    ensures
        r@ == lower_of(s@),
        r.is_ascii(),
{
    proof {
        vstd::string::is_ascii_spec_bytes(s);
    }
    let len: usize = s.unicode_len();
    let mut bytes: Vec<u8> = Vec::new();
    let mut i: usize = 0;
    while i < len
        invariant
            s.is_ascii(),
            len == s@.len(),
            s.spec_bytes() =~= Seq::new(s@.len(), |j: int| s@.index(j) as u8),
            i <= len,
            bytes@.len() == i,
            forall|j: int| 0 <= j < i ==> bytes@[j] == lower_char(s@[j]) as u8,
            forall|j: int| 0 <= j < i ==> bytes@[j] < 128,
        decreases len - i,
    {
        let b: u8 = s.get_ascii(i);
        assert(b == s@[i as int] as u8);
        assert((s@[i as int] as u32) < 128) by {
            assert(vstd::utf8::is_ascii_chars(s@));
            assert('\0' <= s@[i as int] <= '\u{7f}');
        }
        let lowered: u8 = if 65 <= b && b <= 90 {
            b + 32
        } else {
            b
        };
        assert(lowered == lower_char(s@[i as int]) as u8);
        bytes.push(lowered);
        i = i + 1;
    }
    let r = ascii_bytes_to_string(bytes);
    assert(r@ =~= lower_of(s@)) by {
        assert(forall|j: int|
            0 <= j < s@.len() ==> r@[j] == #[trigger] lower_of(s@)[j]);
    }
    r
}

/// An ASCII uppercase letter.
pub open spec fn is_upper_char(c: char) -> bool {
    'A' <= c && c <= 'Z'
}

/// The ASCII uppercase counterpart of a lowercase letter; anything else is
/// kept.
pub open spec fn upper_char(c: char) -> char {
    if 97 <= c as u32 && c as u32 <= 122 {
        ((c as u32 - 32) as u8) as char
    } else {
        c
    }
}

/// Case-insensitive (ASCII) match of a sequence against an all-lowercase
/// ASCII sequence `t`: each character equals the one in `t` or its uppercase
/// counterpart.
pub open spec fn eq_ignore_ascii_case(s: Seq<char>, t: Seq<char>) -> bool {
    s.len() == t.len() && (forall|i: int|
        0 <= i < s.len() ==> #[trigger] s[i] == t[i] || s[i] == upper_char(t[i]))
}

/// Case-insensitive comparison of a string against an all-lowercase ASCII
/// string.
pub fn eq_ignore_case(s: &str, t: &str) -> (r: bool)
    requires
        t.is_ascii(),
        forall|i: int| 0 <= i < t@.len() ==> lower_char(#[trigger] t@[i]) == t@[i],
    ensures
        r == eq_ignore_ascii_case(s@, t@),
{
    proof {
        assert(vstd::utf8::is_ascii_chars(t@));
    }
    if !s.is_ascii() {
        proof {
            if eq_ignore_ascii_case(s@, t@) {
                assert(vstd::utf8::is_ascii_chars(s@)) by {
                    assert(forall|i: int| 0 <= i < s@.len() ==> '\0' <= #[trigger] s@[i]
                        <= '\u{7f}') by {
                        assert(forall|i: int|
                            0 <= i < s@.len() ==> #[trigger] s@[i] == t@[i] || s@[i] == upper_char(
                                t@[i],
                            ));
                    }
                }
            }
        }
        return false;
    }
    let lowered = ascii_lowercase(s);
    let r = str_eq(lowered.as_str(), t);
    proof {
        assert(vstd::utf8::is_ascii_chars(s@));
        assert(forall|i: int|
            0 <= i < s@.len() ==> #[trigger] lower_of(s@)[i] == lower_char(s@[i]));
        if lower_of(s@) == t@ {
            assert(eq_ignore_ascii_case(s@, t@)) by {
                assert(forall|i: int| 0 <= i < s@.len() ==> #[trigger] s@[i] == t@[i] || s@[i]
                    == upper_char(t@[i])) by {
                    assert(forall|i: int|
                        0 <= i < s@.len() ==> lower_char(#[trigger] s@[i]) == t@[i]);
                }
            }
        }
        if eq_ignore_ascii_case(s@, t@) {
            assert(lower_of(s@) =~= t@) by {
                assert(forall|i: int|
                    0 <= i < s@.len() ==> lower_char(#[trigger] s@[i]) == t@[i]) by {
                    assert(forall|i: int|
                        0 <= i < s@.len() ==> #[trigger] s@[i] == t@[i] || s@[i] == upper_char(
                            t@[i],
                        ));
                }
            }
        }
    }
    r
}

/// The characters that a header name may consist of, after lowercasing:
/// the set that the `http` crate's `HeaderName::from_lowercase` admits.
pub open spec fn is_header_name_char(c: char) -> bool {
    c == '!' || c == '"' || c == '#' || c == '$' || c == '%' || c == '&' || c == '\''
        || c == '*' || c == '+' || c == '-' || c == '.' || ('0' <= c && c <= '9') || c == '^'
        || c == '_' || c == '`' || ('a' <= c && c <= 'z') || c == '|' || c == '~'
}

/// A valid lowercased header name: non-empty, within the length bound the
/// transport enforces, and made of admissible characters only.
pub open spec fn is_valid_header_name(s: Seq<char>) -> bool {
    0 < s.len() <= 65535 && (forall|i: int| 0 <= i < s.len() ==> is_header_name_char(#[trigger] s[i]))
}

/// A header name as configuration may spell it: its lowercased form is a
/// valid header name, so each character is admissible or an ASCII uppercase
/// letter.
pub open spec fn is_valid_source_header_name(s: Seq<char>) -> bool {
    0 < s.len() <= 65535 && (forall|i: int|
        0 <= i < s.len() ==> is_header_name_char(#[trigger] s[i]) || is_upper_char(s[i]))
}

/// The characters a header value may consist of: horizontal tab and
/// everything from space upward except delete, as the `http` crate's
/// `HeaderValue::from_str` admits byte-wise.
pub open spec fn is_header_value_char(c: char) -> bool {
    c == '\t' || ((c as u32) >= 32 && (c as u32) != 127)
}

/// A valid header value.
pub open spec fn is_valid_header_value(s: Seq<char>) -> bool {
    forall|i: int| 0 <= i < s.len() ==> is_header_value_char(#[trigger] s[i])
}

/// Lowercases a header name and checks it for validity: returns the
/// lowercased name exactly when the given name is an acceptable header name.
pub fn normalize_header_name(name: &str) -> (r: Option<String>)
    ensures
        r.is_some() <==> is_valid_source_header_name(name@),
        r.is_some() ==> r.unwrap()@ == lower_of(name@) && is_valid_header_name(lower_of(name@)),
{
    if !name.is_ascii() {
        proof {
            if is_valid_source_header_name(name@) {
                assert(vstd::utf8::is_ascii_chars(name@)) by {
                    assert(forall|i: int| 0 <= i < name@.len() ==> '\0' <= #[trigger] name@[i]
                        <= '\u{7f}') by {
                        assert(forall|i: int|
                            0 <= i < name@.len() ==> is_header_name_char(#[trigger] name@[i])
                                || is_upper_char(name@[i]));
                    }
                }
            }
        }
        return None;
    }
    let lowered = ascii_lowercase(name);
    proof {
        assert(vstd::utf8::is_ascii_chars(name@));
        assert(forall|i: int|
            0 <= i < name@.len() ==> #[trigger] lowered@[i] == lower_char(name@[i]));
        assert(forall|i: int|
            0 <= i < name@.len() ==> (is_header_name_char(lowered@[i]) <==> (
            is_header_name_char(#[trigger] name@[i]) || is_upper_char(name@[i]))));
    }
    let len: usize = lowered.as_str().unicode_len();
    if len == 0 || len > 65535 {
        return None;
    }
    let mut j: usize = 0;
    while j < len
        invariant
            lowered.is_ascii(),
            len == lowered@.len(),
            0 < len <= 65535,
            j <= len,
            forall|k: int| 0 <= k < j ==> is_header_name_char(#[trigger] lowered@[k]),
            name.is_ascii(),
            lowered@ == lower_of(name@),
            forall|i: int|
                0 <= i < name@.len() ==> (is_header_name_char(lowered@[i]) <==> (
                is_header_name_char(#[trigger] name@[i]) || is_upper_char(name@[i]))),
        decreases len - j,
    {
        let b: u8 = lowered.as_str().get_ascii(j);
        let ok: bool = b == 33 || b == 34 || b == 35 || b == 36 || b == 37 || b == 38 || b == 39
            || b == 42 || b == 43 || b == 45 || b == 46 || (48 <= b && b <= 57) || b == 94
            || b == 95 || b == 96 || (97 <= b && b <= 122) || b == 124 || b == 126;
        proof {
            assert(vstd::utf8::is_ascii_chars(lowered@));
            assert('\0' <= lowered@[j as int] <= '\u{7f}');
            assert(ok == is_header_name_char(lowered@[j as int]));
        }
        if !ok {
            return None;
        }
        j = j + 1;
    }
    proof {
        assert(name@.len() == len);
        assert(forall|i: int|
            0 <= i < name@.len() ==> is_header_name_char(#[trigger] name@[i]) || is_upper_char(
                name@[i],
            )) by {
            assert(forall|i: int|
                0 <= i < name@.len() ==> is_header_name_char(#[trigger] lowered@[i]));
        }
    }
    Some(lowered)
}

/// Checks a header value for validity.
pub fn header_value_ok(value: &str) -> (r: bool)
    ensures
        r == is_valid_header_value(value@),
{
    let len: usize = value.unicode_len();
    let mut j: usize = 0;
    while j < len
        invariant
            len == value@.len(),
            j <= len,
            forall|k: int| 0 <= k < j ==> is_header_value_char(#[trigger] value@[k]),
        decreases len - j,
    {
        let c: char = value.get_char(j);
        let u: u32 = c as u32;
        if !(u == 9 || (u >= 32 && u != 127)) {
            assert(!is_header_value_char(value@[j as int]));
            return false;
        }
        j = j + 1;
    }
    true
}

/// The decimal digit character for a value below ten.
pub open spec fn dec_digit(d: nat) -> char {
    ((48 + d) as u8) as char
}

/// The decimal numeral of a natural number, most significant digit first.
pub open spec fn dec_chars(n: nat) -> Seq<char>
    decreases n,
{
    if n < 10 {
        seq![dec_digit(n)]
    } else {
        dec_chars(n / 10).push(dec_digit(n % 10))
    }
}

/// The single-character string for a decimal digit.
fn digit_str(d: u8) -> (r: &'static str)
    requires
        d < 10,
    ensures
        r@ =~= seq![dec_digit(d as nat)],
{
    proof {
        reveal_strlit("0");
        reveal_strlit("1");
        reveal_strlit("2");
        reveal_strlit("3");
        reveal_strlit("4");
        reveal_strlit("5");
        reveal_strlit("6");
        reveal_strlit("7");
        reveal_strlit("8");
        reveal_strlit("9");
    }
    match d {
        0 => "0",
        1 => "1",
        2 => "2",
        3 => "3",
        4 => "4",
        5 => "5",
        6 => "6",
        7 => "7",
        8 => "8",
        _ => "9",
    }
}

/// Renders a number as its decimal numeral.
pub fn dec_string_u32(n: u32) -> (r: String)
    ensures
        r@ == dec_chars(n as nat),
    decreases n,
{
    if n < 10 {
        digit_str(n as u8).to_owned()
    } else {
        proof {
            assert(n / 10 < n) by (nonlinear_arith)
                requires n >= 10;
        }
        let mut s = dec_string_u32(n / 10);
        s.append(digit_str((n % 10) as u8));
        s
    }
}

} // verus!
