//! Small utility tools offered to the model: a random UUID, the current
//! time, a string hash, base64 and JSON pretty-printing.
use vstd::prelude::*;
use vstd::string::StringExecFns;
use std::hash::{Hash, Hasher};
use base64::Engine;
use serde_json::Value;
use vstd::utf8::{decode_utf8, encode_utf8, valid_utf8};
use crate::message::{ContentPart, PartView};
use crate::text::push_char;
use crate::tool::{ToolError, ToolResult, ToolResultView};

verus! {

broadcast use vstd::string::group_string_axioms;

/// Whether `c` is a lowercase hexadecimal digit.
pub open spec fn is_lower_hex(c: char) -> bool {
    ('0' <= c && c <= '9') || ('a' <= c && c <= 'f')
}

/// A new random version-4 UUID in its hyphenated form: uuid's
/// `Uuid::new_v4`, written by its `Display`, which gives 32 lowercase
/// hexadecimal digits in groups of 8, 4, 4, 4 and 12 joined by hyphens.
/// The version digit (the first of the third group) of a version-4 UUID
/// is `4`. The digits are random, so nothing more is claimed.
#[verifier::external_body]
fn new_uuid() -> (r: String)
    ensures
        r@.len() == 36,
        forall|i: int|
            0 <= i < 36 ==> if i == 8 || i == 13 || i == 18 || i == 23 {
                r@[i] == '-'
            } else {
                is_lower_hex(#[trigger] r@[i])
            },
        r@[14] == '4',
{
    uuid::Uuid::new_v4().to_string()
}

/// Whether `c` is a decimal digit.
pub open spec fn is_digit(c: char) -> bool {
    '0' <= c && c <= '9'
}

/// Whether the characters of `t` from `i` up to `j` are all digits.
pub open spec fn digits_at(t: Seq<char>, i: int, j: int) -> bool {
    forall|k: int| i <= k < j ==> is_digit(#[trigger] t[k])
}

/// Whether `t` is a UTC date and time as chrono's `to_rfc3339` writes it,
/// with a year of `y` characters: the year (four digits, or `+` and at least
/// five digits past 9999), `-MM-DDThh:mm:ss`, an optional fraction of 3, 6
/// or 9 digits after a `.`, and the offset `+00:00`.
pub open spec fn rfc3339_utc(t: Seq<char>, y: int) -> bool {
    let n = t.len() as int;
    let f = n - 6 - (y + 15);
    &&& ((y == 4 && digits_at(t, 0, 4)) || (y >= 6 && t[0] == '+' && digits_at(t, 1, y)))
    &&& n >= y + 21
    &&& t[y] == '-' && digits_at(t, y + 1, y + 3)
    &&& t[y + 3] == '-' && digits_at(t, y + 4, y + 6)
    &&& t[y + 6] == 'T' && digits_at(t, y + 7, y + 9)
    &&& t[y + 9] == ':' && digits_at(t, y + 10, y + 12)
    &&& t[y + 12] == ':' && digits_at(t, y + 13, y + 15)
    &&& (f == 0 || ((f == 4 || f == 7 || f == 10) && t[y + 15] == '.' && digits_at(t, y + 16, n - 6)))
    &&& t.subrange(n - 6, n) == "+00:00"@
}

/// The current UTC time in RFC 3339 form: chrono's `Utc::now()` written by
/// `DateTime::to_rfc3339` (seconds with the fraction chrono's `AutoSi`
/// chooses, offset `+00:00`). Which time it is comes from the clock; only
/// the form is claimed. The time is never before 1970, so the year is never
/// negative.
#[verifier::external_body]
fn now_rfc3339() -> (r: String)
    ensures
        exists|y: int| rfc3339_utc(r@, y),
{
    chrono::Utc::now().to_rfc3339()
}

/// The 64-bit hash std's `DefaultHasher::new()` gives a string. Its keys
/// are fixed, so within one build the hash depends on the string alone.
pub uninterp spec fn string_hash(s: Seq<char>) -> u64;

/// Hashes `s` with std's `DefaultHasher` created by `new` (`Hash` for
/// `str`, then `finish`). Only that the hash is a function of the string is
/// claimed.
#[verifier::external_body]
fn hash_str(s: &str) -> (r: u64)
    ensures
        r == string_hash(s@),
{
    let mut hasher = std::collections::hash_map::DefaultHasher::new();
    s.hash(&mut hasher);
    hasher.finish()
}

/// The base64 digit of a six-bit value in the standard alphabet of RFC
/// 4648: `A`–`Z`, `a`–`z`, `0`–`9`, `+` and `/`.
pub open spec fn b64_digit(v: int) -> char {
    if v < 26 {
        ('A' as int + v) as char
    } else if v < 52 {
        ('a' as int + (v - 26)) as char
    } else if v < 62 {
        ('0' as int + (v - 52)) as char
    } else if v == 62 {
        '+'
    } else {
        '/'
    }
}

/// The canonical base64 encoding of `b` (RFC 4648, standard alphabet, with
/// `=` padding): each group of three bytes becomes four digits; a last
/// group of one or two bytes becomes two or three digits and padding.
pub open spec fn base64_encoding(b: Seq<u8>) -> Seq<char>
    decreases b.len(),
{
    if b.len() == 0 {
        Seq::empty()
    } else {
        let x = b[0] as int;
        let y = if b.len() > 1 { b[1] as int } else { 0 };
        let z = if b.len() > 2 { b[2] as int } else { 0 };
        let first = b64_digit(x / 4);
        let second = b64_digit((x % 4) * 16 + y / 16);
        if b.len() == 1 {
            seq![first, second, '=', '=']
        } else if b.len() == 2 {
            seq![first, second, b64_digit((y % 16) * 4), '=']
        } else {
            seq![first, second, b64_digit((y % 16) * 4 + z / 64), b64_digit(z % 64)] + base64_encoding(
                b.subrange(3, b.len() as int),
            )
        }
    }
}

/// Encodes `bytes` with base64's `STANDARD` engine, which, as the crate
/// documents, writes the canonical padded encoding in the standard alphabet
/// of RFC 4648.
#[verifier::external_body]
fn base64_encode(bytes: &[u8]) -> (r: String)
    ensures
        r@ == base64_encoding(bytes@),
{
    base64::engine::general_purpose::STANDARD.encode(bytes)
}

/// What base64's `STANDARD` engine decodes a text to: the bytes, or the
/// text of its `DecodeError`.
pub uninterp spec fn base64_decoding(text: Seq<char>) -> Result<Seq<u8>, Seq<char>>;

/// Decodes `text` with base64's `STANDARD` engine; an error is given as its
/// display text. The canonical encoding of any bytes decodes back to them.
#[verifier::external_body]
fn base64_decode(text: &str) -> (r: Result<Vec<u8>, String>)
    ensures
        match r {
            Ok(b) => base64_decoding(text@) == Ok::<Seq<u8>, Seq<char>>(b@) && forall|x: Seq<u8>|
                text@ == #[trigger] base64_encoding(x) ==> b@ == x,
            Err(m) => base64_decoding(text@) == Err::<Seq<u8>, Seq<char>>(m@) && forall|x: Seq<u8>|
                text@ != #[trigger] base64_encoding(x),
        },
{
    base64::engine::general_purpose::STANDARD.decode(text).map_err(|e| e.to_string())
}

/// The display text std gives the error of decoding invalid UTF-8.
pub uninterp spec fn utf8_error_text(bytes: Seq<u8>) -> Seq<char>;

/// std's `String::from_utf8`: the text the bytes encode when they are valid
/// UTF-8, else the error's display text.
#[verifier::external_body]
fn utf8_text(bytes: Vec<u8>) -> (r: Result<String, String>)
    ensures
        match r {
            Ok(s) => valid_utf8(bytes@) && s@ == decode_utf8(bytes@),
            Err(m) => !valid_utf8(bytes@) && m@ == utf8_error_text(bytes@),
        },
{
    String::from_utf8(bytes).map_err(|e| e.to_string())
}

/// What serde_json makes of a text as a JSON value: the value, or the
/// display text of its error.
pub uninterp spec fn json_parse(text: Seq<char>) -> Result<Value, Seq<char>>;

/// Parses `text` with `serde_json::from_str` into a `Value`; an error is
/// given as its display text. Only that the outcome is a function of the
/// text is claimed.
#[verifier::external_body]
pub(crate) fn parse_json(text: &str) -> (r: Result<Value, String>)
    ensures
        match r {
            Ok(v) => json_parse(text@) == Ok::<Value, Seq<char>>(v),
            Err(m) => json_parse(text@) == Err::<Value, Seq<char>>(m@),
        },
{
    serde_json::from_str(text).map_err(|e| e.to_string())
}

/// What `serde_json::to_string_pretty` writes of a value (two-space
/// indentation), or the display text of its error.
pub uninterp spec fn json_pretty(v: Value) -> Result<Seq<char>, Seq<char>>;

/// Writes `v` with `serde_json::to_string_pretty`; an error is given as its
/// display text. Only that the outcome is a function of the value is
/// claimed.
#[verifier::external_body]
fn pretty_json(v: &Value) -> (r: Result<String, String>)
    ensures
        match r {
            Ok(s) => json_pretty(*v) == Ok::<Seq<char>, Seq<char>>(s@),
            Err(m) => json_pretty(*v) == Err::<Seq<char>, Seq<char>>(m@),
        },
{
    serde_json::to_string_pretty(v).map_err(|e| e.to_string())
}

/// The lowercase hexadecimal digit for `d` (0 to 15).
pub open spec fn hex_char(d: nat) -> char {
    if d < 10 {
        ('0' as nat + d) as char
    } else {
        ('a' as nat + (d - 10)) as char
    }
}

/// The lowercase hexadecimal representation of `n` without leading zeros
/// (`0` for zero), as `{:x}` writes it.
pub open spec fn hex(n: nat) -> Seq<char>
    decreases n,
{
    if n < 16 {
        seq![hex_char(n)]
    } else {
        hex(n / 16).push(hex_char(n % 16))
    }
}

fn hex_digit(d: u64) -> (c: char)
    requires
        d < 16,
    ensures
        c == hex_char(d as nat),
{
    let digits = ['0', '1', '2', '3', '4', '5', '6', '7', '8', '9', 'a', 'b', 'c', 'd', 'e', 'f'];
    let c = digits[d as usize];
    assert(c == hex_char(d as nat)) by {
        if d < 10 {
            assert(c == ('0' as nat + d) as char);
        } else {
            assert(c == ('a' as nat + (d - 10)) as char);
        }
    }
    c
}

/// Appends the hexadecimal representation of `n` to `s`.
fn push_hex(s: &mut String, n: u64)
    ensures
        final(s)@ == old(s)@ + hex(n as nat),
    decreases n,
{
    if n < 16 {
        push_char(s, hex_digit(n));
        assert(hex(n as nat) =~= seq![hex_char(n as nat)]);
    } else {
        push_hex(s, n / 16);
        push_char(s, hex_digit(n % 16));
    }
}

/// A successful result holding the single text `t`.
pub open spec fn text_success(t: Seq<char>) -> ToolResultView {
    ToolResultView::Success(seq![PartView::Text(t)])
}

/// The successful result holding `t` as its one text part.
fn text_result(t: &str) -> (r: ToolResult)
    ensures
        r@ == text_success(t@),
{
    let mut v: Vec<ContentPart> = Vec::new();
    v.push(ContentPart::text(t));
    let r = ToolResult::success(v);
    assert(crate::message::parts_view(v@) =~= seq![PartView::Text(t@)]) by {
        crate::message::lemma_parts_view(v@);
    }
    r
}

/// The error for a call without the `input` argument.
pub open spec fn missing_input(e: ToolError) -> bool {
    e.message@ == "missing 'input'"@ && e.brief@ == "bad args"@
}

/// What the base64 tool answers for `input`: its encoding (of the text's
/// UTF-8 bytes), or, when decoding, the text the decoded bytes spell, with
/// an error when they are not base64 or not UTF-8.
pub open spec fn base64_answer(input: Seq<char>, decode: bool) -> Result<Seq<char>, (Seq<char>, Seq<char>)> {
    if !decode {
        Ok(base64_encoding(encode_utf8(input)))
    } else {
        match base64_decoding(input) {
            Ok(b) => if valid_utf8(b) {
                Ok(decode_utf8(b))
            } else {
                Err(("invalid utf8: "@ + utf8_error_text(b), "decode error"@))
            },
            Err(m) => Err(("decode error: "@ + m, "decode error"@)),
        }
    }
}

/// What the JSON tool answers for `input`: the value pretty-printed, or an
/// error when it is not JSON or cannot be written.
pub open spec fn json_answer(input: Seq<char>) -> Result<Seq<char>, (Seq<char>, Seq<char>)> {
    match json_parse(input) {
        Ok(v) => match json_pretty(v) {
            Ok(s) => Ok(s),
            Err(m) => Err(("serialize error: "@ + m, "serialize error"@)),
        },
        Err(m) => Err(("invalid json: "@ + m, "parse error"@)),
    }
}

/// A tool outcome from an answer: the text as a successful result, or the
/// error with its message and summary.
pub open spec fn answered(r: Result<ToolResult, ToolError>, a: Result<Seq<char>, (Seq<char>, Seq<char>)>) -> bool {
    match a {
        Ok(t) => r matches Ok(res) && res@ == text_success(t),
        Err((message, brief)) => r matches Err(e) && e.message@ == message && e.brief@ == brief,
    }
}

/// `prefix` followed by `detail`.
fn prefixed(prefix: &str, detail: &str) -> (r: String)
    ensures
        r@ == prefix@ + detail@,
{
    let mut s = prefix.to_string();
    s.append(detail);
    s
}

/// The small utility tools.
pub struct UtilsBin;

impl UtilsBin {
    /// The names and descriptions of the utility tools, in the order they
    /// are offered.
    pub fn tool_list() -> (r: Vec<(&'static str, &'static str)>)
        ensures
            r@.len() == 5,
            r@[0].0@ == "uuid"@,
            r@[1].0@ == "timestamp"@,
            r@[2].0@ == "hash"@,
            r@[3].0@ == "base64"@,
            r@[4].0@ == "json_format"@,
    {
        let mut v = Vec::new();
        v.push(("uuid", "Generate a random UUID v4."));
        v.push(("timestamp", "Return the current UTC timestamp in ISO 8601 format."));
        v.push(("hash", "Compute a 64-bit hash of the input string (FNV-style, consistent across calls)."));
        v.push(("base64", "Base64 encode or decode a string."));
        v.push(("json_format", "Pretty-print a JSON string with 2-space indentation."));
        v
    }

    /// A new random UUID v4, in hyphenated form, as the one text of a
    /// successful result.
    pub fn uuid() -> (r: ToolResult)
        ensures
            r@ matches ToolResultView::Success(out) && out.len() == 1 && (out[0] matches PartView::Text(t)
                && t.len() == 36 && t[8] == '-' && t[13] == '-' && t[18] == '-' && t[23] == '-' && t[14]
                == '4'),
    {
        let id = new_uuid();
        text_result(id.as_str())
    }

    /// The current UTC time in RFC 3339 form, as the one text of a
    /// successful result.
    pub fn timestamp() -> (r: ToolResult)
        ensures
            exists|t: Seq<char>, y: int| r@ == text_success(t) && rfc3339_utc(t, y),
    {
        let ts = now_rfc3339();
        text_result(ts.as_str())
    }

    /// The hash of `input` in lowercase hexadecimal; an error when there is
    /// no input.
    pub fn hash(input: Option<&str>) -> (r: Result<ToolResult, ToolError>)
        ensures
            match input {
                Some(s) => r matches Ok(res) && res@ == text_success(hex(string_hash(s@) as nat)),
                None => r matches Err(e) && missing_input(e),
            },
    {
        match input {
            Some(s) => {
                let h = hash_str(s);
                let mut t = String::new();
                push_hex(&mut t, h);
                Ok(text_result(t.as_str()))
            },
            None => Err(ToolError::new("missing 'input'", "bad args")),
        }
    }

    /// The base64 encoding of `input`, or with `decode` the text `input`
    /// decodes to (see `base64_answer`); an error when there is no input.
    pub fn base64(input: Option<&str>, decode: bool) -> (r: Result<ToolResult, ToolError>)
        ensures
            match input {
                Some(s) => answered(r, base64_answer(s@, decode)),
                None => r matches Err(e) && missing_input(e),
            },
            decode ==> forall|t: Seq<char>|
                (input matches Some(s) && s@ == #[trigger] base64_encoding(encode_utf8(t))) ==> (r matches Ok(
                    res,
                ) && res@ == text_success(t)),
    {
        proof {
            reveal_strlit("invalid utf8: ");
            reveal_strlit("decode error: ");
            reveal_strlit("decode error");
        }
        match input {
            None => Err(ToolError::new("missing 'input'", "bad args")),
            Some(s) => {
                if !decode {
                    let e = base64_encode(s.as_bytes());
                    Ok(text_result(e.as_str()))
                } else {
                    let d = base64_decode(s);
                    proof {
                        broadcast use vstd::utf8::encode_utf8_decode_utf8, vstd::utf8::encode_utf8_valid_utf8;
                    }
                    match d {
                        Ok(bytes) => match utf8_text(bytes) {
                            Ok(t) => Ok(text_result(t.as_str())),
                            Err(m) => Err(ToolError { message: prefixed("invalid utf8: ", m.as_str()), brief: "decode error".to_string() }),
                        },
                        Err(m) => Err(ToolError { message: prefixed("decode error: ", m.as_str()), brief: "decode error".to_string() }),
                    }
                }
            },
        }
    }

    /// `input` pretty-printed as JSON (see `json_answer`); an error when
    /// there is no input.
    pub fn json_format(input: Option<&str>) -> (r: Result<ToolResult, ToolError>)
        ensures
            match input {
                Some(s) => answered(r, json_answer(s@)),
                None => r matches Err(e) && missing_input(e),
            },
    {
        proof {
            reveal_strlit("invalid json: ");
            reveal_strlit("parse error");
            reveal_strlit("serialize error: ");
            reveal_strlit("serialize error");
        }
        match input {
            None => Err(ToolError::new("missing 'input'", "bad args")),
            Some(s) => match parse_json(s) {
                Ok(v) => match pretty_json(&v) {
                    Ok(p) => Ok(text_result(p.as_str())),
                    Err(m) => Err(ToolError { message: prefixed("serialize error: ", m.as_str()), brief: "serialize error".to_string() }),
                },
                Err(m) => Err(ToolError { message: prefixed("invalid json: ", m.as_str()), brief: "parse error".to_string() }),
            },
        }
    }
}

/// The hash tool is consistent across calls: two answers for the same
/// input are the same.
pub proof fn law_hash_consistent(input: Seq<char>, first: ToolResultView, second: ToolResultView)
    requires
        first == text_success(hex(string_hash(input) as nat)),
        second == text_success(hex(string_hash(input) as nat)),
    ensures
        first == second,
{
}

} // verus!
