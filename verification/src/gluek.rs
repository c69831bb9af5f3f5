//! `gluek-up`: peeks at the definitions or references of the symbol under
//! the caret. It asks `current` where the caret is, asks `lsp-broker` for
//! locations, and lists them; Enter opens one in the editor.
use vstd::prelude::*;
use vstd::utf8::{valid_utf8, decode_utf8, encode_utf8};
use crate::json::{Json, JsonNumber, json_get, opt_json_str, opt_json_u64, opt_json_get, json_parse, json_render, parse_json, render_json};
use crate::text::{
    own, concat, chars_of, trim, trim_chars, string_of, split_char, split_chars, parse_usize,
    parse_usize_chars, dec, dec_string, str_eq, starts_with, starts_with_in, slice_chars,
};
use crate::paths::{path_file_name, file_name_of};
use crate::text::{
    lemma_dec_digits, lemma_parse_dec, lemma_find_char_skip, is_digit, is_ws, trim_start, trim_end,
    find_char,
};
use crate::context::{Attention, ContextResponse, Selection};
use vstd::string::StringExecFns;
use vstd::string::StringSliceAdditionalSpecFns;

verus! {

/// The value of an ASCII hex digit.
pub open spec fn hex_value(b: u8) -> Option<u8> {
    if 48 <= b && b <= 57 {
        Some((b - 48) as u8)
    } else if 97 <= b && b <= 102 {
        Some((b - 87) as u8)
    } else if 65 <= b && b <= 70 {
        Some((b - 55) as u8)
    } else {
        None
    }
}

/// The byte that the two bytes after a `%` stand for, as
/// `u8::from_str_radix(<the two bytes as text>, 16)` reads them: two hex
/// digits, or `+` and one hex digit; two bytes that are one non-ASCII
/// character are no number; two bytes that are not UTF-8 are read as "00".
pub open spec fn escape_value(h1: u8, h2: u8) -> Option<u8> {
    if h1 < 128 && h2 < 128 {
        if h1 == 43 {
            hex_value(h2)
        } else {
            match (hex_value(h1), hex_value(h2)) {
                (Some(a), Some(b)) => Some((a * 16 + b) as u8),
                _ => None,
            }
        }
    } else if 0xc2 <= h1 && h1 <= 0xdf && 0x80 <= h2 && h2 <= 0xbf {
        None
    } else {
        Some(0)
    }
}

/// Percent-decoding of bytes: `%` and two bytes that read as a number
/// (`escape_value`) become that byte; a `%` that does not is kept together
/// with the (up to two) bytes after it.
pub open spec fn percent_decode_bytes(b: Seq<u8>) -> Seq<u8>
    decreases b.len(),
{
    if b.len() == 0 {
        Seq::empty()
    } else if b[0] != 37 {
        seq![b[0]] + percent_decode_bytes(b.subrange(1, b.len() as int))
    } else if b.len() >= 3 && escape_value(b[1], b[2]) is Some {
        seq![escape_value(b[1], b[2])->0] + percent_decode_bytes(b.subrange(3, b.len() as int))
    } else {
        let k = if b.len() < 3 {
            b.len() as int
        } else {
            3
        };
        b.subrange(0, k) + percent_decode_bytes(b.subrange(k, b.len() as int))
    }
}

/// A percent-decoded path: the decoded bytes when they are UTF-8, else the
/// text unchanged.
pub open spec fn percent_decoded(s: Seq<char>) -> Seq<char> {
    let d = percent_decode_bytes(encode_utf8(s));
    if valid_utf8(d) {
        decode_utf8(d)
    } else {
        s
    }
}

/// `String::from_utf8(bytes).ok()`: the text the bytes encode, when they
/// are UTF-8.
#[verifier::external_body]
fn string_from_utf8(bytes: Vec<u8>) -> (r: Option<String>)
    ensures
        match r {
            Some(s) => valid_utf8(bytes@) && s@ == decode_utf8(bytes@),
            None => !valid_utf8(bytes@),
        },
{
    String::from_utf8(bytes).ok()
}

fn hex_value_of(b: u8) -> (r: Option<u8>)
    ensures
        r == hex_value(b),
{
    if 48 <= b && b <= 57 {
        Some(b - 48)
    } else if 97 <= b && b <= 102 {
        Some(b - 87)
    } else if 65 <= b && b <= 70 {
        Some(b - 55)
    } else {
        None
    }
}

fn escape_value_of(h1: u8, h2: u8) -> (r: Option<u8>)
    ensures
        r == escape_value(h1, h2),
{
    if h1 < 128 && h2 < 128 {
        if h1 == 43 {
            hex_value_of(h2)
        } else {
            match (hex_value_of(h1), hex_value_of(h2)) {
                (Some(a), Some(b)) => Some(a * 16 + b),
                _ => None,
            }
        }
    } else if 0xc2 <= h1 && h1 <= 0xdf && 0x80 <= h2 && h2 <= 0xbf {
        None
    } else {
        Some(0)
    }
}

/// Decodes `%XX` escapes in a `file://` URI path, as `lsp-broker` sends
/// them (see `percent_decoded`).
pub fn percent_decode(s: &str) -> (r: String)
    ensures
        r@ == percent_decoded(s@),
{
    let b = s.as_bytes();
    let ghost bs = b@;
    assert(bs == encode_utf8(s@));
    let mut out: Vec<u8> = Vec::new();
    let mut i: usize = 0;
    let n = b.len();
    assert(bs.subrange(0, n as int) =~= bs);
    while i < n
        invariant
            n == b@.len(),
            bs == b@,
            i <= n,
            out@ + percent_decode_bytes(bs.subrange(i as int, n as int)) == percent_decode_bytes(bs),
        decreases n - i,
    {
        let ghost rest = bs.subrange(i as int, n as int);
        let ghost before = out@;
        let c = b[i];
        if c != 37 {
            out.push(c);
            assert(rest.subrange(1, rest.len() as int) =~= bs.subrange(i + 1, n as int));
            assert(percent_decode_bytes(rest) == seq![c] + percent_decode_bytes(
                bs.subrange(i + 1, n as int),
            ));
            assert(out@ + percent_decode_bytes(bs.subrange(i + 1, n as int)) =~= before
                + percent_decode_bytes(rest));
            i = i + 1;
        } else if n - i >= 3 && escape_value_of(b[i + 1], b[i + 2]).is_some() {
            let v = escape_value_of(b[i + 1], b[i + 2]).unwrap();
            out.push(v);
            assert(rest[1] == b@[i + 1] && rest[2] == b@[i + 2]);
            assert(rest.subrange(3, rest.len() as int) =~= bs.subrange(i + 3, n as int));
            assert(percent_decode_bytes(rest) == seq![v] + percent_decode_bytes(
                bs.subrange(i + 3, n as int),
            ));
            assert(out@ + percent_decode_bytes(bs.subrange(i + 3, n as int)) =~= before
                + percent_decode_bytes(rest));
            i = i + 3;
        } else {
            let k: usize = if n - i < 3 {
                n - i
            } else {
                3
            };
            proof {
                if rest.len() >= 3 {
                    assert(rest[1] == b@[i + 1] && rest[2] == b@[i + 2]);
                }
            }
            let mut m: usize = 0;
            while m < k
                invariant
                    i + k <= n == b@.len(),
                    m <= k,
                    bs == b@,
                    rest == bs.subrange(i as int, n as int),
                    out@ =~= before + rest.subrange(0, m as int),
                decreases k - m,
            {
                out.push(b[i + m]);
                assert(rest.subrange(0, m + 1) =~= rest.subrange(0, m as int).push(b@[i + m]));
                m = m + 1;
            }
            assert(rest.subrange(k as int, rest.len() as int) =~= bs.subrange(i + k, n as int));
            assert(percent_decode_bytes(rest) == rest.subrange(0, k as int) + percent_decode_bytes(
                bs.subrange(i + k, n as int),
            ));
            assert(out@ + percent_decode_bytes(bs.subrange(i + k, n as int)) =~= before
                + percent_decode_bytes(rest));
            i = i + k;
        }
    }
    assert(bs.subrange(n as int, n as int) =~= Seq::<u8>::empty());
    assert(out@ =~= percent_decode_bytes(bs));
    match string_from_utf8(out) {
        Some(t) => t,
        None => crate::text::own(s),
    }
}


proof fn lemma_scalar_bytes_not_percent(c: u32)
    by (bit_vector)
    requires
        c != 37,
    ensures
        c <= 0x7F ==> ((c & 0x7F) as u8) != 37u8,
        (0xC0u8 | ((c >> 6) & 0x1F) as u8) != 37u8,
        (0xE0u8 | ((c >> 12) & 0x0F) as u8) != 37u8,
        (0xF0u8 | ((c >> 18) & 0x7) as u8) != 37u8,
        (0x80u8 | (c & 0x3F) as u8) != 37u8,
        (0x80u8 | ((c >> 6) & 0x3F) as u8) != 37u8,
        (0x80u8 | ((c >> 12) & 0x3F) as u8) != 37u8,
{
}

proof fn lemma_encode_without_percent(s: Seq<char>)
    requires
        !s.contains('%'),
    ensures
        !encode_utf8(s).contains(37u8),
    decreases s.len(),
{
    if s.len() > 0 {
        let c = s[0] as u32;
        vstd::utf8::char_is_scalar(s[0]);
        assert(s[0] != '%');
        assert(c != 37) by {
            vstd::utf8::char_u32_cast(s[0], c);
            vstd::utf8::char_u32_cast('%', '%' as u32);
        }
        lemma_scalar_bytes_not_percent(c);
        let head = vstd::utf8::encode_scalar(c);
        assert(!head.contains(37u8));
        assert(!s.drop_first().contains('%')) by {
            if s.drop_first().contains('%') {
                let k = choose|k: int| 0 <= k < s.drop_first().len() && s.drop_first()[k] == '%';
                assert(s[k + 1] == '%');
            }
        }
        lemma_encode_without_percent(s.drop_first());
        let tail = encode_utf8(s.drop_first());
        assert(encode_utf8(s) == head + tail);
        assert forall|k: int| 0 <= k < (head + tail).len() implies (head + tail)[k] != 37u8 by {
            if k < head.len() {
                assert((head + tail)[k] == head[k]);
            } else {
                assert((head + tail)[k] == tail[k - head.len()]);
            }
        }
    }
}

proof fn lemma_decode_bytes_without_percent(b: Seq<u8>)
    requires
        !b.contains(37u8),
    ensures
        percent_decode_bytes(b) == b,
    decreases b.len(),
{
    if b.len() > 0 {
        let rest = b.subrange(1, b.len() as int);
        assert(b[0] != 37u8);
        assert(!rest.contains(37u8)) by {
            if rest.contains(37u8) {
                let k = choose|k: int| 0 <= k < rest.len() && rest[k] == 37u8;
                assert(b[k + 1] == 37u8);
            }
        }
        lemma_decode_bytes_without_percent(rest);
        assert(seq![b[0]] + rest =~= b);
    }
}

/// A path without `%` comes back from decoding unchanged.
pub proof fn law_percent_decode_plain(s: Seq<char>)
    requires
        !s.contains('%'),
    ensures
        percent_decoded(s) == s,
{
    broadcast use vstd::utf8::encode_utf8_valid_utf8, vstd::utf8::encode_utf8_decode_utf8;

    lemma_encode_without_percent(s);
    lemma_decode_bytes_without_percent(encode_utf8(s));
}

/// The byte of the hex digit of `d < 16`, in upper or lower case.
pub open spec fn hex_byte(d: nat, upper: bool) -> u8 {
    if d < 10 {
        (d + 48) as u8
    } else if upper {
        (d + 55) as u8
    } else {
        (d + 87) as u8
    }
}

/// The percent-encoding of bytes: each byte as `%` and its two hex digits.
pub open spec fn percent_encoded_bytes(b: Seq<u8>, upper: bool) -> Seq<u8>
    decreases b.len(),
{
    if b.len() == 0 {
        Seq::empty()
    } else {
        seq![37u8, hex_byte((b[0] / 16) as nat, upper), hex_byte((b[0] % 16) as nat, upper)]
            + percent_encoded_bytes(b.subrange(1, b.len() as int), upper)
    }
}

/// The percent-encoding of bytes, as text.
pub open spec fn percent_encoded(b: Seq<u8>, upper: bool) -> Seq<char>
    decreases b.len(),
{
    if b.len() == 0 {
        Seq::empty()
    } else {
        seq!['%', hex_byte((b[0] / 16) as nat, upper) as char, hex_byte((b[0] % 16) as nat, upper) as char]
            + percent_encoded(b.subrange(1, b.len() as int), upper)
    }
}

proof fn lemma_ascii_byte(c: u32)
    by (bit_vector)
    requires
        c <= 0x7F,
    ensures
        ((c & 0x7F) as u8) == (c as u8),
{
}

proof fn lemma_encode_ascii_char(c: char, rest: Seq<char>)
    requires
        (c as u32) < 128,
    ensures
        encode_utf8(seq![c] + rest) == seq![(c as u32) as u8] + encode_utf8(rest),
{
    let s = seq![c] + rest;
    assert(s[0] == c);
    assert(s.drop_first() =~= rest);
    lemma_ascii_byte(c as u32);
}

proof fn lemma_encode_percent_text(b: Seq<u8>, upper: bool)
    ensures
        encode_utf8(percent_encoded(b, upper)) == percent_encoded_bytes(b, upper),
    decreases b.len(),
{
    if b.len() > 0 {
        let rest = b.subrange(1, b.len() as int);
        let h1 = hex_byte((b[0] / 16) as nat, upper);
        let h2 = hex_byte((b[0] % 16) as nat, upper);
        let tail = percent_encoded(rest, upper);
        lemma_encode_percent_text(rest, upper);
        lemma_encode_ascii_char(h2 as char, tail);
        lemma_encode_ascii_char(h1 as char, seq![h2 as char] + tail);
        lemma_encode_ascii_char('%', seq![h1 as char] + (seq![h2 as char] + tail));
        assert(percent_encoded(b, upper) =~= seq!['%'] + (seq![h1 as char] + (seq![h2 as char] + tail)));
        assert(percent_encoded_bytes(b, upper) =~= seq![37u8] + (seq![h1] + (seq![h2] + percent_encoded_bytes(rest, upper))));
    }
}

proof fn lemma_decode_percent_bytes(b: Seq<u8>, upper: bool)
    ensures
        percent_decode_bytes(percent_encoded_bytes(b, upper)) == b,
    decreases b.len(),
{
    if b.len() > 0 {
        let rest = b.subrange(1, b.len() as int);
        let e = percent_encoded_bytes(b, upper);
        let h1 = hex_byte((b[0] / 16) as nat, upper);
        let h2 = hex_byte((b[0] % 16) as nat, upper);
        assert(e[0] == 37u8 && e[1] == h1 && e[2] == h2);
        assert(hex_value(h1) == Some((b[0] / 16) as u8));
        assert(hex_value(h2) == Some((b[0] % 16) as u8));
        assert(escape_value(h1, h2) == Some(b[0]));
        assert(e.subrange(3, e.len() as int) =~= percent_encoded_bytes(rest, upper));
        lemma_decode_percent_bytes(rest, upper);
        assert(seq![b[0]] + rest =~= b);
    }
}

/// Decoding undoes percent-encoding: the `%XX` encoding (upper- or
/// lower-case hex) of the UTF-8 bytes of any text decodes to that text.
pub proof fn law_percent_roundtrip(t: Seq<char>, upper: bool)
    ensures
        percent_decoded(percent_encoded(encode_utf8(t), upper)) == t,
{
    broadcast use vstd::utf8::encode_utf8_valid_utf8, vstd::utf8::encode_utf8_decode_utf8;

    lemma_encode_percent_text(encode_utf8(t), upper);
    lemma_decode_percent_bytes(encode_utf8(t), upper);
}

/// Why a location in a reply could not be read.
#[derive(Debug, Clone, Copy, PartialEq, Eq)]
pub enum LocationError {
    MissingUri,
    MissingRange,
    MissingStart,
    MissingLine,
    MissingCharacter,
}

impl LocationError {
    /// The message the error is reported with.
    pub fn message(&self) -> (r: &'static str)
        ensures
            r@ == (match *self {
                LocationError::MissingUri => "Missing location URI"@,
                LocationError::MissingRange => "Missing range"@,
                LocationError::MissingStart => "Missing start position"@,
                LocationError::MissingLine => "Missing line"@,
                LocationError::MissingCharacter => "Missing character"@,
            }),
    {
        match self {
            LocationError::MissingUri => "Missing location URI",
            LocationError::MissingRange => "Missing range",
            LocationError::MissingStart => "Missing start position",
            LocationError::MissingLine => "Missing line",
            LocationError::MissingCharacter => "Missing character",
        }
    }
}

/// The URI member of a `Location` or `LocationLink`: `uri`, else
/// `targetUri`, as a string.
pub open spec fn location_uri(val: Json) -> Option<Seq<char>> {
    match json_get(val, "uri"@) {
        Some(u) => opt_json_str(Some(u)),
        None => opt_json_str(json_get(val, "targetUri"@)),
    }
}

/// The range member: `range`, else `targetSelectionRange`, else
/// `targetRange`.
pub open spec fn location_range(val: Json) -> Option<Json> {
    match json_get(val, "range"@) {
        Some(r) => Some(r),
        None => match json_get(val, "targetSelectionRange"@) {
            Some(r) => Some(r),
            None => json_get(val, "targetRange"@),
        },
    }
}

/// The range's start position.
pub open spec fn location_start(val: Json) -> Option<Json> {
    opt_json_get(location_range(val), "start"@)
}

/// Whether a 0-based position number, cut to 32 bits, can be made 1-based
/// without overflow.
pub open spec fn position_fits(start: Json, key: Seq<char>) -> bool {
    match opt_json_u64(json_get(start, key)) {
        Some(n) => (n as u32) < u32::MAX,
        None => true,
    }
}

/// Whether reading a location makes its positions 1-based without
/// overflow: reading stops at the first missing part, so the line counts
/// only when the URI and start are there, and the character only when the
/// line is there too.
pub open spec fn location_fits(val: Json) -> bool {
    match (location_uri(val), location_start(val)) {
        (Some(_), Some(st)) => match opt_json_u64(json_get(st, "line"@)) {
            Some(_) => position_fits(st, "line"@) && position_fits(st, "character"@),
            None => true,
        },
        _ => true,
    }
}

/// A location read from a reply: URI, 1-based line and 1-based column.
pub open spec fn location_of(val: Json) -> Result<(Seq<char>, u32, u32), LocationError> {
    match location_uri(val) {
        None => Err(LocationError::MissingUri),
        Some(uri) => match location_range(val) {
            None => Err(LocationError::MissingRange),
            Some(range) => match json_get(range, "start"@) {
                None => Err(LocationError::MissingStart),
                Some(start) => match opt_json_u64(json_get(start, "line"@)) {
                    None => Err(LocationError::MissingLine),
                    Some(l) => match opt_json_u64(json_get(start, "character"@)) {
                        None => Err(LocationError::MissingCharacter),
                        Some(c) => Ok((uri, ((l as u32) + 1) as u32, ((c as u32) + 1) as u32)),
                    },
                },
            },
        },
    }
}

/// A `LocationLink` (no `range` member) is read at its selection: its
/// position is the start of `targetSelectionRange`, each number cut to 32
/// bits and made 1-based, whatever `targetRange` holds.
pub proof fn law_link_reads_selection_range(v: Json, uri: String, sel: Json, start: Json, line: u64, character: u64)
    requires
        json_get(v, "uri"@) is None,
        json_get(v, "targetUri"@) == Some(Json::Str(uri)),
        json_get(v, "range"@) is None,
        json_get(v, "targetSelectionRange"@) == Some(sel),
        json_get(sel, "start"@) == Some(start),
        json_get(start, "line"@) == Some(Json::Number(JsonNumber::PosInt(line))),
        json_get(start, "character"@) == Some(Json::Number(JsonNumber::PosInt(character))),
    ensures
        location_of(v) == Ok::<(Seq<char>, u32, u32), LocationError>(
            (uri@, ((line as u32) + 1) as u32, ((character as u32) + 1) as u32),
        ),
{
}

/// A `Location` is read at its `range`: its position is the start of
/// `range`, each number cut to 32 bits and made 1-based, whatever the
/// link members hold.
pub proof fn law_location_reads_range(v: Json, uri: String, range: Json, start: Json, line: u64, character: u64)
    requires
        json_get(v, "uri"@) == Some(Json::Str(uri)),
        json_get(v, "range"@) == Some(range),
        json_get(range, "start"@) == Some(start),
        json_get(start, "line"@) == Some(Json::Number(JsonNumber::PosInt(line))),
        json_get(start, "character"@) == Some(Json::Number(JsonNumber::PosInt(character))),
    ensures
        location_of(v) == Ok::<(Seq<char>, u32, u32), LocationError>(
            (uri@, ((line as u32) + 1) as u32, ((character as u32) + 1) as u32),
        ),
{
}

/// Reads a `Location` or `LocationLink` of an LSP reply: its URI and its
/// start position, made 1-based.
pub fn parse_location(val: &Json) -> (r: Result<(String, u32, u32), LocationError>)
    requires
        location_fits(*val),
    ensures
        match location_of(*val) {
            Ok(l) => r matches Ok(x) && x.0@ == l.0 && x.1 == l.1 && x.2 == l.2,
            Err(e) => r == Err::<(String, u32, u32), LocationError>(e),
        },
{
    let uri = match val.get("uri") {
        Some(u) => u.as_str(),
        None => match val.get("targetUri") {
            Some(u) => u.as_str(),
            None => None,
        },
    };
    let uri = match uri {
        Some(u) => own(u),
        None => {
            return Err(LocationError::MissingUri);
        },
    };
    let range = match val.get("range") {
        Some(r) => r,
        None => match val.get("targetSelectionRange") {
            Some(r) => r,
            None => match val.get("targetRange") {
                Some(r) => r,
                None => {
                    return Err(LocationError::MissingRange);
                },
            },
        },
    };
    let start = match range.get("start") {
        Some(s) => s,
        None => {
            return Err(LocationError::MissingStart);
        },
    };
    let line = match start.get("line") {
        Some(l) => l.as_u64(),
        None => None,
    };
    let line = match line {
        Some(l) => l,
        None => {
            return Err(LocationError::MissingLine);
        },
    };
    let character = match start.get("character") {
        Some(c) => c.as_u64(),
        None => None,
    };
    let character = match character {
        Some(c) => c,
        None => {
            return Err(LocationError::MissingCharacter);
        },
    };
    Ok((uri, line as u32 + 1, character as u32 + 1))
}


fn position_fits_of(start: &Json, key: &str) -> (r: bool)
    ensures
        r == position_fits(*start, key@),
{
    match start.get(key) {
        Some(v) => match v.as_u64() {
            Some(n) => (n as u32) < u32::MAX,
            None => true,
        },
        None => true,
    }
}

/// Whether the positions of a location can be made 1-based (see
/// `location_fits`); a position of `u32::MAX` (after cutting to 32 bits)
/// would overflow.
pub fn location_positions_fit(val: &Json) -> (r: bool)
    ensures
        r == location_fits(*val),
{
    let uri = match val.get("uri") {
        Some(u) => u.as_str(),
        None => match val.get("targetUri") {
            Some(u) => u.as_str(),
            None => None,
        },
    };
    if uri.is_none() {
        return true;
    }
    let range = match val.get("range") {
        Some(r) => Some(r),
        None => match val.get("targetSelectionRange") {
            Some(r) => Some(r),
            None => val.get("targetRange"),
        },
    };
    match range {
        Some(rg) => match rg.get("start") {
            Some(st) => {
                let has_line = match st.get("line") {
                    Some(l) => l.as_u64().is_some(),
                    None => false,
                };
                !has_line || (position_fits_of(st, "line") && position_fits_of(st, "character"))
            },
            None => true,
        },
        None => true,
    }
}

/// Why an `lsp-broker` reply gave no locations.
#[derive(Debug, Clone, Copy, PartialEq, Eq)]
pub enum ReplyError {
    /// The reply carries an `error` member.
    Lsp,
    /// The reply has no `result` member.
    MissingResult,
    /// The single location of the reply could not be read.
    Location(LocationError),
}

/// The locations that can be read among `items`, in order; the others are
/// skipped.
pub open spec fn readable_locations(items: Seq<Json>) -> Seq<(Seq<char>, u32, u32)>
    decreases items.len(),
{
    if items.len() == 0 {
        Seq::empty()
    } else {
        let front = readable_locations(items.drop_last());
        match location_of(items.last()) {
            Ok(l) => front.push(l),
            Err(_) => front,
        }
    }
}

/// Whether every location of a reply's `result` can be made 1-based.
pub open spec fn reply_fits(reply: Json) -> bool {
    json_get(reply, "error"@) is Some || match json_get(reply, "result"@) {
        Some(Json::Object(m)) => location_fits(Json::Object(m)),
        Some(Json::Array(items)) => forall|k: int| 0 <= k < items@.len() ==> location_fits(#[trigger] items@[k]),
        _ => true,
    }
}

/// Whether every location of a reply can be made 1-based (see
/// `reply_fits`).
pub fn reply_positions_fit(reply: &Json) -> (r: bool)
    ensures
        r == reply_fits(*reply),
{
    if reply.get("error").is_some() {
        return true;
    }
    match reply.get("result") {
        Some(res) => match res {
            Json::Object(_) => location_positions_fit(res),
            Json::Array(items) => {
                let n = items.len();
                let mut i: usize = 0;
                while i < n
                    invariant
                        n == items@.len(),
                        i <= n,
                        forall|k: int| 0 <= k < i ==> location_fits(#[trigger] items@[k]),
                        json_get(*reply, "result"@) == Some(Json::Array(*items)),
                        json_get(*reply, "error"@) is None,
                    decreases n - i,
                {
                    if !location_positions_fit(&items[i]) {
                        let ghost v = json_get(*reply, "result"@);
                        assert(v matches Some(Json::Array(its)) && its@[i as int] == items@[i as int]);
                        assert(!location_fits(items@[i as int]));
                        return false;
                    }
                    i = i + 1;
                }
                true
            },
            _ => true,
        },
        None => true,
    }
}

/// The locations of an LSP reply: an error member fails; a single location
/// object must be readable; from an array the readable ones are kept; any
/// other result holds none.
pub open spec fn reply_locations(reply: Json) -> Result<Seq<(Seq<char>, u32, u32)>, ReplyError> {
    match json_get(reply, "error"@) {
        Some(_) => Err(ReplyError::Lsp),
        None => match json_get(reply, "result"@) {
            None => Err(ReplyError::MissingResult),
            Some(Json::Object(m)) => match location_of(Json::Object(m)) {
                Ok(l) => Ok(seq![l]),
                Err(e) => Err(ReplyError::Location(e)),
            },
            Some(Json::Array(items)) => Ok(readable_locations(items@)),
            Some(_) => Ok(Seq::empty()),
        },
    }
}

/// The text of read locations.
pub open spec fn locations_text(v: Seq<(String, u32, u32)>) -> Seq<(Seq<char>, u32, u32)> {
    v.map_values(|x: (String, u32, u32)| (x.0@, x.1, x.2))
}

/// Reads the locations of an `lsp-broker` reply (see `reply_locations`).
pub fn extract_locations(reply: &Json) -> (r: Result<Vec<(String, u32, u32)>, ReplyError>)
    requires
        reply_fits(*reply),
    ensures
        match reply_locations(*reply) {
            Ok(ls) => r matches Ok(v) && locations_text(v@) == ls,
            Err(e) => r matches Err(x) && x == e,
        },
{
    if reply.get("error").is_some() {
        return Err(ReplyError::Lsp);
    }
    let result = match reply.get("result") {
        Some(r) => r,
        None => {
            return Err(ReplyError::MissingResult);
        },
    };
    let mut found: Vec<(String, u32, u32)> = Vec::new();
    match result {
        Json::Object(_) => {
            match parse_location(result) {
                Ok(l) => {
                    found.push(l);
                    assert(locations_text(found@) =~= seq![(l.0@, l.1, l.2)]);
                },
                Err(e) => {
                    return Err(ReplyError::Location(e));
                },
            }
        },
        Json::Array(items) => {
            let n = items.len();
            for i in 0..n
                invariant
                    n == items@.len(),
                    forall|k: int| 0 <= k < items@.len() ==> location_fits(#[trigger] items@[k]),
                    locations_text(found@) == readable_locations(items@.take(i as int)),
            {
                assert(items@.take(i + 1).drop_last() =~= items@.take(i as int));
                assert(items@.take(i + 1).last() == items@[i as int]);
                match parse_location(&items[i]) {
                    Ok(l) => {
                        let ghost before = found@;
                        found.push(l);
                        assert(locations_text(found@) =~= locations_text(before).push((l.0@, l.1, l.2)));
                    },
                    Err(_) => {},
                }
            }
            assert(items@.take(n as int) =~= items@);
        },
        _ => {
            assert(locations_text(found@) =~= Seq::empty());
        },
    }
    Ok(found)
}


/// Why the body of an `lsp-broker` reply gave no locations.
#[derive(Debug, Clone, Copy, PartialEq, Eq)]
pub enum BodyError {
    /// The body is not UTF-8.
    NotUtf8,
    /// The body is not one JSON document.
    NotJson,
    /// The reply holds no locations (see `ReplyError`).
    Reply(ReplyError),
}

/// What the body of an `lsp-broker` reply gives: its text, parsed as JSON,
/// read for locations (see `reply_locations`). `None` where a position
/// would overflow when made 1-based (see `reply_fits`).
pub open spec fn body_locations(body: Seq<u8>) -> Option<Result<Seq<(Seq<char>, u32, u32)>, BodyError>> {
    if !valid_utf8(body) {
        Some(Err(BodyError::NotUtf8))
    } else {
        match json_parse(decode_utf8(body)) {
            None => Some(Err(BodyError::NotJson)),
            Some(reply) => if reply_fits(reply) {
                match reply_locations(reply) {
                    Ok(ls) => Some(Ok(ls)),
                    Err(e) => Some(Err(BodyError::Reply(e))),
                }
            } else {
                None
            },
        }
    }
}

/// Reads the body of an `lsp-broker` reply (see `body_locations`): UTF-8
/// text, a JSON document, then its locations. `None` stands for a position
/// that cannot be made 1-based.
pub fn broker_reply(body: Vec<u8>) -> (r: Option<Result<Vec<(String, u32, u32)>, BodyError>>)
    ensures
        match body_locations(body@) {
            None => r is None,
            Some(Ok(ls)) => r matches Some(Ok(v)) && locations_text(v@) == ls,
            Some(Err(e)) => r == Some(Err::<Vec<(String, u32, u32)>, BodyError>(e)),
        },
{
    let text = match string_from_utf8(body) {
        Some(t) => t,
        None => {
            return Some(Err(BodyError::NotUtf8));
        },
    };
    let reply = match parse_json(text.as_str()) {
        Some(j) => j,
        None => {
            return Some(Err(BodyError::NotJson));
        },
    };
    if !reply_positions_fit(&reply) {
        return None;
    }
    match extract_locations(&reply) {
        Ok(v) => Some(Ok(v)),
        Err(e) => Some(Err(BodyError::Reply(e))),
    }
}

/// What a header line of an `lsp-broker` reply says.
#[derive(Debug, Clone, Copy, PartialEq, Eq)]
pub enum HeaderLine {
    /// The blank line that ends the header.
    End,
    /// `Content-Length: <n>`.
    ContentLength(usize),
    /// A `Content-Length` line whose value is not a number.
    BadContentLength,
    /// Any other header line.
    Other,
}

/// `c` in lower case, for ASCII letters.
pub open spec fn ascii_lower(c: char) -> char {
    if 'A' <= c && c <= 'Z' {
        ((c as u32) + 32) as char
    } else {
        c
    }
}

/// Whether `s` begins with `pre` (lower case), ignoring ASCII case. This is
/// `s.to_lowercase().starts_with(pre)` for the prefix `content-length:`,
/// none of whose characters is the lower case of a non-ASCII character.
pub open spec fn starts_with_ignoring_case(s: Seq<char>, pre: Seq<char>) -> bool {
    pre.len() <= s.len() && forall|k: int| 0 <= k < pre.len() ==> ascii_lower(#[trigger] s[k]) == pre[k]
}

/// What a header line says: the blank line ends the header; a
/// `Content-Length:` line (any case) gives the trimmed number between its
/// first and second `:`.
pub open spec fn header_line(line: Seq<char>) -> HeaderLine {
    if line == "\r\n"@ || line == "\n"@ {
        HeaderLine::End
    } else if starts_with_ignoring_case(line, "content-length:"@) {
        let parts = split_char(line, ':');
        if parts.len() >= 2 {
            match parse_usize(trim(parts[1])) {
                Some(n) => HeaderLine::ContentLength(n),
                None => HeaderLine::BadContentLength,
            }
        } else {
            HeaderLine::Other
        }
    } else {
        HeaderLine::Other
    }
}

fn ascii_lower_of(c: char) -> (r: char)
    ensures
        r == ascii_lower(c),
{
    if 'A' <= c && c <= 'Z' {
        ((c as u32) + 32) as u8 as char
    } else {
        c
    }
}

/// Reads one header line (with its line ending) of a reply.
pub fn scan_header_line(line: &str) -> (r: HeaderLine)
    ensures
        r == header_line(line@),
{
    if str_eq(line, "\r\n") || str_eq(line, "\n") {
        return HeaderLine::End;
    }
    let l = chars_of(line);
    let pre = chars_of("content-length:");
    if pre.len() > l.len() {
        return HeaderLine::Other;
    }
    let mut k: usize = 0;
    while k < pre.len()
        invariant
            pre.len() <= l.len(),
            k <= pre.len(),
            pre@ == "content-length:"@,
            l@ == line@,
            !(line@ == "\r\n"@ || line@ == "\n"@),
            forall|m: int| 0 <= m < k ==> ascii_lower(#[trigger] l@[m]) == pre@[m],
        decreases pre.len() - k,
    {
        if ascii_lower_of(l[k]) != pre[k] {
            return HeaderLine::Other;
        }
        k = k + 1;
    }
    let parts = split_chars(&l, ':');
    if parts.len() < 2 {
        return HeaderLine::Other;
    }
    let value = trim_chars(&parts[1]);
    match parse_usize_chars(&value) {
        Some(n) => HeaderLine::ContentLength(n),
        None => HeaderLine::BadContentLength,
    }
}

/// Why the header of a reply could not be read.
#[derive(Debug, Clone, Copy, PartialEq, Eq)]
pub enum HeaderFailure {
    /// The connection closed before the blank line.
    Eof,
    /// A `Content-Length` value is not a number.
    BadContentLength,
    /// The header ended without a `Content-Length`.
    MissingContentLength,
}

/// Where reading a reply's header stands after one more line.
#[derive(Debug, Clone, Copy, PartialEq, Eq)]
pub enum HeaderStep {
    /// Read the next line; the length known so far.
    Continue(Option<usize>),
    /// The header is over: read a body of this many bytes.
    Body(usize),
    /// The reply cannot be read.
    Fail(HeaderFailure),
}

/// The next step of reading a header, given the length known so far and
/// the next line (`None` at the end of the stream). The last
/// `Content-Length` line counts.
pub open spec fn next_header_step(known: Option<usize>, line: Option<Seq<char>>) -> HeaderStep {
    match line {
        None => HeaderStep::Fail(HeaderFailure::Eof),
        Some(l) => match header_line(l) {
            HeaderLine::End => match known {
                Some(n) => HeaderStep::Body(n),
                None => HeaderStep::Fail(HeaderFailure::MissingContentLength),
            },
            HeaderLine::ContentLength(n) => HeaderStep::Continue(Some(n)),
            HeaderLine::BadContentLength => HeaderStep::Fail(HeaderFailure::BadContentLength),
            HeaderLine::Other => HeaderStep::Continue(known),
        },
    }
}

/// One step of reading the header of an `lsp-broker` reply (see
/// `next_header_step`); the caller reads the lines.
pub fn header_step(known: Option<usize>, line: Option<&str>) -> (r: HeaderStep)
    ensures
        r == next_header_step(
            known,
            match line {
                Some(l) => Some(l@),
                None => None,
            },
        ),
{
    match line {
        None => HeaderStep::Fail(HeaderFailure::Eof),
        Some(l) => match scan_header_line(l) {
            HeaderLine::End => match known {
                Some(n) => HeaderStep::Body(n),
                None => HeaderStep::Fail(HeaderFailure::MissingContentLength),
            },
            HeaderLine::ContentLength(n) => HeaderStep::Continue(Some(n)),
            HeaderLine::BadContentLength => HeaderStep::Fail(HeaderFailure::BadContentLength),
            HeaderLine::Other => HeaderStep::Continue(known),
        },
    }
}

/// A request framed for `lsp-broker`: `Content-Length: <bytes>`, a blank
/// line, then the body.
pub open spec fn framed(body: &str) -> Seq<char> {
    "Content-Length: "@ + dec((body.spec_bytes().len() as usize) as nat) + "\r\n\r\n"@ + body@
}

/// Frames a request body for `lsp-broker`.
pub fn frame_request(body: &str) -> (r: String)
    ensures
        r@ == framed(body),
{
    let mut r = own("Content-Length: ");
    let len = body.len();
    r.append(dec_string(len as u64).as_str());
    r.append("\r\n\r\n");
    r.append(body);
    r
}

/// What is asked of `lsp-broker`: the method, the document, and the
/// 0-based position.
#[derive(Debug)]
pub struct BrokerQuery {
    pub method: String,
    pub uri: String,
    pub line: u32,
    pub character: u32,
    /// References ask to include the declaration.
    pub include_declaration: bool,
}

/// The query for definitions (or references) of the symbol at a 1-based
/// position of a file.
pub fn broker_query(is_defs: bool, active_file: &str, line: u32, col: u32) -> (r: BrokerQuery)
    ensures
        r.method@ == (if is_defs {
            "textDocument/definition"@
        } else {
            "textDocument/references"@
        }),
        r.uri@ == "file://"@ + active_file@,
        r.line == (if line == 0 { 0 } else { line - 1 }),
        r.character == (if col == 0 { 0 } else { col - 1 }),
        r.include_declaration == !is_defs,
{
    let method = if is_defs {
        own("textDocument/definition")
    } else {
        own("textDocument/references")
    };
    BrokerQuery {
        method,
        uri: concat("file://", active_file),
        line: line.saturating_sub(1),
        character: col.saturating_sub(1),
        include_declaration: !is_defs,
    }
}

/// Whether `j` is the string `s`.
pub open spec fn is_json_str(j: Json, s: Seq<char>) -> bool {
    j matches Json::Str(t) && t@ == s
}

/// Whether `j` is the non-negative integer `n`.
pub open spec fn is_json_uint(j: Json, n: nat) -> bool {
    j matches Json::Number(JsonNumber::PosInt(u)) && u == n
}

/// Whether `j` is the `params` of a query: `{"textDocument": {"uri":
/// <uri>}, "position": {"line": <line>, "character": <character>}}`, with
/// `"context": {"includeDeclaration": true}` last when the query asks to
/// include the declaration.
pub open spec fn is_params_json(j: Json, q: BrokerQuery) -> bool {
    &&& j matches Json::Object(p)
    &&& p@.len() == (if q.include_declaration { 3int } else { 2int })
    &&& p@[0].0@ == "textDocument"@
    &&& p@[0].1 matches Json::Object(td) && td@.len() == 1 && td@[0].0@ == "uri"@ && is_json_str(
        td@[0].1,
        q.uri@,
    )
    &&& p@[1].0@ == "position"@
    &&& p@[1].1 matches Json::Object(pos) && pos@.len() == 2 && pos@[0].0@ == "line"@ && is_json_uint(
        pos@[0].1,
        q.line as nat,
    ) && pos@[1].0@ == "character"@ && is_json_uint(pos@[1].1, q.character as nat)
    &&& q.include_declaration ==> p@[2].0@ == "context"@ && (p@[2].1 matches Json::Object(c) && c@.len()
        == 1 && c@[0].0@ == "includeDeclaration"@ && c@[0].1 == Json::Bool(true))
}

/// Whether `j` is the JSON-RPC request of a query: `{"jsonrpc": "2.0",
/// "id": 1, "method": <method>, "params": <params>}`.
pub open spec fn is_request_json(j: Json, q: BrokerQuery) -> bool {
    &&& j matches Json::Object(m)
    &&& m@.len() == 4
    &&& m@[0].0@ == "jsonrpc"@ && is_json_str(m@[0].1, "2.0"@)
    &&& m@[1].0@ == "id"@ && is_json_uint(m@[1].1, 1)
    &&& m@[2].0@ == "method"@ && is_json_str(m@[2].1, q.method@)
    &&& m@[3].0@ == "params"@ && is_params_json(m@[3].1, q)
}

fn object_of_one(key: &str, value: Json) -> (r: Json)
    ensures
        r matches Json::Object(m) && m@.len() == 1 && m@[0].0@ == key@ && m@[0].1 == value,
{
    let mut m: Vec<(String, Json)> = Vec::new();
    m.push((own(key), value));
    Json::Object(m)
}

/// The JSON-RPC request of a query (see `is_request_json`).
pub fn request_json(q: &BrokerQuery) -> (r: Json)
    ensures
        is_request_json(r, *q),
{
    let mut pos: Vec<(String, Json)> = Vec::new();
    pos.push((own("line"), Json::Number(JsonNumber::PosInt(q.line as u64))));
    pos.push((own("character"), Json::Number(JsonNumber::PosInt(q.character as u64))));
    let mut params: Vec<(String, Json)> = Vec::new();
    params.push((own("textDocument"), object_of_one("uri", Json::Str(q.uri.clone()))));
    params.push((own("position"), Json::Object(pos)));
    if q.include_declaration {
        params.push((own("context"), object_of_one("includeDeclaration", Json::Bool(true))));
    }
    let mut m: Vec<(String, Json)> = Vec::new();
    m.push((own("jsonrpc"), Json::Str(own("2.0"))));
    m.push((own("id"), Json::Number(JsonNumber::PosInt(1))));
    m.push((own("method"), Json::Str(q.method.clone())));
    m.push((own("params"), Json::Object(params)));
    Json::Object(m)
}

/// The JSON-RPC request body of a query: the request (see
/// `is_request_json`) as serde_json writes it.
pub fn request_body(q: &BrokerQuery) -> (r: String)
    ensures
        exists|j: Json| is_request_json(j, *q) && r@ == json_render(j),
{
    let j = request_json(q);
    render_json(&j)
}

/// `s` without every leading copy of `pre` (`str::trim_start_matches`).
pub open spec fn strip_all_prefix(s: Seq<char>, pre: Seq<char>) -> Seq<char>
    decreases s.len(),
{
    if pre.len() > 0 && starts_with(s, pre) {
        strip_all_prefix(s.subrange(pre.len() as int, s.len() as int), pre)
    } else {
        s
    }
}

/// The file path of a location URI: without its `file://` prefixes,
/// percent-decoded.
pub fn location_path(uri: &str) -> (r: String)
    ensures
        r@ == percent_decoded(strip_all_prefix(uri@, "file://"@)),
{
    let pre = chars_of("file://");
    let mut rest = chars_of(uri);
    proof {
        reveal_strlit("file://");
    }
    while pre.len() > 0 && starts_with_in(&rest, &pre)
        invariant
            pre@ == "file://"@,
            strip_all_prefix(uri@, "file://"@) == strip_all_prefix(rest@, "file://"@),
        decreases rest@.len(),
    {
        rest = slice_chars(&rest, pre.len(), rest.len());
    }
    let path = string_of(&rest);
    percent_decode(path.as_str())
}

/// One match shown in the list.
#[derive(Debug, Clone)]
pub struct MatchItem {
    pub file_path: String,
    pub line: u32,
    pub column: u32,
    /// e.g. `Match in main.rs at line 12`.
    pub label: String,
    /// The text of the matched line.
    pub snippet: String,
}

/// The file name shown for a path: its last component, or the whole path.
pub open spec fn shown_name(path: Seq<char>) -> Seq<char> {
    match path_file_name(path) {
        Some(n) => n,
        None => path,
    }
}

fn shown_name_of(path: &str) -> (r: String)
    ensures
        r@ == shown_name(path@),
{
    match file_name_of(path) {
        Some(n) => n,
        None => own(path),
    }
}

/// The match for a location: labelled `Match in <file name> at line <n>`.
pub fn match_item(file_path: String, line: u32, column: u32, snippet: String) -> (r: MatchItem)
    ensures
        r.file_path == file_path,
        r.line == line,
        r.column == column,
        r.snippet == snippet,
        r.label@ == "Match in "@ + shown_name(file_path@) + " at line "@ + dec(line as nat),
{
    let mut label = own("Match in ");
    label.append(shown_name_of(file_path.as_str()).as_str());
    label.append(" at line ");
    label.append(dec_string(line as u64).as_str());
    MatchItem { file_path, line, column, label, snippet }
}

/// The match shown for a read location: its path (see `location_path`),
/// its position, and the label `match_item` gives it.
pub open spec fn location_match(m: MatchItem, loc: (String, u32, u32)) -> bool {
    &&& m.file_path@ == percent_decoded(strip_all_prefix(loc.0@, "file://"@))
    &&& m.line == loc.1
    &&& m.column == loc.2
    &&& m.label@ == "Match in "@ + shown_name(m.file_path@) + " at line "@ + dec(loc.1 as nat)
}

/// The snippet of a match is what `snippet_of` read for its file and line.
pub open spec fn snippet_read<S: Fn(&str, u32) -> String>(snippet_of: S, m: MatchItem) -> bool {
    exists|p: &str| p@ == m.file_path@ && snippet_of.ensures((p, m.line), m.snippet)
}

/// The matches for the read locations, in order, each with the text of its
/// line as `snippet_of` reads it from the file.
pub fn location_matches<S: Fn(&str, u32) -> String>(
    locations: &Vec<(String, u32, u32)>,
    snippet_of: S,
) -> (r: Vec<MatchItem>)
    requires
        forall|p: &str, l: u32| snippet_of.requires((p, l)),
    ensures
        r@.len() == locations@.len(),
        forall|i: int|
            0 <= i < r@.len() ==> location_match(#[trigger] r@[i], locations@[i]) && snippet_read(
                snippet_of,
                r@[i],
            ),
{
    let mut r: Vec<MatchItem> = Vec::new();
    let n = locations.len();
    for i in 0..n
        invariant
            n == locations@.len(),
            r@.len() == i,
            forall|p: &str, l: u32| snippet_of.requires((p, l)),
            forall|k: int|
                0 <= k < i ==> location_match(#[trigger] r@[k], locations@[k]) && snippet_read(
                    snippet_of,
                    r@[k],
                ),
    {
        let line = locations[i].1;
        let path = location_path(locations[i].0.as_str());
        let ps = path.as_str();
        let snippet = snippet_of(ps, line);
        let m = match_item(path.clone(), line, locations[i].2, snippet);
        assert(snippet_of.ensures((ps, m.line), m.snippet));
        r.push(m);
    }
    r
}

/// The row text under a match's label: `<file name>:<line>  -  <snippet>`,
/// the snippet trimmed.
pub fn row_subtitle(item: &MatchItem) -> (r: String)
    ensures
        r@ == shown_name(item.file_path@) + ":"@ + dec(item.line as nat) + "  -  "@ + trim(
            item.snippet@,
        ),
{
    let mut r = shown_name_of(item.file_path.as_str());
    r.append(":");
    r.append(dec_string(item.line as u64).as_str());
    r.append("  -  ");
    let s = chars_of(item.snippet.as_str());
    let t = trim_chars(&s);
    r.append(string_of(&t).as_str());
    r
}

/// The editor argument that opens a match: `<path>:<line>:<column>`.
pub fn editor_target(item: &MatchItem) -> (r: String)
    ensures
        r@ == item.file_path@ + ":"@ + dec(item.line as nat) + ":"@ + dec(item.column as nat),
{
    let mut r = concat(item.file_path.as_str(), ":");
    r.append(dec_string(item.line as u64).as_str());
    r.append(":");
    r.append(dec_string(item.column as u64).as_str());
    r
}

/// The 0-based line the preview scrolls to for a match.
pub fn preview_line_index(item: &MatchItem) -> (r: u32)
    ensures
        r == (if item.line == 0 { 0 } else { item.line - 1 }),
{
    item.line.saturating_sub(1)
}

/// The window title.
pub fn window_title(is_refs: bool) -> (r: &'static str)
    ensures
        r@ == (if is_refs {
            "Peek References"@
        } else {
            "Peek Definition"@
        }),
{
    if is_refs {
        "Peek References"
    } else {
        "Peek Definition"
    }
}


/// What the command line asks for.
#[derive(Debug, Clone, Copy, PartialEq, Eq)]
pub enum Invocation {
    /// `-h` / `--help` anywhere: print the help text.
    Help,
    /// Peek at definitions and/or references.
    Peek { is_defs: bool, is_refs: bool },
}

/// Whether one of the arguments from index `from` on is `a` or `b`.
pub open spec fn has_flag(args: Seq<String>, from: int, a: Seq<char>, b: Seq<char>) -> bool {
    exists|i: int| from <= i < args.len() && (#[trigger] args[i]@ == a || args[i]@ == b)
}

/// What the arguments (the program name first) ask for: help when any is
/// `--help` or `-h`; else definitions (`-d`, `--definitions`) and/or
/// references (`-r`, `--references`), definitions when neither is given.
pub open spec fn invocation_of(args: Seq<String>) -> Invocation {
    if has_flag(args, 0, "--help"@, "-h"@) {
        Invocation::Help
    } else {
        let refs = has_flag(args, 1, "--references"@, "-r"@);
        let defs = has_flag(args, 1, "--definitions"@, "-d"@);
        Invocation::Peek { is_defs: defs || !refs, is_refs: refs }
    }
}

fn find_flag(args: &Vec<String>, from: usize, a: &str, b: &str) -> (r: bool)
    ensures
        r == has_flag(args@, from as int, a@, b@),
{
    let mut i = from;
    while i < args.len()
        invariant
            from <= i || i >= args.len(),
            forall|k: int| from <= k < i && k < args@.len() ==> !(#[trigger] args@[k]@ == a@ || args@[k]@ == b@),
        decreases args.len() - i,
    {
        if str_eq(args[i].as_str(), a) || str_eq(args[i].as_str(), b) {
            assert(args@[i as int]@ == a@ || args@[i as int]@ == b@);
            return true;
        }
        i = i + 1;
    }
    false
}

/// Reads the command line (see `invocation_of`).
pub fn parse_invocation(args: &Vec<String>) -> (r: Invocation)
    ensures
        r == invocation_of(args@),
{
    if find_flag(args, 0, "--help", "-h") {
        return Invocation::Help;
    }
    let is_refs = find_flag(args, 1, "--references", "-r");
    let is_defs = find_flag(args, 1, "--definitions", "-d");
    Invocation::Peek { is_defs: is_defs || !is_refs, is_refs }
}

/// The file peeked at when the context names none.
pub open spec fn default_file() -> Seq<char> {
    "/media/veracrypt1/_PROJECTS/_Future/Current/src/main.rs"@
}

/// Where to peek: the attended file and its primary caret, defaulting to
/// `default_file` and line 1, column 1.
pub fn peek_target(context: &ContextResponse) -> (r: (String, u32, u32))
    ensures
        r.0@ == (match context.attention {
            Some(a) => a.file@,
            None => default_file(),
        }),
        r.1 == (match context.attention {
            Some(a) => if a.selections@.len() > 0 { a.selections@[0].line } else { 1 },
            None => 1,
        }),
        r.2 == (match context.attention {
            Some(a) => if a.selections@.len() > 0 { a.selections@[0].column } else { 1 },
            None => 1,
        }),
{
    match &context.attention {
        Some(a) => {
            let (line, col) = if a.selections.len() > 0 {
                (a.selections[0].line, a.selections[0].column)
            } else {
                (1, 1)
            };
            (a.file.clone(), line, col)
        },
        None => (own("/media/veracrypt1/_PROJECTS/_Future/Current/src/main.rs"), 1, 1),
    }
}

/// The context used when `current` cannot be reached: a mock editor at
/// line 10, column 8 of `default_file`.
pub fn fallback_context() -> (r: ContextResponse)
    ensures
        r@ == (
            Some("mock-editor"@),
            Some(9999u32),
            Some(
                (
                    default_file(),
                    seq![Selection { line: 10, column: 8, anchor_line: 10, anchor_column: 8 }],
                ),
            ),
        ),
{
    let mut selections: Vec<Selection> = Vec::new();
    selections.push(Selection { line: 10, column: 8, anchor_line: 10, anchor_column: 8 });
    let r = ContextResponse {
        app_id: Some(own("mock-editor")),
        pid: Some(9999),
        attention: Some(
            Attention {
                file: own("/media/veracrypt1/_PROJECTS/_Future/Current/src/main.rs"),
                selections,
            },
        ),
    };
    assert(selections@ =~= seq![Selection { line: 10, column: 8, anchor_line: 10, anchor_column: 8 }]);
    r
}

/// The model of a match: path, line, column, label, snippet.
pub open spec fn match_view(m: MatchItem) -> (Seq<char>, u32, u32, Seq<char>, Seq<char>) {
    (m.file_path@, m.line, m.column, m.label@, m.snippet@)
}

fn mock(file_path: String, line: u32, column: u32, label: &str, snippet: &str) -> (r: MatchItem)
    ensures
        match_view(r) == (file_path@, line, column, label@, snippet@),
{
    MatchItem { file_path, line, column, label: own(label), snippet: own(snippet) }
}

/// The matches shown when `lsp-broker` cannot answer: sample definitions
/// or references around `active_file`.
pub open spec fn fallback_matches_spec(is_defs: bool, active_file: Seq<char>) -> Seq<(Seq<char>, u32, u32, Seq<char>, Seq<char>)> {
    if is_defs {
        seq![
            (active_file, 10u32, 8u32, "struct Selection (Mock Definition)"@, "struct Selection {"@),
            (
                "/media/veracrypt1/_PROJECTS/_Future/TO-DAY/src/ui.rs"@,
                10u32,
                8u32,
                "pub fn activate (Mock Alt Definition)"@,
                "pub fn activate(application: &gtk::Application, state: AppState) {"@,
            ),
        ]
    } else {
        seq![
            (active_file, 10u32, 8u32, "Selection definition (Mock)"@, "struct Selection {"@),
            (active_file, 20u32, 20u32, "Selection field in Attention (Mock)"@, "    selections: Vec<Selection>,"@),
            (
                default_file(),
                10u32,
                8u32,
                "Selection struct definition in Current (Mock)"@,
                "struct Selection {"@,
            ),
            (
                "/media/veracrypt1/_PROJECTS/_Future/TO-DAY/src/ui.rs"@,
                5u32,
                16u32,
                "use crate::AppState reference (Mock)"@,
                "use crate::AppState;"@,
            ),
        ]
    }
}

/// The sample matches shown when `lsp-broker` cannot answer.
pub fn fallback_matches(is_defs: bool, active_file: &str) -> (r: Vec<MatchItem>)
    ensures
        r@.map_values(|m: MatchItem| match_view(m)) == fallback_matches_spec(is_defs, active_file@),
{
    let mut r: Vec<MatchItem> = Vec::new();
    if is_defs {
        r.push(mock(own(active_file), 10, 8, "struct Selection (Mock Definition)", "struct Selection {"));
        r.push(
            mock(
                own("/media/veracrypt1/_PROJECTS/_Future/TO-DAY/src/ui.rs"),
                10,
                8,
                "pub fn activate (Mock Alt Definition)",
                "pub fn activate(application: &gtk::Application, state: AppState) {",
            ),
        );
    } else {
        r.push(mock(own(active_file), 10, 8, "Selection definition (Mock)", "struct Selection {"));
        r.push(
            mock(
                own(active_file),
                20,
                20,
                "Selection field in Attention (Mock)",
                "    selections: Vec<Selection>,",
            ),
        );
        r.push(
            mock(
                own("/media/veracrypt1/_PROJECTS/_Future/Current/src/main.rs"),
                10,
                8,
                "Selection struct definition in Current (Mock)",
                "struct Selection {",
            ),
        );
        r.push(
            mock(
                own("/media/veracrypt1/_PROJECTS/_Future/TO-DAY/src/ui.rs"),
                5,
                16,
                "use crate::AppState reference (Mock)",
                "use crate::AppState;",
            ),
        );
    }
    assert(r@.map_values(|m: MatchItem| match_view(m)) =~= fallback_matches_spec(is_defs, active_file@));
    r
}


/// The header line a framed request starts with reads back as its length:
/// `Content-Length: <n>` followed by a line ending gives `n`.
#[verifier::spinoff_prover]
#[verifier::rlimit(40)]
pub proof fn law_content_length_roundtrip(n: usize)
    ensures
        header_line("Content-Length: "@ + dec(n as nat) + "\r\n"@) == HeaderLine::ContentLength(n),
{
    reveal_strlit("Content-Length: ");
    reveal_strlit("content-length:");
    reveal_strlit("\r\n");
    reveal_strlit("\n");
    let d = dec(n as nat);
    lemma_dec_digits(n as nat);
    let s = "Content-Length: "@ + d + "\r\n"@;
    assert(s.len() == 18 + d.len());
    assert(s != "\r\n"@ && s != "\n"@) by {
        assert(s.len() != "\r\n"@.len());
        assert(s.len() != "\n"@.len());
    }
    let pre = "content-length:"@;
    assert(s[0] == 'C' && s[1] == 'o' && s[2] == 'n' && s[3] == 't' && s[4] == 'e');
    assert(s[5] == 'n' && s[6] == 't' && s[7] == '-' && s[8] == 'L' && s[9] == 'e');
    assert(s[10] == 'n' && s[11] == 'g' && s[12] == 't' && s[13] == 'h' && s[14] == ':');
    assert(s[15] == ' ');
    assert(ascii_lower('C') == 'c');
    assert(ascii_lower('L') == 'l');
    assert(starts_with_ignoring_case(s, pre));
    assert forall|k: int| 0 <= k < 14 implies s[k] != ':' by {}
    lemma_find_char_skip(s, ':', 0, 14);
    assert(find_char(s, ':') == Some(14int));
    let rest = s.subrange(15, s.len() as int);
    assert(rest =~= seq![' '] + d + seq!['\r', '\n']);
    assert forall|k: int| 0 <= k < rest.len() implies rest[k] != ':' by {
        if 1 <= k < 1 + d.len() {
            assert(rest[k] == d[k - 1]);
            assert(is_digit(d[k - 1]));
        }
    }
    lemma_find_char_skip(rest, ':', 0, rest.len() as int);
    assert(split_char(rest, ':') =~= seq![rest]);
    let parts = split_char(s, ':');
    assert(parts =~= seq![s.subrange(0, 14)] + seq![rest]);
    assert(parts[1] == rest);
    let r1 = rest.drop_first();
    assert(r1 =~= d + seq!['\r', '\n']);
    assert(!is_ws(d[0])) by {
        assert(is_digit(d[0]));
    }
    assert(r1[0] == d[0]);
    assert(trim_start(rest) == trim_start(r1));
    assert(trim_start(r1) == r1);
    assert(r1.drop_last() =~= d + seq!['\r']);
    assert(r1.drop_last().drop_last() =~= d);
    assert(!is_ws(d.last())) by {
        assert(is_digit(d[d.len() - 1]));
    }
    assert(trim_end(r1) == trim_end(r1.drop_last()));
    assert(trim_end(r1.drop_last()) == trim_end(d));
    assert(trim_end(d) == d);
    lemma_parse_dec(n as nat, usize::MAX as nat);
}

} // verus!
