//! Contracts for the outside crates that the library calls: sha2 and hex for
//! content hashes, serde_json for JSON string literals, uuid for identifiers,
//! cron and chrono for UTC schedules, subtle for constant-time comparison and
//! url for control-plane origins. Each item below is trusted, not proved.
use vstd::prelude::*;
use subtle::ConstantTimeEq;
use sha2::Digest;
use vstd::utf8::encode_utf8;
use crate::text::bytes_lt;

verus! {

/// Earliest instant (whole seconds since the Unix epoch) the library hands to chrono:
/// 0000-01-01T00:00:00Z.
pub const MIN_UTC_SECONDS: i64 = -62_167_219_200;

/// Latest instant the library hands to chrono: 9999-12-31T23:59:59Z.
pub const MAX_UTC_SECONDS: i64 = 253_402_300_799;

/// First instant after the last one a cron schedule can yield (cron years end at 2100):
/// 2101-01-01T00:00:00Z.
pub const CRON_HORIZON_SECONDS: i64 = 4_133_980_800;

// ------------------------------------------------------------------ names

/// SHA-256 digest of a byte string.
pub uninterp spec fn sha256(bytes: Seq<u8>) -> Seq<u8>;


/// Hyphenated text of the version-5 UUID named `name` in `namespace`.
pub uninterp spec fn uuid_v5_text(namespace: u128, name: Seq<u8>) -> Seq<char>;

/// Hyphenated lower-case text of the UUID that `text` spells, if it spells one.
pub uninterp spec fn uuid_canonical_text(text: Seq<char>) -> Option<Seq<char>>;

/// The error text cron reports for `text`, or `None` when `text` is a valid schedule.
pub uninterp spec fn cron_error_text(text: Seq<char>) -> Option<Seq<char>>;

/// First instant (whole UTC seconds) after `after` that the cron schedule `text` matches.
pub uninterp spec fn cron_next(text: Seq<char>, after: int) -> Option<int>;

/// RFC 3339 text (`YYYY-MM-DDTHH:MM:SSZ`) of a UTC instant in whole seconds.
pub uninterp spec fn utc_rfc3339(seconds: int) -> Seq<char>;

/// The instant an RFC 3339 text denotes, as (seconds since the epoch, sub-second nanoseconds).
pub uninterp spec fn rfc3339_instant(text: Seq<char>) -> Option<(int, int)>;

/// The text `serde_json::to_string_pretty` writes for the JSON value that `text`
/// spells, or `None` when `text` is not JSON.
pub uninterp spec fn json_pretty_text(text: Seq<char>) -> Option<Seq<char>>;

/// What `url::Url::parse` reports of a text: scheme, user name, whether a password,
/// path, whether a query, whether a fragment, and the address of an IP host
/// (four octets or eight segments), or `None` when the text is no URL.
pub uninterp spec fn url_parts(text: Seq<char>) -> Option<
    (Seq<char>, Seq<char>, bool, Seq<char>, bool, bool, Option<Seq<u16>>),
>;

// ------------------------------------------------------------------ hex

pub open spec fn hex_digit(n: int) -> char {
    if n < 10 {
        ((48 + n) as u8) as char
    } else {
        ((87 + n) as u8) as char
    }
}

/// Lower-case hexadecimal text of a byte string, two digits per byte.
pub open spec fn lower_hex(bytes: Seq<u8>) -> Seq<char>
    decreases bytes.len(),
{
    if bytes.len() == 0 {
        Seq::empty()
    } else {
        let b = bytes.last();
        lower_hex(bytes.drop_last()) + seq![hex_digit(b as int / 16), hex_digit(b as int % 16)]
    }
}

// ------------------------------------------------------------------ wrappers

/// `serde_json::from_str::<serde_json::Value>` then `serde_json::to_string_pretty`:
/// the pretty-printed form of the JSON text, or `None` when it is no JSON.
#[verifier::external_body]
pub(crate) fn json_pretty(text: &str) -> (r: Option<String>)
    ensures
        r matches Some(p) ==> json_pretty_text(text@) == Some(p@),
        r is None ==> json_pretty_text(text@) is None,
{
    let value: serde_json::Value = serde_json::from_str(text).ok()?;
    serde_json::to_string_pretty(&value).ok()
}

/// `sha2::Sha256::digest`: the 32-byte SHA-256 digest of `bytes`.
#[verifier::external_body]
pub(crate) fn sha256_digest(bytes: &[u8]) -> (r: Vec<u8>)
    ensures
        r@ == sha256(bytes@),
        r@.len() == 32,
{
    <sha2::Sha256 as Digest>::digest(bytes).to_vec()
}

/// `hex::encode`: lower-case hexadecimal, two digits per byte, in order.
#[verifier::external_body]
pub(crate) fn hex_encode(bytes: &[u8]) -> (r: String)
    ensures
        r@ == lower_hex(bytes@),
{
    hex::encode(bytes)
}

/// Lower-case hexadecimal digit of a value below sixteen.
pub open spec fn json_hex_digit(v: int) -> char {
    if v < 10 {
        ((v + 48) as u32) as char
    } else {
        ((v + 87) as u32) as char
    }
}

/// How serde_json writes one character inside a string literal: a quote and a
/// backslash get a backslash, the five control characters with a short escape
/// get it, every other character below U+0020 becomes `\u00` and two lower-case
/// hex digits, and all else is written as it is.
pub open spec fn json_escaped_char(c: char) -> Seq<char> {
    if c == '"' {
        seq!['\\', '"']
    } else if c == '\\' {
        seq!['\\', '\\']
    } else if c == '\u{8}' {
        seq!['\\', 'b']
    } else if c == '\t' {
        seq!['\\', 't']
    } else if c == '\n' {
        seq!['\\', 'n']
    } else if c == '\u{c}' {
        seq!['\\', 'f']
    } else if c == '\r' {
        seq!['\\', 'r']
    } else if (c as u32) < 0x20 {
        seq!['\\', 'u', '0', '0', json_hex_digit((c as int) / 16), json_hex_digit((c as int) % 16)]
    } else {
        seq![c]
    }
}

/// The characters of a text, each escaped as serde_json escapes it.
pub open spec fn json_escaped(text: Seq<char>) -> Seq<char>
    decreases text.len(),
{
    if text.len() == 0 {
        Seq::empty()
    } else {
        json_escaped_char(text[0]) + json_escaped(text.drop_first())
    }
}

/// The JSON string literal that `serde_json::to_string` writes for a text.
pub open spec fn json_string_literal(text: Seq<char>) -> Seq<char> {
    seq!['"'] + json_escaped(text) + seq!['"']
}

/// `serde_json::to_string` of a string slice: its JSON string literal, escaped
/// by serde_json's `ESCAPE` table and `CompactFormatter::write_char_escape`.
/// serde_json's `Serialize` for `str` writes into a `Vec<u8>` and has no failing
/// path, so the `Err` arm (mapped to an empty text) is never taken.
#[verifier::external_body]
pub(crate) fn json_quote(text: &str) -> (r: String)
    ensures
        r@ == json_string_literal(text@),
{
    serde_json::to_string(text).unwrap_or_default()
}

/// `uuid::Uuid::new_v5(&Uuid::from_u128(namespace), name)`, as hyphenated text.
#[verifier::external_body]
pub(crate) fn uuid_v5(namespace: u128, name: &[u8]) -> (r: String)
    ensures
        r@ == uuid_v5_text(namespace, name@),
{
    uuid::Uuid::new_v5(&uuid::Uuid::from_u128(namespace), name).to_string()
}

/// `uuid::Uuid::parse_str`, answering with the parsed UUID's hyphenated text.
#[verifier::external_body]
pub(crate) fn uuid_parse(text: &str) -> (r: Option<String>)
    ensures
        r matches Some(s) ==> uuid_canonical_text(text@) == Some(s@),
        r is None ==> uuid_canonical_text(text@) is None,
{
    uuid::Uuid::parse_str(text).ok().map(|id| id.to_string())
}

/// `cron::Schedule::from_str`: `None` when `text` parses, else the error's text.
#[verifier::external_body]
pub(crate) fn cron_parse_error(text: &str) -> (r: Option<String>)
    ensures
        r matches Some(s) ==> cron_error_text(text@) == Some(s@),
        r is None ==> cron_error_text(text@) is None,
{
    <cron::Schedule as std::str::FromStr>::from_str(text).err().map(|error| error.to_string())
}

/// Parses `text` with `cron::Schedule::from_str` and takes the first item of
/// `schedule.after(after)` in UTC. cron starts its search one second after
/// `after` and only yields years 1970 through 2100; it yields nothing for a text
/// that does not parse.
#[verifier::external_body]
pub(crate) fn cron_next_after(text: &str, after: i64) -> (r: Option<i64>)
    requires
        MIN_UTC_SECONDS <= after <= MAX_UTC_SECONDS,
    ensures
        r matches Some(t) ==> cron_next(text@, after as int) == Some(t as int),
        r is None ==> cron_next(text@, after as int) is None,
        r matches Some(t) ==> after < t < CRON_HORIZON_SECONDS,
{
    let schedule = <cron::Schedule as std::str::FromStr>::from_str(text).ok()?;
    let start = chrono::DateTime::from_timestamp(after, 0)?;
    schedule.after(&start).next().map(|next| next.timestamp())
}

/// `DateTime::<Utc>::to_rfc3339_opts(SecondsFormat::Secs, true)` of an instant:
/// `YYYY-MM-DDTHH:MM:SSZ` for the years 0000 through 9999, which
/// `DateTime::parse_from_rfc3339` reads back as the same whole second. Every
/// field is zero-padded to a fixed width and the text is ASCII, so the text of
/// an earlier instant in that range sorts before it byte by byte.
#[verifier::external_body]
pub(crate) fn utc_text(seconds: i64) -> (r: String)
    requires
        MIN_UTC_SECONDS <= seconds <= MAX_UTC_SECONDS,
    ensures
        r@ == utc_rfc3339(seconds as int),
        rfc3339_instant(r@) == Some((seconds as int, 0int)),
        forall|t: int|
            MIN_UTC_SECONDS <= t < seconds ==> bytes_lt(
                encode_utf8(#[trigger] utc_rfc3339(t)),
                encode_utf8(r@),
            ),
{
    let instant = chrono::DateTime::from_timestamp(seconds, 0).unwrap();
    instant.to_rfc3339_opts(chrono::SecondsFormat::Secs, true)
}

/// `DateTime::parse_from_rfc3339`, as (timestamp, sub-second nanoseconds).
#[verifier::external_body]
pub(crate) fn parse_rfc3339(text: &str) -> (r: Option<(i64, u32)>)
    ensures
        r matches Some(p) ==> rfc3339_instant(text@) == Some((p.0 as int, p.1 as int)),
        r is None ==> rfc3339_instant(text@) is None,
{
    let instant = chrono::DateTime::parse_from_rfc3339(text).ok()?;
    Some((instant.timestamp(), instant.timestamp_subsec_nanos()))
}

/// `subtle::ConstantTimeEq::ct_eq` on byte slices: true exactly when both
/// slices have the same length and the same bytes.
#[verifier::external_body]
pub(crate) fn bytes_ct_eq(a: &[u8], b: &[u8]) -> (r: bool)
    ensures
        r == (a@ == b@),
{
    bool::from(a.ct_eq(b))
}

/// The pieces of a URL that the control-plane origin check reads.
#[derive(Debug, Clone, PartialEq, Eq)]
pub struct UrlParts {
    pub scheme: String,
    pub username: String,
    pub has_password: bool,
    pub path: String,
    pub has_query: bool,
    pub has_fragment: bool,
    pub host_ip: Option<Vec<u16>>,
}

pub open spec fn url_parts_view(p: UrlParts) -> (
    Seq<char>,
    Seq<char>,
    bool,
    Seq<char>,
    bool,
    bool,
    Option<Seq<u16>>,
) {
    (
        p.scheme@,
        p.username@,
        p.has_password,
        p.path@,
        p.has_query,
        p.has_fragment,
        match p.host_ip {
            Some(v) => Some(v@),
            None => None,
        },
    )
}

/// `url::Url::parse` and the accessors `scheme`, `username`, `password`, `path`,
/// `query`, `fragment` and `host` (IPv4 octets widened to `u16`, IPv6 segments).
#[verifier::external_body]
pub(crate) fn parse_url(text: &str) -> (r: Option<UrlParts>)
    ensures
        r matches Some(p) ==> url_parts(text@) == Some(url_parts_view(p)),
        r is None ==> url_parts(text@) is None,
{
    let u = url::Url::parse(text).ok()?;
    let host_ip = match u.host() {
        Some(url::Host::Ipv4(a)) => Some(a.octets().iter().map(|o| *o as u16).collect()),
        Some(url::Host::Ipv6(a)) => Some(a.segments().to_vec()),
        _ => None,
    };
    Some(UrlParts {
        scheme: u.scheme().into(), username: u.username().into(),
        has_password: u.password().is_some(), path: u.path().into(),
        has_query: u.query().is_some(), has_fragment: u.fragment().is_some(), host_ip,
    })
}

} // verus!
