//! The functions of other crates, and of the standard library, that this crate calls.
//!
//! Each contract here is a claim about code that is not verified.
use crate::cbor::{CborDocument, CborItem, CborView};
use vstd::prelude::*;

verus! {

/// The text that base64 with the URL-safe alphabet and no padding writes for `data`.
pub uninterp spec fn base64url_encoded(data: Seq<u8>) -> Seq<char>;

/// What base64 with the URL-safe alphabet and no padding reads from `text`, if it is well formed.
pub uninterp spec fn base64url_decoded(text: Seq<char>) -> Option<Seq<u8>>;

/// What base64 with the URL-safe alphabet and required padding reads from `text`, if it is well
/// formed.
pub uninterp spec fn base64url_padded_decoded(text: Seq<char>) -> Option<Seq<u8>>;

/// The text that base64 with the standard alphabet and padding writes for `data`.
pub uninterp spec fn base64_encoded(data: Seq<u8>) -> Seq<char>;

/// What base64 with the standard alphabet and required padding reads from `text`, if it is well
/// formed.
pub uninterp spec fn base64_decoded(text: Seq<char>) -> Option<Seq<u8>>;

/// The SHA-256 digest of `data`.
pub uninterp spec fn sha256_of(data: Seq<u8>) -> Seq<u8>;

/// The CBOR item at the start of `data`, if there is one.
pub uninterp spec fn cbor_decoded(data: Seq<u8>) -> Option<CborView>;

/// The sixteen bytes of the UUID that `text` writes, if it writes one.
pub uninterp spec fn uuid_decoded(text: Seq<char>) -> Option<Seq<u8>>;

/// For a well-formed URL whose host is a DNS domain, that domain and the origin as ASCII.
pub uninterp spec fn url_decoded(text: Seq<char>) -> Option<Option<(Seq<char>, Seq<char>)>>;

/// The URL that `text` writes, as it is written out, if it is well formed.
pub uninterp spec fn url_normalized(text: Seq<char>) -> Option<Seq<char>>;

/// The URL that `base` writes, with `pairs` as its query.
pub uninterp spec fn url_with_query(
    base: Seq<char>,
    pairs: Seq<(Seq<char>, Seq<char>)>,
) -> Seq<char>;

/// `text` in lower case, as Unicode maps it.
pub uninterp spec fn lowercase_of(text: Seq<char>) -> Seq<char>;

/// `text` in upper case, as Unicode maps it.
pub uninterp spec fn uppercase_of(text: Seq<char>) -> Seq<char>;

/// The view of optional bytes.
pub open spec fn bytes_view(bytes: Option<Vec<u8>>) -> Option<Seq<u8>> {
    match bytes {
        Some(b) => Some(b@),
        None => None,
    }
}

/// The view of what is read of a URL.
pub open spec fn url_view(parts: Option<Option<(String, String)>>) -> Option<
    Option<(Seq<char>, Seq<char>)>,
> {
    match parts {
        Some(Some(p)) => Some(Some((p.0@, p.1@))),
        Some(None) => Some(None),
        None => None,
    }
}

/// The view of optional text.
pub open spec fn text_view(text: Option<String>) -> Option<Seq<char>> {
    match text {
        Some(t) => Some(t@),
        None => None,
    }
}

/// The views of pairs of texts.
pub open spec fn pairs_view(pairs: Seq<(String, String)>) -> Seq<(Seq<char>, Seq<char>)> {
    Seq::new(pairs.len(), |i: int| (pairs[i].0@, pairs[i].1@))
}

/// How many bytes a byte takes in a query: one where it is written as it is or as a plus sign, and
/// three where it is written in hexadecimal.
pub open spec fn form_width(b: u8) -> int {
    if 48 <= b <= 57 || 65 <= b <= 90 || 97 <= b <= 122 || b == 32 || b == 42 || b == 45 || b == 46
        || b == 95 {
        1
    } else {
        3
    }
}

/// How many bytes some bytes take in a query.
pub open spec fn form_len(bytes: Seq<u8>) -> int
    decreases bytes.len(),
{
    if bytes.len() == 0 {
        0
    } else {
        form_len(bytes.drop_last()) + form_width(bytes.last())
    }
}

/// How many bytes a text takes in a query.
pub open spec fn form_text_len(text: Seq<char>) -> int {
    form_len(vstd::utf8::encode_utf8(text))
}

/// How many bytes pairs take as a query: each with an equals sign in it, and with a question mark or
/// an ampersand before it.
pub open spec fn query_len(pairs: Seq<(Seq<char>, Seq<char>)>) -> int
    decreases pairs.len(),
{
    if pairs.len() == 0 {
        0
    } else {
        query_len(pairs.drop_last()) + form_text_len(pairs.last().0) + form_text_len(
            pairs.last().1,
        ) + 2
    }
}

/// What a URL is without its fragment.
pub open spec fn without_fragment(url: Seq<char>) -> Seq<char> {
    match crate::text::split_at_first(url, '#') {
        Some((head, _)) => head,
        None => url,
    }
}

/// What a URL is without its query and its fragment.
pub open spec fn without_query(url: Seq<char>) -> Seq<char> {
    match crate::text::split_at_first(without_fragment(url), '?') {
        Some((head, _)) => head,
        None => without_fragment(url),
    }
}

/// Whether the places in a URL that is written so are within the range of `u32` while these pairs
/// become its query: where the query starts and, where there is a fragment, the place behind its
/// number sign before, and where it starts after.
pub open spec fn indexable(url: Seq<char>, pairs: Seq<(Seq<char>, Seq<char>)>) -> bool {
    let start = crate::text::byte_len(without_query(url));
    &&& start <= u32::MAX
    &&& url.contains('#') ==> {
        &&& crate::text::byte_len(without_fragment(url)) + 1 <= u32::MAX
        &&& start + query_len(pairs) <= u32::MAX
    }
}

/// Whether `base` writes a URL that can be indexed with such a query.
pub open spec fn indexable_url(base: Seq<char>, pairs: Seq<(Seq<char>, Seq<char>)>) -> bool {
    match url_normalized(base) {
        Some(url) => indexable(url, pairs),
        None => false,
    }
}

/// The characters of the URL-safe base64 alphabet.
pub open spec fn url_safe_char(c: char) -> bool {
    'A' <= c <= 'Z' || 'a' <= c <= 'z' || '0' <= c <= '9' || c == '-' || c == '_'
}

/// A text in the URL-safe base64 alphabet, which has no character for padding.
pub open spec fn url_safe(text: Seq<char>) -> bool {
    forall|i: int| 0 <= i < text.len() ==> url_safe_char(#[trigger] text[i])
}

/// The hexadecimal digit, in lower case, of a number below sixteen.
pub open spec fn hex_digit(n: int) -> char {
    if n < 10 {
        (n + '0' as int) as char
    } else {
        (n - 10 + 'a' as int) as char
    }
}

/// The lower-case hexadecimal writing of `data`: two digits for each byte.
pub open spec fn hex_of(data: Seq<u8>) -> Seq<char> {
    Seq::new(
        2 * data.len(),
        |i: int|
            if i % 2 == 0 {
                hex_digit(data[i / 2] as int / 16)
            } else {
                hex_digit(data[i / 2] as int % 16)
            },
    )
}

/// A text in the form in which UUIDs are written: groups of lower-case hexadecimal digits, joined
/// by hyphens.
pub open spec fn uuid_form(text: Seq<char>) -> bool {
    &&& text.len() == 36
    &&& forall|i: int|
        0 <= i < 36 ==> if i == 8 || i == 13 || i == 18 || i == 23 {
            #[trigger] text[i] == '-'
        } else {
            '0' <= text[i] <= '9' || 'a' <= text[i] <= 'f'
        }
}

/// Sixteen bytes with the bits that mark a UUID as one of version 4: the high half of one byte, and
/// the two highest bits of another.
pub open spec fn version_4(bytes: Seq<u8>) -> Seq<u8> {
    bytes.update(6, (bytes[6] % 16 + 64) as u8).update(8, (bytes[8] % 64 + 128) as u8)
}

/// The writing of a UUID: the hexadecimal digits of its sixteen bytes, with four hyphens.
pub open spec fn hyphenated(bytes: Seq<u8>) -> Seq<char> {
    Seq::new(
        36,
        |i: int|
            if i == 8 || i == 13 || i == 18 || i == 23 {
                '-'
            } else if i < 8 {
                hex_of(bytes)[i]
            } else if i < 13 {
                hex_of(bytes)[i - 1]
            } else if i < 18 {
                hex_of(bytes)[i - 2]
            } else if i < 23 {
                hex_of(bytes)[i - 3]
            } else {
                hex_of(bytes)[i - 4]
            },
    )
}

/// A UUID of version 4 is written in the form of UUIDs, with its version where that stands.
pub proof fn lemma_version_4_form(bytes: Seq<u8>)
    requires
        bytes.len() == 16,
    ensures
        uuid_form(hyphenated(version_4(bytes))),
        hyphenated(version_4(bytes))[14] == '4',
{
    let b = version_4(bytes);
    let text = hyphenated(b);
    assert(b[6] as int / 16 == 4);
    assert(text[14] == hex_of(b)[12]);
    assert forall|i: int| 0 <= i < 32 implies {
        let c = #[trigger] hex_of(b)[i];
        '0' <= c <= '9' || 'a' <= c <= 'f'
    } by {
        assert(0 <= b[i / 2] as int / 16 < 16);
        assert(0 <= b[i / 2] as int % 16 < 16);
    }
}

/// `base64`'s `Engine::encode` with `URL_SAFE_NO_PAD`.
///
/// The result depends on the bytes alone, holds characters of the URL-safe alphabet only, and the
/// same engine reads the bytes back from it.
#[verifier::external_body]
pub(crate) fn base64url_encode(data: &[u8]) -> (r: String)
    ensures
        r@ == base64url_encoded(data@),
        base64url_decoded(r@) == Some(data@),
        url_safe(r@),
{
    base64::Engine::encode(&base64::engine::general_purpose::URL_SAFE_NO_PAD, data)
}

/// `base64`'s `Engine::decode` with `URL_SAFE_NO_PAD`; `None` where it reports an error.
///
/// The result depends on the text alone.
#[verifier::external_body]
pub(crate) fn base64url_decode(text: &str) -> (r: Option<Vec<u8>>)
    ensures
        bytes_view(r) == base64url_decoded(text@),
{
    base64::Engine::decode(&base64::engine::general_purpose::URL_SAFE_NO_PAD, text).ok()
}

/// `base64`'s `Engine::decode` with `URL_SAFE`; `None` where it reports an error.
///
/// The result depends on the text alone.
#[verifier::external_body]
pub(crate) fn base64url_padded_decode(text: &str) -> (r: Option<Vec<u8>>)
    ensures
        bytes_view(r) == base64url_padded_decoded(text@),
{
    base64::Engine::decode(&base64::engine::general_purpose::URL_SAFE, text).ok()
}

/// `base64`'s `Engine::encode` with `STANDARD`.
///
/// The result depends on the bytes alone, and the same engine reads the bytes back from it.
#[verifier::external_body]
pub(crate) fn base64_encode(data: &[u8]) -> (r: String)
    ensures
        r@ == base64_encoded(data@),
        base64_decoded(r@) == Some(data@),
{
    base64::Engine::encode(&base64::engine::general_purpose::STANDARD, data)
}

/// `base64`'s `Engine::decode` with `STANDARD`; `None` where it reports an error.
///
/// The result depends on the text alone.
#[verifier::external_body]
pub(crate) fn base64_decode(text: &str) -> (r: Option<Vec<u8>>)
    ensures
        bytes_view(r) == base64_decoded(text@),
{
    base64::Engine::decode(&base64::engine::general_purpose::STANDARD, text).ok()
}

/// `sha2`'s `Sha256::digest`: 32 bytes that depend on `data` alone.
#[verifier::external_body]
pub(crate) fn sha256(data: &[u8]) -> (r: Vec<u8>)
    ensures
        r@ == sha256_of(data@),
        r@.len() == 32,
{
    <sha2::Sha256 as sha2::Digest>::digest(data).to_vec()
}

/// `ciborium`'s `from_reader` on bytes, for a `ciborium::Value`; `None` where it reports an error.
///
/// It reads the item that `data` starts with and nothing behind it, so more bytes at the end change
/// nothing; the result depends on `data` alone. Of the value
/// the entries of a top-level map are kept, each key and value that is an integer, a byte string or
/// a text as it is, and any other kind of item as `Other`.
#[verifier::external_body]
pub(crate) fn read_cbor(data: &[u8]) -> (r: Option<CborDocument>)
    ensures
        crate::cbor::document_view(r) == cbor_decoded(data@),
        r is Some ==> forall|tail: Seq<u8>| #[trigger]
            cbor_decoded(data@ + tail) == cbor_decoded(data@),
{
    let item = |v: ciborium::Value| match v {
        ciborium::Value::Integer(i) => CborItem::Integer(i128::from(i)),
        ciborium::Value::Bytes(b) => CborItem::Bytes(b),
        ciborium::Value::Text(t) => CborItem::Text(t),
        _ => CborItem::Other,
    };
    match ciborium::from_reader::<ciborium::Value, &[u8]>(data) {
        Ok(ciborium::Value::Map(m)) => Some(
            CborDocument::Entries(m.into_iter().map(|(k, v)| (item(k), item(v))).collect()),
        ),
        Ok(_) => Some(CborDocument::Other),
        Err(_) => None,
    }
}

/// `uuid`'s `Uuid::parse_str`; `None` where it reports an error.
///
/// The result is sixteen bytes that depend on the text alone.
#[verifier::external_body]
pub(crate) fn uuid_parse(text: &str) -> (r: Option<Vec<u8>>)
    ensures
        bytes_view(r) == uuid_decoded(text@),
        r matches Some(b) ==> b@.len() == 16,
{
    uuid::Uuid::parse_str(text).ok().map(|u| u.as_bytes().to_vec())
}

/// `uuid`'s `Builder::from_random_bytes`, written out: the bytes, with those bits set that mark a
/// UUID of version 4.
#[verifier::external_body]
pub(crate) fn uuid_from_random_bytes(bytes: &[u8]) -> (r: String)
    requires
        bytes@.len() == 16,
    ensures
        r@ == hyphenated(version_4(bytes@)),
{
    let mut all = [0u8; 16];
    all.copy_from_slice(bytes);
    uuid::Builder::from_random_bytes(all).into_uuid().to_string()
}

/// `url`'s `Url::parse`, with `Url::domain` and, where there is a domain, the ASCII serialization of
/// `Url::origin`; `None` where the text is not a URL.
///
/// All of it depends on the text alone. An origin is `null`, or a scheme and a host, which is not
/// empty and holds no slash, with or without a port: it does not end in a slash.
#[verifier::external_body]
pub(crate) fn url_parse(text: &str) -> (r: Option<Option<(String, String)>>)
    ensures
        url_view(r) == url_decoded(text@),
        r matches Some(Some(p)) ==> p.1@.len() > 0 && p.1@.last() != '/',
{
    url::Url::parse(text).ok().map(
        |u| u.domain().map(|d| (d.to_string(), u.origin().ascii_serialization())),
    )
}

/// `url`'s `Url::parse`, written out; `None` where the text is not a URL.
///
/// The result depends on the text alone.
#[verifier::external_body]
pub(crate) fn url_normalize(text: &str) -> (r: Option<String>)
    ensures
        text_view(r) == url_normalized(text@),
{
    url::Url::parse(text).ok().map(|u| u.to_string())
}

/// `url`'s `Url::parse`, with the query replaced through `Url::query_pairs_mut`, for a text that is a
/// URL.
///
/// The result depends on the text and the pairs alone. The places in a URL are kept as `u32`, and
/// replacing the query panics where one does not fit.
#[verifier::external_body]
pub(crate) fn set_query(base: &str, pairs: &Vec<(String, String)>) -> (r: String)
    requires
        indexable_url(base@, pairs_view(pairs@)),
    ensures
        r@ == url_with_query(base@, pairs_view(pairs@)),
{
    let mut url = url::Url::parse(base).expect("a URL");
    url.query_pairs_mut().clear().extend_pairs(pairs);
    url.to_string()
}

/// `hex`'s `encode`: two lower-case digits for each byte.
#[verifier::external_body]
pub(crate) fn hex_encode(data: &[u8]) -> (r: String)
    ensures
        r@ == hex_of(data@),
{
    hex::encode(data)
}

/// `chrono`'s `Utc::now`, as whole seconds since the Unix epoch. Nothing is claimed of the time.
#[verifier::external_body]
pub(crate) fn unix_now() -> (r: i64)
{
    chrono::Utc::now().timestamp()
}

/// Whether a time is a reading of the clock: one that a call of `unix_now` returned.
pub closed spec fn clock_reading(now: i64) -> bool {
    call_ensures(unix_now, (), now)
}

/// The time, as the clock gives it.
pub fn read_clock() -> (now: i64)
    ensures
        clock_reading(now),
{
    unix_now()
}

/// A time is a reading of the clock only where `unix_now` returned it.
pub(crate) proof fn law_readings_are_of_the_clock(now: i64)
    requires
        clock_reading(now),
    ensures
        call_ensures(unix_now, (), now),
{
}

/// The error of `getrandom`.
#[verifier::external_type_specification]
#[verifier::external_body]
pub struct ExRandomError(getrandom::Error);

/// `getrandom`'s `fill` overwrites the bytes in place; their number stays. Where there are none to
/// fill it does not ask the machine, and succeeds.
pub assume_specification[ getrandom::fill ](dest: &mut [u8]) -> (r: Result<(), getrandom::Error>)
    ensures
        final(dest)@.len() == old(dest)@.len(),
        old(dest)@.len() == 0 ==> r is Ok,
;

/// `constant_time_eq` says whether two byte strings are equal.
pub assume_specification[ constant_time_eq::constant_time_eq ](a: &[u8], b: &[u8]) -> (r: bool)
    ensures
        r == (a@ == b@),
;

/// `String::push` appends one character.
pub assume_specification[ std::string::String::push ](s: &mut std::string::String, c: char)
    ensures
        final(s)@ == old(s)@.push(c),
;

/// `str::to_lowercase` depends on the text alone.
pub assume_specification[ str::to_lowercase ](s: &str) -> (r: std::string::String)
    ensures
        r@ == lowercase_of(s@),
;

/// `str::to_uppercase` depends on the text alone.
pub assume_specification[ str::to_uppercase ](s: &str) -> (r: std::string::String)
    ensures
        r@ == uppercase_of(s@),
;

/// The bytes, where filling them succeeded.
pub fn where_filled(bytes: Vec<u8>, outcome: Result<(), getrandom::Error>) -> (r: Option<Vec<u8>>)
    ensures
        r == match outcome {
            Ok(_) => Some(bytes),
            Err(_) => None,
        },
{
    match outcome {
        Ok(_) => Some(bytes),
        Err(_) => None,
    }
}

/// `len` bytes of random numbers; `None` where the machine has none to give.
///
/// No bytes can always be had. Of more, the machine decides whether there are any, and which.
pub fn random_bytes(len: usize) -> (r: Option<Vec<u8>>)
    ensures
        r matches Some(b) ==> b@.len() == len,
        len == 0 ==> r is Some,
{
    let mut bytes: Vec<u8> = vec![0u8; len];
    let outcome = getrandom::fill(bytes.as_mut_slice());
    where_filled(bytes, outcome)
}

/// Whether this is what asking for `len` random bytes gave: what a call of `random_bytes` returned.
pub open spec fn drawn(len: usize, bytes: Option<Seq<u8>>) -> bool {
    exists|r: Option<Vec<u8>>| #[trigger]
        call_ensures(random_bytes, (len,), r) && bytes_view(r) == bytes
}

/// Whether this is the writing of a UUID that random bytes make.
pub open spec fn random_uuid_text(text: Seq<char>) -> bool {
    exists|bytes: Seq<u8>| #[trigger]
        drawn(16, Some(bytes)) && text == hyphenated(version_4(bytes))
}

/// The UUID of version 4 that random bytes make, where there are sixteen of them.
pub fn uuid_of(bytes: Option<Vec<u8>>) -> (r: Option<String>)
    ensures
        match bytes {
            Some(b) => if b@.len() == 16 {
                r matches Some(u) && u@ == hyphenated(version_4(b@))
            } else {
                r is None
            },
            None => r is None,
        },
{
    match bytes {
        Some(b) => if b.len() == 16 {
            Some(uuid_from_random_bytes(b.as_slice()))
        } else {
            None
        },
        None => None,
    }
}

/// A random UUID, of version 4; `None` where the machine has no random numbers to give.
pub fn random_uuid() -> (r: Option<String>)
    ensures
        r matches Some(u) ==> uuid_form(u@) && u@[14] == '4' && random_uuid_text(u@),
        r is None ==> drawn(16, None),
{
    let bytes = random_bytes(16);
    proof {
        assert(call_ensures(random_bytes, (16usize,), bytes));
        if bytes is Some {
            lemma_version_4_form((bytes->0)@);
            assert(drawn(16, Some((bytes->0)@)));
        }
    }
    uuid_of(bytes)
}

} // verus!
