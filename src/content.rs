//! Content types of cached objects: sniffed from a file's leading bytes at
//! start-up, or taken from the remote store's hint on a fetch.
use vstd::prelude::*;

verus! {

/// The content type of data whose type is not known.
pub const BINARY: &'static str = "application/octet-stream";

/// How many leading bytes of a file the sniffer looks at.
pub const SNIFF_LEN: usize = 10;

/// The MIME type that the magic bytes of `buf` match, as the `infer` crate
/// reports it.
pub uninterp spec fn sniffed_mime(buf: Seq<u8>) -> Option<Seq<char>>;

/// The canonical form of media type `s`, as rocket's `ContentType` parses and
/// prints it, or nothing where it does not parse.
pub uninterp spec fn parsed_media_type(s: Seq<char>) -> Option<Seq<char>>;

/// Relies on `infer::Infer::get` and `Type::mime_type`: the MIME type of the
/// first matcher that accepts `buf`, if any.
#[verifier::external_body]
fn sniff_mime(buf: &[u8]) -> (r: Option<String>)
    ensures
        match r {
            Some(m) => sniffed_mime(buf@) == Some(m@),
            None => sniffed_mime(buf@) is None,
        },
{
    infer::Infer::new().get(buf).map(|t| t.mime_type().to_string())
}

/// Relies on `FromStr for rocket::http::ContentType` and its `Display`: the
/// parsed media type printed back, or nothing where `s` does not parse.
#[verifier::external_body]
fn parse_media_type(s: &str) -> (r: Option<String>)
    ensures
        match r {
            Some(m) => parsed_media_type(s@) == Some(m@),
            None => parsed_media_type(s@) is None,
        },
{
    s.parse::<rocket::http::ContentType>().ok().map(|ct| ct.to_string())
}

/// The sniffed types that are served under their own name; every other one
/// is served as binary data.
pub open spec fn is_known_type(m: Seq<char>) -> bool {
    ||| m == "image/jpeg"@
    ||| m == "image/png"@
    ||| m == "image/webp"@
    ||| m == "image/tiff"@
    ||| m == "video/mp4"@
    ||| m == "video/mpeg"@
    ||| m == "image/gif"@
}

/// The content type served for sniffed MIME type `m`.
pub open spec fn type_for_mime(m: Option<Seq<char>>) -> Seq<char> {
    match m {
        Some(x) => if is_known_type(x) {
            x
        } else {
            BINARY@
        },
        None => BINARY@,
    }
}

/// The content type served for a parsed media type: itself, or binary data
/// where there is none.
pub open spec fn type_or_binary(m: Option<Seq<char>>) -> Seq<char> {
    match m {
        Some(x) => x,
        None => BINARY@,
    }
}

/// The buffer handed to the sniffer for leading bytes `head`: its first
/// `SNIFF_LEN` bytes, padded with zeros to that length.
pub open spec fn sniff_window(head: Seq<u8>) -> Seq<u8> {
    Seq::new(
        SNIFF_LEN as nat,
        |i: int|
            if i < head.len() {
                head[i]
            } else {
                0u8
            },
    )
}

/// Whether two texts are equal, character by character.
pub fn text_eq(a: &str, b: &str) -> (r: bool)
    ensures
        r == (a@ == b@),
{
    let n = a.unicode_len();
    if n != b.unicode_len() {
        return false;
    }
    let mut i: usize = 0;
    while i < n
        invariant
            n == a@.len(),
            n == b@.len(),
            i <= n,
            forall|j: int| 0 <= j < i ==> a@[j] == b@[j],
        decreases n - i,
    {
        if a.get_char(i) != b.get_char(i) {
            return false;
        }
        i = i + 1;
    }
    assert(a@ =~= b@);
    true
}

/// The content type served for sniffed MIME type `mime`: one of the image
/// and video types kept by name, or binary data.
pub fn content_type_for_mime(mime: Option<&str>) -> (r: String)
    ensures
        r@ == type_for_mime(
            match mime {
                Some(m) => Some(m@),
                None => None,
            },
        ),
{
    match mime {
        Some(m) => {
            if text_eq(m, "image/jpeg") || text_eq(m, "image/png") || text_eq(m, "image/webp")
                || text_eq(m, "image/tiff") || text_eq(m, "video/mp4") || text_eq(m, "video/mpeg")
                || text_eq(m, "image/gif") {
                String::from_str(m)
            } else {
                String::from_str(BINARY)
            }
        },
        None => String::from_str(BINARY),
    }
}

/// The content type of a cached file, from its leading bytes (at most the
/// first `SNIFF_LEN` are looked at; fewer are padded with zeros).
pub fn determine_content_type(head: &[u8]) -> (r: String)
    ensures
        r@ == type_for_mime(sniffed_mime(sniff_window(head@))),
{
    let mut buf: Vec<u8> = Vec::new();
    let mut i: usize = 0;
    while i < SNIFF_LEN
        invariant
            i <= SNIFF_LEN,
            buf@.len() == i,
            forall|j: int| 0 <= j < i ==> buf@[j] == sniff_window(head@)[j],
        decreases SNIFF_LEN - i,
    {
        if i < head.len() {
            buf.push(head[i]);
        } else {
            buf.push(0u8);
        }
        i = i + 1;
    }
    assert(buf@ =~= sniff_window(head@));
    let mime = sniff_mime(buf.as_slice());
    match mime {
        Some(m) => content_type_for_mime(Some(m.as_str())),
        None => content_type_for_mime(None),
    }
}

/// The content type served for the result of parsing a hint: the parsed
/// type, or binary data where the hint did not parse.
pub fn media_type_or_binary(parsed: Option<String>) -> (r: String)
    ensures
        r@ == type_or_binary(
            match parsed {
                Some(m) => Some(m@),
                None => None,
            },
        ),
{
    match parsed {
        Some(m) => m,
        None => String::from_str(BINARY),
    }
}

/// The content type of a fetched object, from the remote store's hint:
/// binary data where there is no hint or it does not parse.
pub fn content_type_from_hint(hint: Option<&str>) -> (r: String)
    ensures
        r@ == match hint {
            Some(h) => type_or_binary(parsed_media_type(h@)),
            None => BINARY@,
        },
{
    match hint {
        Some(h) => media_type_or_binary(parse_media_type(h)),
        None => String::from_str(BINARY),
    }
}

} // verus!
