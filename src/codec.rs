//! Mapping between object keys and flat file names.
use vstd::prelude::*;

verus! {

/// The separator of path components inside an object key.
pub const SEPARATOR: char = '/';

/// The character that stands for a separator inside a file name.
pub const ESCAPE: char = '_';

/// The separator that some clients send instead of `/`.
pub const BACKSLASH: char = '\\';

/// `s` with every occurrence of `from` replaced by `to`.
pub open spec fn replace_char(s: Seq<char>, from: char, to: char) -> Seq<char> {
    s.map_values(|c: char| if c == from { to } else { c })
}

/// The file name that stands for key `k`: every separator escaped.
pub open spec fn encode_spec(k: Seq<char>) -> Seq<char> {
    replace_char(k, SEPARATOR, ESCAPE)
}

/// The key that file name `f` stands for: every escape turned back into a separator.
pub open spec fn decode_spec(f: Seq<char>) -> Seq<char> {
    replace_char(f, ESCAPE, SEPARATOR)
}

/// A key can be stored when it does not hold the escape character.
pub open spec fn is_valid_key(k: Seq<char>) -> bool {
    !k.contains(ESCAPE)
}

/// `dir` followed by `name`, with one separator between them unless `dir` is
/// empty or already ends with one.
pub open spec fn join_path(dir: Seq<char>, name: Seq<char>) -> Seq<char> {
    if dir.len() == 0 || dir.last() == SEPARATOR {
        dir + name
    } else {
        dir + seq![SEPARATOR] + name
    }
}

/// Relies on `str::replace`: with a one-character replacement, every
/// occurrence of `from` becomes that character and nothing else changes.
#[verifier::external_body]
fn replace_all(s: &str, from: char, to: &str) -> (r: String)
    requires
        to@.len() == 1,
    ensures
        r@ == replace_char(s@, from, to@[0]),
{
    s.replace(from, to)
}

/// The flat file name for a key: every `/` becomes `_`.
pub fn encode_key(key: &str) -> (r: String)
    ensures
        r@ == encode_spec(key@),
{
    proof {
        reveal_strlit("_");
    }
    replace_all(key, SEPARATOR, "_")
}

/// The key that a file name in the cache directory stands for: every `_`
/// becomes `/`. Total on any file name.
pub fn generate_key_from_filename(filename: &str) -> (r: String)
    ensures
        r@ == decode_spec(filename@),
{
    proof {
        reveal_strlit("/");
    }
    replace_all(filename, ESCAPE, "/")
}

/// A key as received at the request boundary, with `\` turned into `/`.
pub fn normalize_key(raw: &str) -> (r: String)
    ensures
        r@ == replace_char(raw@, BACKSLASH, SEPARATOR),
{
    proof {
        reveal_strlit("/");
    }
    replace_all(raw, BACKSLASH, "/")
}

/// The location of file `name` inside directory `dir`.
pub fn join_file(dir: &str, name: &str) -> (r: String)
    ensures
        r@ == join_path(dir@, name@),
{
    let n = dir.unicode_len();
    if n == 0 || dir.get_char(n - 1) == SEPARATOR {
        String::from_str(dir).concat(name)
    } else {
        proof {
            reveal_strlit("/");
        }
        String::from_str(dir).concat("/").concat(name)
    }
}

/// The location of the file that caches `key` inside directory `dir`.
pub fn generate_file_path(dir: &str, key: &str) -> (r: String)
    ensures
        r@ == join_path(dir@, encode_spec(key@)),
{
    let name = encode_key(key);
    join_file(dir, name.as_str())
}

/// Decoding the name of a key gives the key back, for every key that does not
/// hold the escape character.
pub proof fn lemma_decode_encode(k: Seq<char>)
    requires
        is_valid_key(k),
    ensures
        decode_spec(encode_spec(k)) == k,
{
    assert forall|i: int| 0 <= i < k.len() implies decode_spec(encode_spec(k))[i] == k[i] by {
        assert(k[i] != ESCAPE);
    }
    assert(decode_spec(encode_spec(k)) =~= k);
}

} // verus!
