//! The project-local cache of compiled tools, keyed by the git blob hash of
//! a tool's source.

use vstd::prelude::*;
use sha1::Digest;
use vstd::string::StringExecFns;
use crate::paths::{is_absolute, path_join, path_joined};
use crate::text::{decimal, decimal_chars, string_from_chars};

verus! {

broadcast use vstd::string::group_string_axioms;

/// The bytes of an ASCII text.
pub open spec fn ascii_bytes(s: Seq<char>) -> Seq<u8> {
    s.map_values(|c: char| c as u8)
}

/// The git object for a blob: `"blob <size>\0"` followed by the content.
pub open spec fn blob_object(content: Seq<u8>) -> Seq<u8> {
    seq![98u8, 108u8, 111u8, 98u8, 32u8] + ascii_bytes(decimal(content.len())) + seq![0u8]
        + content
}

/// The lowercase hexadecimal digit for `d < 16`.
pub open spec fn hex_digit(d: u8) -> char {
    if d < 10 {
        ((d + 48) as u8) as char
    } else {
        ((d + 87) as u8) as char
    }
}

/// Lowercase hexadecimal rendering of bytes, two digits per byte.
pub open spec fn hex_spec(b: Seq<u8>) -> Seq<char>
    decreases b.len(),
{
    if b.len() == 0 {
        Seq::empty()
    } else {
        hex_spec(b.drop_last()) + seq![hex_digit(b.last() / 16), hex_digit(b.last() % 16)]
    }
}

/// A lowercase hexadecimal digit: `0`-`9` or `a`-`f`.
pub open spec fn is_lower_hex(c: char) -> bool {
    (48 <= c as u32 <= 57) || (97 <= c as u32 <= 102)
}

/// Every digit [`hex_digit`] gives is a lowercase hexadecimal digit.
proof fn lemma_hex_digit(d: u8)
    requires
        d < 16,
    ensures
        is_lower_hex(hex_digit(d)),
{
}

/// The hex rendering of `b` has two lowercase hexadecimal digits per byte.
pub proof fn lemma_hex_shape(b: Seq<u8>)
    ensures
        hex_spec(b).len() == 2 * b.len(),
        forall|i: int| 0 <= i < hex_spec(b).len() ==> is_lower_hex(#[trigger] hex_spec(b)[i]),
    decreases b.len(),
{
    if b.len() > 0 {
        lemma_hex_shape(b.drop_last());
        lemma_hex_digit(b.last() / 16);
        lemma_hex_digit(b.last() % 16);
        let h = hex_spec(b.drop_last());
        let tail = seq![hex_digit(b.last() / 16), hex_digit(b.last() % 16)];
        assert forall|i: int| 0 <= i < hex_spec(b).len() implies is_lower_hex(
            #[trigger] hex_spec(b)[i],
        ) by {
            if i < h.len() {
                assert(hex_spec(b)[i] == h[i]);
            } else {
                assert(hex_spec(b)[i] == tail[i - h.len()]);
            }
        }
    }
}

/// The SHA-1 digest of some bytes.
pub uninterp spec fn sha1_digest(data: Seq<u8>) -> Seq<u8>;

/// SHA-1 of `data` with the `sha1` crate (`Sha1::digest`); the digest is
/// 20 bytes long. Its value is only named, not stated.
#[verifier::external_body]
fn sha1_of(data: &[u8]) -> (r: Vec<u8>)
    ensures
        r@ == sha1_digest(data@),
        r@.len() == 20,
{
    sha1::Sha1::digest(data).to_vec()
}

/// The git object bytes for a blob with the given content.
pub fn blob_object_bytes(content: &[u8]) -> (r: Vec<u8>)
    ensures
        r@ == blob_object(content@),
{
    let mut out: Vec<u8> = Vec::new();
    out.push(98u8);
    out.push(108u8);
    out.push(111u8);
    out.push(98u8);
    out.push(32u8);
    let digits = decimal_chars(content.len());
    let ghost head = out@;
    let mut k: usize = 0;
    while k < digits.len()
        invariant
            k <= digits@.len(),
            out@ == head + ascii_bytes(digits@.take(k as int)),
        decreases digits@.len() - k,
    {
        out.push(digits[k] as u8);
        assert(ascii_bytes(digits@.take(k + 1)) =~= ascii_bytes(digits@.take(k as int)).push(
            digits@[k as int] as u8,
        ));
        k = k + 1;
    }
    assert(digits@.take(digits@.len() as int) =~= digits@);
    out.push(0u8);
    let ghost mid = out@;
    let mut j: usize = 0;
    while j < content.len()
        invariant
            j <= content@.len(),
            out@ == mid + content@.take(j as int),
        decreases content@.len() - j,
    {
        out.push(content[j]);
        assert(content@.take(j + 1) =~= content@.take(j as int).push(content@[j as int]));
        j = j + 1;
    }
    assert(content@.take(content@.len() as int) =~= content@);
    assert(out@ =~= blob_object(content@));
    out
}

/// The lowercase hexadecimal digit for `d < 16`.
fn hex_digit_of(d: u8) -> (c: char)
    requires
        d < 16,
    ensures
        c == hex_digit(d),
{
    if d < 10 {
        (d + 48) as char
    } else {
        (d + 87) as char
    }
}

/// Lowercase hexadecimal rendering of a digest (what `hex::encode` gives).
pub fn digest_hex(digest: &[u8]) -> (r: String)
    ensures
        r@ == hex_spec(digest@),
        r@.len() == 2 * digest@.len(),
        forall|i: int| 0 <= i < r@.len() ==> is_lower_hex(#[trigger] r@[i]),
{
    proof {
        lemma_hex_shape(digest@);
    }
    let mut out: Vec<char> = Vec::new();
    let mut k: usize = 0;
    while k < digest.len()
        invariant
            k <= digest@.len(),
            out@ == hex_spec(digest@.take(k as int)),
        decreases digest@.len() - k,
    {
        let b = digest[k];
        out.push(hex_digit_of(b / 16));
        out.push(hex_digit_of(b % 16));
        assert(digest@.take(k + 1).drop_last() =~= digest@.take(k as int));
        k = k + 1;
    }
    assert(digest@.take(digest@.len() as int) =~= digest@);
    string_from_chars(&out)
}

/// Git blob hash of some content: the hex SHA-1 of `"blob <size>\0<content>"`,
/// forty lowercase hexadecimal digits.
pub fn git_blob_hash(content: &[u8]) -> (r: String)
    ensures
        r@ == hex_spec(sha1_digest(blob_object(content@))),
        r@.len() == 40,
        forall|i: int| 0 <= i < r@.len() ==> is_lower_hex(#[trigger] r@[i]),
{
    let object = blob_object_bytes(content);
    let digest = sha1_of(object.as_slice());
    digest_hex(digest.as_slice())
}

/// The cache directory of a project.
pub open spec fn cache_dir_spec(project_root: Seq<char>) -> Seq<char> {
    path_joined(project_root, ".mcagent/cache/wasi"@)
}

/// The cached WASM path for a source hash.
pub open spec fn cache_path_spec(project_root: Seq<char>, hash: Seq<char>) -> Seq<char> {
    path_joined(cache_dir_spec(project_root), hash + ".wasm"@)
}

/// Get the cache directory (project-local): `.mcagent/cache/wasi` under the
/// project root.
pub fn cache_dir(project_root: &str) -> (r: String)
    ensures
        r@ == cache_dir_spec(project_root@),
        project_root@.len() > 0 && project_root@.last() != '/' ==> r@ == project_root@ + seq!['/']
            + ".mcagent/cache/wasi"@,
{
    proof {
        reveal_strlit(".mcagent/cache/wasi");
    }
    path_join(project_root, ".mcagent/cache/wasi")
}

/// Get the cached WASM path for a given hash: `<hash>.wasm` directly in the
/// cache directory.
pub fn cache_path(project_root: &str, hash: &str) -> (r: String)
    ensures
        r@ == cache_path_spec(project_root@, hash@),
        project_root@.len() > 0 && project_root@.last() != '/' && !is_absolute(hash@) ==> r@
            == cache_dir_spec(project_root@) + seq!['/'] + hash@ + ".wasm"@,
{
    let dir = cache_dir(project_root);
    let mut name = hash.to_string();
    name.append(".wasm");
    proof {
        reveal_strlit(".mcagent/cache/wasi");
        reveal_strlit(".wasm");
        if project_root@.len() > 0 && project_root@.last() != '/' && !is_absolute(hash@) {
            assert(dir@.last() == 'i');
            if hash@.len() > 0 {
                assert(name@[0] == hash@[0]);
            } else {
                assert(name@[0] == '.');
            }
            assert(hash@ + ".wasm"@ == name@);
        }
    }
    path_join(dir.as_str(), name.as_str())
}

/// Distinct hashes are cached at distinct paths: in one cache directory, the
/// path of a hash's module gives the hash back.
pub proof fn law_cache_paths_distinct(dir: Seq<char>, h1: Seq<char>, h2: Seq<char>)
    requires
        h1 != h2,
    ensures
        dir + seq!['/'] + h1 + ".wasm"@ != dir + seq!['/'] + h2 + ".wasm"@,
{
    let p1 = dir + seq!['/'] + h1 + ".wasm"@;
    let p2 = dir + seq!['/'] + h2 + ".wasm"@;
    if p1 == p2 {
        assert(p1.len() == dir.len() + 1 + h1.len() + ".wasm"@.len());
        assert(p2.len() == dir.len() + 1 + h2.len() + ".wasm"@.len());
        assert(h1.len() == h2.len());
        assert forall|i: int| 0 <= i < h1.len() implies h1[i] == h2[i] by {
            assert(p1[dir.len() + 1 + i] == h1[i]);
            assert(p2[dir.len() + 1 + i] == h2[i]);
        }
        assert(h1 =~= h2);
    }
}

} // verus!
