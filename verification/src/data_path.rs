//! Where a downloaded file lives in the data directory: a path made of the SHA-256 digest of
//! its url, split into two directory levels, and the url's file extension.
use vstd::prelude::*;
use vstd::string::StringSliceAdditionalSpecFns;
use crate::text::{chars_of, string_from_chars};
use sha2::Digest;
use rand::distr::SampleString;

verus! {

/// The SHA-256 digest of a byte string, as `sha2::Sha256::digest` computes it.
pub uninterp spec fn sha256(data: Seq<u8>) -> Seq<u8>;

/// Hashes `data` with `sha2::Sha256::digest`. The contract claims that the result is the
/// SHA-256 digest of the bytes and that it is 32 bytes long, the hash's output size.
#[verifier::external_body]
fn sha256_digest(data: &[u8]) -> (r: Vec<u8>)
    ensures
        r@ == sha256(data@),
        r@.len() == 32,
{
    sha2::Sha256::digest(data).to_vec()
}

/// The lowercase hexadecimal digit for `d`, below 16.
pub open spec fn hex_digit(d: int) -> char {
    if d < 10 {
        (('0' as int) + d) as char
    } else {
        (('a' as int) + d - 10) as char
    }
}

/// Bytes written as lowercase hexadecimal, two digits per byte, as the `{:x}` format of a
/// digest writes them.
pub open spec fn hex_lower(b: Seq<u8>) -> Seq<char>
    decreases b.len(),
{
    if b.len() == 0 {
        Seq::empty()
    } else {
        hex_lower(b.drop_last()) + seq![hex_digit((b.last() / 16) as int), hex_digit((b.last() % 16) as int)]
    }
}

/// The part of `s` after the last `c`, or all of `s` when it holds no `c`: the first piece
/// that `str::rsplit` gives.
pub open spec fn after_last(s: Seq<char>, c: char) -> Seq<char>
    decreases s.len(),
{
    if s.len() == 0 {
        s
    } else if s.last() == c {
        Seq::empty()
    } else {
        after_last(s.drop_last(), c).push(s.last())
    }
}

/// The part of `s` before the first `c`, or all of `s` when it holds no `c`: the first piece
/// that `str::split` gives.
pub open spec fn before_first(s: Seq<char>, c: char) -> Seq<char>
    decreases s.len(),
{
    if s.len() == 0 {
        s
    } else if s[0] == c {
        Seq::empty()
    } else {
        seq![s[0]] + before_first(s.drop_first(), c)
    }
}

/// The file extension of a url: after its last '/', after the last '.', up to the first '?'.
pub open spec fn url_extension(url: Seq<char>) -> Seq<char> {
    before_first(after_last(after_last(url, '/'), '.'), '?')
}

/// The path, relative to the data directory, where the file at `url` is kept: the first two
/// hexadecimal digits of the url's digest, '/', the next two, '/', the rest of the digits,
/// '.', and the url's extension.
pub open spec fn data_relative_path(url: Seq<char>, digest: Seq<u8>) -> Seq<char> {
    let key = hex_lower(digest);
    key.subrange(0, 2) + "/"@ + key.subrange(2, 4) + "/"@ + key.subrange(4, key.len() as int) + "."@
        + url_extension(url)
}

/// The lowercase hexadecimal digit for `d`.
fn hex_digit_exec(d: u8) -> (c: char)
    requires
        d < 16,
    ensures
        c == hex_digit(d as int),
{
    if d < 10 {
        crate::text::char_from_ascii_code((0x30 + d) as u32)
    } else {
        crate::text::char_from_ascii_code((0x61 + d - 10) as u32)
    }
}

/// Writes bytes as lowercase hexadecimal.
pub fn hex_lower_exec(b: &[u8]) -> (r: Vec<char>)
    ensures
        r@ == hex_lower(b@),
{
    let mut r: Vec<char> = Vec::new();
    let mut i: usize = 0;
    while i < b.len()
        invariant
            0 <= i <= b@.len(),
            r@ == hex_lower(b@.subrange(0, i as int)),
        decreases b@.len() - i,
    {
        let x = b[i];
        let ghost before = r@;
        r.push(hex_digit_exec(x / 16));
        r.push(hex_digit_exec(x % 16));
        proof {
            let s = b@.subrange(0, i + 1);
            assert(s.drop_last() =~= b@.subrange(0, i as int));
            assert(s.last() == x);
            assert(r@ =~= before + seq![hex_digit((x / 16) as int), hex_digit((x % 16) as int)]);
        }
        i = i + 1;
    }
    assert(b@.subrange(0, b@.len() as int) =~= b@);
    r
}

/// The part of `s` after its last `c`.
fn after_last_exec(s: &[char], c: char) -> (r: Vec<char>)
    ensures
        r@ == after_last(s@, c),
{
    let mut start: usize = s.len();
    assert(s@.subrange(0, s@.len() as int) =~= s@);
    assert(after_last(s@, c) + s@.subrange(s@.len() as int, s@.len() as int) =~= after_last(s@, c));
    while start > 0 && s[start - 1] != c
        invariant
            0 <= start <= s@.len(),
            after_last(s@, c) == after_last(s@.subrange(0, start as int), c) + s@.subrange(
                start as int,
                s@.len() as int,
            ),
        decreases start,
    {
        let ghost pre = s@.subrange(0, start as int);
        assert(pre.drop_last() =~= s@.subrange(0, start - 1));
        assert(s@.subrange(start - 1, s@.len() as int) =~= seq![s@[start - 1]] + s@.subrange(
            start as int,
            s@.len() as int,
        ));
        assert(after_last(pre, c) == after_last(pre.drop_last(), c).push(s@[start - 1]));
        start = start - 1;
    }
    proof {
        let pre = s@.subrange(0, start as int);
        if start > 0 {
            assert(pre.last() == c);
        }
        assert(after_last(pre, c) =~= Seq::<char>::empty());
    }
    let mut r: Vec<char> = Vec::new();
    let mut i: usize = start;
    while i < s.len()
        invariant
            start <= i <= s@.len(),
            r@ == s@.subrange(start as int, i as int),
        decreases s@.len() - i,
    {
        r.push(s[i]);
        assert(r@ =~= s@.subrange(start as int, i + 1));
        i = i + 1;
    }
    assert(after_last(s@, c) =~= r@);
    r
}

/// The part of `s` before its first `c`.
fn before_first_exec(s: &[char], c: char) -> (r: Vec<char>)
    ensures
        r@ == before_first(s@, c),
{
    let mut r: Vec<char> = Vec::new();
    let mut i: usize = 0;
    assert(s@.subrange(0, s@.len() as int) =~= s@);
    assert(r@ + before_first(s@, c) =~= before_first(s@, c));
    while i < s.len() && s[i] != c
        invariant
            0 <= i <= s@.len(),
            r@ == s@.subrange(0, i as int),
            before_first(s@, c) == r@ + before_first(s@.subrange(i as int, s@.len() as int), c),
        decreases s@.len() - i,
    {
        let ghost rest = s@.subrange(i as int, s@.len() as int);
        assert(rest.drop_first() =~= s@.subrange(i + 1, s@.len() as int));
        r.push(s[i]);
        assert(r@ =~= s@.subrange(0, i + 1));
        i = i + 1;
    }
    r
}

/// The file extension of a url.
pub fn url_extension_exec(url: &str) -> (r: Vec<char>)
    ensures
        r@ == url_extension(url@),
{
    let cs = chars_of(url);
    let a = after_last_exec(cs.as_slice(), '/');
    let b = after_last_exec(a.as_slice(), '.');
    before_first_exec(b.as_slice(), '?')
}

/// Where the file at a url is kept: the directory holding it and the file's path, both
/// relative to the data directory.
pub struct DataPath {
    /// The two directory levels, "ab/cd".
    pub dir: String,
    /// The file's path, "ab/cd/rest-of-digest.ext".
    pub relative: String,
}

/// The path, relative to the data directory, where the file at `url` is kept, and its
/// directory. The digest is that of the url's UTF-8 bytes.
pub fn get_data_path_for_url(url: &str) -> (r: DataPath)
    ensures
        r.relative@ == data_relative_path(url@, sha256(url.spec_bytes())),
        r.dir@ == hex_lower(sha256(url.spec_bytes())).subrange(0, 2) + "/"@ + hex_lower(
            sha256(url.spec_bytes()),
        ).subrange(2, 4),
{
    let ext = url_extension_exec(url);
    let digest = sha256_digest(url.as_bytes());
    let key = hex_lower_exec(digest.as_slice());
    proof {
        lemma_hex_lower_len(digest@);
    }
    let mut dir: Vec<char> = Vec::new();
    dir.push(key[0]);
    dir.push(key[1]);
    dir.push('/');
    dir.push(key[2]);
    dir.push(key[3]);
    let mut rel: Vec<char> = Vec::new();
    let mut i: usize = 0;
    while i < dir.len()
        invariant
            0 <= i <= dir@.len(),
            rel@ == dir@.subrange(0, i as int),
        decreases dir@.len() - i,
    {
        rel.push(dir[i]);
        assert(rel@ =~= dir@.subrange(0, i + 1));
        i = i + 1;
    }
    rel.push('/');
    let mut k: usize = 4;
    while k < key.len()
        invariant
            4 <= k <= key@.len(),
            rel@ == dir@ + seq!['/'] + key@.subrange(4, k as int),
        decreases key@.len() - k,
    {
        rel.push(key[k]);
        assert(rel@ =~= dir@ + seq!['/'] + key@.subrange(4, k + 1));
        k = k + 1;
    }
    rel.push('.');
    let mut e: usize = 0;
    while e < ext.len()
        invariant
            0 <= e <= ext@.len(),
            rel@ == dir@ + seq!['/'] + key@.subrange(4, key@.len() as int) + seq!['.'] + ext@.subrange(
                0,
                e as int,
            ),
        decreases ext@.len() - e,
    {
        rel.push(ext[e]);
        assert(rel@ =~= dir@ + seq!['/'] + key@.subrange(4, key@.len() as int) + seq!['.'] + ext@.subrange(
            0,
            e + 1,
        ));
        e = e + 1;
    }
    proof {
        reveal_strlit("/");
        reveal_strlit(".");
        assert(dir@ =~= key@.subrange(0, 2) + "/"@ + key@.subrange(2, 4));
        assert(ext@.subrange(0, ext@.len() as int) =~= ext@);
        assert(rel@ =~= data_relative_path(url@, digest@));
    }
    DataPath { dir: string_from_chars(dir.as_slice()), relative: string_from_chars(rel.as_slice()) }
}

/// Hexadecimal takes two digits per byte.
proof fn lemma_hex_lower_len(b: Seq<u8>)
    ensures
        hex_lower(b).len() == 2 * b.len(),
    decreases b.len(),
{
    if b.len() > 0 {
        lemma_hex_lower_len(b.drop_last());
    }
}

/// The name under which the text fetched from `url` is cached: the url's SHA-256 digest in
/// lowercase hexadecimal.
pub fn text_cache_key(url: &str) -> (r: String)
    ensures
        r@ == hex_lower(sha256(url.spec_bytes())),
{
    let digest = sha256_digest(url.as_bytes());
    let key = hex_lower_exec(digest.as_slice());
    string_from_chars(key.as_slice())
}

/// An ASCII letter or digit.
pub open spec fn is_alphanumeric(c: char) -> bool {
    ('a' <= c && c <= 'z') || ('A' <= c && c <= 'Z') || ('0' <= c && c <= '9')
}

/// Draws `len` random characters with `rand::distr::Alphanumeric`'s `sample_string` and the
/// thread's generator. The contract claims only that there are `len` of them and that each
/// is an ASCII letter or digit; which ones is chance.
#[verifier::external_body]
fn random_alphanumeric(len: usize) -> (r: String)
    ensures
        r@.len() == len,
        forall|i: int| 0 <= i < len ==> is_alphanumeric(#[trigger] r@[i]),
{
    rand::distr::Alphanumeric.sample_string(&mut rand::rng(), len)
}

/// A fresh path in the temporary directory: twenty random letters and digits under it.
pub fn make_temp_path(tmp_dir: &str) -> (r: String)
    ensures
        exists|name: Seq<char>|
            {
                &&& name.len() == 20
                &&& forall|i: int| 0 <= i < 20 ==> is_alphanumeric(#[trigger] name[i])
                &&& r@ == crate::environment::join_path(tmp_dir@, name)
            },
{
    let name = random_alphanumeric(20);
    crate::environment::join(tmp_dir, name.as_str())
}

/// The extension of a url is "jpg" for an image url, with or without a query.
pub proof fn lemma_example_url_extensions()
    ensures
        url_extension("https://example.com/image.jpg"@) == "jpg"@,
        url_extension("https://example.com/image.jpg?id=1234"@) == "jpg"@,
{
    reveal_strlit("https://example.com/image.jpg");
    reveal_strlit("https://example.com/image.jpg?id=1234");
    reveal_strlit("jpg");
    reveal_with_fuel(after_last, 20);
    reveal_with_fuel(before_first, 6);
    let u1 = "https://example.com/image.jpg"@;
    let u2 = "https://example.com/image.jpg?id=1234"@;
    assert(after_last(u1, '/') =~= "image.jpg"@) by {
        reveal_strlit("image.jpg");
    }
    assert(after_last("image.jpg"@, '.') =~= "jpg"@) by {
        reveal_strlit("image.jpg");
    }
    assert(before_first("jpg"@, '?') =~= "jpg"@);
    assert(after_last(u2, '/') =~= "image.jpg?id=1234"@) by {
        reveal_strlit("image.jpg?id=1234");
    }
    assert(after_last("image.jpg?id=1234"@, '.') =~= "jpg?id=1234"@) by {
        reveal_strlit("image.jpg?id=1234");
        reveal_strlit("jpg?id=1234");
    }
    assert(before_first("jpg?id=1234"@, '?') =~= "jpg"@) by {
        reveal_strlit("jpg?id=1234");
    }
}

/// The data paths of two image urls, from their digests: for the digests whose hexadecimal
/// text is given, the files are kept at the paths that text lays out, with the extension
/// "jpg" whether or not the url has a query.
pub proof fn lemma_example_data_paths(d1: Seq<u8>, d2: Seq<u8>)
    requires
        hex_lower(d1) == "e5db82b5bf63d49d80c5533616892d3386f43955369520986d67653c700fc53c"@,
        hex_lower(d2) == "2dfc1d0596854b006b8c957f01e07bb0694c77a02cc36efec7bd610ba0409c24"@,
    ensures
        data_relative_path("https://example.com/image.jpg"@, d1) == "e5/db/82b5bf63d49d80c5533616892d3386f43955369520986d67653c700fc53c.jpg"@,
        data_relative_path("https://example.com/image.jpg?id=1234"@, d2) == "2d/fc/1d0596854b006b8c957f01e07bb0694c77a02cc36efec7bd610ba0409c24.jpg"@,
{
    lemma_example_url_extensions();
    reveal_strlit("e5db82b5bf63d49d80c5533616892d3386f43955369520986d67653c700fc53c");
    reveal_strlit("2dfc1d0596854b006b8c957f01e07bb0694c77a02cc36efec7bd610ba0409c24");
    reveal_strlit("e5/db/82b5bf63d49d80c5533616892d3386f43955369520986d67653c700fc53c.jpg");
    reveal_strlit("2d/fc/1d0596854b006b8c957f01e07bb0694c77a02cc36efec7bd610ba0409c24.jpg");
    reveal_strlit("/");
    reveal_strlit(".");
    reveal_strlit("jpg");
    assert(data_relative_path("https://example.com/image.jpg"@, d1) =~= "e5/db/82b5bf63d49d80c5533616892d3386f43955369520986d67653c700fc53c.jpg"@);
    assert(data_relative_path("https://example.com/image.jpg?id=1234"@, d2) =~= "2d/fc/1d0596854b006b8c957f01e07bb0694c77a02cc36efec7bd610ba0409c24.jpg"@);
}

} // verus!
