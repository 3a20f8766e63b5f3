//! SHA-256 digests and checksum listings.
use vstd::prelude::*;
use vstd::utf8::encode_utf8;
use sha2::Digest;
use crate::text::{push_char, push_str};

verus! {

broadcast use vstd::string::group_string_axioms;

/// The SHA-256 digest of `data` as `sha2::Sha256` computes it.
pub uninterp spec fn sha256_digest(data: Seq<u8>) -> Seq<u8>;

/// Computes the SHA-256 digest of `data` (`sha2::Sha256::digest`). Claims that the result is
/// `sha256_digest` of the data and, as SHA-256 fixes, 32 bytes long.
#[verifier::external_body]
fn sha256(data: &[u8]) -> (res: Vec<u8>)
    ensures
        res@ == sha256_digest(data@),
        res@.len() == 32,
{
    sha2::Sha256::digest(data).to_vec()
}

/// The lower-case hexadecimal digits.
pub const HEX_DIGITS: [char; 16] = [
    '0', '1', '2', '3', '4', '5', '6', '7', '8', '9', 'a', 'b', 'c', 'd', 'e', 'f',
];

/// The lower-case hexadecimal encoding of `data`, two digits per byte, high digit first
/// (what `hex::encode` produces).
pub open spec fn hex_lower(data: Seq<u8>) -> Seq<char>
    decreases data.len(),
{
    if data.len() == 0 {
        seq![]
    } else {
        hex_lower(data.drop_last()) + seq![
            HEX_DIGITS@[(data.last() / 16) as int],
            HEX_DIGITS@[(data.last() % 16) as int],
        ]
    }
}

/// Whether `c` is a lower-case hexadecimal digit.
pub open spec fn is_hex_digit(c: char) -> bool {
    ('0' <= c && c <= '9') || ('a' <= c && c <= 'f')
}

/// The encoding has two digits per byte, all of them lower-case hexadecimal digits.
pub proof fn lemma_hex_lower_shape(data: Seq<u8>)
    ensures
        hex_lower(data).len() == 2 * data.len(),
        forall|k: int| 0 <= k < hex_lower(data).len() ==> is_hex_digit(#[trigger] hex_lower(data)[k]),
    decreases data.len(),
{
    if data.len() > 0 {
        lemma_hex_lower_shape(data.drop_last());
        let prev = hex_lower(data.drop_last());
        let b = data.last();
        assert(HEX_DIGITS@.len() == 16);
        assert forall|k: int| 0 <= k < hex_lower(data).len() implies is_hex_digit(#[trigger] hex_lower(data)[k]) by {
            if k < prev.len() {
                assert(hex_lower(data)[k] == prev[k]);
            } else {
                let d = if k == prev.len() { b / 16 } else { b % 16 };
                assert(hex_lower(data)[k] == HEX_DIGITS@[d as int]);
            }
        }
    }
}

/// The value of the lower-case hexadecimal digit `c`.
pub open spec fn hex_value(c: char) -> int {
    if '0' <= c && c <= '9' {
        c as int - '0' as int
    } else {
        c as int - 'a' as int + 10
    }
}

proof fn lemma_hex_digit(d: int)
    requires
        0 <= d < 16,
    ensures
        is_hex_digit(HEX_DIGITS@[d]),
        hex_value(HEX_DIGITS@[d]) == d,
{
    assert(HEX_DIGITS@ == seq!['0', '1', '2', '3', '4', '5', '6', '7', '8', '9', 'a', 'b', 'c', 'd', 'e', 'f']);
}

/// The two characters of `h` at `2 * i` and `2 * i + 1` are lower-case hexadecimal digits
/// whose value, high digit first, is `b`.
pub open spec fn digits_spell(h: Seq<char>, i: int, b: u8) -> bool {
    &&& is_hex_digit(h[2 * i])
    &&& is_hex_digit(h[2 * i + 1])
    &&& 16 * hex_value(h[2 * i]) + hex_value(h[2 * i + 1]) == b
}

/// Reading the encoding back gives the bytes: the two digits at `2 * i` and `2 * i + 1` are
/// lower-case hexadecimal digits whose value, high digit first, is the byte at `i`.
pub proof fn law_hex_lower_decodes(data: Seq<u8>)
    ensures
        hex_lower(data).len() == 2 * data.len(),
        forall|i: int| 0 <= i < data.len() ==> #[trigger] digits_spell(hex_lower(data), i, data[i]),
    decreases data.len(),
{
    if data.len() > 0 {
        let prev = data.drop_last();
        law_hex_lower_decodes(prev);
        let h = hex_lower(data);
        let hp = hex_lower(prev);
        let b = data.last();
        lemma_hex_digit((b / 16) as int);
        lemma_hex_digit((b % 16) as int);
        assert(h == hp + seq![HEX_DIGITS@[(b / 16) as int], HEX_DIGITS@[(b % 16) as int]]);
        assert forall|i: int| 0 <= i < data.len() implies #[trigger] digits_spell(h, i, data[i]) by {
            if i < prev.len() {
                assert(digits_spell(hp, i, prev[i]));
                assert(h[2 * i] == hp[2 * i]);
                assert(h[2 * i + 1] == hp[2 * i + 1]);
                assert(data[i] == prev[i]);
            } else {
                assert(h[2 * i] == HEX_DIGITS@[(b / 16) as int]);
                assert(h[2 * i + 1] == HEX_DIGITS@[(b % 16) as int]);
                assert(data[i] == b);
                assert(16 * (b / 16) + b % 16 == b);
            }
        }
    }
}

/// Appends the lower-case hexadecimal encoding of `data` to `s`.
pub fn push_hex(s: &mut String, data: &[u8])
    ensures
        final(s)@ == old(s)@ + hex_lower(data@),
{
    let ghost s0 = s@;
    for i in 0..data.len()
        invariant
            s@ == s0 + hex_lower(data@.take(i as int)),
    {
        let b = data[i];
        push_char(s, HEX_DIGITS[(b / 16) as usize]);
        push_char(s, HEX_DIGITS[(b % 16) as usize]);
        assert(data@.take(i + 1).drop_last() == data@.take(i as int));
        assert(s@ =~= s0 + hex_lower(data@.take(i + 1)));
    }
    assert(data@.take(data@.len() as int) == data@);
}

/// The lower-case hexadecimal encoding of `data`.
pub fn hex_encode(data: &[u8]) -> (res: String)
    ensures
        res@ == hex_lower(data@),
{
    let mut s = String::new();
    push_hex(&mut s, data);
    assert(s@ =~= hex_lower(data@));
    s
}

/// Generates the SHA-256 of the UTF-8 bytes of `content`, in lower-case hexadecimal:
/// 64 characters.
pub fn gen_sha256(content: &str) -> (res: String)
    ensures
        res@ == hex_lower(sha256_digest(encode_utf8(content@))),
        res@.len() == 64,
{
    let digest = sha256(content.as_bytes());
    proof {
        lemma_hex_lower_shape(digest@);
    }
    hex_encode(digest.as_slice())
}

/// Glob patterns of the files whose checksums are generated.
pub const CHECKSUM_GLOBS: [&'static str; 6] = ["**/*.tar.gz", "**/*.zip", "**/*.7z", "**/*.tar.xz", "**/*.exe", "**/*.elf"];

/// One line of a checksum listing: the digest in hexadecimal, two spaces, the file's name.
pub open spec fn checksum_line(name: Seq<char>, data: Seq<u8>) -> Seq<char> {
    hex_lower(sha256_digest(data)) + "  "@ + name + "\n"@
}

/// The checksum listing of files given by name and contents, one line per file, in order.
pub open spec fn checksum_listing(files: Seq<(Seq<char>, Seq<u8>)>) -> Seq<char>
    decreases files.len(),
{
    if files.len() == 0 {
        seq![]
    } else {
        checksum_listing(files.drop_last()) + checksum_line(files.last().0, files.last().1)
    }
}

/// The names and contents of files as plain values.
pub open spec fn file_views(files: Seq<(String, Vec<u8>)>) -> Seq<(Seq<char>, Seq<u8>)> {
    files.map_values(|f: (String, Vec<u8>)| (f.0@, f.1@))
}

/// Generates the checksum listing (SHA-256) of files given by name and contents.
pub fn gen_checksums(files: &Vec<(String, Vec<u8>)>) -> (res: String)
    ensures
        res@ == checksum_listing(file_views(files@)),
{
    let ghost fs = file_views(files@);
    let mut checksum = String::new();
    for i in 0..files.len()
        invariant
            fs == file_views(files@),
            checksum@ == checksum_listing(fs.take(i as int)),
    {
        let (name, bytes) = &files[i];
        let digest = sha256(bytes.as_slice());
        let ghost before = checksum@;
        push_hex(&mut checksum, digest.as_slice());
        push_str(&mut checksum, "  ");
        push_str(&mut checksum, name.as_str());
        push_str(&mut checksum, "\n");
        assert(fs.take(i + 1).drop_last() == fs.take(i as int));
        assert(fs.take(i + 1).last() == (name@, bytes@));
        assert(checksum@ =~= checksum_listing(fs.take(i + 1)));
    }
    assert(fs.take(files.len() as int) == fs);
    checksum
}

} // verus!
