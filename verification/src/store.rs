//! The artifact store: which file a fragment goes to, and whether it is
//! written at all.
//!
//! A fragment's file is named by the SHA-256 fingerprint of its bytes, so the
//! same text always lands in the same file and writing it again changes
//! nothing. The functions here decide; the caller touches the disk.

use sha2::{Digest, Sha256};
use vstd::prelude::*;
use vstd::string::*;
use vstd::utf8::encode_utf8;

verus! {

/// The SHA-256 digest of a byte sequence.
pub uninterp spec fn sha256(data: Seq<u8>) -> Seq<u8>;

/// The sixteen lower-case hexadecimal digits, by value.
pub open spec fn hex_digits() -> Seq<char> {
    seq!['0', '1', '2', '3', '4', '5', '6', '7', '8', '9', 'a', 'b', 'c', 'd', 'e', 'f']
}

/// The character at position `i` of the lower-case hexadecimal text of
/// `bytes`: the high half of a byte comes first.
pub open spec fn hex_char_at(bytes: Seq<u8>, i: int) -> char {
    if i % 2 == 0 {
        hex_digits()[bytes[i / 2] as int / 16]
    } else {
        hex_digits()[bytes[i / 2] as int % 16]
    }
}

/// Lower-case hexadecimal text of `bytes`, two digits for each byte.
pub open spec fn hex_text(bytes: Seq<u8>) -> Seq<char> {
    Seq::new(2 * bytes.len(), |i: int| hex_char_at(bytes, i))
}

/// The fingerprint of a fragment: the hexadecimal text of the SHA-256 digest
/// of its UTF-8 bytes.
pub open spec fn fingerprint(text: Seq<char>) -> Seq<char> {
    hex_text(sha256(encode_utf8(text)))
}

/// The extension of a fragment file, with its dot.
pub open spec fn fragment_extension() -> Seq<char> {
    seq!['.', 'w', 'i', 't']
}

/// The name of the file that holds the fragment `text`.
pub open spec fn file_name_of(text: Seq<char>) -> Seq<char> {
    fingerprint(text) + fragment_extension()
}

/// Whether `c` is the letter `lower`, in either case. `lower` is an ASCII
/// lower-case letter.
pub open spec fn is_letter(c: char, lower: char) -> bool {
    c == lower || c as int + 32 == lower as int
}

/// Whether a value of the activation switch reads `true`, whatever the case
/// of its letters.
pub open spec fn reads_true(value: Seq<char>) -> bool {
    &&& value.len() == 4
    &&& is_letter(value[0], 't')
    &&& is_letter(value[1], 'r')
    &&& is_letter(value[2], 'u')
    &&& is_letter(value[3], 'e')
}

/// Whether the activation switch enables writing: it is set, and reads `true`.
pub open spec fn switch_enables(switch: Option<Seq<char>>) -> bool {
    match switch {
        Some(value) => reads_true(value),
        None => false,
    }
}

/// The value of the switch as a mathematical value.
pub open spec fn switch_view(switch: Option<&str>) -> Option<Seq<char>> {
    match switch {
        Some(value) => Some(value@),
        None => None,
    }
}

/// The output directory after the fragment `text` was persisted into `dir`:
/// with the switch off it is `dir`; with it on, the file named by the
/// fragment holds the fragment's bytes, whatever it held before, and every
/// other file is as it was. A directory is a map from file names to contents.
pub open spec fn persisted(dir: Map<Seq<char>, Seq<u8>>, enabled: bool, text: Seq<char>) -> Map<
    Seq<char>,
    Seq<u8>,
> {
    if enabled {
        dir.insert(file_name_of(text), encode_utf8(text))
    } else {
        dir
    }
}

/// A fragment ready to be written: the name of its file inside the output
/// directory, and the bytes that the file is to hold.
#[derive(Debug, Clone, PartialEq, Eq)]
pub struct Artifact {
    pub file_name: String,
    pub content: Vec<u8>,
}

impl Artifact {
    /// Whether this is the artifact of the fragment `text`.
    pub open spec fn holds(&self, text: Seq<char>) -> bool {
        &&& self.file_name@ == file_name_of(text)
        &&& self.content@ == encode_utf8(text)
    }

    /// The directory `dir` after this artifact was written into it: the
    /// file is created, or replaced as a whole.
    pub open spec fn written_into(&self, dir: Map<Seq<char>, Seq<u8>>) -> Map<Seq<char>, Seq<u8>> {
        dir.insert(self.file_name@, self.content@)
    }
}

/// Calls `sha2::Sha256::digest`, which hashes the whole input at once. The
/// contract names the digest and claims its length, 32 bytes, which is the
/// output size that the crate declares for SHA-256.
#[verifier::external_body]
fn sha256_digest(data: &[u8]) -> (digest: Vec<u8>)
    ensures
        digest@ == sha256(data@),
        digest@.len() == 32,
{
    Sha256::digest(data).to_vec()
}

/// Calls `hex::encode`, which writes each byte as two lower-case hexadecimal
/// digits, the high half first.
#[verifier::external_body]
fn hex_encode(data: &Vec<u8>) -> (text: String)
    ensures
        text@ == hex_text(data@),
{
    hex::encode(data)
}

/// The fingerprint of `query`: 64 hexadecimal digits.
pub fn hash_string(query: &str) -> (digest: String)
    ensures
        digest@ == fingerprint(query@),
        digest@.len() == 64,
{
    let raw = sha256_digest(query.as_bytes());
    hex_encode(&raw)
}

/// Whether `c` is the ASCII letter `lower` in either case.
fn letter_matches(c: char, lower: char) -> (same: bool)
    requires
        'a' <= lower <= 'z',
    ensures
        same == is_letter(c, lower),
{
    let code: u32 = c as u32;
    let want: u32 = lower as u32;
    code == want || code + 32 == want
}

/// Reads the activation switch: `switch` is its value, or `None` where it is
/// not set. Only the word `true`, in any case of its letters, enables writing.
pub fn is_enabled(switch: Option<&str>) -> (enabled: bool)
    ensures
        enabled == switch_enables(switch_view(switch)),
{
    match switch {
        None => false,
        Some(value) => {
            if value.unicode_len() != 4 {
                false
            } else {
                letter_matches(value.get_char(0), 't') && letter_matches(value.get_char(1), 'r')
                    && letter_matches(value.get_char(2), 'u') && letter_matches(
                    value.get_char(3),
                    'e',
                )
            }
        },
    }
}

/// The name of the file for a fragment with the fingerprint `fingerprint`:
/// the fingerprint and the fragment extension.
pub fn named_by(fingerprint: String) -> (name: String)
    ensures
        name@ == fingerprint@ + fragment_extension(),
{
    let mut name = fingerprint;
    name.append(".wit");
    proof {
        reveal_strlit(".wit");
        assert(".wit"@ =~= fragment_extension());
    }
    name
}

/// The name of the file for the fragment `content`.
pub fn file_name(content: &str) -> (name: String)
    ensures
        name@ == file_name_of(content@),
{
    named_by(hash_string(content))
}

/// Decides what writing the fragment `content` comes to. With the switch
/// off nothing is to be written; with it on, the artifact of `content` is.
pub fn write_to_file(enabled: bool, content: &str) -> (artifact: Option<Artifact>)
    ensures
        artifact is Some <==> enabled,
        enabled ==> artifact->Some_0.holds(content@),
{
    if !enabled {
        return None;
    }
    let file_name = file_name(content);
    let bytes = content.as_bytes_vec();
    Some(Artifact { file_name, content: bytes })
}

/// Persisting is idempotent: a second persisting of the same fragment
/// leaves the directory as the first left it. Where the switch is on, the
/// directory then has the one file named by the fragment besides those it
/// had, with the fragment's exact bytes; where it is off, nothing changes.
pub proof fn lemma_persist_idempotent(dir: Map<Seq<char>, Seq<u8>>, enabled: bool, text: Seq<char>)
    ensures
        persisted(persisted(dir, enabled, text), enabled, text) == persisted(dir, enabled, text),
        enabled ==> persisted(dir, enabled, text).dom() == dir.dom().insert(file_name_of(text)),
        enabled ==> persisted(dir, enabled, text)[file_name_of(text)] == encode_utf8(text),
        !enabled ==> persisted(dir, enabled, text) == dir,
{
    assert(persisted(persisted(dir, enabled, text), enabled, text) =~= persisted(
        dir,
        enabled,
        text,
    ));
    assert(enabled ==> persisted(dir, enabled, text).dom() =~= dir.dom().insert(
        file_name_of(text),
    ));
}

/// Writing the artifact of a fragment is persisting the fragment.
pub proof fn lemma_artifact_persists(
    artifact: Artifact,
    dir: Map<Seq<char>, Seq<u8>>,
    text: Seq<char>,
)
    requires
        artifact.holds(text),
    ensures
        artifact.written_into(dir) == persisted(dir, true, text),
{
}

/// The hexadecimal text of a byte sequence determines the sequence.
pub proof fn lemma_hex_text_injective(a: Seq<u8>, b: Seq<u8>)
    requires
        hex_text(a) == hex_text(b),
    ensures
        a == b,
{
    assert(hex_text(a).len() == 2 * a.len());
    assert(hex_text(b).len() == 2 * b.len());
    assert forall|i: int| 0 <= i < a.len() implies a[i] == b[i] by {
        let high = hex_text(a)[2 * i];
        let low = hex_text(a)[2 * i + 1];
        assert(high == hex_char_at(a, 2 * i));
        assert(low == hex_char_at(a, 2 * i + 1));
        assert(hex_text(b)[2 * i] == hex_char_at(b, 2 * i));
        assert(hex_text(b)[2 * i + 1] == hex_char_at(b, 2 * i + 1));
        lemma_hex_digits_distinct(a[i] as int / 16, b[i] as int / 16);
        lemma_hex_digits_distinct(a[i] as int % 16, b[i] as int % 16);
    }
    assert(a =~= b);
}

/// The sixteen hexadecimal digits are distinct.
pub proof fn lemma_hex_digits_distinct(m: int, n: int)
    requires
        0 <= m < 16,
        0 <= n < 16,
        hex_digits()[m] == hex_digits()[n],
    ensures
        m == n,
{
}

/// Two fragments share a file name exactly when their bytes share a
/// SHA-256 digest: the name keeps the whole digest.
pub proof fn lemma_file_name_keeps_digest(a: Seq<char>, b: Seq<char>)
    ensures
        file_name_of(a) == file_name_of(b) <==> sha256(encode_utf8(a)) == sha256(encode_utf8(b)),
{
    if file_name_of(a) == file_name_of(b) {
        let fa = fingerprint(a);
        let fb = fingerprint(b);
        let ext = fragment_extension();
        assert((fa + ext).len() == fa.len() + 4);
        assert((fb + ext).len() == fb.len() + 4);
        assert(fa =~= (fa + ext).subrange(0, fa.len() as int));
        assert(fb =~= (fb + ext).subrange(0, fb.len() as int));
        lemma_hex_text_injective(sha256(encode_utf8(a)), sha256(encode_utf8(b)));
    }
}

} // verus!
