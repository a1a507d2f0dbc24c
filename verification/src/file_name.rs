//! Names of the generated files: a resource's page is named by the SHA-256
//! digest of its IRI, written in hexadecimal.

use vstd::prelude::*;
use sha2::{Digest, Sha256};

verus! {

/// What follows the digest in the name of a page.
pub const PAGE_SUFFIX: &'static str = ".html";

/// The digest that SHA-256, as the `sha2` crate computes it, gives `data`.
pub uninterp spec fn sha256_digest(data: Seq<u8>) -> Seq<u8>;

/// The lowercase hexadecimal digit for a value below sixteen.
pub open spec fn hex_digit(nibble: int) -> char {
    "0123456789abcdef"@[nibble]
}

/// `data` in hexadecimal: two lowercase digits for each byte, the high half first.
pub open spec fn hex_string(data: Seq<u8>) -> Seq<char> {
    Seq::new(
        2 * data.len(),
        |i: int| if i % 2 == 0 {
            hex_digit(data[i / 2] as int / 16)
        } else {
            hex_digit(data[i / 2] as int % 16)
        },
    )
}

/// The name of the page of the resource that `iri` identifies.
pub open spec fn file_name_of(iri: Seq<char>) -> Seq<char> {
    hex_string(sha256_digest(vstd::utf8::encode_utf8(iri))) + PAGE_SUFFIX@
}

/// Calls `sha2::Sha256::digest` on `data`. The contract only names what
/// comes back: the digest is a function of the bytes alone.
#[verifier::external_body]
fn sha256(data: &[u8]) -> (digest: Vec<u8>)
    ensures
        digest@ == sha256_digest(data@),
{
    Sha256::digest(data).to_vec()
}

/// Calls `hex::encode` on `data`: each byte becomes two lowercase hexadecimal
/// digits, the high half first.
#[verifier::external_body]
fn hex_encode(data: &[u8]) -> (text: String)
    ensures
        text@ == hex_string(data@),
{
    hex::encode(data)
}

/// The name of the page whose resource's IRI has the given digest.
pub fn file_name_for_digest(digest: &[u8]) -> (name: String)
    ensures
        name@ == hex_string(digest@) + PAGE_SUFFIX@,
{
    let mut name = hex_encode(digest);
    name.append(PAGE_SUFFIX);
    name
}

/// The name of the page of the resource that `iri` identifies.
pub fn file_name(iri: &str) -> (name: String)
    ensures
        name@ == file_name_of(iri@),
{
    let digest = sha256(iri.as_bytes());
    file_name_for_digest(digest.as_slice())
}

/// Distinct values below sixteen have distinct hexadecimal digits.
pub proof fn lemma_hex_digit_injective(a: int, b: int)
    requires
        0 <= a < 16,
        0 <= b < 16,
        hex_digit(a) == hex_digit(b),
    ensures
        a == b,
{
    reveal_strlit("0123456789abcdef");
}

/// Distinct byte strings have distinct hexadecimal forms.
pub proof fn lemma_hex_string_injective(a: Seq<u8>, b: Seq<u8>)
    requires
        hex_string(a) == hex_string(b),
    ensures
        a == b,
{
    assert(hex_string(a).len() == 2 * a.len());
    assert(hex_string(b).len() == 2 * b.len());
    assert forall|k: int| 0 <= k < a.len() implies a[k] == b[k] by {
        assert(hex_string(a)[2 * k] == hex_digit(a[k] as int / 16));
        assert(hex_string(b)[2 * k] == hex_digit(b[k] as int / 16));
        assert(hex_string(a)[2 * k + 1] == hex_digit(a[k] as int % 16));
        assert(hex_string(b)[2 * k + 1] == hex_digit(b[k] as int % 16));
        lemma_hex_digit_injective(a[k] as int / 16, b[k] as int / 16);
        lemma_hex_digit_injective(a[k] as int % 16, b[k] as int % 16);
    }
    assert(a =~= b);
}

/// Two resources share a file name exactly if the digests of their IRIs
/// collide: the hexadecimal form and the suffix lose nothing.
pub proof fn lemma_file_names_collide_with_digests(a: Seq<char>, b: Seq<char>)
    ensures
        file_name_of(a) == file_name_of(b) <==> sha256_digest(vstd::utf8::encode_utf8(a))
            == sha256_digest(vstd::utf8::encode_utf8(b)),
{
    let x = hex_string(sha256_digest(vstd::utf8::encode_utf8(a)));
    let y = hex_string(sha256_digest(vstd::utf8::encode_utf8(b)));
    if file_name_of(a) == file_name_of(b) {
        assert((x + PAGE_SUFFIX@).len() == (y + PAGE_SUFFIX@).len());
        assert forall|i: int| 0 <= i < x.len() implies x[i] == y[i] by {
            assert((x + PAGE_SUFFIX@)[i] == x[i]);
            assert((y + PAGE_SUFFIX@)[i] == y[i]);
        }
        assert(x =~= y);
        lemma_hex_string_injective(
            sha256_digest(vstd::utf8::encode_utf8(a)),
            sha256_digest(vstd::utf8::encode_utf8(b)),
        );
    }
}

/// Two distinct IRIs share a file name only where SHA-256 gives two distinct
/// byte strings, their UTF-8 forms, the same digest.
pub proof fn lemma_shared_file_name_is_a_collision(a: Seq<char>, b: Seq<char>)
    requires
        a != b,
        file_name_of(a) == file_name_of(b),
    ensures
        vstd::utf8::encode_utf8(a) != vstd::utf8::encode_utf8(b),
        sha256_digest(vstd::utf8::encode_utf8(a)) == sha256_digest(vstd::utf8::encode_utf8(b)),
{
    lemma_file_names_collide_with_digests(a, b);
    vstd::utf8::encode_utf8_decode_utf8(a);
    vstd::utf8::encode_utf8_decode_utf8(b);
}

/// A file name is made of lowercase hexadecimal digits and the suffix: it
/// holds no separator, and names a file of the directory that is written to.
pub proof fn lemma_file_name_is_plain(iri: Seq<char>, i: int)
    requires
        0 <= i < file_name_of(iri).len(),
    ensures
        file_name_of(iri).len() >= 5,
        ('0' <= file_name_of(iri)[i] && file_name_of(iri)[i] <= '9') || ('a' <= file_name_of(
            iri,
        )[i] && file_name_of(iri)[i] <= 'z') || file_name_of(iri)[i] == '.',
{
    reveal_strlit("0123456789abcdef");
    reveal_strlit(".html");
    let digest = sha256_digest(vstd::utf8::encode_utf8(iri));
    let digits = hex_string(digest);
    if i < digits.len() {
        assert(file_name_of(iri)[i] == digits[i]);
        let byte = digest[i / 2] as int;
        assert(0 <= byte / 16 < 16);
        assert(0 <= byte % 16 < 16);
    } else {
        assert(file_name_of(iri)[i] == PAGE_SUFFIX@[i - digits.len()]);
    }
}

} // verus!
