//! The primitives that SCRAM-SHA-256 is built from.
//!
//! Hashing, key derivation, base64, string preparation and randomness come from other crates; the
//! functions below that make those calls say what is relied on. What such a call returns is
//! referred to by a name, such as [`hmac_sha256`].

use std::num::NonZeroU32;

use base64::engine::general_purpose::STANDARD;
use base64::Engine;
use ring::{digest, hmac, pbkdf2};
use vstd::prelude::*;

verus! {

/// The HMAC-SHA-256 of a message under a key.
pub uninterp spec fn hmac_sha256(key: Seq<u8>, msg: Seq<u8>) -> Seq<u8>;

/// The SHA-256 digest of a message.
pub uninterp spec fn sha256(msg: Seq<u8>) -> Seq<u8>;

/// The standard base64 form of some bytes, with padding.
pub uninterp spec fn base64_encoded(data: Seq<u8>) -> Seq<char>;

/// The bytes that a base64 text stands for, or the text of the error that says why it stands for
/// none.
pub uninterp spec fn base64_decoded(text: Seq<char>) -> Result<Seq<u8>, Seq<char>>;

/// A string prepared with the SASLprep profile, or `None` where the profile prohibits it.
pub uninterp spec fn saslprepped(text: Seq<char>) -> Option<Seq<char>>;

/// How many bytes may be hashed or used as a key. SHA-256 itself is limited to fewer than 2^61
/// bytes; HMAC hashes a block of 64 bytes besides, and PBKDF2 a counter of four bytes as well.
pub const DIGEST_INPUT_LIMIT: u64 = 0x1fff_ffff_ffff_ff00;

/// How many characters the base64 form of `n` bytes has: four for every three bytes begun.
pub open spec fn base64_len(n: nat) -> nat {
    (n + 2) / 3 * 4
}

/// Whether `c` occurs in base64 text.
pub open spec fn is_base64_char(c: char) -> bool {
    'A' <= c <= 'Z' || 'a' <= c <= 'z' || '0' <= c <= '9' || c == '+' || c == '/' || c == '='
}

/// `stringprep::Error`, of which nothing is known.
#[verifier::external_type_specification]
#[verifier::external_body]
pub struct ExStringprepError(stringprep::Error);

/// Whether `text` is made of printable ASCII characters.
pub open spec fn is_printable_ascii(text: Seq<char>) -> bool {
    forall|i: int| 0 <= i < text.len() ==> ' ' <= #[trigger] text[i] <= '~'
}

/// `stringprep::saslprep` prepares a string or refuses it. Printable ASCII is left as it is.
#[verifier::external_body]
pub(crate) fn saslprep(text: &str) -> (r: Result<String, stringprep::Error>)
    ensures
        r is Ok <==> saslprepped(text@) is Some,
        r matches Ok(t) ==> saslprepped(text@) == Some(t@),
        is_printable_ascii(text@) ==> r is Ok,
        is_printable_ascii(text@) ==> r->Ok_0@ == text@,
{
    stringprep::saslprep(text).map(|t| t.into_owned())
}

/// What PBKDF2 with HMAC-SHA-256 computes in iteration `k`, counted from one: at first the HMAC of
/// the salt and the number of the block, which is one, and then the HMAC of what came before.
pub open spec fn pbkdf2_iteration(password: Seq<u8>, salt: Seq<u8>, k: nat) -> Seq<u8>
    decreases k,
{
    if k <= 1 {
        hmac_sha256(password, salt + seq![0u8, 0u8, 0u8, 1u8])
    } else {
        hmac_sha256(password, pbkdf2_iteration(password, salt, (k - 1) as nat))
    }
}

/// The first block that PBKDF2 with HMAC-SHA-256 derives: what all its iterations compute, combined
/// by exclusive or.
pub open spec fn pbkdf2_hmac_sha256(password: Seq<u8>, salt: Seq<u8>, iterations: nat) -> Seq<u8>
    decreases iterations,
{
    if iterations <= 1 {
        pbkdf2_iteration(password, salt, 1)
    } else {
        xor_bytes(
            pbkdf2_hmac_sha256(password, salt, (iterations - 1) as nat),
            pbkdf2_iteration(password, salt, iterations),
        )
    }
}

/// `ring::pbkdf2::derive` with HMAC-SHA-256 fills a buffer as long as one block, which is 32 bytes,
/// with the first block. It panics on inputs that SHA-256 cannot take.
#[verifier::external_body]
pub(crate) fn derive_key(password: &[u8], salt: &[u8], iterations: u32) -> (r: Vec<u8>)
    requires
        iterations != 0,
        password@.len() <= DIGEST_INPUT_LIMIT,
        salt@.len() <= DIGEST_INPUT_LIMIT,
    ensures
        r@ == pbkdf2_hmac_sha256(password@, salt@, iterations as nat),
        r@.len() == 32,
{
    let mut out = vec![0u8; digest::SHA256_OUTPUT_LEN];
    let iterations = NonZeroU32::new(iterations).unwrap();
    pbkdf2::derive(pbkdf2::PBKDF2_HMAC_SHA256, iterations, salt, password, &mut out);
    out
}

/// `ring::hmac::sign` with HMAC-SHA-256 gives a tag of 32 bytes. It panics on inputs that SHA-256
/// cannot take, as does `ring::hmac::Key::new`, which turns the key's bytes into a key.
#[verifier::external_body]
pub(crate) fn hmac(key: &[u8], msg: &[u8]) -> (r: Vec<u8>)
    requires
        key@.len() <= DIGEST_INPUT_LIMIT,
        msg@.len() <= DIGEST_INPUT_LIMIT,
    ensures
        r@ == hmac_sha256(key@, msg@),
        r@.len() == 32,
{
    let mac = hmac::Key::new(hmac::HMAC_SHA256, key);
    hmac::sign(&mac, msg).as_ref().to_vec()
}

/// `ring::digest::digest` with SHA-256 gives a digest of 32 bytes. It panics on inputs that
/// SHA-256 cannot take.
#[verifier::external_body]
pub(crate) fn h(msg: &[u8]) -> (r: Vec<u8>)
    requires
        msg@.len() <= DIGEST_INPUT_LIMIT,
    ensures
        r@ == sha256(msg@),
        r@.len() == 32,
{
    digest::digest(&digest::SHA256, msg).as_ref().to_vec()
}

/// `base64::Engine::encode` of the standard engine writes four characters of its alphabet, `=`
/// among them, for every three bytes begun; what it writes decodes to the same bytes. There is no
/// padding where the number of bytes is a multiple of three. It panics
/// where the text would be longer than a string can be.
#[verifier::external_body]
pub(crate) fn base64_encode(data: &[u8]) -> (r: String)
    requires
        base64_len(data@.len()) <= isize::MAX,
    ensures
        r@ == base64_encoded(data@),
        base64_decoded(r@) is Ok,
        base64_decoded(r@)->Ok_0 == data@,
        r@.len() == base64_len(data@.len()),
        forall|i: int| 0 <= i < r@.len() ==> is_base64_char(#[trigger] r@[i]),
        data@.len() % 3 == 0 ==> !r@.contains('='),
{
    STANDARD.encode(data)
}

/// `base64::decode` decodes a text, or refuses it with an error, which is given as its text.
#[allow(deprecated)]
#[verifier::external_body]
pub(crate) fn base64_decode(text: &str) -> (r: Result<Vec<u8>, String>)
    ensures
        r is Ok <==> base64_decoded(text@) is Ok,
        r matches Ok(data) ==> base64_decoded(text@)->Ok_0 == data@,
        r matches Err(e) ==> base64_decoded(text@)->Err_0 == e@,
{
    base64::decode(text).map_err(|e| e.to_string())
}

/// `rand::random` gives a random byte, of which nothing is known.
#[verifier::external_body]
pub fn random_byte() -> (r: u8) {
    rand::random::<u8>()
}

/// `rand::random` gives a random number, of which nothing is known.
#[verifier::external_body]
pub fn random_number() -> (r: i32) {
    rand::random::<i32>()
}

/// Whether each of `bytes` is one that [`random_byte`] gave.
pub open spec fn is_drawn(bytes: Seq<u8>) -> bool {
    forall|i: int| 0 <= i < bytes.len() ==> call_ensures(random_byte, (), #[trigger] bytes[i])
}

/// The bytes of `a` and `b` combined one by one by exclusive or, as far as both reach.
pub open spec fn xor_bytes(a: Seq<u8>, b: Seq<u8>) -> Seq<u8> {
    Seq::new(
        if a.len() <= b.len() {
            a.len()
        } else {
            b.len()
        },
        |i: int| a[i] ^ b[i],
    )
}

/// Combines `lhs` and `rhs` byte by byte, as far as both reach.
pub fn xor(lhs: &[u8], rhs: &[u8]) -> (r: Vec<u8>)
    ensures
        r@ == xor_bytes(lhs@, rhs@),
{
    let mut r: Vec<u8> = Vec::new();
    let mut i: usize = 0;
    while i < lhs.len() && i < rhs.len()
        invariant
            i <= lhs@.len(),
            i <= rhs@.len(),
            r@.len() == i,
            forall|j: int| 0 <= j < i ==> r@[j] == lhs@[j] ^ rhs@[j],
        decreases lhs@.len() - i,
    {
        r.push(lhs[i] ^ rhs[i]);
        i += 1;
    }
    assert(r@ =~= xor_bytes(lhs@, rhs@));
    r
}

/// Combining twice with the same bytes gives back what was there before.
pub proof fn law_xor_undoes_itself(a: Seq<u8>, b: Seq<u8>)
    requires
        a.len() <= b.len(),
    ensures
        xor_bytes(xor_bytes(a, b), b) == a,
{
    assert forall|i: int| 0 <= i < a.len() implies (a[i] ^ b[i]) ^ b[i] == a[i] by {
        let x = a[i];
        let y = b[i];
        assert((x ^ y) ^ y == x) by (bit_vector);
    }
    assert(xor_bytes(xor_bytes(a, b), b) =~= a);
}

/// It does not matter which of the two comes first.
pub proof fn law_xor_commutes(a: Seq<u8>, b: Seq<u8>)
    ensures
        xor_bytes(a, b) == xor_bytes(b, a),
{
    assert forall|i: int| #![trigger a[i]] #![trigger b[i]] a[i] ^ b[i] == b[i] ^ a[i] by {
        let x = a[i];
        let y = b[i];
        assert(x ^ y == y ^ x) by (bit_vector);
    }
    assert(xor_bytes(a, b) =~= xor_bytes(b, a));
}

/// Derives 32 bytes from a password. The iteration count is taken modulo 2^32.
pub fn hi(normalized_password: &[u8], salt: &[u8], iterations: usize) -> (r: Vec<u8>)
    requires
        iterations as u32 != 0,
        normalized_password@.len() <= DIGEST_INPUT_LIMIT,
        salt@.len() <= DIGEST_INPUT_LIMIT,
    ensures
        r@ == pbkdf2_hmac_sha256(normalized_password@, salt@, (iterations as u32) as nat),
        r@.len() == 32,
{
    derive_key(normalized_password, salt, iterations as u32)
}

/// What is derived from a password is the exclusive or of iterated HMACs: of the salt and the block
/// number at first, and in each further iteration of the HMAC before. With one iteration it is the
/// first of them alone.
pub proof fn law_derived_key_is_made_of_iterated_hmacs(
    password: Seq<u8>,
    salt: Seq<u8>,
    iterations: nat,
)
    requires
        iterations >= 1,
    ensures
        pbkdf2_hmac_sha256(password, salt, 1) == hmac_sha256(
            password,
            salt + seq![0u8, 0u8, 0u8, 1u8],
        ),
        pbkdf2_iteration(password, salt, 1) == hmac_sha256(
            password,
            salt + seq![0u8, 0u8, 0u8, 1u8],
        ),
        pbkdf2_iteration(password, salt, iterations + 1) == hmac_sha256(
            password,
            pbkdf2_iteration(password, salt, iterations),
        ),
        pbkdf2_hmac_sha256(password, salt, iterations + 1) == xor_bytes(
            pbkdf2_hmac_sha256(password, salt, iterations),
            pbkdf2_iteration(password, salt, iterations + 1),
        ),
{
}

/// The result is as long as the shorter of the two, and each byte of it is made of the two bytes in
/// its place.
pub proof fn law_xor_goes_byte_by_byte(a: Seq<u8>, b: Seq<u8>)
    ensures
        a.len() <= b.len() ==> xor_bytes(a, b).len() == a.len(),
        b.len() <= a.len() ==> xor_bytes(a, b).len() == b.len(),
        forall|i: int|
            0 <= i < a.len() && i < b.len() ==> #[trigger] xor_bytes(a, b)[i] == a[i] ^ b[i],
{
}

/// Bytes are drawn only where the random source gave each of them.
pub proof fn law_drawn_bytes_come_from_the_random_source(bytes: Seq<u8>, i: int)
    requires
        is_drawn(bytes),
        0 <= i < bytes.len(),
    ensures
        call_ensures(random_byte, (), bytes[i]),
{
}

/// Three bytes more take four characters more, and one or two bytes over take four as well.
pub proof fn law_base64_len_grows_by_four(n: nat)
    ensures
        base64_len(0) == 0,
        base64_len(1) == 4,
        base64_len(2) == 4,
        base64_len(n + 3) == base64_len(n) + 4,
{
}

} // verus!
