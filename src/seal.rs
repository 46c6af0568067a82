use vstd::prelude::*;
use vstd::utf8::*;
use chacha20poly1305::aead::{Aead, NewAead};
use rand::RngCore;
use crate::fingerprint::{build_fingerprint, passive_of, Fingerprint, PassiveFingerprintView};
use crate::headers::Header;
use crate::json::{fingerprint_json, has_rfc3339_form, rfc3339_of, serialize_fingerprint};

verus! {

/// Bytes of nonce at the front of every sealed record.
pub const NONCE_LEN: usize = 12;

/// Bytes of key material.
pub const KEY_LEN: usize = 32;

/// Bytes of authentication tag that the cipher appends.
pub const TAG_LEN: usize = 16;

/// ChaCha20-Poly1305 takes messages shorter than this many bytes
/// (64-byte blocks, 32-bit block counter).
pub const MAX_MESSAGE_LEN: u64 = 274877906880;

/// ChaCha20-Poly1305 ciphertext-with-tag of `plaintext` under `key` and
/// `nonce`, with no associated data.
pub uninterp spec fn chacha20poly1305_of(key: Seq<u8>, nonce: Seq<u8>, plaintext: Seq<u8>) -> Seq<u8>;

/// The error type of the `aead` traits, carried opaquely.
#[verifier::external_type_specification]
#[verifier::external_body]
pub struct ExAeadError(chacha20poly1305::aead::Error);

/// Relies on chacha20poly1305's `Aead::encrypt` (through `NewAead::new` on the
/// key): it refuses a message of `MAX_MESSAGE_LEN` bytes or more, and
/// otherwise returns the ciphertext followed by the 16-byte tag.
#[verifier::external_body]
#[allow(deprecated)]
fn aead_encrypt(key: &Vec<u8>, nonce: &Vec<u8>, plaintext: &[u8]) -> (r: Result<
    Vec<u8>,
    chacha20poly1305::aead::Error,
>)
    requires
        key@.len() == KEY_LEN,
        nonce@.len() == NONCE_LEN,
    ensures
        r is Ok <==> plaintext@.len() < MAX_MESSAGE_LEN,
        r matches Ok(c) ==> c@ == chacha20poly1305_of(key@, nonce@, plaintext@),
        r matches Ok(c) ==> c@.len() == plaintext@.len() + TAG_LEN,
{
    let cipher = chacha20poly1305::ChaCha20Poly1305::new(chacha20poly1305::Key::from_slice(key));
    cipher.encrypt(chacha20poly1305::Nonce::from_slice(nonce), plaintext)
}

/// Relies on rand's `thread_rng` and `RngCore::fill_bytes`: twelve bytes from
/// the thread-local cryptographically secure generator.
#[verifier::external_body]
fn random_nonce() -> (r: Vec<u8>)
    ensures
        r@.len() == NONCE_LEN,
{
    let mut bytes = [0u8; 12];
    rand::thread_rng().fill_bytes(&mut bytes);
    bytes.to_vec()
}

/// Why a record could not be sealed.
#[derive(Clone, Copy, PartialEq, Eq, Debug)]
pub enum SealError {
    /// The capture instant has no RFC 3339 form (outside years 0 to 9999).
    TimestampOutOfRange,
    /// The plaintext is too long for the cipher.
    MessageTooLong,
}

/// The wire layout of a sealed record: the nonce, then ciphertext-with-tag.
pub open spec fn sealed_frame(nonce: Seq<u8>, ciphertext: Seq<u8>) -> Seq<u8> {
    nonce + ciphertext
}

/// How a reader takes a sealed record apart: nothing when it is too short to
/// hold a nonce.
pub open spec fn split_frame(buf: Seq<u8>) -> Option<(Seq<u8>, Seq<u8>)> {
    if buf.len() < NONCE_LEN {
        None
    } else {
        Some((buf.subrange(0, NONCE_LEN as int), buf.subrange(NONCE_LEN as int, buf.len() as int)))
    }
}

/// Lays out a sealed record: `nonce` followed by `ciphertext`.
pub fn frame_sealed(nonce: Vec<u8>, ciphertext: Vec<u8>) -> (r: Vec<u8>)
    ensures
        r@ == sealed_frame(nonce@, ciphertext@),
{
    let mut out = nonce;
    let mut rest = ciphertext;
    out.append(&mut rest);
    out
}

/// Takes a sealed record apart into its nonce and its ciphertext-with-tag;
/// `None` when it is shorter than a nonce.
pub fn split_sealed(buf: Vec<u8>) -> (r: Option<(Vec<u8>, Vec<u8>)>)
    ensures
        r is None <==> buf@.len() < NONCE_LEN,
        r matches Some((n, c)) ==> split_frame(buf@) == Some((n@, c@)),
{
    if buf.len() < NONCE_LEN {
        None
    } else {
        let mut nonce = buf;
        let ciphertext = nonce.split_off(NONCE_LEN);
        Some((nonce, ciphertext))
    }
}

/// A record laid out by `frame_sealed` with a nonce of the right length comes
/// apart into that same nonce and ciphertext.
pub proof fn lemma_frame_round_trip(nonce: Seq<u8>, ciphertext: Seq<u8>)
    requires
        nonce.len() == NONCE_LEN,
    ensures
        split_frame(sealed_frame(nonce, ciphertext)) == Some((nonce, ciphertext)),
{
    let buf = sealed_frame(nonce, ciphertext);
    assert(buf.subrange(0, NONCE_LEN as int) =~= nonce);
    assert(buf.subrange(NONCE_LEN as int, buf.len() as int) =~= ciphertext);
}

/// Anything shorter than a nonce is no sealed record.
pub proof fn lemma_short_record_rejected(buf: Seq<u8>)
    requires
        buf.len() < NONCE_LEN,
    ensures
        split_frame(buf) is None,
        forall|n: Seq<u8>, c: Seq<u8>| n.len() == NONCE_LEN ==> #[trigger] sealed_frame(n, c) != buf,
{
    assert forall|n: Seq<u8>, c: Seq<u8>| n.len() == NONCE_LEN implies #[trigger] sealed_frame(n, c)
        != buf by {
        assert(sealed_frame(n, c).len() >= NONCE_LEN);
    }
}

/// What a sealed record of `plaintext` under `key` is, for some nonce: the
/// nonce at the front and the cipher's output for that nonce after it.
pub open spec fn is_sealing_of(r: Seq<u8>, key: Seq<u8>, plaintext: Seq<u8>) -> bool {
    &&& r.len() == NONCE_LEN + plaintext.len() + TAG_LEN
    &&& r == sealed_frame(
        r.subrange(0, NONCE_LEN as int),
        chacha20poly1305_of(key, r.subrange(0, NONCE_LEN as int), plaintext),
    )
}

/// The long-lived sealing key.
pub struct Sealer {
    key: Vec<u8>,
}

impl View for Sealer {
    type V = Seq<u8>;

    closed spec fn view(&self) -> Seq<u8> {
        self.key@
    }
}

impl Sealer {
    #[verifier::type_invariant]
    spec fn inv(&self) -> bool {
        self.key@.len() == KEY_LEN
    }

    /// Takes the key material; `None` unless it is exactly 32 bytes.
    pub fn new(key: Vec<u8>) -> (r: Option<Sealer>)
        ensures
            r is Some <==> key@.len() == KEY_LEN,
            r matches Some(s) ==> s@ == key@,
    {
        if key.len() == KEY_LEN {
            Some(Sealer { key })
        } else {
            None
        }
    }

    /// Seals `plaintext` under the given nonce.
    pub fn seal_with_nonce(&self, nonce: Vec<u8>, plaintext: &[u8]) -> (r: Result<Vec<u8>, SealError>)
        requires
            nonce@.len() == NONCE_LEN,
        ensures
            r is Ok <==> plaintext@.len() < MAX_MESSAGE_LEN,
            r is Err ==> r == Err::<Vec<u8>, SealError>(SealError::MessageTooLong),
            r matches Ok(b) ==> b@ == sealed_frame(
                nonce@,
                chacha20poly1305_of(self@, nonce@, plaintext@),
            ),
            r matches Ok(b) ==> b@.len() == NONCE_LEN + plaintext@.len() + TAG_LEN,
    {
        proof {
            use_type_invariant(self);
        }
        match aead_encrypt(&self.key, &nonce, plaintext) {
            Ok(c) => Ok(frame_sealed(nonce, c)),
            Err(_) => Err(SealError::MessageTooLong),
        }
    }

    /// Seals `plaintext` under a freshly drawn random nonce.
    pub fn seal(&self, plaintext: &[u8]) -> (r: Result<Vec<u8>, SealError>)
        ensures
            r is Ok <==> plaintext@.len() < MAX_MESSAGE_LEN,
            r is Err ==> r == Err::<Vec<u8>, SealError>(SealError::MessageTooLong),
            r matches Ok(b) ==> is_sealing_of(b@, self@, plaintext@),
    {
        let nonce = random_nonce();
        let ghost n = nonce@;
        let r = self.seal_with_nonce(nonce, plaintext);
        proof {
            if r is Ok {
                assert(r->Ok_0@.subrange(0, NONCE_LEN as int) =~= n);
            }
        }
        r
    }
}

/// The plaintext sealed for a capture whose instant is written `stamp`: the
/// UTF-8 bytes of its JSON text.
pub open spec fn payload_of(p: PassiveFingerprintView, stamp: Seq<char>) -> Seq<u8> {
    encode_utf8(fingerprint_json(p, stamp))
}

/// What sealing the capture of `p` at instant `t` under `key` comes to: an
/// instant without RFC 3339 form is refused, a payload too long for the
/// cipher is refused, and otherwise the result is a sealing of the payload.
pub open spec fn sealed_capture(
    r: Result<Vec<u8>, SealError>,
    key: Seq<u8>,
    p: PassiveFingerprintView,
    t: int,
) -> bool {
    if !has_rfc3339_form(t) {
        r == Err::<Vec<u8>, SealError>(SealError::TimestampOutOfRange)
    } else {
        let pt = payload_of(p, rfc3339_of(t));
        &&& (r is Ok <==> pt.len() < MAX_MESSAGE_LEN)
        &&& (r is Err ==> r == Err::<Vec<u8>, SealError>(SealError::MessageTooLong))
        &&& (r matches Ok(b) ==> is_sealing_of(b@, key, pt))
    }
}

/// Serializes a capture and seals it.
pub fn encrypt_fingerprint(fp: &Fingerprint, sealer: &Sealer) -> (r: Result<Vec<u8>, SealError>)
    ensures
        sealed_capture(r, sealer@, fp.fingerprint@, fp.timestamp.unix_nanos as int),
{
    match serialize_fingerprint(fp) {
        None => Err(SealError::TimestampOutOfRange),
        Some(text) => sealer.seal(text.as_str().as_bytes()),
    }
}

/// Builds the fingerprint of a request from its headers, stamps it with the
/// current instant, and seals its JSON text.
pub fn respond(sealer: &Sealer, headers: &Vec<Header>) -> (r: Result<Vec<u8>, SealError>)
    ensures
        exists|t: int| #[trigger] sealed_capture(r, sealer@, passive_of(headers@), t),
{
    let fp = build_fingerprint(headers);
    let r = encrypt_fingerprint(&fp, sealer);
    assert(sealed_capture(r, sealer@, passive_of(headers@), fp.timestamp.unix_nanos as int));
    r
}

} // verus!
