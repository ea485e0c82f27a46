//! The chunk codec: seals and opens one chunk with XChaCha20-Poly1305 and
//! defines the frame a chunk takes on disk, `[associated data: 32][ciphertext + tag]`.

use vstd::prelude::*;
use vstd::slice::{slice_subrange, slice_to_vec};

use orion::hazardous::aead::xchacha20poly1305;

use crate::keys::{generate_auth_tag, AD_LEN, KEY_LEN, NONCE_LEN};

verus! {

/// Length in bytes of the Poly1305 tag that follows each ciphertext.
pub const TAG_LEN: usize = 16;

/// Bytes a frame adds to its plaintext: associated data and tag.
pub const FRAME_OVERHEAD: usize = 48;

/// The longest plaintext the AEAD seals or opens in one call,
/// `(u32::MAX - 1) * 64` bytes: one ChaCha20 block of the 32-bit counter
/// goes to the Poly1305 key, the others to the data.
pub const MAX_SEAL_LEN: u64 = 274877906816;

/// Why a chunk could not be sealed or opened.
#[derive(Debug, PartialEq, Eq, Structural)]
pub enum CodecError {
    /// The plaintext is longer than the AEAD can seal in one call.
    PlaintextTooLong,
    /// The frame is too short, or its tag does not match: a wrong password,
    /// a wrong nonce, or altered bytes.
    AuthenticationFailed,
}

/// The ciphertext and tag that XChaCha20-Poly1305, as orion's
/// `xchacha20poly1305::seal` runs it, makes of a plaintext under a key, a
/// nonce and associated data.
pub uninterp spec fn xchacha_sealed(key: Seq<u8>, nonce: Seq<u8>, ad: Seq<u8>, plaintext: Seq<u8>) -> Seq<u8>;

/// What orion's `xchacha20poly1305::open` recovers from a ciphertext with tag
/// under a key, a nonce and associated data: the plaintext, or nothing when
/// the tag does not verify.
pub uninterp spec fn xchacha_opened(key: Seq<u8>, nonce: Seq<u8>, ad: Seq<u8>, sealed: Seq<u8>) -> Option<Seq<u8>>;

/// Relies on orion's `hazardous::aead::xchacha20poly1305::seal`, with the key
/// and nonce taken by `SecretKey::from_slice` (32 bytes) and
/// `Nonce::from_slice` (24 bytes). `seal` spends one keystream block on the
/// Poly1305 key and checks the 32-bit block counter before each data block,
/// so it refuses a plaintext of more than `u32::MAX - 1` blocks of 64 bytes
/// (its `P_MAX` check is looser); otherwise it writes ciphertext and tag to
/// the first `plaintext.len() + 16` bytes of its output.
#[verifier::external_body]
fn aead_seal(key: &[u8], nonce: &[u8], plaintext: &[u8], ad: &[u8], dst: &mut Vec<u8>) -> (r: Result<(), orion::errors::UnknownCryptoError>)
    requires
        old(dst)@.len() == plaintext@.len() + TAG_LEN,
    ensures
        final(dst)@.len() == old(dst)@.len(),
        r is Ok <==> (key@.len() == KEY_LEN && nonce@.len() == NONCE_LEN && plaintext@.len() <= MAX_SEAL_LEN),
        r is Ok ==> final(dst)@ == xchacha_sealed(key@, nonce@, ad@, plaintext@),
{
    let key = xchacha20poly1305::SecretKey::from_slice(key)?;
    let nonce = xchacha20poly1305::Nonce::from_slice(nonce)?;
    xchacha20poly1305::seal(&key, &nonce, plaintext, Some(ad), dst.as_mut_slice())
}

/// Relies on orion's `hazardous::aead::xchacha20poly1305::open`, with the key
/// and nonce taken by `SecretKey::from_slice` (32 bytes) and
/// `Nonce::from_slice` (24 bytes). `open` would panic on a verified
/// ciphertext of more than `u32::MAX - 1` keystream blocks, so such lengths
/// are not admitted. It refuses a ciphertext whose tag does not verify, and
/// otherwise writes the plaintext to the first `len - 16` bytes of its
/// output. Opening what
/// `seal` made under the same key, nonce and associated data gives back the
/// plaintext that was sealed.
#[verifier::external_body]
fn aead_open(key: &[u8], nonce: &[u8], sealed: &[u8], ad: &[u8], dst: &mut Vec<u8>) -> (r: Result<(), orion::errors::UnknownCryptoError>)
    requires
        sealed@.len() >= TAG_LEN,
        sealed@.len() <= MAX_SEAL_LEN + TAG_LEN,
        old(dst)@.len() == sealed@.len() - TAG_LEN,
    ensures
        final(dst)@.len() == old(dst)@.len(),
        r is Ok <==> (key@.len() == KEY_LEN && nonce@.len() == NONCE_LEN
            && xchacha_opened(key@, nonce@, ad@, sealed@) is Some),
        r is Ok ==> xchacha_opened(key@, nonce@, ad@, sealed@) == Some(final(dst)@),
        forall|p: Seq<u8>|
            key@.len() == KEY_LEN && nonce@.len() == NONCE_LEN && p.len() <= MAX_SEAL_LEN
                && #[trigger] xchacha_sealed(key@, nonce@, ad@, p) == sealed@ ==> r is Ok && final(dst)@ == p,
{
    let key = xchacha20poly1305::SecretKey::from_slice(key)?;
    let nonce = xchacha20poly1305::Nonce::from_slice(nonce)?;
    xchacha20poly1305::open(&key, &nonce, sealed, Some(ad), dst.as_mut_slice())
}

/// Splits a frame into its associated data (the first 32 bytes) and the
/// ciphertext with tag (the rest).
pub fn split_encrypted(cipher_text: &[u8]) -> (r: (Vec<u8>, Vec<u8>))
    requires
        cipher_text@.len() >= AD_LEN,
    ensures
        r.0@ == cipher_text@.subrange(0, AD_LEN as int),
        r.1@ == cipher_text@.subrange(AD_LEN as int, cipher_text@.len() as int),
{
    let ad = slice_to_vec(slice_subrange(cipher_text, 0, AD_LEN));
    let rest = slice_to_vec(slice_subrange(cipher_text, AD_LEN, cipher_text.len()));
    (ad, rest)
}

/// The associated data of a frame.
pub open spec fn frame_ad(frame: Seq<u8>) -> Seq<u8> {
    frame.subrange(0, AD_LEN as int)
}

/// The ciphertext with tag of a frame.
pub open spec fn frame_body(frame: Seq<u8>) -> Seq<u8> {
    frame.subrange(AD_LEN as int, frame.len() as int)
}

/// `frame` is a sealing of `plaintext` under `key` and `nonce`: 32 bytes of
/// associated data, then the AEAD's ciphertext and tag for that data.
pub open spec fn is_sealed_frame(key: Seq<u8>, nonce: Seq<u8>, plaintext: Seq<u8>, frame: Seq<u8>) -> bool {
    &&& frame.len() == plaintext.len() + FRAME_OVERHEAD
    &&& frame_body(frame) == xchacha_sealed(key, nonce, frame_ad(frame), plaintext)
}

/// What opening `frame` under `key` and `nonce` gives: a frame shorter than
/// associated data and tag is refused, and so is one the AEAD refuses.
pub open spec fn opened_frame(key: Seq<u8>, nonce: Seq<u8>, frame: Seq<u8>) -> Option<Seq<u8>> {
    if frame.len() < FRAME_OVERHEAD || frame.len() > MAX_SEAL_LEN + FRAME_OVERHEAD {
        None
    } else {
        xchacha_opened(key, nonce, frame_ad(frame), frame_body(frame))
    }
}

/// The view of a codec result.
pub open spec fn codec_view(r: Result<Vec<u8>, CodecError>) -> Result<Seq<u8>, CodecError> {
    match r {
        Ok(v) => Ok(v@),
        Err(e) => Err(e),
    }
}

/// What `open_chunk` promises of its result `r` for `frame`: the AEAD's
/// answer, and the sealed plaintext whenever the frame is a sealing of one.
pub open spec fn open_chunk_result(key: Seq<u8>, nonce: Seq<u8>, frame: Seq<u8>, r: Result<Seq<u8>, CodecError>) -> bool {
    &&& r == match opened_frame(key, nonce, frame) {
        Some(p) => Ok(p),
        None => Err(CodecError::AuthenticationFailed),
    }
    &&& forall|p: Seq<u8>| #[trigger] is_sealed_frame(key, nonce, p, frame) && p.len() <= MAX_SEAL_LEN ==> r == Ok::<Seq<u8>, CodecError>(p)
}

/// A plaintext of `len` bytes can be sealed: the AEAD takes it, and its frame
/// fits the address space.
pub open spec fn sealable_len(len: nat) -> bool {
    len <= MAX_SEAL_LEN && len + FRAME_OVERHEAD <= usize::MAX
}

/// Seals one chunk: fresh associated data, then the chunk's ciphertext and tag.
/// It fails only when the chunk is longer than the AEAD can seal at once.
pub fn seal_chunk(key: &[u8], nonce: &[u8], plaintext: &[u8]) -> (r: Result<Vec<u8>, CodecError>)
    requires
        key@.len() == KEY_LEN,
        nonce@.len() == NONCE_LEN,
    ensures
        r is Ok <==> sealable_len(plaintext@.len()),
        r matches Ok(frame) ==> is_sealed_frame(key@, nonce@, plaintext@, frame@),
        r matches Err(e) ==> e == CodecError::PlaintextTooLong,
{
    if plaintext.len() as u64 > MAX_SEAL_LEN || plaintext.len() > usize::MAX - FRAME_OVERHEAD {
        return Err(CodecError::PlaintextTooLong);
    }
    let mut frame = generate_auth_tag();
    let mut sealed: Vec<u8> = vec![0u8; plaintext.len() + TAG_LEN];
    match aead_seal(key, nonce, plaintext, frame.as_slice(), &mut sealed) {
        Ok(()) => {},
        Err(_) => {
            return Err(CodecError::PlaintextTooLong);
        },
    }
    let ghost ad = frame@;
    frame.append(&mut sealed);
    assert(frame_ad(frame@) =~= ad);
    assert(frame_body(frame@) =~= xchacha_sealed(key@, nonce@, ad, plaintext@));
    Ok(frame)
}

/// Opens one frame. A frame too short to hold associated data and tag, or
/// whose tag does not verify, gives `AuthenticationFailed`.
pub fn open_chunk(key: &[u8], nonce: &[u8], frame: &[u8]) -> (r: Result<Vec<u8>, CodecError>)
    requires
        key@.len() == KEY_LEN,
        nonce@.len() == NONCE_LEN,
    ensures
        open_chunk_result(key@, nonce@, frame@, codec_view(r)),
{
    if frame.len() < FRAME_OVERHEAD || frame.len() as u64 > MAX_SEAL_LEN + FRAME_OVERHEAD as u64 {
        proof {
            assert forall|p: Seq<u8>| #[trigger] is_sealed_frame(key@, nonce@, p, frame@) && p.len() <= MAX_SEAL_LEN
                implies false by {}
        }
        return Err(CodecError::AuthenticationFailed);
    }
    let (ad, sealed) = split_encrypted(frame);
    let plaintext_len = sealed.len() - TAG_LEN;
    let mut plaintext: Vec<u8> = vec![0u8; plaintext_len];
    let r = aead_open(key, nonce, sealed.as_slice(), ad.as_slice(), &mut plaintext);
    match r {
        Ok(()) => Ok(plaintext),
        Err(_) => Err(CodecError::AuthenticationFailed),
    }
}

/// Opening a frame that sealing made under the same key and nonce gives back
/// the sealed plaintext.
pub proof fn lemma_frame_round_trip(
    key: Seq<u8>,
    nonce: Seq<u8>,
    plaintext: Seq<u8>,
    frame: Seq<u8>,
    opened: Result<Seq<u8>, CodecError>,
)
    requires
        plaintext.len() <= MAX_SEAL_LEN,
        is_sealed_frame(key, nonce, plaintext, frame),
        open_chunk_result(key, nonce, frame, opened),
    ensures
        opened == Ok::<Seq<u8>, CodecError>(plaintext),
{
}

} // verus!
