//! BTHome v2 frame decryption: AES-CCM with a 128-bit key, 4-byte tag,
//! 13-byte nonce and empty associated data, into a caller-supplied buffer.

use vstd::prelude::*;
use aes::Aes128;
use ccm::aead::generic_array::GenericArray;
use ccm::aead::{AeadInPlace, KeyInit};
use ccm::consts::{U13, U4};
use ccm::Ccm;

verus! {

/// Longest plaintext a legacy advertisement can carry; sized generously.
pub const MAX_PLAINTEXT: usize = 24;

/// Longest message CCM accepts with a 13-byte nonce (a 2-byte length field).
pub const CCM_MAX_LEN: usize = 65535;

#[derive(Debug, Clone, Copy, PartialEq, Eq, Structural)]
pub enum DecryptError {
    TooShort,
    BufferTooSmall,
    MicMismatch,
}

/// What AES-128-CCM (4-byte tag, 13-byte nonce, empty associated data)
/// opens `ciphertext` to under `key`, `nonce` and `tag`: the plaintext when
/// the tag verifies, `None` when it does not.
pub uninterp spec fn ccm_open(key: Seq<u8>, nonce: Seq<u8>, ciphertext: Seq<u8>, tag: Seq<u8>) -> Option<Seq<u8>>;

/// Calls `Ccm::<Aes128, U4, U13>::decrypt_in_place_detached` on the first
/// `len` bytes of `buf`, with empty associated data. Claimed of it: it
/// succeeds exactly when `ccm_open` gives a plaintext, which then replaces
/// those bytes; on a tag mismatch for a message CCM accepts (at most
/// `CCM_MAX_LEN` bytes) those bytes are zeroed; bytes past `len` are never
/// touched. Not stated: what the bytes hold after a failure on a longer
/// message (the keystream has been applied, the MAC refused).
#[verifier::external_body]
fn ccm_open_prefix(key: &[u8; 16], nonce: &[u8; 13], buf: &mut [u8], len: usize, tag: &[u8; 4]) -> (ok: bool)
    requires
        len <= old(buf)@.len(),
    ensures
        final(buf)@.len() == old(buf)@.len(),
        final(buf)@.subrange(len as int, final(buf)@.len() as int) == old(buf)@.subrange(
            len as int,
            old(buf)@.len() as int,
        ),
        ok <==> ccm_open(key@, nonce@, old(buf)@.subrange(0, len as int), tag@) is Some,
        ok ==> final(buf)@.subrange(0, len as int) == ccm_open(
            key@,
            nonce@,
            old(buf)@.subrange(0, len as int),
            tag@,
        )->0,
        !ok && len <= CCM_MAX_LEN ==> final(buf)@.subrange(0, len as int) == Seq::new(
            len as nat,
            |i: int| 0u8,
        ),
{
    Ccm::<Aes128, U4, U13>::new(key.into())
        .decrypt_in_place_detached(
            &GenericArray::from(*nonce),
            &[],
            &mut buf[..len],
            &GenericArray::from(*tag),
        )
        .is_ok()
}

/// Nonce of a frame: the MAC in human-readable order, the UUID bytes
/// `0xD2 0xFC`, the device_info byte and the frame counter exactly as it
/// sits on the wire.
pub open spec fn frame_nonce(mac: Seq<u8>, device_info: u8, counter: Seq<u8>) -> Seq<u8> {
    mac + seq![0xD2u8, 0xFCu8, device_info] + counter
}

/// Ciphertext part of an encrypted body `ciphertext || counter(4) || mic(4)`.
pub open spec fn body_ciphertext(body: Seq<u8>) -> Seq<u8> {
    body.subrange(0, body.len() - 8)
}

/// Counter part of an encrypted body.
pub open spec fn body_counter(body: Seq<u8>) -> Seq<u8> {
    body.subrange(body.len() - 8, body.len() - 4)
}

/// MIC part of an encrypted body.
pub open spec fn body_mic(body: Seq<u8>) -> Seq<u8> {
    body.subrange(body.len() - 4, body.len() as int)
}

/// What a frame body opens to under `bindkey` from the device `mac`.
pub open spec fn frame_open(bindkey: Seq<u8>, mac: Seq<u8>, device_info: u8, body: Seq<u8>) -> Option<
    Seq<u8>,
> {
    ccm_open(
        bindkey,
        frame_nonce(mac, device_info, body_counter(body)),
        body_ciphertext(body),
        body_mic(body),
    )
}

/// Decrypts the encrypted body of a BTHome v2 `0xFCD2` service data payload.
///
/// `body` is everything after the device_info byte:
/// `ciphertext(N) || counter(4, wire order) || mic(4)`; `mac` is in
/// human-readable order. The plaintext goes to the front of `out`, and its
/// length is returned.
pub fn decrypt(bindkey: &[u8; 16], mac: &[u8; 6], device_info: u8, body: &[u8], out: &mut [u8]) -> (r:
    Result<usize, DecryptError>)
    ensures
        final(out)@.len() == old(out)@.len(),
        body@.len() < 8 ==> r == Err::<usize, DecryptError>(DecryptError::TooShort),
        body@.len() >= 8 && old(out)@.len() < body@.len() - 8 ==> r == Err::<usize, DecryptError>(
            DecryptError::BufferTooSmall,
        ),
        r matches Err(e) && (e == DecryptError::TooShort || e == DecryptError::BufferTooSmall)
            ==> final(out)@ == old(out)@,
        body@.len() >= 8 && old(out)@.len() >= body@.len() - 8 ==> {
            let n = body@.len() - 8;
            let opened = frame_open(bindkey@, mac@, device_info, body@);
            &&& final(out)@.subrange(n, old(out)@.len() as int) == old(out)@.subrange(
                n,
                old(out)@.len() as int,
            )
            &&& opened matches Some(p) ==> r == Ok::<usize, DecryptError>(n as usize)
                && final(out)@.subrange(0, n) == p
            &&& opened is None ==> r == Err::<usize, DecryptError>(DecryptError::MicMismatch)
            &&& opened is None && n <= CCM_MAX_LEN ==> final(out)@.subrange(0, n) == Seq::new(
                n as nat,
                |i: int| 0u8,
            )
        },
{
    if body.len() < 8 {
        return Err(DecryptError::TooShort);
    }
    let n: usize = body.len() - 8;
    if out.len() < n {
        return Err(DecryptError::BufferTooSmall);
    }
    let nonce: [u8; 13] = [
        mac[0],
        mac[1],
        mac[2],
        mac[3],
        mac[4],
        mac[5],
        0xD2,
        0xFC,
        device_info,
        body[n],
        body[n + 1],
        body[n + 2],
        body[n + 3],
    ];
    let mic: [u8; 4] = [body[n + 4], body[n + 5], body[n + 6], body[n + 7]];
    assert(nonce@ == frame_nonce(mac@, device_info, body_counter(body@)));
    assert(mic@ == body_mic(body@));
    let ghost before = out@;
    let mut i: usize = 0;
    while i < n
        invariant
            n == body@.len() - 8,
            n <= out@.len(),
            out@.len() == before.len(),
            i <= n,
            forall|j: int| 0 <= j < i ==> out@[j] == body@[j],
            forall|j: int| n <= j < out@.len() ==> out@[j] == before[j],
        decreases n - i,
    {
        out[i] = body[i];
        i = i + 1;
    }
    assert(out@.subrange(0, n as int) == body_ciphertext(body@));
    let ghost copied = out@;
    let ok = ccm_open_prefix(bindkey, &nonce, out, n, &mic);
    assert(out@.subrange(n as int, out@.len() as int) == before.subrange(n as int, before.len() as int)) by {
        assert(copied.subrange(n as int, copied.len() as int) =~= before.subrange(
            n as int,
            before.len() as int,
        ));
    }
    if ok {
        Ok(n)
    } else {
        Err(DecryptError::MicMismatch)
    }
}

} // verus!
