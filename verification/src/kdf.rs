//! Extract-then-expand key derivation: one shared secret becomes a per-context
//! encryption key and MAC key, expanded under distinct labels.
use vstd::prelude::*;

use crate::bytes::append_bytes;

verus! {

/// What HKDF-SHA-256 returns when asked for 32 bytes of output keying
/// material. The result depends on the salt, the input keying material and
/// the info string alone.
pub uninterp spec fn hkdf_sha256_okm32(salt: Seq<u8>, ikm: Seq<u8>, info: Seq<u8>) -> Seq<u8>;

/// Relies on `hkdf::Hkdf::<sha2::Sha256>` (`new` and `expand`): the 32 bytes
/// of output keying material for this salt, input keying material and info.
/// A 32-byte request is within the RFC 5869 bound of 255 hash lengths, so
/// the expansion cannot fail.
#[verifier::external_body]
fn hkdf_expand32(salt: &Vec<u8>, ikm: &Vec<u8>, info: &Vec<u8>) -> (r: Vec<u8>)
    ensures
        r@ == hkdf_sha256_okm32(salt@, ikm@, info@),
        r@.len() == 32,
{
    let hk = hkdf::Hkdf::<sha2::Sha256>::new(Some(salt.as_slice()), ikm.as_slice());
    let mut okm = [0u8; 32];
    let _ = hk.expand(info.as_slice(), &mut okm);
    okm.to_vec()
}

/// The fixed application salt, the ASCII bytes of `HORNET-POC-Salt`.
pub open spec fn kdf_salt() -> Seq<u8> {
    seq![
        0x48u8, 0x4fu8, 0x52u8, 0x4eu8, 0x45u8, 0x54u8, 0x2du8, 0x50u8, 0x4fu8, 0x43u8,
        0x2du8, 0x53u8, 0x61u8, 0x6cu8, 0x74u8,
    ]
}

/// The ASCII bytes of the `enc` expansion label.
pub open spec fn label_enc() -> Seq<u8> {
    seq![0x65u8, 0x6eu8, 0x63u8]
}

/// The ASCII bytes of the `mac` expansion label.
pub open spec fn label_mac() -> Seq<u8> {
    seq![0x6du8, 0x61u8, 0x63u8]
}

fn salt_bytes() -> (r: Vec<u8>)
    ensures
        r@ == kdf_salt(),
{
    let mut r: Vec<u8> = Vec::new();
    r.push(0x48u8);
    r.push(0x4fu8);
    r.push(0x52u8);
    r.push(0x4eu8);
    r.push(0x45u8);
    r.push(0x54u8);
    r.push(0x2du8);
    r.push(0x50u8);
    r.push(0x4fu8);
    r.push(0x43u8);
    r.push(0x2du8);
    r.push(0x53u8);
    r.push(0x61u8);
    r.push(0x6cu8);
    r.push(0x74u8);
    assert(r@ =~= kdf_salt());
    r
}

/// Derives the per-context 32-byte encryption key and MAC key from a shared
/// secret: both expanded from the same extraction under the fixed salt, with
/// the context concatenated with the `enc` and `mac` labels respectively.
pub fn derive_keys(shared_secret: &Vec<u8>, context: &Vec<u8>) -> (r: (Vec<u8>, Vec<u8>))
    ensures
        r.0@ == hkdf_sha256_okm32(kdf_salt(), shared_secret@, context@ + label_enc()),
        r.1@ == hkdf_sha256_okm32(kdf_salt(), shared_secret@, context@ + label_mac()),
        r.0@.len() == 32,
        r.1@.len() == 32,
{
    let salt = salt_bytes();
    let mut info_enc: Vec<u8> = Vec::new();
    append_bytes(&mut info_enc, context);
    info_enc.push(0x65u8);
    info_enc.push(0x6eu8);
    info_enc.push(0x63u8);
    assert(info_enc@ =~= context@ + label_enc());
    let mut info_mac: Vec<u8> = Vec::new();
    append_bytes(&mut info_mac, context);
    info_mac.push(0x6du8);
    info_mac.push(0x61u8);
    info_mac.push(0x63u8);
    assert(info_mac@ =~= context@ + label_mac());
    let encryption_key = hkdf_expand32(&salt, shared_secret, &info_enc);
    let mac_key = hkdf_expand32(&salt, shared_secret, &info_mac);
    (encryption_key, mac_key)
}

} // verus!
