//! The per-hop plaintext envelope (next-hop descriptor plus inner payload)
//! and its AEAD transform: AES-256-GCM with a 96-bit nonce and a 16-byte tag
//! appended to the ciphertext.
use vstd::prelude::*;

use crate::bytes::{
    append_bytes, lemma_u16_be_round_trip, push_u16_be, read_u16_be, subvec, u16_be,
    u16_from_bytes,
};
use crate::Error;

verus! {

/// Ciphertexts this long or shorter never make the cipher itself fail: the
/// plaintext bound of AES-GCM (2^36 - 32 bytes).
pub const AEAD_PLAINTEXT_MAX: u64 = 0xF_FFFF_FFE0;

/// What AES-256-GCM encryption returns for a key, nonce and plaintext. The
/// result depends on those arguments alone.
pub uninterp spec fn aes256_gcm_seal(key: Seq<u8>, nonce: Seq<u8>, plaintext: Seq<u8>) -> Seq<u8>;

/// What AES-256-GCM decryption returns for a key, nonce and ciphertext:
/// the plaintext when the ciphertext authenticates, nothing otherwise. The
/// result depends on those arguments alone.
pub uninterp spec fn aes256_gcm_open(key: Seq<u8>, nonce: Seq<u8>, ciphertext: Seq<u8>) -> Option<
    Seq<u8>,
>;

/// Relies on `aes_gcm::Aes256Gcm` (`KeyInit::new_from_slice`, `aead::Aead::encrypt`):
/// with a 32-byte key and 12-byte nonce it fails only for plaintexts beyond
/// the AES-GCM bound; the ciphertext is the plaintext's length plus the
/// 16-byte tag, and decrypting it with the same key and nonce yields the
/// plaintext back.
#[verifier::external_body]
fn aes256_gcm_encrypt(key: &Vec<u8>, nonce: &Vec<u8>, plaintext: &Vec<u8>) -> (r: Result<
    Vec<u8>,
    Error,
>)
    requires
        key@.len() == 32,
        nonce@.len() == 12,
    ensures
        plaintext@.len() <= AEAD_PLAINTEXT_MAX ==> r is Ok,
        r matches Ok(c) ==> c@ == aes256_gcm_seal(key@, nonce@, plaintext@) && c@.len()
            == plaintext@.len() + 16 && aes256_gcm_open(key@, nonce@, c@) == Some(plaintext@),
{
    let cipher = match <aes_gcm::Aes256Gcm as aes_gcm::KeyInit>::new_from_slice(key.as_slice()) {
        Ok(c) => c,
        Err(_) => return Err(Error::CryptoError),
    };
    let n: &aes_gcm::aead::Nonce<aes_gcm::Aes256Gcm> = match nonce.as_slice().try_into() {
        Ok(v) => v,
        Err(_) => return Err(Error::CryptoError),
    };
    match aes_gcm::aead::Aead::encrypt(&cipher, n, plaintext.as_slice()) {
        Ok(c) => Ok(c),
        Err(_) => Err(Error::CryptoError),
    }
}

/// Relies on `aes_gcm::Aes256Gcm` (`KeyInit::new_from_slice`, `aead::Aead::decrypt`):
/// with a 32-byte key and 12-byte nonce it returns the plaintext exactly when
/// the ciphertext authenticates, and the plaintext is 16 bytes shorter than
/// the ciphertext.
#[verifier::external_body]
fn aes256_gcm_decrypt(key: &Vec<u8>, nonce: &Vec<u8>, data: &Vec<u8>) -> (r: Option<Vec<u8>>)
    requires
        key@.len() == 32,
        nonce@.len() == 12,
    ensures
        match r {
            Some(p) => aes256_gcm_open(key@, nonce@, data@) == Some(p@) && p@.len() + 16
                == data@.len(),
            None => aes256_gcm_open(key@, nonce@, data@) is None,
        },
{
    let cipher = match <aes_gcm::Aes256Gcm as aes_gcm::KeyInit>::new_from_slice(key.as_slice()) {
        Ok(c) => c,
        Err(_) => return None,
    };
    let n: &aes_gcm::aead::Nonce<aes_gcm::Aes256Gcm> = match nonce.as_slice().try_into() {
        Ok(v) => v,
        Err(_) => return None,
    };
    match aes_gcm::aead::Aead::decrypt(&cipher, n, data.as_slice()) {
        Ok(p) => Some(p),
        Err(_) => None,
    }
}

/// The wire encoding of a layer's plaintext: the descriptor length as two
/// big-endian bytes, the descriptor, then the inner payload.
pub open spec fn layer_plain(next_hop: Seq<u8>, payload: Seq<u8>) -> Seq<u8> {
    u16_be(next_hop.len() as u16) + next_hop + payload
}

/// Splitting a decrypted plaintext back into descriptor and payload: fails
/// exactly when the length prefix is truncated or overruns the plaintext.
pub open spec fn parse_layer_plain(p: Seq<u8>) -> Option<(Seq<u8>, Seq<u8>)> {
    if p.len() < 2 {
        None
    } else {
        let nh_len = u16_from_bytes(p[0], p[1]) as int;
        if p.len() < 2 + nh_len {
            None
        } else {
            Some((p.subrange(2, 2 + nh_len), p.subrange(2 + nh_len, p.len() as int)))
        }
    }
}

/// Law: splitting an encoded layer plaintext yields the descriptor and
/// payload back, for every descriptor that fits the two-byte length prefix.
pub proof fn lemma_layer_plain_round_trip(next_hop: Seq<u8>, payload: Seq<u8>)
    requires
        next_hop.len() <= 0xffff,
    ensures
        parse_layer_plain(layer_plain(next_hop, payload)) == Some((next_hop, payload)),
{
    lemma_u16_be_round_trip(next_hop.len() as u16);
    let p = layer_plain(next_hop, payload);
    let nh_len = next_hop.len() as int;
    assert(p[0] == u16_be(next_hop.len() as u16)[0]);
    assert(p[1] == u16_be(next_hop.len() as u16)[1]);
    assert(u16_from_bytes(p[0], p[1]) == nh_len);
    assert(p.subrange(2, 2 + nh_len) =~= next_hop);
    assert(p.subrange(2 + nh_len, p.len() as int) =~= payload);
}

/// What the layer AEAD encryption returns: the sealed encoding, or the error
/// for a mis-sized key or nonce, or for a descriptor beyond the length
/// prefix.
pub open spec fn encrypt_spec(next_hop: Seq<u8>, payload: Seq<u8>, key: Seq<u8>, nonce: Seq<u8>) -> Result<
    Seq<u8>,
    Error,
> {
    if key.len() != 32 || nonce.len() != 12 {
        Err(Error::CryptoError)
    } else if next_hop.len() > 0xffff {
        Err(Error::ProtocolError)
    } else {
        Ok(aes256_gcm_seal(key, nonce, layer_plain(next_hop, payload)))
    }
}

/// What the layer AEAD decryption returns: descriptor and payload when the
/// ciphertext authenticates and the plaintext splits, the crypto error
/// otherwise.
pub open spec fn decrypt_spec(data: Seq<u8>, key: Seq<u8>, nonce: Seq<u8>) -> Result<
    (Seq<u8>, Seq<u8>),
    Error,
> {
    if key.len() != 32 || nonce.len() != 12 {
        Err(Error::CryptoError)
    } else {
        match aes256_gcm_open(key, nonce, data) {
            None => Err(Error::CryptoError),
            Some(p) => match parse_layer_plain(p) {
                None => Err(Error::CryptoError),
                Some(nhpl) => Ok(nhpl),
            },
        }
    }
}

/// Law: the layer transform round-trips. For every 32-byte key, 12-byte
/// nonce, descriptor that fits the length prefix, and payload, encryption
/// succeeds with the sealed encoding, and decrypting that ciphertext under
/// the same key and nonce yields the descriptor and payload back. The
/// hypothesis on the sealed ciphertext is exactly what the encryption
/// wrapper establishes of every ciphertext it returns.
pub proof fn lemma_layer_round_trip(
    key: Seq<u8>,
    nonce: Seq<u8>,
    next_hop: Seq<u8>,
    payload: Seq<u8>,
)
    requires
        key.len() == 32,
        nonce.len() == 12,
        next_hop.len() <= 0xffff,
        aes256_gcm_open(key, nonce, aes256_gcm_seal(key, nonce, layer_plain(next_hop, payload)))
            == Some(layer_plain(next_hop, payload)),
    ensures
        encrypt_spec(next_hop, payload, key, nonce) == Ok::<Seq<u8>, Error>(
            aes256_gcm_seal(key, nonce, layer_plain(next_hop, payload)),
        ),
        decrypt_spec(aes256_gcm_seal(key, nonce, layer_plain(next_hop, payload)), key, nonce)
            == Ok::<(Seq<u8>, Seq<u8>), Error>((next_hop, payload)),
{
    lemma_layer_plain_round_trip(next_hop, payload);
}

/// One hop's plaintext envelope: where to forward next, and what travels on
/// inside. It exists only between a decrypt and the next action; only its
/// encrypted form is ever on the wire.
pub struct OnionLayer {
    pub next_hop: Vec<u8>,
    pub payload: Vec<u8>,
}

impl OnionLayer {
    /// Wraps a descriptor and payload into a layer.
    pub fn new(next_hop: Vec<u8>, payload: Vec<u8>) -> (r: OnionLayer)
        ensures
            r.next_hop@ == next_hop@,
            r.payload@ == payload@,
    {
        OnionLayer { next_hop, payload }
    }

    /// Seals the layer under the given key and nonce, exactly as
    /// `encrypt_spec` describes; the ciphertext carries the 16-byte tag.
    pub fn encrypt(&self, key: &Vec<u8>, nonce: &Vec<u8>) -> (r: Result<Vec<u8>, Error>)
        requires
            self.next_hop@.len() + self.payload@.len() + 2 <= AEAD_PLAINTEXT_MAX,
        ensures
            match encrypt_spec(self.next_hop@, self.payload@, key@, nonce@) {
                Ok(c) => r matches Ok(cv) && cv@ == c,
                Err(e) => r == Err::<Vec<u8>, Error>(e),
            },
            r matches Ok(cv) ==> cv@.len() == self.next_hop@.len() + self.payload@.len() + 18
                && aes256_gcm_open(key@, nonce@, cv@) == Some(
                layer_plain(self.next_hop@, self.payload@),
            ),
            r matches Ok(cv) ==> decrypt_spec(cv@, key@, nonce@) == Ok::<(Seq<u8>, Seq<u8>), Error>(
                (self.next_hop@, self.payload@),
            ),
    {
        if key.len() != 32 || nonce.len() != 12 {
            return Err(Error::CryptoError);
        }
        if self.next_hop.len() > 0xffff {
            return Err(Error::ProtocolError);
        }
        let mut plaintext: Vec<u8> = Vec::new();
        push_u16_be(&mut plaintext, self.next_hop.len() as u16);
        append_bytes(&mut plaintext, &self.next_hop);
        append_bytes(&mut plaintext, &self.payload);
        assert(plaintext@ =~= layer_plain(self.next_hop@, self.payload@));
        match aes256_gcm_encrypt(key, nonce, &plaintext) {
            Ok(c) => {
                proof {
                    lemma_layer_round_trip(key@, nonce@, self.next_hop@, self.payload@);
                }
                Ok(c)
            },
            Err(e) => Err(e),
        }
    }

    /// Opens one sealed layer under the given key and nonce, exactly as
    /// `decrypt_spec` describes: a tampered ciphertext or a malformed
    /// plaintext is a `CryptoError`, never altered data. An opened layer is
    /// 18 bytes plus its descriptor shorter than the ciphertext — the tag
    /// and the length prefix are consumed — so packet size never grows
    /// along the path.
    pub fn decrypt(data: &Vec<u8>, key: &Vec<u8>, nonce: &Vec<u8>) -> (r: Result<
        OnionLayer,
        Error,
    >)
        ensures
            match decrypt_spec(data@, key@, nonce@) {
                Ok(nhpl) => r matches Ok(l) && l.next_hop@ == nhpl.0 && l.payload@ == nhpl.1,
                Err(e) => r == Err::<OnionLayer, Error>(e),
            },
            r matches Ok(l) ==> l.next_hop@.len() + l.payload@.len() + 18 == data@.len(),
    {
        if key.len() != 32 || nonce.len() != 12 {
            return Err(Error::CryptoError);
        }
        let plaintext = match aes256_gcm_decrypt(key, nonce, data) {
            Some(p) => p,
            None => {
                return Err(Error::CryptoError);
            },
        };
        if plaintext.len() < 2 {
            return Err(Error::CryptoError);
        }
        let nh_len = read_u16_be(plaintext[0], plaintext[1]) as usize;
        if plaintext.len() - 2 < nh_len {
            return Err(Error::CryptoError);
        }
        let next_hop = subvec(&plaintext, 2, 2 + nh_len);
        let payload = subvec(&plaintext, 2 + nh_len, plaintext.len());
        Ok(OnionLayer { next_hop, payload })
    }
}

} // verus!
