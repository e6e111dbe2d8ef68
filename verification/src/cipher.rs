//! The symmetric stream cipher layered under the framing: AES-128 in
//! 8-bit cipher feedback mode, keyed and initialized with the same 16
//! bytes, as the login handshake installs it. A cipher object works one
//! direction for its whole life — the mode feeds ciphertext back into
//! its register, so one object cannot alternate between encrypting and
//! decrypting and still be a function of a single stream. Each object is
//! modeled by its key, its direction, and the stream it has processed so
//! far; ciphertext and plaintext are named functions of the key and the
//! whole stream, and processing a stream in pieces equals processing it
//! whole.

use vstd::prelude::*;

verus! {

/// The live AES-128-CFB8 state, opaque to the verifier; Verus sees only
/// the ghost model beside it.
#[verifier::external_body]
pub struct CipherHandle {
    inner: cfb8::Cfb8<aes::Aes128>,
}

/// Which way a cipher object runs, fixed at construction.
#[derive(Debug, Clone, Copy, PartialEq, Eq, Structural)]
pub enum CipherDirection {
    Encrypting,
    Decrypting,
}

/// The whole ciphertext stream that AES-128-CFB8 under `key` (also the
/// initialization vector) produces for the plaintext stream `plain`.
pub uninterp spec fn cfb8_encrypt_stream(key: Seq<u8>, plain: Seq<u8>) -> Seq<u8>;

/// The whole plaintext stream that AES-128-CFB8 under `key` (also the
/// initialization vector) recovers from the ciphertext stream `cipher`.
pub uninterp spec fn cfb8_decrypt_stream(key: Seq<u8>, cipher: Seq<u8>) -> Seq<u8>;

/// One direction of the connection's cipher: the live cipher state, and
/// (as ghosts) the key it was built with, the direction it runs, and the
/// stream it has already processed.
pub struct StreamCipher {
    inner: CipherHandle,
    key: Ghost<Seq<u8>>,
    direction: Ghost<CipherDirection>,
    processed: Ghost<Seq<u8>>,
}

impl StreamCipher {
    /// The 16-byte key (and initialization vector) this cipher uses.
    pub closed spec fn key(&self) -> Seq<u8> {
        self.key@
    }

    /// The direction this cipher was built for.
    pub closed spec fn direction(&self) -> CipherDirection {
        self.direction@
    }

    /// The prefix of the stream this cipher has already worked through:
    /// the plaintext so far when encrypting, the ciphertext so far when
    /// decrypting.
    pub closed spec fn processed(&self) -> Seq<u8> {
        self.processed@
    }

    /// Relies on `Cfb8::new_from_slices`: a 16-byte key and iv build a
    /// fresh cipher, positioned at the start of its plaintext stream.
    /// Decryption inverts encryption under the same key, a fact of the
    /// mode carried here so that callers can relate the two directions.
    #[verifier::external_body]
    pub fn new_encryptor(key: &[u8]) -> (r: StreamCipher)
        requires
            key@.len() == 16,
        ensures
            r.key() == key@,
            r.direction() == CipherDirection::Encrypting,
            r.processed() == Seq::<u8>::empty(),
            forall|p: Seq<u8>|
                #[trigger] cfb8_decrypt_stream(r.key(), cfb8_encrypt_stream(r.key(), p)) == p,
            forall|p: Seq<u8>| (#[trigger] cfb8_encrypt_stream(r.key(), p)).len() == p.len(),
            forall|p: Seq<u8>| (#[trigger] cfb8_decrypt_stream(r.key(), p)).len() == p.len(),
    {
        StreamCipher {
            inner: CipherHandle {
                inner: cfb8::cipher::NewCipher::new_from_slices(key, key).unwrap(),
            },
            key: Ghost(key@),
            direction: Ghost(CipherDirection::Encrypting),
            processed: Ghost(Seq::empty()),
        }
    }

    /// Relies on `Cfb8::new_from_slices`: as `new_encryptor`, but the
    /// object will run the inverse direction, positioned at the start of
    /// its ciphertext stream.
    #[verifier::external_body]
    pub fn new_decryptor(key: &[u8]) -> (r: StreamCipher)
        requires
            key@.len() == 16,
        ensures
            r.key() == key@,
            r.direction() == CipherDirection::Decrypting,
            r.processed() == Seq::<u8>::empty(),
            forall|p: Seq<u8>|
                #[trigger] cfb8_decrypt_stream(r.key(), cfb8_encrypt_stream(r.key(), p)) == p,
            forall|p: Seq<u8>| (#[trigger] cfb8_encrypt_stream(r.key(), p)).len() == p.len(),
            forall|p: Seq<u8>| (#[trigger] cfb8_decrypt_stream(r.key(), p)).len() == p.len(),
    {
        StreamCipher {
            inner: CipherHandle {
                inner: cfb8::cipher::NewCipher::new_from_slices(key, key).unwrap(),
            },
            key: Ghost(key@),
            direction: Ghost(CipherDirection::Decrypting),
            processed: Ghost(Seq::empty()),
        }
    }

    /// Relies on `AsyncStreamCipher::encrypt`: processing a chunk in
    /// place continues the plaintext stream where the last chunk ended,
    /// as the mode's chunked operation guarantees. Only an object built
    /// to encrypt may encrypt: the feedback register holds this
    /// direction's stream and no other.
    #[verifier::external_body]
    pub fn encrypt(&mut self, data: &mut Vec<u8>)
        requires
            old(self).direction() == CipherDirection::Encrypting,
        ensures
            final(self).key() == old(self).key(),
            final(self).direction() == old(self).direction(),
            final(self).processed() == old(self).processed() + old(data)@,
            final(data)@ == cfb8_encrypt_stream(
                old(self).key(),
                old(self).processed() + old(data)@,
            ).skip(old(self).processed().len() as int),
            final(data)@.len() == old(data)@.len(),
    {
        cfb8::cipher::AsyncStreamCipher::encrypt(&mut self.inner.inner, data.as_mut_slice());
    }

    /// Relies on `AsyncStreamCipher::decrypt`: the inverse direction,
    /// with the same chunked-stream behaviour and the same restriction
    /// to objects built for it.
    #[verifier::external_body]
    pub fn decrypt(&mut self, data: &mut Vec<u8>)
        requires
            old(self).direction() == CipherDirection::Decrypting,
        ensures
            final(self).key() == old(self).key(),
            final(self).direction() == old(self).direction(),
            final(self).processed() == old(self).processed() + old(data)@,
            final(data)@ == cfb8_decrypt_stream(
                old(self).key(),
                old(self).processed() + old(data)@,
            ).skip(old(self).processed().len() as int),
            final(data)@.len() == old(data)@.len(),
    {
        cfb8::cipher::AsyncStreamCipher::decrypt(&mut self.inner.inner, data.as_mut_slice());
    }
}

} // verus!
