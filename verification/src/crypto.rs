//! The login handshake's asymmetric step: an ephemeral RSA key pair, its
//! DER-encoded public half, and the private decryption of what the
//! client sends back; plus the authentication digest that names this
//! server to the verification service.

use vstd::prelude::*;

verus! {

/// The live RSA private key, opaque to the verifier.
#[verifier::external_body]
pub struct ServerKey {
    inner: openssl::rsa::Rsa<openssl::pkey::Private>,
}

/// Relies on `Rsa::generate`: a fresh 1024-bit key pair. Nothing is
/// promised of a random key.
#[verifier::external_body]
pub fn generate_key() -> (r: Result<ServerKey, crate::protocol::DecodeError>)
{
    match openssl::rsa::Rsa::generate(1024) {
        Ok(k) => Ok(ServerKey { inner: k }),
        Err(_) => Err(crate::protocol::DecodeError::BadLength),
    }
}

impl ServerKey {
    /// Relies on `Rsa::public_key_to_der`: the DER form of the public
    /// half. The key is opaque, so nothing is promised of the bytes.
    #[verifier::external_body]
    pub fn public_key_to_der(&self) -> (r: Result<Vec<u8>, crate::protocol::DecodeError>)
    {
        match self.inner.public_key_to_der() {
            Ok(v) => Ok(v),
            Err(_) => Err(crate::protocol::DecodeError::BadLength),
        }
    }

    /// Relies on `Rsa::private_decrypt` with PKCS#1 padding: the
    /// plaintext the ciphertext decrypts to under this key, or an error
    /// for a malformed ciphertext. The key is opaque, so nothing is
    /// promised of the bytes. The callee asserts its input fits an
    /// `i32`, so longer inputs are excluded here.
    #[verifier::external_body]
    pub fn private_decrypt(&self, data: &Vec<u8>) -> (r: Result<
        Vec<u8>,
        crate::protocol::DecodeError,
    >)
        requires
            data@.len() <= 0x7fff_ffff,
    {
        let mut out = vec![0u8; self.inner.size() as usize];
        match self.inner.private_decrypt(&data[..], &mut out, openssl::rsa::Padding::PKCS1) {
            Ok(n) => {
                out.truncate(n);
                Ok(out)
            },
            Err(_) => Err(crate::protocol::DecodeError::BadLength),
        }
    }
}

/// The authentication digest for a server id, shared secret and public
/// key: a function of those bytes alone.
pub uninterp spec fn server_hash_of(server_id: Seq<char>, secret: Seq<u8>, pub_key: Seq<u8>) -> Seq<
    char,
>;

/// Relies on `mojang_api::server_hash`: the non-standard hex digest of
/// the server id, shared secret and public key, a pure function of its
/// arguments.
#[verifier::external_body]
pub fn server_hash(server_id: &str, secret: &Vec<u8>, pub_key: &Vec<u8>) -> (r: String)
    requires
        secret@.len() == 16,
    ensures
        r@ == server_hash_of(server_id@, secret@, pub_key@),
{
    let mut key = [0u8; 16];
    key.copy_from_slice(&secret[..]);
    mojang_api::server_hash(server_id, key, &pub_key[..])
}

} // verus!
