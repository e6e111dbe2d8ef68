//! The login flow's decisions, from plain values to packets: the offline
//! path hands out its fixed identity at once; the online path derives
//! the symmetric key from the decrypted shared secret and finishes with
//! the authenticated name.

use vstd::prelude::*;

use crate::packet::client::EncryptionRequest;
use crate::packet::client::LoginPacket;
use crate::packet::client::LoginSuccess;
use crate::packet::client::SetCompression;
use crate::protocol::DecodeError;
use crate::protocol::ProtocolWrite;
use crate::uuid::Uuid;
use crate::uuid::uuid_chars;
use crate::var::Var;

verus! {

/// The symmetric key: the first 16 bytes of the decrypted shared secret.
pub fn derive_key(shared_secret: &Vec<u8>) -> (r: Result<Vec<u8>, DecodeError>)
    ensures
        (match r {
            Ok(k) => shared_secret@.len() >= 16 && k@ == shared_secret@.take(16),
            Err(_) => shared_secret@.len() < 16,
        }),
{
    if shared_secret.len() < 16 {
        return Err(DecodeError::BadLength);
    }
    let k = crate::string::copy_range(shared_secret.as_slice(), 0, 16);
    proof {
        assert(k@ =~= shared_secret@.take(16));
    }
    Ok(k)
}

/// The offline ("cracked") login: a fixed identity under the name the
/// client claimed.
pub fn offline_login(name: String) -> (r: LoginSuccess)
    requires
        name.valid(),
    ensures
        r.username@ == name@,
        r.uuid@ == uuid_chars(offline_uuid()),
        r.valid(),
{
    let uuid = offline_uuid_value();
    proof {
        crate::uuid::lemma_uuid_chars_ascii(offline_uuid());
    }
    LoginSuccess { uuid: uuid.to_hyphenated_string(), username: name }
}

/// The one identifier every offline login gets.
pub open spec fn offline_uuid() -> Uuid {
    Uuid { msb: 0xaf6c5ee28eeb8099u64, lsb: 0xb8ce253c50b0d8a8u64 }
}

fn offline_uuid_value() -> (r: Uuid)
    ensures
        r == offline_uuid(),
{
    Uuid { msb: 0xaf6c5ee28eeb8099u64, lsb: 0xb8ce253c50b0d8a8u64 }
}

/// The key-exchange request: an empty server id, the public key, and a
/// token the client must echo.
pub fn encryption_request(public_key: Vec<u8>, verify_token: Vec<u8>) -> (r: LoginPacket)
    requires
        public_key@.len() <= 1024,
        verify_token@.len() <= 1024,
    ensures
        (r matches LoginPacket::EncryptionRequest(p) && p.server_id@ == Seq::<char>::empty()
            && p.public_key@ == public_key@ && p.verify_token@ == verify_token@),
        r.valid(),
{
    proof {
        reveal_strlit("");
    }
    let server_id = <String as vstd::string::StringExecFns>::from_str("");
    proof {
        assert(vstd::utf8::encode_utf8(server_id@) =~= Seq::<char>::empty().map(
            |i: int, c: char| c,
        ).flat_map(|c: char| vstd::utf8::encode_utf8(seq![c])));
        vstd::utf8::encode_utf8_valid_utf8(server_id@);
    }
    LoginPacket::EncryptionRequest(EncryptionRequest { server_id, public_key, verify_token })
}

/// The compression offer; a negative threshold leaves compression off.
pub fn set_compression(threshold: i32) -> (r: LoginPacket)
    ensures
        r matches LoginPacket::SetCompression(p) && p.thresshold == Var(threshold),
        r.valid(),
{
    LoginPacket::SetCompression(SetCompression { thresshold: Var(threshold) })
}

/// The login conclusion for an authenticated identity.
pub fn login_success(uuid: Uuid, username: String) -> (r: LoginPacket)
    requires
        username.valid(),
    ensures
        (r matches LoginPacket::LoginSuccess(p) && p.uuid@ == uuid_chars(uuid) && p.username@
            == username@),
        r.valid(),
{
    proof {
        crate::uuid::lemma_uuid_chars_ascii(uuid);
    }
    LoginPacket::LoginSuccess(
        LoginSuccess { uuid: uuid.to_hyphenated_string(), username },
    )
}

} // verus!
