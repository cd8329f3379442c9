use vstd::prelude::*;

use crate::registry::{SimpleDatabase, has_id};

verus! {

#[verifier::external_type_specification]
#[verifier::external_body]
pub struct ExKeyPair(secp256k1::KeyPair);

#[verifier::external_type_specification]
#[verifier::external_body]
pub struct ExSecpError(secp256k1::Error);

/// A hexadecimal digit, in either case.
pub open spec fn is_hex_digit(c: char) -> bool {
    ('0' <= c && c <= '9') || ('a' <= c && c <= 'f') || ('A' <= c && c <= 'F')
}

/// A lowercase hexadecimal digit.
pub open spec fn is_lower_hex_digit(c: char) -> bool {
    ('0' <= c && c <= '9') || ('a' <= c && c <= 'f')
}

/// The text of a 32-byte key: 64 hexadecimal digits.
pub open spec fn is_key_hex(s: Seq<char>) -> bool {
    s.len() == 64 && forall|i: int| 0 <= i < s.len() ==> is_hex_digit(#[trigger] s[i])
}

/// The text of a 32-byte key as secp256k1 prints it: 64 lowercase
/// hexadecimal digits.
pub open spec fn is_lower_key_hex(s: Seq<char>) -> bool {
    s.len() == 64 && forall|i: int| 0 <= i < s.len() ==> is_lower_hex_digit(#[trigger] s[i])
}

/// Whether secp256k1's `KeyPair::from_seckey_str` accepts the text `s` as a
/// secret key. It depends on the text alone.
pub uninterp spec fn seckey_accepted(s: Seq<char>) -> bool;

/// The x-only public key, as secp256k1 prints it, of the key pair that
/// `KeyPair::from_seckey_str` builds from the secret text `s`.
pub uninterp spec fn xonly_hex_of(s: Seq<char>) -> Seq<char>;

/// Relies on secp256k1's `KeyPair::from_seckey_str`: it succeeds exactly on
/// the texts it accepts, which are all 64 hexadecimal digits decoding to 32
/// bytes (it also refuses a key out of the curve's range).
#[verifier::external_body]
fn keypair_from_seckey(secret: &str) -> (r: Result<secp256k1::KeyPair, secp256k1::Error>)
    ensures
        r is Ok == seckey_accepted(secret@),
        r is Ok ==> is_key_hex(secret@),
{
    secp256k1::KeyPair::from_seckey_str(&secp256k1::Secp256k1::new(), secret)
}

/// Relies on secp256k1's `KeyPair::x_only_public_key` and the `Display` of
/// `XOnlyPublicKey`, which prints the 32 bytes of the key as two lowercase
/// hexadecimal digits each; the key pair is built from the secret text by
/// `KeyPair::from_seckey_str`, so there is a key exactly when that accepts it.
#[verifier::external_body]
fn xonly_public_key_hex(secret: &str) -> (r: Option<String>)
    ensures
        r is Some == seckey_accepted(secret@),
        r matches Some(k) ==> k@ == xonly_hex_of(secret@) && is_lower_key_hex(k@),
{
    secp256k1::KeyPair::from_seckey_str(&secp256k1::Secp256k1::new(), secret)
        .ok()
        .map(|kp| kp.x_only_public_key().0.to_string())
}

/// Relies on secp256k1's `KeyPair::display_secret`, whose `Display` prints
/// the 32 bytes of the secret key as two lowercase hexadecimal digits each.
/// The secret of a key pair is a valid secret key, which
/// `KeyPair::from_seckey_str` accepts back.
#[verifier::external_body]
fn secret_hex(keypair: &secp256k1::KeyPair) -> (r: String)
    ensures
        is_lower_key_hex(r@),
        seckey_accepted(r@),
{
    keypair.display_secret().to_string()
}

/// Relies on secp256k1's `KeyPair::new` fed by rand's `thread_rng`: a fresh
/// random key pair, about which nothing else is known.
#[verifier::external_body]
pub fn get_random_keypair() -> (r: secp256k1::KeyPair) {
    secp256k1::KeyPair::new(&secp256k1::Secp256k1::new(), &mut rand::thread_rng())
}

/// The signing identity of the source `channel_id`, which must be in the
/// registry, derived from its stored secret: it is there exactly when
/// `from_seckey_str` accepts that secret.
pub fn get_channel_keypair(db: &SimpleDatabase, channel_id: &str) -> (r: Result<
    secp256k1::KeyPair,
    secp256k1::Error,
>)
    requires
        db.wf(),
        has_id(db@, channel_id@),
    ensures
        r is Ok <==> exists|i: int|
            0 <= i < db@.len() && db@[i].0 == channel_id@ && seckey_accepted(#[trigger] db@[i].1),
{
    let secret = db.get(channel_id);
    keypair_from_seckey(secret.as_str())
}

/// The public key of the source `channel_id`, which must be in the registry,
/// derived from its stored secret: there is one exactly when `from_seckey_str`
/// accepts that secret.
pub fn channel_public_key(db: &SimpleDatabase, channel_id: &str) -> (r: Option<String>)
    requires
        db.wf(),
        has_id(db@, channel_id@),
    ensures
        r is Some <==> exists|i: int|
            0 <= i < db@.len() && db@[i].0 == channel_id@ && seckey_accepted(#[trigger] db@[i].1),
        r matches Some(k) ==> exists|i: int|
            0 <= i < db@.len() && db@[i].0 == channel_id@ && k@ == xonly_hex_of(#[trigger] db@[i].1),
{
    let secret = db.get(channel_id);
    xonly_public_key_hex(secret.as_str())
}

/// A fresh identity: its secret as the registry stores it, and its public key.
pub(crate) fn new_identity() -> (r: (String, String))
    ensures
        is_lower_key_hex(r.0@),
        seckey_accepted(r.0@),
        r.1@ == xonly_hex_of(r.0@),
        is_lower_key_hex(r.1@),
{
    let kp = get_random_keypair();
    let secret = secret_hex(&kp);
    let pubkey = xonly_public_key_hex(secret.as_str());
    (secret, pubkey.unwrap())
}

} // verus!
