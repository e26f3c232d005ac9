//! Endpoint identities: 32-byte public keys.

use vstd::prelude::*;
use crate::hex::hex_string;
use crate::hex::hex_text;

verus! {

#[verifier::external_type_specification]
#[verifier::external_body]
pub struct ExKeyParsingError(iroh::KeyParsingError);

/// Whether `iroh::PublicKey::from_bytes` takes the 32 bytes for a public
/// key: whether they are the compressed form of a point of the curve.
pub uninterp spec fn is_endpoint_key(bytes: Seq<u8>) -> bool;

/// Calls `iroh::PublicKey::from_bytes` and gives back the bytes that the key
/// holds. The key is made of the very bytes that were checked, and whether
/// they are taken depends on them alone.
#[verifier::external_body]
fn checked_key(bytes: &[u8; 32]) -> (r: Result<[u8; 32], iroh::KeyParsingError>)
    ensures
        match r {
            Ok(key) => is_endpoint_key(bytes@) && key@ == bytes@,
            Err(_) => !is_endpoint_key(bytes@),
        },
{
    iroh::PublicKey::from_bytes(bytes).map(|key| *key.as_bytes())
}

/// The bytes are no public key.
#[derive(Debug, Clone, Copy, PartialEq, Eq, Structural)]
pub struct InvalidKey;

/// The identity of an endpoint: its public key.
#[derive(Debug, Clone, Copy, PartialEq, Eq, Hash)]
pub struct EndpointId {
    bytes: [u8; 32],
}

impl View for EndpointId {
    type V = Seq<u8>;

    closed spec fn view(&self) -> Seq<u8> {
        self.bytes@
    }
}

impl EndpointId {
    /// The identity holds 32 bytes that are a public key.
    #[verifier::type_invariant]
    pub open spec fn wf(&self) -> bool {
        self@.len() == 32 && is_endpoint_key(self@)
    }

    /// The identity with the key `bytes`, where they are one.
    pub fn from_bytes(bytes: &[u8; 32]) -> (r: Result<EndpointId, InvalidKey>)
        ensures
            r is Ok <==> is_endpoint_key(bytes@),
            r matches Ok(id) ==> id.wf() && id@ == bytes@,
    {
        match checked_key(bytes) {
            Ok(key) => Ok(EndpointId { bytes: key }),
            Err(_) => Err(InvalidKey),
        }
    }

    /// The identity with the key `bytes`, where they are 32 and a key.
    pub fn from_slice(bytes: &[u8]) -> (r: Result<EndpointId, InvalidKey>)
        ensures
            r is Ok <==> (bytes@.len() == 32 && is_endpoint_key(bytes@)),
            r matches Ok(id) ==> id.wf() && id@ == bytes@,
    {
        if bytes.len() != 32 {
            return Err(InvalidKey);
        }
        let mut key = [0u8; 32];
        let mut i: usize = 0;
        while i < 32
            invariant
                bytes@.len() == 32,
                0 <= i <= 32,
                forall|k: int| 0 <= k < i ==> key@[k] == bytes@[k],
            decreases 32 - i,
        {
            key[i] = bytes[i];
            i = i + 1;
        }
        proof {
            assert(key@ =~= bytes@);
        }
        Self::from_bytes(&key)
    }

    /// The 32 bytes of the key.
    pub fn as_bytes(&self) -> (bytes: &[u8; 32])
        ensures
            bytes@ == self@,
    {
        &self.bytes
    }

    /// The string form of the identity: its bytes in lower-case
    /// hexadecimal.
    pub fn to_text(&self) -> (s: String)
        ensures
            s@ == hex_text(self@),
    {
        hex_string(self.bytes.as_slice())
    }
}

/// What `iroh::PublicKey::verify` answers for the public key with the
/// bytes `key`: whether `signature` is a good signature of `message` under
/// that key. No signature is good under bytes that are no key.
pub uninterp spec fn is_signed(key: Seq<u8>, message: Seq<u8>, signature: Seq<u8>) -> bool;

/// The signature that `iroh::SecretKey::sign` makes of `message` with the
/// secret key with the bytes `secret`.
pub uninterp spec fn signature_of(secret: Seq<u8>, message: Seq<u8>) -> Seq<u8>;

/// The bytes of the public key that `iroh::SecretKey::public` gives for
/// the secret key with the bytes `secret`.
pub uninterp spec fn public_of(secret: Seq<u8>) -> Seq<u8>;

/// Calls `iroh::PublicKey::verify` on the key made of `key` by
/// `iroh::PublicKey::from_bytes` and the signature made of `signature` by
/// `iroh::Signature::from_bytes`. Whether a signature is good depends on
/// the key, the message and the signature alone.
#[verifier::external_body]
fn verify(key: &[u8; 32], message: &[u8], signature: &[u8; 64]) -> (good: bool)
    ensures
        good == is_signed(key@, message@, signature@),
{
    match iroh::PublicKey::from_bytes(key) {
        Ok(k) => k.verify(message, &iroh::Signature::from_bytes(signature)).is_ok(),
        Err(_) => false,
    }
}

/// Calls `iroh::SecretKey::sign` on the key made of `secret` by
/// `iroh::SecretKey::from_bytes` and gives the bytes of the signature. The
/// signature depends on the key and the message alone.
#[verifier::external_body]
fn sign(secret: &[u8; 32], message: &[u8]) -> (signature: [u8; 64])
    ensures
        signature@ == signature_of(secret@, message@),
{
    iroh::SecretKey::from_bytes(secret).sign(message).to_bytes()
}

/// Calls `iroh::SecretKey::public` on the key made of `secret` by
/// `iroh::SecretKey::from_bytes` and gives the bytes of the public key,
/// which depend on the secret key alone and which
/// `iroh::PublicKey::from_bytes` takes for a key.
#[verifier::external_body]
fn public_bytes(secret: &[u8; 32]) -> (key: [u8; 32])
    ensures
        key@ == public_of(secret@),
        is_endpoint_key(key@),
{
    *iroh::SecretKey::from_bytes(secret).public().as_bytes()
}

impl EndpointId {
    /// Whether `signature` is a good signature of `message` under this
    /// key.
    pub fn verifies(&self, message: &[u8], signature: &[u8; 64]) -> (good: bool)
        ensures
            good == is_signed(self@, message@, signature@),
    {
        verify(&self.bytes, message, signature)
    }
}

/// The secret key of an endpoint.
pub struct SecretKey {
    bytes: [u8; 32],
}

impl View for SecretKey {
    type V = Seq<u8>;

    closed spec fn view(&self) -> Seq<u8> {
        self.bytes@
    }
}

impl SecretKey {
    /// The secret key with the bytes `bytes`.
    pub fn from_bytes(bytes: &[u8; 32]) -> (k: Self)
        ensures
            k@ == bytes@,
    {
        SecretKey { bytes: *bytes }
    }

    /// The identity of the endpoint that holds this key.
    pub fn public(&self) -> (id: EndpointId)
        ensures
            id@ == public_of(self@),
    {
        EndpointId { bytes: public_bytes(&self.bytes) }
    }

    /// The signature of `message` with this key.
    pub fn sign(&self, message: &[u8]) -> (signature: [u8; 64])
        ensures
            signature@ == signature_of(self@, message@),
    {
        sign(&self.bytes, message)
    }
}

} // verus!
