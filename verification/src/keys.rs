//! Ed25519 keys and signatures, held as their byte encodings.

use vstd::prelude::*;
use vstd::std_specs::cmp::PartialEqSpecImpl;

verus! {

/// The error of ed25519-dalek, carried through unread.
#[verifier::external_type_specification]
#[verifier::external_body]
pub struct ExSignatureError(ed25519_dalek::SignatureError);

/// The encoding of the public key that belongs to a secret key.
pub uninterp spec fn ed25519_public_key(secret: Seq<u8>) -> Seq<u8>;

/// The encoding of the signature that a secret key, together with the public
/// key it is held with, makes on a message; `None` where the public key is
/// not the encoding of a curve point, so that no signature is made.
pub uninterp spec fn ed25519_signature(secret: Seq<u8>, public: Seq<u8>, message: Seq<u8>) -> Option<
    Seq<u8>,
>;

/// Whether a signature on a message is accepted under a public key, all
/// three given by their encodings.
pub uninterp spec fn ed25519_accepts(public: Seq<u8>, message: Seq<u8>, signature: Seq<u8>) -> bool;

/// Compares two byte arrays of one length.
pub(crate) fn bytes_equal<const N: usize>(a: &[u8; N], b: &[u8; N]) -> (equal: bool)
    ensures
        equal == (a@ == b@),
{
    let mut i: usize = 0;
    while i < N
        invariant
            i <= N,
            forall|j: int| 0 <= j < i ==> a@[j] == b@[j],
        decreases N - i,
    {
        if a[i] != b[i] {
            return false;
        }
        i += 1;
    }
    assert(a@ =~= b@);
    true
}

/// An Ed25519 public key in its compressed encoding. Any 32 bytes can be
/// held; those that encode no curve point accept no signature.
#[derive(Clone, Copy, Debug, Eq)]
pub struct PublicKey {
    pub bytes: [u8; 32],
}

impl View for PublicKey {
    type V = Seq<u8>;

    open spec fn view(&self) -> Seq<u8> {
        self.bytes@
    }
}

impl PartialEq for PublicKey {
    fn eq(&self, other: &Self) -> (equal: bool) {
        bytes_equal(&self.bytes, &other.bytes)
    }
}

impl PartialEqSpecImpl for PublicKey {
    open spec fn obeys_eq_spec() -> bool {
        true
    }

    open spec fn eq_spec(&self, other: &Self) -> bool {
        self@ == other@
    }
}

/// An Ed25519 signature in its 64-byte encoding.
#[derive(Clone, Copy, Debug, Eq)]
pub struct Signature {
    pub bytes: [u8; 64],
}

impl View for Signature {
    type V = Seq<u8>;

    open spec fn view(&self) -> Seq<u8> {
        self.bytes@
    }
}

impl PartialEq for Signature {
    fn eq(&self, other: &Self) -> (equal: bool) {
        bytes_equal(&self.bytes, &other.bytes)
    }
}

impl PartialEqSpecImpl for Signature {
    open spec fn obeys_eq_spec() -> bool {
        true
    }

    open spec fn eq_spec(&self, other: &Self) -> bool {
        self@ == other@
    }
}

/// A secret key and the public key it is used with.
#[derive(Debug)]
pub struct Keypair {
    pub secret: [u8; 32],
    pub public: PublicKey,
}

/// Calls `SecretKey::from_bytes` and `PublicKey::from(&SecretKey)` of
/// ed25519-dalek. The contract names the derived key and claims that the call
/// never fails: the only error of `from_bytes` is a length other than 32.
#[verifier::external_body]
fn derive_public(secret: &[u8; 32]) -> (derived: Result<PublicKey, ed25519_dalek::SignatureError>)
    ensures
        derived is Ok,
        derived matches Ok(public) ==> public@ == ed25519_public_key(secret@),
{
    let secret = ed25519_dalek::SecretKey::from_bytes(secret)?;
    Ok(PublicKey { bytes: ed25519_dalek::PublicKey::from(&secret).to_bytes() })
}

/// Calls `Signer::sign` on an ed25519-dalek `Keypair` decoded from the two
/// keys. The contract names the signature, with `None` for the error of
/// either decoding. Of a keypair whose public key was derived from its secret
/// key it claims two things more: that the call succeeds, since what
/// `compress` returned decompresses, and that the signature made is accepted
/// under that public key, as the crate documents of its keypairs.
#[verifier::external_body]
fn sign_with(keypair: &Keypair, message: &[u8]) -> (signed: Result<
    Signature,
    ed25519_dalek::SignatureError,
>)
    ensures
        match signed {
            Ok(signature) => {
                &&& ed25519_signature(keypair.secret@, keypair.public@, message@) == Some(
                    signature@,
                )
                &&& keypair.public@ == ed25519_public_key(keypair.secret@) ==> ed25519_accepts(
                    keypair.public@,
                    message@,
                    signature@,
                )
            },
            Err(_) => {
                &&& ed25519_signature(keypair.secret@, keypair.public@, message@) is None
                &&& keypair.public@ != ed25519_public_key(keypair.secret@)
            },
        },
{
    let secret = ed25519_dalek::SecretKey::from_bytes(&keypair.secret)?;
    let public = ed25519_dalek::PublicKey::from_bytes(&keypair.public.bytes)?;
    let signer = ed25519_dalek::Keypair { secret, public };
    Ok(Signature { bytes: ed25519_dalek::Signer::sign(&signer, message).to_bytes() })
}

/// Calls `Verifier::verify` on an ed25519-dalek `PublicKey`, with the key and
/// the signature decoded from their bytes. The contract names the outcome:
/// the call returns `Ok` exactly where the signature is accepted, and an
/// error of either decoding counts as a signature that is not.
#[verifier::external_body]
fn verify_with(public_key: &PublicKey, message: &[u8], signature: &Signature) -> (verified: Result<
    (),
    ed25519_dalek::SignatureError,
>)
    ensures
        verified is Ok <==> ed25519_accepts(public_key@, message@, signature@),
{
    let key = ed25519_dalek::PublicKey::from_bytes(&public_key.bytes)?;
    let signature = ed25519_dalek::Signature::from_bytes(&signature.bytes)?;
    ed25519_dalek::Verifier::verify(&key, message, &signature)
}

impl PublicKey {
    /// Whether `signature` is accepted as a signature on `message` under
    /// this key.
    pub open spec fn accepts(self, message: Seq<u8>, signature: Signature) -> bool {
        ed25519_accepts(self@, message, signature@)
    }

    /// Checks a signature on a message against this key.
    pub fn verify(&self, message: &[u8], signature: &Signature) -> (verified: Result<
        (),
        ed25519_dalek::SignatureError,
    >)
        ensures
            verified is Ok <==> self.accepts(message@, *signature),
    {
        verify_with(self, message, signature)
    }
}

impl Keypair {
    /// Whether the public key is the one that belongs to the secret key.
    pub open spec fn is_consistent(self) -> bool {
        self.public@ == ed25519_public_key(self.secret@)
    }

    /// The signature that this keypair makes on `message`, if it makes one.
    pub open spec fn signature_on(self, message: Seq<u8>) -> Option<Seq<u8>> {
        ed25519_signature(self.secret@, self.public@, message)
    }

    /// The keypair of a secret key, with the public key that belongs to it.
    pub fn from_secret(secret: [u8; 32]) -> (keypair: Keypair)
        ensures
            keypair.secret == secret,
            keypair.is_consistent(),
    {
        match derive_public(&secret) {
            Ok(public) => Keypair { secret, public },
            Err(_) => vstd::pervasive::unreached(),
        }
    }

    /// Signs a message. A consistent keypair always signs, and its own
    /// public key accepts the signature.
    pub fn sign(&self, message: &[u8]) -> (signed: Result<Signature, ed25519_dalek::SignatureError>)
        ensures
            match signed {
                Ok(signature) => {
                    &&& self.signature_on(message@) == Some(signature@)
                    &&& self.is_consistent() ==> self.public.accepts(message@, signature)
                },
                Err(_) => self.signature_on(message@) is None && !self.is_consistent(),
            },
    {
        sign_with(self, message)
    }
}

} // verus!
