//! The per-connection signing key and the JSON Web Key that binds its public
//! half to a database session.

use vstd::prelude::*;
use crate::text::concat;

verus! {

/// The public key that belongs to an Ed25519 secret key: what
/// `ed25519_dalek::SigningKey::from_bytes(secret).verifying_key().to_bytes()`
/// returns.
pub uninterp spec fn ed25519_public_key(secret: Seq<u8>) -> Seq<u8>;

/// The JSON text that `serde_json::to_string` gives for the `jose_jwk::Key`
/// of kind OKP with the given curve, public key and private key; `None`
/// where it reports an error.
pub uninterp spec fn okp_jwk_json(crv: OkpCurve, x: Seq<u8>, d: Option<Seq<u8>>) -> Option<
    Seq<char>,
>;

/// An Ed25519 key pair, as raw bytes.
#[derive(Clone, Copy)]
pub struct SigningKeyPair {
    pub secret: [u8; 32],
    pub public: [u8; 32],
}

/// The curves an octet key pair can be on.
#[derive(Clone, Copy, PartialEq, Eq, Structural, Debug)]
pub enum OkpCurve {
    Ed25519,
    Ed448,
    X25519,
    X448,
}

/// An octet-key-pair JWK.
pub struct OkpJwk {
    pub crv: OkpCurve,
    /// The public key.
    pub x: Vec<u8>,
    /// The private key, where the JWK is to carry it.
    pub d: Option<Vec<u8>>,
}

impl OkpJwk {
    pub open spec fn d_view(&self) -> Option<Seq<u8>> {
        match self.d {
            Some(d) => Some(d@),
            None => None,
        }
    }
}

/// Draws a fresh Ed25519 key from the operating system's random source
/// (`ed25519_dalek::SigningKey::generate` with `rand::rngs::OsRng`). Nothing
/// is claimed of the secret; the public half is the one that belongs to it.
/// The draw does not return where the operating system has no randomness
/// to give.
#[verifier::external_body]
pub(crate) fn generate_signing_key() -> (r: SigningKeyPair)
    ensures
        r.public@ == ed25519_public_key(r.secret@),
{
    let key = ed25519_dalek::SigningKey::generate(&mut rand::rngs::OsRng);
    SigningKeyPair { secret: key.to_bytes(), public: key.verifying_key().to_bytes() }
}

/// Writes a JWK as JSON with `serde_json::to_string` on the `jose_jwk::Key`
/// that holds the same curve and key bytes.
#[verifier::external_body]
pub(crate) fn encode_jwk(jwk: &OkpJwk) -> (r: Option<String>)
    ensures
        (match r {
            Some(s) => Some(s@),
            None => None,
        }) == okp_jwk_json(jwk.crv, jwk.x@, jwk.d_view()),
{
    let crv = match jwk.crv {
        OkpCurve::Ed25519 => jose_jwk::OkpCurves::Ed25519,
        OkpCurve::Ed448 => jose_jwk::OkpCurves::Ed448,
        OkpCurve::X25519 => jose_jwk::OkpCurves::X25519,
        OkpCurve::X448 => jose_jwk::OkpCurves::X448,
    };
    let x = jose_jwk::jose_b64::serde::Bytes::from(jwk.x.clone());
    let d = jwk.d.clone().map(jose_jwk::jose_b64::serde::Secret::from);
    serde_json::to_string(&jose_jwk::Key::Okp(jose_jwk::Okp { crv, x, d })).ok()
}

/// The JWK that publishes the public half of `pair`, and nothing of the
/// secret half.
pub fn public_jwk(pair: &SigningKeyPair) -> (r: OkpJwk)
    ensures
        r.crv == OkpCurve::Ed25519,
        r.x@ == pair.public@,
        r.d is None,
{
    let mut x: Vec<u8> = Vec::new();
    let mut i: usize = 0;
    while i < 32
        invariant
            i <= 32,
            x@ == pair.public@.subrange(0, i as int),
        decreases 32 - i,
    {
        x.push(pair.public[i]);
        i = i + 1;
        assert(x@ =~= pair.public@.subrange(0, i as int));
    }
    assert(x@ =~= pair.public@);
    OkpJwk { crv: OkpCurve::Ed25519, x, d: None }
}

/// A fresh signing key together with the JWK of its public half.
pub fn create_random_jwk() -> (r: (SigningKeyPair, OkpJwk))
    ensures
        r.1.crv == OkpCurve::Ed25519,
        r.1.x@ == ed25519_public_key(r.0.secret@),
        r.1.x@ == r.0.public@,
        r.1.d is None,
{
    let pair = generate_signing_key();
    let jwk = public_jwk(&pair);
    (pair, jwk)
}

/// The startup option that binds a JWK to a session.
pub open spec fn session_options_spec(jwk_json: Seq<char>) -> Seq<char> {
    "-c pg_session_jwt.jwk="@ + jwk_json
}

/// Executable form of [`session_options_spec`].
pub fn session_options(jwk_json: &str) -> (r: String)
    ensures
        r@ == session_options_spec(jwk_json@),
{
    concat("-c pg_session_jwt.jwk=", jwk_json)
}

/// Whether `id` has the layout of a random (version 4) UUID: version
/// nibble 4, variant bits `10`.
pub open spec fn is_random_uuid(id: u128) -> bool {
    (id >> 76u128) & 0xfu128 == 4 && (id >> 62u128) & 0x3u128 == 2
}

/// A fresh connection identifier: `uuid::Uuid::new_v4`, as the 128-bit
/// number its bytes spell. All that is known of it is its layout.
#[verifier::external_body]
pub(crate) fn new_conn_id() -> (r: u128)
    ensures
        is_random_uuid(r),
{
    uuid::Uuid::new_v4().as_u128()
}

} // verus!
