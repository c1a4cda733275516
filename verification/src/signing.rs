//! Error type for the distributed signing job.

use vstd::prelude::*;

verus! {

/// Errors raised while setting up or running a distributed signing session.
#[derive(Clone, Debug, PartialEq, Eq)]
pub enum SigningError {
    /// Encoding a value for the job output failed.
    SerializationError(String),
    /// A protocol round failed: a message was missing or malformed, or the
    /// aggregator rejected the collected shares.
    MpcError(String),
    /// A value the job needs from its surroundings was absent or invalid.
    ContextError(String),
    /// Handing a message to the transport failed.
    DeliveryError(String),
    /// The stored group key is not a valid 33-byte compressed point.
    InvalidPublicKey,
    /// The aggregated signature failed the WSTS-native verification.
    InvalidSignature,
    /// The signature bytes did not parse as a FROST signature.
    InvalidFrostSignature,
    /// The stored group key did not parse as a FROST verifying key.
    InvalidFrostVerifyingKey,
    /// The FROST verifier rejected the signature.
    InvalidFrostVerification,
}

impl SigningError {
    /// A human-readable description of the error.
    pub fn text(&self) -> String {
        match self {
            SigningError::SerializationError(s) => s.clone(),
            SigningError::MpcError(s) => s.clone(),
            SigningError::ContextError(s) => s.clone(),
            SigningError::DeliveryError(s) => s.clone(),
            SigningError::InvalidPublicKey => String::from_str("invalid public key"),
            SigningError::InvalidSignature => String::from_str("invalid signature"),
            SigningError::InvalidFrostSignature => String::from_str("invalid FROST signature"),
            SigningError::InvalidFrostVerifyingKey => String::from_str(
                "invalid FROST verifying key",
            ),
            SigningError::InvalidFrostVerification => String::from_str(
                "invalid FROST verification",
            ),
        }
    }
}

} // verus!
// The signing job's session setup: the fingerprint of the keygen being
// consumed, and the store lookup outcome.

use crate::keygen::is_valid_compressed_point;
use crate::keygen::point_ok;
use crate::keygen_state_machine::WstsState;
use crate::meta_preimage_spec;
use crate::session_hashes_spec;
use crate::sha256_of;
use crate::signing_salt;

verus! {

/// The message carried when no keygen result is stored for the quoted call.
pub open spec fn key_entry_not_found_text() -> Seq<char> {
    "Key entry not found"@
}

/// Derives the fingerprint of the signing session: the meta hash quotes the
/// call id of the keygen whose result is consumed, so the store lookup and
/// the keygen write use one key; the execution hash uses the signing salt.
pub fn signing_session_hashes(n: u16, blueprint_id: u64, keygen_call_id: u64) -> (r: (
    Vec<u8>,
    Vec<u8>,
))
    ensures
        r.0@ == sha256_of(meta_preimage_spec(n, blueprint_id, keygen_call_id)),
        (r.0@, r.1@) == session_hashes_spec(
            n,
            blueprint_id,
            keygen_call_id,
            crate::signing_salt_spec(),
        ),
{
    let salt = signing_salt();
    let (meta, exec) = crate::compute_execution_hashes(n, blueprint_id, keygen_call_id, salt.as_slice());
    let mut meta_hash: Vec<u8> = Vec::new();
    let mut mi: usize = 0;
    while mi < 32
        invariant
            mi <= 32,
            meta_hash@.len() == mi,
            forall|j: int| 0 <= j < mi ==> meta_hash@[j] == meta@[j],
        decreases 32 - mi,
    {
        meta_hash.push(meta[mi]);
        mi = mi + 1;
    }
    let mut execution_hash: Vec<u8> = Vec::new();
    let mut ei: usize = 0;
    while ei < 32
        invariant
            ei <= 32,
            execution_hash@.len() == ei,
            forall|j: int| 0 <= j < ei ==> execution_hash@[j] == exec@[j],
        decreases 32 - ei,
    {
        execution_hash.push(exec[ei]);
        ei = ei + 1;
    }
    proof {
        assert(meta_hash@ =~= meta@);
        assert(execution_hash@ =~= exec@);
    }
    (meta_hash, execution_hash)
}

/// Checks every operator's transport key before a signing session, as the
/// keygen path does: any key that is not a valid 33-byte compressed
/// secp256k1 point rejects the job.
pub fn validate_operator_keys(operator_keys: &Vec<Vec<u8>>) -> (r: Result<(), SigningError>)
    ensures
        r is Ok <==> (forall|i: int|
            0 <= i < operator_keys@.len() ==> #[trigger] point_ok(operator_keys@[i]@)),
        r matches Err(e) ==> e is InvalidPublicKey,
{
    let mut i: usize = 0;
    while i < operator_keys.len()
        invariant
            i <= operator_keys@.len(),
            forall|j: int| 0 <= j < i ==> #[trigger] point_ok(operator_keys@[j]@),
        decreases operator_keys@.len() - i,
    {
        if !is_valid_compressed_point(&operator_keys[i]) {
            return Err(SigningError::InvalidPublicKey);
        }
        i = i + 1;
    }
    Ok(())
}

/// Resolves the store lookup that precedes signing: an absent entry is the
/// context error `Key entry not found`.
pub fn load_keygen_state(entry: Option<WstsState>) -> (r: Result<WstsState, SigningError>)
    ensures
        r is Ok <==> entry is Some,
        entry matches Some(st) ==> r matches Ok(out) && out == st,
        r matches Err(e) ==> e matches SigningError::ContextError(s) && s@
            == key_entry_not_found_text(),
{
    match entry {
        Some(st) => Ok(st),
        None => Err(SigningError::ContextError(String::from_str("Key entry not found"))),
    }
}

} // verus!
