//! Error type for the distributed key generation job.

use vstd::prelude::*;

verus! {

/// Errors raised while setting up or running a distributed key generation.
#[derive(Clone, Debug, PartialEq, Eq)]
pub enum KeygenError {
    /// Encoding a value for storage or for the job output failed.
    SerializationError(String),
    /// A protocol round failed: a message was missing or malformed, or the
    /// secret computation rejected the collected shares.
    MpcError(String),
    /// A value the job needs from its surroundings was absent or invalid.
    ContextError(String),
    /// Handing a message to the transport failed.
    DeliveryError(String),
    /// The `(n, k, t)` parameters violate the cohort invariants.
    SetupError(String),
    /// An operator's public key is not a valid 33-byte compressed point.
    InvalidPublicKey,
}

impl KeygenError {
    /// A human-readable description of the error.
    pub fn text(&self) -> String {
        match self {
            KeygenError::SerializationError(s) => s.clone(),
            KeygenError::MpcError(s) => s.clone(),
            KeygenError::ContextError(s) => s.clone(),
            KeygenError::DeliveryError(s) => s.clone(),
            KeygenError::SetupError(s) => s.clone(),
            KeygenError::InvalidPublicKey => String::from_str("invalid public key"),
        }
    }
}

} // verus!
// The keygen job's session setup: operator-key checks, parameters and the
// session fingerprint.

use crate::keygen_salt;
use crate::keygen_state_machine::WstsSigner;
use crate::meta_preimage_spec;
use crate::session_hashes_spec;
use crate::sha256_of;
use crate::utils::generate_party_key_ids;
use crate::utils::parameters_valid;
use crate::utils::validate_parameters;

verus! {

/// Whether a byte string is a valid 33-byte compressed secp256k1 point, a
/// function of the bytes alone. Only the trusted wrapper below applies it.
pub uninterp spec fn point_ok(b: Seq<u8>) -> bool;

/// Relies on `p256k1::point::Compressed::try_from` and
/// `p256k1::point::Point::try_from`: whether the bytes are a valid 33-byte
/// compressed secp256k1 point.
#[verifier::external_body]
pub(crate) fn is_valid_compressed_point(b: &Vec<u8>) -> (r: bool)
    ensures
        r == point_ok(b@),
{
    match p256k1::point::Compressed::try_from(b.as_slice()) {
        Ok(c) => p256k1::point::Point::try_from(&c).is_ok(),
        Err(_) => false,
    }
}

/// A keygen session ready to run: the signer and the session fingerprint.
pub struct KeygenSession {
    /// This party, holding a fresh random polynomial.
    pub signer: WstsSigner,
    /// The digest that keys the persistent store.
    pub meta_hash: Vec<u8>,
    /// The digest that separates this protocol run on the wire.
    pub execution_hash: Vec<u8>,
}

/// Prepares a key generation: checks every operator key, validates the
/// `(n, k, t)` parameters with `k = n`, carves out this party's key ids,
/// builds the signer and derives the session fingerprint from the blueprint
/// id and the call id under the keygen salt.
#[verifier::loop_isolation(false)]
pub fn keygen_setup(
    t: u16,
    party_index: u16,
    blueprint_id: u64,
    call_id: u64,
    operator_keys: &Vec<Vec<u8>>,
) -> (r: Result<KeygenSession, KeygenError>)
    ensures
        r matches Ok(s) ==> {
            &&& s.signer.wf()
            &&& !s.signer.secret_computed
            &&& s.signer.party_id == party_index
            &&& s.signer.num_parties == operator_keys@.len()
            &&& s.signer.num_keys == operator_keys@.len()
            &&& s.signer.threshold == t
            &&& parameters_valid(
                operator_keys@.len() as u32,
                operator_keys@.len() as u32,
                t as u32,
            )
            &&& t >= 1
            &&& party_index < operator_keys@.len()
            &&& s.signer.key_ids@.len() == 1
            &&& s.signer.key_ids@[0] == party_index + 1
            &&& s.meta_hash@ == sha256_of(
                meta_preimage_spec(operator_keys@.len() as u16, blueprint_id, call_id),
            )
            &&& (s.meta_hash@, s.execution_hash@) == session_hashes_spec(
                operator_keys@.len() as u16,
                blueprint_id,
                call_id,
                crate::keygen_salt_spec(),
            )
            &&& forall|i: int|
                0 <= i < operator_keys@.len() ==> #[trigger] point_ok(operator_keys@[i]@)
        },
        r is Ok <==> {
            &&& operator_keys@.len() <= u16::MAX
            &&& forall|i: int|
                0 <= i < operator_keys@.len() ==> #[trigger] point_ok(operator_keys@[i]@)
            &&& parameters_valid(
                operator_keys@.len() as u32,
                operator_keys@.len() as u32,
                t as u32,
            )
            &&& t >= 1
            &&& party_index < operator_keys@.len()
        },
        operator_keys@.len() > u16::MAX ==> r is Err && r->Err_0 is SetupError,
        (operator_keys@.len() <= u16::MAX && exists|i: int|
            0 <= i < operator_keys@.len() && !#[trigger] point_ok(operator_keys@[i]@)) ==> r is Err
            && r->Err_0 is InvalidPublicKey,
        r is Err && r->Err_0 is InvalidPublicKey ==> exists|i: int|
            0 <= i < operator_keys@.len() && !#[trigger] point_ok(operator_keys@[i]@),
        r matches Err(e) ==> (e is SetupError || e is InvalidPublicKey),
{
    if operator_keys.len() > 0xFFFF {
        return Err(KeygenError::SetupError(String::from_str("too many operators")));
    }
    let n16 = operator_keys.len() as u16;
    let n: u32 = n16 as u32;
    let mut i: usize = 0;
    while i < operator_keys.len()
        invariant
            i <= operator_keys@.len(),
            forall|j: int| 0 <= j < i ==> #[trigger] point_ok(operator_keys@[j]@),
        decreases operator_keys@.len() - i,
    {
        if !is_valid_compressed_point(&operator_keys[i]) {
            return Err(KeygenError::InvalidPublicKey);
        }
        i = i + 1;
    }
    let k: u32 = n;
    match validate_parameters(n, k, t as u32) {
        Ok(()) => {},
        Err(e) => {
            return Err(e);
        },
    }
    if party_index as u32 >= n {
        return Err(KeygenError::SetupError(String::from_str("Bad party_id")));
    }
    let key_ids = generate_party_key_ids(n, k);
    let our_ids = &key_ids[party_index as usize];
    proof {
        // With `k = n` every party owns exactly the one key id matching its
        // index.
        assert(n / n == 1) by (nonlinear_arith)
            requires
                n >= 1,
        ;
        assert(our_ids@.len() == 1);
        assert(our_ids@[0] == crate::utils::partition_entry(n, k, party_index as int, 0));
        assert(our_ids@[0] == party_index);
    }
    let signer = match WstsSigner::new(party_index as u32, our_ids, n, k, t as u32) {
        Ok(s) => s,
        Err(e) => {
            return Err(e);
        },
    };
    let salt = keygen_salt();
    let (meta, exec) = crate::compute_execution_hashes(n16, blueprint_id, call_id, salt.as_slice());
    let mut meta_hash: Vec<u8> = Vec::new();
    let mut mi: usize = 0;
    while mi < 32
        invariant
            mi <= 32,
            meta_hash@.len() == mi,
            forall|j: int| 0 <= j < mi ==> meta_hash@[j] == meta@[j],
        decreases 32 - mi,
    {
        meta_hash.push(meta[mi]);
        mi = mi + 1;
    }
    let mut execution_hash: Vec<u8> = Vec::new();
    let mut ei: usize = 0;
    while ei < 32
        invariant
            ei <= 32,
            execution_hash@.len() == ei,
            forall|j: int| 0 <= j < ei ==> execution_hash@[j] == exec@[j],
        decreases 32 - ei,
    {
        execution_hash.push(exec[ei]);
        ei = ei + 1;
    }
    proof {
        assert(meta_hash@ =~= meta@);
        assert(execution_hash@ =~= exec@);
    }
    Ok(KeygenSession { signer, meta_hash, execution_hash })
}

} // verus!
