//! The two-round distributed signing state machine.
//!
//! A signing session starts from a completed keygen result. Round one
//! broadcasts a fresh nonce commitment; round two broadcasts this party's
//! signature share, computed over every collected nonce; aggregation then
//! combines the shares, checks the result with the WSTS taproot verifier
//! and with the FROST verifier, and emits the 65-byte signature blob. The
//! caller drives the rounds: it sends each message this module builds,
//! gathers one message per party and hands the batch back.

use vstd::prelude::*;

use crate::keygen_state_machine::copy_bytes;
use crate::keygen_state_machine::copy_ids;
use crate::keygen_state_machine::poly_commitment_from_bytes;
use crate::keygen_state_machine::HasRecipient;
use crate::keygen_state_machine::MessageDestination;
use crate::keygen_state_machine::WstsSigner;
use crate::keygen_state_machine::WstsState;
use crate::sig_format::encode_signature;
use crate::sig_format::frost_compact_form;
use crate::sig_format::signature_layout_spec;
use crate::sig_format::POINT_BYTES;
use crate::sig_format::SCALAR_BYTES;
use crate::sig_format::SIGNATURE_BYTES;
use crate::signing::SigningError;
use rand::rngs::OsRng;
use wsts::traits::Signer;
use wsts::v2;

verus! {

/// Declares `wsts::common::PublicNonce` for contracts; the value is opaque.
#[verifier::external_type_specification]
#[verifier::external_body]
pub struct ExPublicNonce(wsts::common::PublicNonce);

/// Declares `wsts::common::SignatureShare` for contracts; the value is
/// opaque.
#[verifier::external_type_specification]
#[verifier::external_body]
pub struct ExSignatureShare(wsts::common::SignatureShare);

/// Declares `wsts::common::Signature` for contracts; the value is opaque.
#[verifier::external_type_specification]
#[verifier::external_body]
pub struct ExSignature(wsts::common::Signature);

/// Declares `wsts::v2::Aggregator` for contracts; the value is opaque.
#[verifier::external_type_specification]
#[verifier::external_body]
pub struct ExAggregator(v2::Aggregator);

/// This party's round-one broadcast: its key ids and a fresh nonce
/// commitment.
pub struct Round1Msg {
    /// The sender's party index.
    pub source: u32,
    /// The key ids the sender owns, numbered from 1.
    pub key_ids: Vec<u32>,
    /// The sender's serialized public nonce.
    pub nonce: Vec<u8>,
}

/// This party's round-two broadcast: its signature share.
pub struct Round2Msg {
    /// The sender's party index.
    pub source: u32,
    /// The sender's serialized signature share.
    pub signature_share: Vec<u8>,
}

/// The signing protocol message.
pub enum Msg {
    /// The nonce-commitment round.
    Round1(Round1Msg),
    /// The signature-share round.
    Round2(Round2Msg),
}

impl HasRecipient for Msg {
    /// Signing messages are always broadcast.
    fn recipient(&self) -> MessageDestination {
        match self {
            Msg::Round1(_) => MessageDestination::AllParties,
            Msg::Round2(_) => MessageDestination::AllParties,
        }
    }
}

/// An aggregated signature in serializable form: the compressed `R` point
/// and the scalar `z`.
#[allow(non_snake_case)]
pub struct SerializeableSignature {
    /// The compressed aggregated commitment point, 33 bytes.
    pub R: Vec<u8>,
    /// The sum of the party signature scalars, 32 big-endian bytes.
    pub z: Vec<u8>,
}

/// The transient state a signing session accumulates and returns.
pub struct WstsSigningState {
    /// This party's index within the cohort.
    pub party_id: u32,
    /// Per party, in ascending party order: the key ids it announced in
    /// round one.
    pub party_key_ids: Vec<(u32, Vec<u32>)>,
    /// Per party, in ascending party order: its serialized public nonce.
    pub party_nonces: Vec<(u32, Vec<u8>)>,
    /// Per party, in ascending party order: its serialized signature share.
    pub signature_shares: Vec<(u32, Vec<u8>)>,
    /// The cohort size.
    pub n_signers: u32,
    /// The signing threshold.
    pub threshold: u32,
    /// The signed message.
    pub message: Vec<u8>,
    /// The group verification key in FROST taproot form, 33 bytes.
    pub public_key_frost_format: Vec<u8>,
    /// The serialized state of this party after the nonce round.
    pub party_state: Vec<u8>,
    /// The aggregated signature, once aggregation succeeded.
    pub aggregated_signature: Option<SerializeableSignature>,
    /// The 65-byte signature blob: compressed `R` followed by `z`.
    pub signature_frost_format: Vec<u8>,
}

impl WstsSigningState {
    /// An empty session state carrying the fixed session parameters.
    pub fn new(
        party_id: u32,
        n_signers: u32,
        threshold: u32,
        message: Vec<u8>,
        public_key_frost_format: Vec<u8>,
    ) -> (r: WstsSigningState)
        ensures
            r.party_id == party_id,
            r.n_signers == n_signers,
            r.threshold == threshold,
            r.message@ == message@,
            r.public_key_frost_format@ == public_key_frost_format@,
            r.party_key_ids@.len() == 0,
            r.party_nonces@.len() == 0,
            r.signature_shares@.len() == 0,
            r.party_state@.len() == 0,
            r.aggregated_signature is None,
            r.signature_frost_format@.len() == 0,
    {
        WstsSigningState {
            party_id,
            party_key_ids: Vec::new(),
            party_nonces: Vec::new(),
            signature_shares: Vec::new(),
            n_signers,
            threshold,
            message,
            public_key_frost_format,
            party_state: Vec::new(),
            aggregated_signature: None,
            signature_frost_format: Vec::new(),
        }
    }
}

/// A signing session between its rounds: the reloaded signer, the session
/// parameters, and what round one collected.
pub struct SigningSession {
    /// The signer reloaded from the stored keygen result.
    pub signer: WstsSigner,
    /// The cohort size.
    pub n_signers: u32,
    /// The signing threshold, as the stored keygen result fixed it.
    pub threshold: u32,
    /// The total number of key ids.
    pub num_keys: u32,
    /// The message being signed.
    pub message: Vec<u8>,
    /// The group verification key in FROST taproot form, 33 bytes.
    pub public_key_frost_format: Vec<u8>,
    /// Per party, in ascending party order: its serialized polynomial
    /// commitment, from the stored keygen result.
    pub poly_commitments: Vec<(u32, Vec<u8>)>,
    /// The sorted party indices, filled by the nonce round.
    pub party_ids: Vec<u32>,
    /// The flattened key ids of all parties in party order, filled by the
    /// nonce round.
    pub party_key_ids: Vec<u32>,
    /// The decoded public nonces in party order, filled by the nonce round.
    pub nonces: Vec<wsts::common::PublicNonce>,
    /// Per party, in ascending party order: its serialized nonce, filled by
    /// the nonce round.
    pub nonce_blobs: Vec<(u32, Vec<u8>)>,
    /// Per party, in ascending party order: its announced key ids, filled
    /// by the nonce round.
    pub key_ids_by_party: Vec<(u32, Vec<u32>)>,
}

/// The concatenation of each party's announced key ids, in party order.
pub open spec fn flatten_ids(per_party: Seq<(u32, Vec<u32>)>) -> Seq<u32>
    decreases per_party.len(),
{
    if per_party.len() == 0 {
        Seq::empty()
    } else {
        per_party[0].1@ + flatten_ids(per_party.drop_first())
    }
}

/// Extending the per-party list by one entry appends that entry's ids to
/// the flattened sequence.
pub proof fn lemma_flatten_take_step(s: Seq<(u32, Vec<u32>)>, i: int)
    requires
        0 <= i < s.len(),
    ensures
        flatten_ids(s.take(i + 1)) == flatten_ids(s.take(i)) + s[i].1@,
    decreases i,
{
    let t1 = s.take(i + 1);
    let t0 = s.take(i);
    if i == 0 {
        assert(t0 =~= Seq::<(u32, Vec<u32>)>::empty());
        assert(flatten_ids(t0) == Seq::<u32>::empty());
        assert(t1 =~= seq![s[0]]);
        assert(t1.drop_first() =~= Seq::<(u32, Vec<u32>)>::empty());
        assert(flatten_ids(t1.drop_first()) == Seq::<u32>::empty());
        assert(flatten_ids(t1) == t1[0].1@ + flatten_ids(t1.drop_first()));
        assert(t1[0] == s[0]);
        assert(s[0].1@ + Seq::<u32>::empty() =~= s[0].1@);
        assert(flatten_ids(t0) + s[0].1@ =~= s[0].1@);
    } else {
        lemma_flatten_take_step(s.drop_first(), i - 1);
        assert(t1.drop_first() =~= s.drop_first().take(i));
        assert(t0.drop_first() =~= s.drop_first().take(i - 1));
        assert(t1[0] == s[0] && t0[0] == s[0]);
        assert(flatten_ids(t1) == s[0].1@ + flatten_ids(s.drop_first().take(i)));
        assert(flatten_ids(t0) == s[0].1@ + flatten_ids(s.drop_first().take(i - 1)));
        assert(s.drop_first()[i - 1] == s[i]);
        assert(flatten_ids(s.drop_first().take(i)) == flatten_ids(s.drop_first().take(i - 1))
            + s[i].1@);
        assert(flatten_ids(t1) =~= flatten_ids(t0) + s[i].1@);
    }
}

/// The round-one list holds exactly one broadcast per party `0 .. n`.
pub open spec fn round1_sources_complete(msgs: Seq<Round1Msg>, n: u32) -> bool {
    &&& msgs.len() == n
    &&& forall|i: int| 0 <= i < msgs.len() ==> (#[trigger] msgs[i]).source < n
    &&& forall|i: int, j: int|
        0 <= i < msgs.len() && 0 <= j < msgs.len() && i != j ==> (#[trigger] msgs[i]).source != (
        #[trigger] msgs[j]).source
}

/// The round-two list holds exactly one broadcast per party `0 .. n`.
pub open spec fn round2_sources_complete(msgs: Seq<Round2Msg>, n: u32) -> bool {
    &&& msgs.len() == n
    &&& forall|i: int| 0 <= i < msgs.len() ==> (#[trigger] msgs[i]).source < n
    &&& forall|i: int, j: int|
        0 <= i < msgs.len() && 0 <= j < msgs.len() && i != j ==> (#[trigger] msgs[i]).source != (
        #[trigger] msgs[j]).source
}

impl SigningSession {
    /// The session parameters are consistent with the reloaded signer.
    pub open spec fn wf(self) -> bool {
        &&& self.signer.wf()
        &&& self.signer.secret_computed
        &&& self.n_signers == self.signer.num_parties
        &&& self.threshold == self.signer.threshold
        &&& self.num_keys == self.signer.num_keys
        &&& self.public_key_frost_format@.len() == POINT_BYTES
        &&& self.poly_commitments@.len() == self.n_signers
        &&& forall|i: int|
            0 <= i < self.poly_commitments@.len() ==> (#[trigger] self.poly_commitments@[i]).0
                == i
    }

    /// Round one has been collected: the sorted parties, their nonces and
    /// their key ids are filled, one entry per party.
    pub open spec fn round1_complete(self) -> bool {
        &&& self.wf()
        &&& self.party_ids@.len() == self.n_signers
        &&& forall|i: int| 0 <= i < self.party_ids@.len() ==> #[trigger] self.party_ids@[i] == i
        &&& self.nonces@.len() == self.n_signers
        &&& self.nonce_blobs@.len() == self.n_signers
        &&& forall|i: int|
            0 <= i < self.nonce_blobs@.len() ==> (#[trigger] self.nonce_blobs@[i]).0 == i
        &&& self.key_ids_by_party@.len() == self.n_signers
        &&& forall|i: int|
            0 <= i < self.key_ids_by_party@.len() ==> (#[trigger] self.key_ids_by_party@[i]).0
                == i
        &&& self.party_key_ids@ == flatten_ids(self.key_ids_by_party@)
    }
}

/// Whether a byte string holds a reloadable saved signer: it decodes, it
/// holds exactly one party, and its private keys cover its key ids. A
/// function of the bytes alone; only the trusted wrapper below applies it.
pub uninterp spec fn party_state_ok(b: Seq<u8>) -> bool;

/// The plain fields a reloadable saved signer holds: its party id, its key
/// ids, the key count, the cohort size and the threshold — each a function
/// of the bytes alone. Only the trusted wrapper below applies it.
pub uninterp spec fn loaded_party_fields(b: Seq<u8>) -> (u32, Seq<u32>, u32, u32, u32);

/// Relies on `bincode::deserialize` of a `wsts::traits::SignerState` and on
/// `wsts::traits::Signer::load`. Rejects bytes that do not decode, a state
/// that does not hold exactly one party (which `load` does not accept), and
/// one whose private keys do not cover its key ids (which signing would not
/// accept). Returns the party and the plain fields of the state: id, key
/// ids, key count, cohort size, threshold.
#[verifier::external_body]
fn party_load_bytes(b: &Vec<u8>) -> (r: Option<(v2::Party, u32, Vec<u32>, u32, u32, u32)>)
    ensures
        r is Some <==> party_state_ok(b@),
        r matches Some(t) ==> (t.1, t.2@, t.3, t.4, t.5) == loaded_party_fields(b@),
{
    let st: wsts::traits::SignerState = bincode::deserialize(b.as_slice()).ok()?;
    if st.parties.len() != 1 {
        return None;
    }
    let covered = st
        .key_ids
        .iter()
        .all(|k| st.parties[0].1.private_keys.iter().any(|(kk, _)| kk == k));
    if !covered {
        return None;
    }
    let p = v2::Party::load(&st);
    Some((p, st.id, st.key_ids.clone(), st.num_keys, st.num_parties, st.threshold))
}

/// Relies on `wsts::v2::Party::gen_nonce` with the operating-system RNG and
/// `bincode::serialize`: draws a fresh nonce, stores it in the party and
/// returns the public part serialized. The nonce is random; nothing is
/// claimed of it.
#[verifier::external_body]
fn party_gen_nonce_blob(p: &mut v2::Party) -> Option<Vec<u8>> {
    let mut rng = OsRng;
    let nonce = p.gen_nonce(&mut rng);
    bincode::serialize(&nonce).ok()
}

/// Relies on `bincode::deserialize` of a `wsts::common::PublicNonce`:
/// `None` exactly when the bytes are not a valid encoding.
#[verifier::external_body]
fn nonce_from_bytes(b: &Vec<u8>) -> Option<wsts::common::PublicNonce> {
    bincode::deserialize(b.as_slice()).ok()
}

/// Relies on `wsts::traits::Signer::sign_taproot` with no merkle root: this
/// party's signature share over the key-path-tweaked group key, using the
/// collected party ids, key ids and nonces. The signer is expected to have
/// computed its secret; the body re-checks through `Signer::save` that the
/// private keys cover the key ids, and returns `None` otherwise, so a
/// hand-built signer with the flag set cannot reach the library's indexing.
#[verifier::external_body]
fn party_sign_taproot_raw(
    s: &WstsSigner,
    msg: &Vec<u8>,
    party_ids: &Vec<u32>,
    key_ids: &Vec<u32>,
    nonces: &Vec<wsts::common::PublicNonce>,
) -> Option<wsts::common::SignatureShare>
    requires
        s.secret_computed,
{
    let st = Signer::save(&s.inner);
    let keys = &st.parties[0].1.private_keys;
    if !st.key_ids.iter().all(|k| keys.iter().any(|(kk, _)| kk == k)) {
        return None;
    }
    let mut shares = Signer::sign_taproot(
        &s.inner, msg.as_slice(), party_ids.as_slice(), key_ids.as_slice(), nonces.as_slice(), None,
    );
    shares.pop()
}

/// Relies on `bincode::serialize` of a `wsts::common::SignatureShare`.
#[verifier::external_body]
fn share_to_bytes(s: &wsts::common::SignatureShare) -> Option<Vec<u8>> {
    bincode::serialize(s).ok()
}

/// Relies on `bincode::deserialize` of a `wsts::common::SignatureShare`:
/// `None` exactly when the bytes are not a valid encoding.
#[verifier::external_body]
fn share_from_bytes(b: &Vec<u8>) -> Option<wsts::common::SignatureShare> {
    bincode::deserialize(b.as_slice()).ok()
}

/// Relies on `wsts::traits::Signer::save` and `bincode::serialize`: the
/// party's full state after the nonce was drawn.
#[verifier::external_body]
fn party_resave_bytes(p: &v2::Party) -> Option<Vec<u8>> {
    bincode::serialize(&p.save()).ok()
}

/// The group signature aggregator: the underlying threshold-library
/// aggregator with the plain parameters the contracts speak of.
pub struct SignatureAggregator {
    /// The underlying aggregator.
    pub inner: v2::Aggregator,
    /// The total number of keys.
    pub num_keys: u32,
    /// The signing threshold.
    pub threshold: u32,
    /// Whether the aggregate polynomial has been initialized, which
    /// aggregation requires.
    pub ready: bool,
}

/// Relies on `wsts::traits::Aggregator::new`: a fresh aggregator with an
/// empty polynomial.
#[verifier::external_body]
fn aggregator_new_raw(num_keys: u32, threshold: u32) -> v2::Aggregator {
    wsts::traits::Aggregator::new(num_keys, threshold)
}

/// Builds an aggregator that still awaits its polynomial.
pub fn aggregator_new(num_keys: u32, threshold: u32) -> (r: SignatureAggregator)
    ensures
        r.num_keys == num_keys,
        r.threshold == threshold,
        !r.ready,
{
    SignatureAggregator {
        inner: aggregator_new_raw(num_keys, threshold),
        num_keys,
        threshold,
        ready: false,
    }
}

/// Relies on `wsts::traits::Aggregator::init`: checks every commitment
/// against the threshold and sums them into the aggregate polynomial. On
/// success the aggregator is ready to sign; failures come back as the
/// rendering of the library's error. The commitment sources must be
/// pairwise distinct.
#[verifier::external_body]
fn aggregator_init(
    a: &mut SignatureAggregator,
    comms: &Vec<(u32, wsts::common::PolyCommitment)>,
) -> (r: Result<(), String>)
    requires
        old(a).threshold >= 1,
        forall|i: int, j: int|
            0 <= i < comms@.len() && 0 <= j < comms@.len() && i != j ==> (#[trigger] comms@[i]).0
                != (#[trigger] comms@[j]).0,
    ensures
        final(a).num_keys == old(a).num_keys,
        final(a).threshold == old(a).threshold,
        r is Ok ==> final(a).ready,
        r is Err ==> final(a).ready == old(a).ready,
{
    let comm_map: hashbrown::HashMap<u32, wsts::common::PolyCommitment> = comms
        .iter()
        .map(|(src, c)| (*src, c.clone()))
        .collect();
    match wsts::traits::Aggregator::init(&mut a.inner, &comm_map) {
        Ok(()) => {
            a.ready = true;
            Ok(())
        },
        Err(e) => Err(e.to_string()),
    }
}

/// Relies on `wsts::compute::tweak` for the key-path tweak of the group key
/// (the aggregate polynomial's constant term) and on
/// `wsts::v2::Aggregator::sign_with_tweak`, mirroring
/// `Aggregator::sign_taproot` while keeping the full commitment point:
/// returns the tweaked group key and the aggregated signature. The
/// aggregator is expected to be ready; the body re-checks that the
/// polynomial is not empty and fails otherwise, so a hand-built aggregator
/// with the flag set cannot reach the constant-term access. Failures come
/// back as the rendering of the library's error.
#[verifier::external_body]
fn aggregator_sign_keypath(
    a: &mut SignatureAggregator,
    msg: &Vec<u8>,
    nonces: &Vec<wsts::common::PublicNonce>,
    shares: &Vec<wsts::common::SignatureShare>,
    key_ids: &Vec<u32>,
) -> (r: Result<(p256k1::point::Point, wsts::common::Signature), String>)
    requires
        old(a).ready,
    ensures
        final(a).num_keys == old(a).num_keys,
        final(a).threshold == old(a).threshold,
        final(a).ready == old(a).ready,
{
    if a.inner.poly.is_empty() {
        return Err("aggregator polynomial is empty".to_string());
    }
    let tweak = wsts::compute::tweak(&a.inner.poly[0], None);
    a.inner
        .sign_with_tweak(msg.as_slice(), nonces.as_slice(), shares.as_slice(), key_ids.as_slice(), &tweak)
        .map_err(|e| e.to_string())
}

/// Relies on `wsts::taproot::SchnorrProof::new`, `SchnorrProof::verify` and
/// `Point::x`: the BIP-340 check of the aggregated signature against the x
/// coordinate of the tweaked group key.
#[verifier::external_body]
fn schnorr_verify_raw(
    sig: &wsts::common::Signature,
    group_key: &p256k1::point::Point,
    msg: &Vec<u8>,
) -> bool {
    let proof = wsts::taproot::SchnorrProof::new(sig);
    proof.verify(&group_key.x(), msg.as_slice())
}

/// Relies on `Point::compress`: the 33-byte SEC1 compressed form of the
/// aggregated commitment point.
#[verifier::external_body]
fn sig_r_bytes(sig: &wsts::common::Signature) -> (r: Vec<u8>)
    ensures
        r@.len() == POINT_BYTES,
{
    sig.R.compress().data.to_vec()
}

/// Relies on `Scalar::to_bytes`: the 32 big-endian bytes of the aggregated
/// signature scalar.
#[verifier::external_body]
fn sig_z_bytes(sig: &wsts::common::Signature) -> (r: Vec<u8>)
    ensures
        r@.len() == SCALAR_BYTES,
{
    sig.z.to_bytes().to_vec()
}

/// What the FROST verifier said of a signature.
pub enum FrostCheck {
    /// Parse and verification all succeeded.
    Accepted,
    /// The 64-byte signature did not parse.
    BadSignatureBytes,
    /// The 33-byte verifying key did not parse.
    BadKeyBytes,
    /// The verifier rejected the signature.
    Rejected,
}

/// Whether the FROST verifier accepts: the verifying key and the 64-byte
/// x-only signature both parse and the signature verifies over the
/// message. A function of the three byte strings alone; only the trusted
/// wrapper below applies it.
pub uninterp spec fn frost_accepts(pk: Seq<u8>, msg: Seq<u8>, compact: Seq<u8>) -> bool;

/// Relies on `frost_secp256k1_tr::Signature::deserialize` (the 64-byte
/// x-only taproot form), `frost_secp256k1_tr::VerifyingKey::deserialize`,
/// `VerifyingKey::verify` and `Secp256K1Sha256TR::verify_signature`: parses
/// both values and runs the FROST verification twice, as the original
/// checks do. It accepts exactly when the parses and the verification
/// succeed.
#[verifier::external_body]
fn frost_check_raw(pk: &Vec<u8>, msg: &Vec<u8>, compact: &Vec<u8>) -> (r: FrostCheck)
    ensures
        (r is Accepted) == frost_accepts(pk@, msg@, compact@),
{
    let sig = match frost_secp256k1_tr::Signature::deserialize(compact.as_slice()) {
        Ok(s) => s,
        Err(_) => return FrostCheck::BadSignatureBytes,
    };
    let vk = match frost_secp256k1_tr::VerifyingKey::deserialize(pk.as_slice()) {
        Ok(k) => k,
        Err(_) => return FrostCheck::BadKeyBytes,
    };
    let ok = vk.verify(msg.as_slice(), &sig).is_ok()
        && <frost_secp256k1_tr::Secp256K1Sha256TR as frost_core::Ciphersuite>::verify_signature(
            msg.as_slice(), &sig, &vk).is_ok();
    if ok { FrostCheck::Accepted } else { FrostCheck::Rejected }
}

/// The plain fields reloaded from a saved signer agree with themselves and
/// with the surrounding stored keygen result, as the signing round checks
/// them: the cohort and threshold match, the key ids fit the key count, the
/// group key is 33 bytes and one commitment per party is present.
pub open spec fn loaded_fields_consistent(f: (u32, Seq<u32>, u32, u32, u32), state: WstsState) -> bool {
    &&& f.3 >= 1
    &&& f.0 < f.3
    &&& f.4 >= 1
    &&& f.2 >= 1
    &&& forall|i: int| 0 <= i < f.1.len() ==> 1 <= #[trigger] f.1[i] <= f.2
    &&& f.3 == state.n_signers
    &&& f.4 == state.threshold
    &&& state.public_key_frost_format@.len() == POINT_BYTES
    &&& state.poly_commitments@.len() == f.3
    &&& forall|i: int|
        0 <= i < state.poly_commitments@.len() ==> (#[trigger] state.poly_commitments@[i]).0 == i
}

/// Starts a signing session from a stored keygen result: reloads the
/// party, draws a fresh nonce and builds this party's round-one broadcast.
#[verifier::loop_isolation(false)]
pub fn wsts_signing_round1(state: &WstsState, message: Vec<u8>) -> (r: Result<
    (SigningSession, Round1Msg),
    SigningError,
>)
    ensures
        r matches Ok(out) ==> {
            &&& out.0.wf()
            &&& out.0.n_signers == state.n_signers
            &&& out.0.threshold == state.threshold
            &&& out.0.message@ == message@
            &&& out.0.public_key_frost_format@ == state.public_key_frost_format@
            &&& out.1.source == out.0.signer.party_id
            &&& out.1.key_ids@ == out.0.signer.key_ids@
            &&& out.0.poly_commitments@.len() == state.poly_commitments@.len()
            &&& forall|i: int|
                0 <= i < state.poly_commitments@.len()
                    ==> (#[trigger] out.0.poly_commitments@[i]).1@
                    == state.poly_commitments@[i].1@
        },
        !party_state_ok(state.party_state@) ==> (r matches Err(e) && e matches
            SigningError::ContextError(s) && s@ == "Party not found"@),
        party_state_ok(state.party_state@) && loaded_fields_consistent(
            loaded_party_fields(state.party_state@),
            *state,
        ) ==> r is Ok || (r matches Err(e) && e is SerializationError),
        r matches Err(e) ==> (e is ContextError || e is SerializationError || e is MpcError),
{
    let loaded = match party_load_bytes(&state.party_state) {
        Some(t) => t,
        None => {
            return Err(SigningError::ContextError(String::from_str("Party not found")));
        },
    };
    let (inner, party_id, key_ids, num_keys, num_parties, threshold) = loaded;
    proof {
        let f = loaded_party_fields(state.party_state@);
        assert(f.0 == party_id && f.1 == key_ids@ && f.2 == num_keys && f.3 == num_parties
            && f.4 == threshold);
    }

    // The reloaded parameters must be consistent in themselves and with the
    // surrounding stored state.
    if num_parties == 0 || party_id >= num_parties || threshold == 0 || num_keys == 0 {
        return Err(SigningError::ContextError(String::from_str("stored party state is invalid")));
    }
    if num_parties != state.n_signers || threshold != state.threshold {
        return Err(
            SigningError::ContextError(
                String::from_str("stored party state contradicts the keygen result"),
            ),
        );
    }
    let mut ki: usize = 0;
    while ki < key_ids.len()
        invariant
            ki <= key_ids@.len(),
            forall|i: int| 0 <= i < ki ==> 1 <= #[trigger] key_ids@[i] <= num_keys,
        decreases key_ids@.len() - ki,
    {
        if key_ids[ki] == 0 || key_ids[ki] > num_keys {
            return Err(
                SigningError::ContextError(String::from_str("stored party state is invalid")),
            );
        }
        ki = ki + 1;
    }
    if state.public_key_frost_format.len() != POINT_BYTES {
        return Err(SigningError::ContextError(String::from_str("stored group key is invalid")));
    }
    if state.poly_commitments.len() != num_parties as usize {
        return Err(
            SigningError::ContextError(String::from_str("stored commitments are incomplete")),
        );
    }
    let mut pi: usize = 0;
    while pi < state.poly_commitments.len()
        invariant
            pi <= state.poly_commitments@.len(),
            forall|i: int|
                0 <= i < pi ==> (#[trigger] state.poly_commitments@[i]).0 == i,
        decreases state.poly_commitments@.len() - pi,
    {
        if state.poly_commitments[pi].0 != pi as u32 {
            return Err(
                SigningError::ContextError(String::from_str("stored commitments are incomplete")),
            );
        }
        pi = pi + 1;
    }

    let mut signer = WstsSigner {
        inner,
        party_id,
        key_ids,
        num_parties,
        num_keys,
        threshold,
        secret_computed: true,
    };

    let nonce = match party_gen_nonce_blob(&mut signer.inner) {
        Some(b) => b,
        None => {
            return Err(
                SigningError::SerializationError(String::from_str("failed to serialize nonce")),
            );
        },
    };

    let msg_key_ids = copy_ids(&signer.key_ids);
    let round1 = Round1Msg { source: signer.party_id, key_ids: msg_key_ids, nonce };

    let mut poly_commitments: Vec<(u32, Vec<u8>)> = Vec::new();
    let mut i: usize = 0;
    while i < state.poly_commitments.len()
        invariant
            i <= state.poly_commitments@.len(),
            poly_commitments@.len() == i,
            forall|j: int|
                0 <= j < state.poly_commitments@.len()
                    ==> (#[trigger] state.poly_commitments@[j]).0 == j,
            forall|j: int|
                0 <= j < i ==> (#[trigger] poly_commitments@[j]).0 == j && poly_commitments@[j].1@
                    == state.poly_commitments@[j].1@,
        decreases state.poly_commitments@.len() - i,
    {
        let blob = copy_bytes(&state.poly_commitments[i].1);
        poly_commitments.push((state.poly_commitments[i].0, blob));
        i = i + 1;
    }

    let pk = copy_bytes(&state.public_key_frost_format);
    let session = SigningSession {
        signer,
        n_signers: num_parties,
        threshold,
        num_keys,
        message,
        public_key_frost_format: pk,
        poly_commitments,
        party_ids: Vec::new(),
        party_key_ids: Vec::new(),
        nonces: Vec::new(),
        nonce_blobs: Vec::new(),
        key_ids_by_party: Vec::new(),
    };
    Ok((session, round1))
}

/// Collects the round-one broadcasts, sorts them by party, flattens the
/// announced key ids, and builds this party's round-two broadcast: its
/// signature share over the collected nonces.
#[verifier::loop_isolation(false)]
pub fn wsts_signing_round2(sess: &mut SigningSession, round1: Vec<Round1Msg>) -> (r: Result<
    Round2Msg,
    SigningError,
>)
    requires
        old(sess).wf(),
    ensures
        final(sess).signer.party_id == old(sess).signer.party_id,
        final(sess).n_signers == old(sess).n_signers,
        final(sess).threshold == old(sess).threshold,
        final(sess).message@ == old(sess).message@,
        final(sess).public_key_frost_format@ == old(sess).public_key_frost_format@,
        r matches Ok(m) ==> {
            &&& final(sess).round1_complete()
            &&& round1_sources_complete(round1@, old(sess).n_signers)
            &&& m.source == old(sess).signer.party_id
            &&& forall|i: int|
                0 <= i < round1@.len() ==> {
                    let s = (#[trigger] round1@[i]).source as int;
                    let kb = final(sess).key_ids_by_party@;
                    let nb = final(sess).nonce_blobs@;
                    kb[s].1@ == round1@[i].key_ids@ && nb[s].1@ == round1@[i].nonce@
                }
        },
        round1@.len() != old(sess).n_signers ==> r is Err && r->Err_0 is MpcError,
        r matches Err(e) ==> (e is MpcError || e is SerializationError),
{
    let n = sess.n_signers;
    let n_usize = n as usize;

    if round1.len() != n_usize {
        return Err(SigningError::MpcError(String::from_str("wrong number of messages")));
    }

    let mut found: Vec<bool> = Vec::new();
    let mut idx: Vec<usize> = Vec::new();
    let mut i: usize = 0;
    while i < n_usize
        invariant
            i <= n_usize,
            found@.len() == i,
            idx@.len() == i,
            forall|j: int| 0 <= j < i ==> !(#[trigger] found@[j]),
        decreases n_usize - i,
    {
        found.push(false);
        idx.push(0);
        i = i + 1;
    }
    let mut m: usize = 0;
    while m < round1.len()
        invariant
            m <= round1@.len(),
            round1@.len() == n_usize,
            found@.len() == n_usize,
            idx@.len() == n_usize,
            n_usize == n,
            forall|s: int|
                0 <= s < n_usize ==> ((#[trigger] found@[s]) <==> exists|j: int|
                    0 <= j < m && (#[trigger] round1@[j]).source == s),
            forall|s: int|
                0 <= s < n_usize && #[trigger] found@[s] ==> idx@[s] < m
                    && round1@[idx@[s] as int].source == s,
            forall|j: int| 0 <= j < m ==> (#[trigger] round1@[j]).source < n,
            forall|j1: int, j2: int|
                0 <= j1 < m && 0 <= j2 < m && j1 != j2 ==> (#[trigger] round1@[j1]).source != (
                #[trigger] round1@[j2]).source,
        decreases round1@.len() - m,
    {
        let src = round1[m].source;
        if src >= n {
            return Err(SigningError::MpcError(String::from_str("message from unknown party")));
        }
        let s = src as usize;
        if found[s] {
            return Err(SigningError::MpcError(String::from_str("duplicate message")));
        }
        found.set(s, true);
        idx.set(s, m);
        m = m + 1;
    }
    let mut s: usize = 0;
    while s < n_usize
        invariant
            s <= n_usize,
            forall|j: int| 0 <= j < s ==> #[trigger] found@[j],
        decreases n_usize - s,
    {
        if !found[s] {
            return Err(SigningError::MpcError(String::from_str("round incomplete")));
        }
        s = s + 1;
    }
    proof {
        assert forall|j: int| 0 <= j < n_usize implies (#[trigger] idx@[j]) < round1@.len()
            && round1@[idx@[j] as int].source == j by {
            assert(found@[j]);
        }
    }

    // Sort: party ids ascending, nonces and key ids in party order.
    let mut party_ids: Vec<u32> = Vec::new();
    let mut party_key_ids: Vec<u32> = Vec::new();
    let mut nonces: Vec<wsts::common::PublicNonce> = Vec::new();
    let mut nonce_blobs: Vec<(u32, Vec<u8>)> = Vec::new();
    let mut key_ids_by_party: Vec<(u32, Vec<u32>)> = Vec::new();
    let mut p: usize = 0;
    while p < n_usize
        invariant
            p <= n_usize,
            party_ids@.len() == p,
            forall|j: int| 0 <= j < p ==> #[trigger] party_ids@[j] == j,
            nonces@.len() == p,
            nonce_blobs@.len() == p,
            forall|j: int| 0 <= j < p ==> (#[trigger] nonce_blobs@[j]).0 == j,
            forall|j: int|
                0 <= j < p ==> (#[trigger] nonce_blobs@[j]).1@ == round1@[idx@[j] as int].nonce@,
            key_ids_by_party@.len() == p,
            forall|j: int| 0 <= j < p ==> (#[trigger] key_ids_by_party@[j]).0 == j,
            forall|j: int|
                0 <= j < p ==> (#[trigger] key_ids_by_party@[j]).1@ == round1@[idx@[j] as int].key_ids@,
            party_key_ids@ == flatten_ids(key_ids_by_party@),
        decreases n_usize - p,
    {
        let ghost old_flat = key_ids_by_party@;
        party_ids.push(p as u32);
        let nonce_blob = copy_bytes(&round1[idx[p]].nonce);
        match nonce_from_bytes(&nonce_blob) {
            Some(nonce) => {
                nonces.push(nonce);
            },
            None => {
                return Err(SigningError::MpcError(String::from_str("malformed nonce")));
            },
        }
        nonce_blobs.push((p as u32, nonce_blob));
        let ids = copy_ids(&round1[idx[p]].key_ids);
        let mut q: usize = 0;
        while q < ids.len()
            invariant
                q <= ids@.len(),
                party_key_ids@ == flatten_ids(key_ids_by_party@) + ids@.take(q as int),
            decreases ids@.len() - q,
        {
            party_key_ids.push(ids[q]);
            proof {
                assert(ids@.take(q + 1) =~= ids@.take(q as int).push(ids@[q as int]));
                assert(party_key_ids@ =~= flatten_ids(key_ids_by_party@) + ids@.take(q + 1));
            }
            q = q + 1;
        }
        key_ids_by_party.push((p as u32, ids));
        proof {
            assert(ids@.take(ids@.len() as int) =~= ids@);
            assert(key_ids_by_party@.take(key_ids_by_party@.len() - 1) =~= old_flat);
            lemma_flatten_take_step(key_ids_by_party@, key_ids_by_party@.len() - 1);
            assert(key_ids_by_party@.take(key_ids_by_party@.len() as int) =~= key_ids_by_party@);
            assert(flatten_ids(key_ids_by_party@) =~= flatten_ids(old_flat)
                + key_ids_by_party@[key_ids_by_party@.len() - 1].1@);
            assert(party_key_ids@ =~= flatten_ids(key_ids_by_party@));
        }
        p = p + 1;
    }

    // This party's signature share over everything collected.
    let share = match party_sign_taproot_raw(
        &sess.signer,
        &sess.message,
        &party_ids,
        &party_key_ids,
        &nonces,
    ) {
        Some(s) => s,
        None => {
            return Err(SigningError::MpcError(String::from_str("failed to build a share")));
        },
    };
    let share_blob = match share_to_bytes(&share) {
        Some(b) => b,
        None => {
            return Err(
                SigningError::SerializationError(String::from_str("failed to serialize share")),
            );
        },
    };

    sess.party_ids = party_ids;
    sess.party_key_ids = party_key_ids;
    sess.nonces = nonces;
    sess.nonce_blobs = nonce_blobs;
    sess.key_ids_by_party = key_ids_by_party;

    let source = sess.signer.party_id;
    proof {
        assert(sess.round1_complete());
        assert forall|i: int| 0 <= i < round1@.len() implies {
            let kb = sess.key_ids_by_party@;
            let nb = sess.nonce_blobs@;
            let s_i = (#[trigger] round1@[i]).source as int;
            kb[s_i].1@ == round1@[i].key_ids@ && nb[s_i].1@ == round1@[i].nonce@
        } by {
            let s_i = round1@[i].source as int;
            assert(idx@[s_i] < round1@.len() && round1@[idx@[s_i] as int].source == s_i);
            assert(idx@[s_i] == i);
        }
    }
    Ok(Round2Msg { source, signature_share: share_blob })
}

/// Collects the round-two broadcasts, aggregates the signature shares,
/// verifies the aggregate with the WSTS taproot verifier and the FROST
/// verifier, and returns the finished session state with the 65-byte
/// signature blob.
#[verifier::loop_isolation(false)]
pub fn wsts_signing_protocol(sess: SigningSession, round2: Vec<Round2Msg>) -> (r: Result<
    WstsSigningState,
    SigningError,
>)
    requires
        sess.round1_complete(),
    ensures
        r matches Ok(out) ==> {
            &&& out.party_id == sess.signer.party_id
            &&& out.n_signers == sess.n_signers
            &&& out.threshold == sess.threshold
            &&& out.message@ == sess.message@
            &&& out.public_key_frost_format@ == sess.public_key_frost_format@
            &&& round2_sources_complete(round2@, sess.n_signers)
            &&& frost_accepts(
                out.public_key_frost_format@,
                out.message@,
                out.signature_frost_format@.subrange(1, SIGNATURE_BYTES as int),
            )
            &&& out.signature_frost_format@.len() == SIGNATURE_BYTES
            &&& out.aggregated_signature matches Some(sig) && out.signature_frost_format@
                == signature_layout_spec(sig.R@, sig.z@) && sig.R@.len() == POINT_BYTES
                && sig.z@.len() == SCALAR_BYTES
            &&& out.party_key_ids@.len() == sess.n_signers
            &&& out.party_nonces@.len() == sess.n_signers
            &&& out.signature_shares@.len() == sess.n_signers
            &&& forall|i: int|
                0 <= i < sess.n_signers ==> (#[trigger] out.party_key_ids@[i]).1@
                    == sess.key_ids_by_party@[i].1@ && (#[trigger] out.party_nonces@[i]).1@
                    == sess.nonce_blobs@[i].1@
            &&& forall|i: int|
                0 <= i < round2@.len() ==> (#[trigger] out.signature_shares@[round2@[i].source as int]).1@
                    == round2@[i].signature_share@
        },
        round2@.len() != sess.n_signers ==> r is Err && r->Err_0 is MpcError,
        r matches Err(e) ==> (e is MpcError || e is SerializationError || e is InvalidSignature
            || e is InvalidFrostSignature || e is InvalidFrostVerifyingKey
            || e is InvalidFrostVerification),
{
    let n = sess.n_signers;
    let n_usize = n as usize;

    if round2.len() != n_usize {
        return Err(SigningError::MpcError(String::from_str("wrong number of messages")));
    }

    let mut found: Vec<bool> = Vec::new();
    let mut idx: Vec<usize> = Vec::new();
    let mut i: usize = 0;
    while i < n_usize
        invariant
            i <= n_usize,
            found@.len() == i,
            idx@.len() == i,
            forall|j: int| 0 <= j < i ==> !(#[trigger] found@[j]),
        decreases n_usize - i,
    {
        found.push(false);
        idx.push(0);
        i = i + 1;
    }
    let mut m: usize = 0;
    while m < round2.len()
        invariant
            m <= round2@.len(),
            round2@.len() == n_usize,
            found@.len() == n_usize,
            idx@.len() == n_usize,
            n_usize == n,
            forall|s: int|
                0 <= s < n_usize ==> ((#[trigger] found@[s]) <==> exists|j: int|
                    0 <= j < m && (#[trigger] round2@[j]).source == s),
            forall|s: int|
                0 <= s < n_usize && #[trigger] found@[s] ==> idx@[s] < m
                    && round2@[idx@[s] as int].source == s,
            forall|j: int| 0 <= j < m ==> (#[trigger] round2@[j]).source < n,
            forall|j1: int, j2: int|
                0 <= j1 < m && 0 <= j2 < m && j1 != j2 ==> (#[trigger] round2@[j1]).source != (
                #[trigger] round2@[j2]).source,
        decreases round2@.len() - m,
    {
        let src = round2[m].source;
        if src >= n {
            return Err(SigningError::MpcError(String::from_str("message from unknown party")));
        }
        let s = src as usize;
        if found[s] {
            return Err(SigningError::MpcError(String::from_str("duplicate message")));
        }
        found.set(s, true);
        idx.set(s, m);
        m = m + 1;
    }
    let mut s: usize = 0;
    while s < n_usize
        invariant
            s <= n_usize,
            forall|j: int| 0 <= j < s ==> #[trigger] found@[j],
        decreases n_usize - s,
    {
        if !found[s] {
            return Err(SigningError::MpcError(String::from_str("round incomplete")));
        }
        s = s + 1;
    }
    proof {
        assert forall|j: int| 0 <= j < n_usize implies (#[trigger] idx@[j]) < round2@.len()
            && round2@[idx@[j] as int].source == j by {
            assert(found@[j]);
        }
    }

    // Decode the shares in party order.
    let mut shares: Vec<wsts::common::SignatureShare> = Vec::new();
    let mut share_blobs: Vec<(u32, Vec<u8>)> = Vec::new();
    let mut p: usize = 0;
    while p < n_usize
        invariant
            p <= n_usize,
            shares@.len() == p,
            share_blobs@.len() == p,
            forall|j: int| 0 <= j < p ==> (#[trigger] share_blobs@[j]).0 == j,
            forall|j: int|
                0 <= j < p ==> (#[trigger] share_blobs@[j]).1@ == round2@[idx@[j] as int].signature_share@,
        decreases n_usize - p,
    {
        let blob = copy_bytes(&round2[idx[p]].signature_share);
        match share_from_bytes(&blob) {
            Some(sh) => {
                shares.push(sh);
            },
            None => {
                return Err(SigningError::MpcError(String::from_str("malformed share")));
            },
        }
        share_blobs.push((p as u32, blob));
        p = p + 1;
    }

    // Decode the stored commitments.
    let mut comms: Vec<(u32, wsts::common::PolyCommitment)> = Vec::new();
    let mut c: usize = 0;
    while c < sess.poly_commitments.len()
        invariant
            c <= sess.poly_commitments@.len(),
            comms@.len() == c,
            forall|j: int|
                0 <= j < sess.poly_commitments@.len()
                    ==> (#[trigger] sess.poly_commitments@[j]).0 == j,
            forall|j: int| 0 <= j < c ==> (#[trigger] comms@[j]).0 == j,
        decreases sess.poly_commitments@.len() - c,
    {
        match poly_commitment_from_bytes(&sess.poly_commitments[c].1) {
            Some(pc) => {
                comms.push((sess.poly_commitments[c].0, pc));
            },
            None => {
                return Err(
                    SigningError::MpcError(String::from_str("malformed polynomial commitment")),
                );
            },
        }
        c = c + 1;
    }

    // Aggregate.
    let mut agg = aggregator_new(sess.num_keys, sess.threshold);
    match aggregator_init(&mut agg, &comms) {
        Ok(()) => {},
        Err(e) => {
            return Err(SigningError::MpcError(e));
        },
    }
    let (group_key, wsts_sig) = match aggregator_sign_keypath(
        &mut agg,
        &sess.message,
        &sess.nonces,
        &shares,
        &sess.party_key_ids,
    ) {
        Ok(t) => t,
        Err(e) => {
            return Err(SigningError::MpcError(e));
        },
    };

    // The WSTS-native check of the aggregate.
    if !schnorr_verify_raw(&wsts_sig, &group_key, &sess.message) {
        return Err(SigningError::InvalidSignature);
    }

    // The 65-byte blob, and the FROST check of its x-only form.
    let r_bytes = sig_r_bytes(&wsts_sig);
    let z_bytes = sig_z_bytes(&wsts_sig);
    let signature_frost_format = encode_signature(&r_bytes, &z_bytes);
    let compact = match frost_compact_form(&signature_frost_format) {
        Some(v) => v,
        None => {
            return Err(SigningError::InvalidFrostSignature);
        },
    };
    match frost_check_raw(&sess.public_key_frost_format, &sess.message, &compact) {
        FrostCheck::Accepted => {},
        FrostCheck::BadSignatureBytes => {
            return Err(SigningError::InvalidFrostSignature);
        },
        FrostCheck::BadKeyBytes => {
            return Err(SigningError::InvalidFrostVerifyingKey);
        },
        FrostCheck::Rejected => {
            return Err(SigningError::InvalidFrostVerification);
        },
    }

    // Keep the party's state as it stands after this session's nonce.
    let party_state = match party_resave_bytes(&sess.signer.inner) {
        Some(b) => b,
        None => {
            return Err(
                SigningError::SerializationError(String::from_str("failed to serialize party")),
            );
        },
    };

    // Assemble the returned session state.
    let message = copy_bytes(&sess.message);
    let public_key_frost_format = copy_bytes(&sess.public_key_frost_format);
    let mut party_key_ids: Vec<(u32, Vec<u32>)> = Vec::new();
    let mut party_nonces: Vec<(u32, Vec<u8>)> = Vec::new();
    let mut o: usize = 0;
    while o < n_usize
        invariant
            o <= n_usize,
            party_key_ids@.len() == o,
            party_nonces@.len() == o,
            forall|j: int| 0 <= j < o ==> (#[trigger] party_key_ids@[j]).0 == j,
            forall|j: int| 0 <= j < o ==> (#[trigger] party_nonces@[j]).0 == j,
            forall|j: int|
                0 <= j < o ==> (#[trigger] party_key_ids@[j]).1@ == sess.key_ids_by_party@[j].1@,
            forall|j: int|
                0 <= j < o ==> (#[trigger] party_nonces@[j]).1@ == sess.nonce_blobs@[j].1@,
        decreases n_usize - o,
    {
        let ids = copy_ids(&sess.key_ids_by_party[o].1);
        party_key_ids.push((o as u32, ids));
        let nb = copy_bytes(&sess.nonce_blobs[o].1);
        party_nonces.push((o as u32, nb));
        o = o + 1;
    }

    let out = WstsSigningState {
        party_id: sess.signer.party_id,
        party_key_ids,
        party_nonces,
        signature_shares: share_blobs,
        n_signers: n,
        threshold: sess.threshold,
        message,
        public_key_frost_format,
        party_state,
        aggregated_signature: Some(SerializeableSignature { R: r_bytes, z: z_bytes }),
        signature_frost_format,
    };
    proof {
        assert forall|i: int| 0 <= i < round2@.len() implies (#[trigger] out.signature_shares@[round2@[i].source as int]).1@
            == round2@[i].signature_share@ by {
            let s_i = round2@[i].source as int;
            assert(idx@[s_i] < round2@.len() && round2@[idx@[s_i] as int].source == s_i);
            assert(idx@[s_i] == i);
        }
    }
    Ok(out)
}

} // verus!
