//! The one-round distributed key generation state machine.
//!
//! Every party broadcasts its polynomial commitment together with one share
//! per key id, collects the broadcast of every cohort member (its own
//! included), and computes its share of the group secret. The caller drives
//! the round: it sends the message that [`keygen_broadcast`] builds, gathers
//! one message per party, and hands them to [`wsts_protocol`].
//!
//! Key ids are numbered from 1 on the wire and inside the underlying
//! threshold library: evaluating a share polynomial at zero would reveal its
//! constant term, so id 0 never appears. The public partition of
//! [`crate::utils::generate_party_key_ids`] counts from 0 and is shifted by
//! one when a signer is built.

use vstd::prelude::*;

use crate::keygen::KeygenError;
use crate::sig_format::POINT_BYTES;
use hashbrown::HashMap;
use p256k1::scalar::Scalar as CurveScalar;
use rand::rngs::OsRng;
use wsts::traits::Signer;
use wsts::v2;

verus! {

/// Declares `wsts::v2::Party` for contracts; the value is opaque.
#[verifier::external_type_specification]
#[verifier::external_body]
pub struct ExParty(v2::Party);

/// Declares `wsts::common::PolyCommitment` for contracts; the value is
/// opaque.
#[verifier::external_type_specification]
#[verifier::external_body]
pub struct ExPolyCommitment(wsts::common::PolyCommitment);

/// Declares `p256k1::point::Point` for contracts; the value is opaque.
#[verifier::external_type_specification]
#[verifier::external_body]
pub struct ExPoint(p256k1::point::Point);

/// Length of a serialized share scalar.
pub const SHARE_BYTES: usize = 32;

/// Where a protocol message is addressed.
#[derive(Clone, Copy, PartialEq, Eq, Structural, Debug)]
pub enum MessageDestination {
    /// Broadcast to the whole cohort.
    AllParties,
    /// Unicast to the party with the given index.
    OneParty(u32),
}

/// A message type that knows where it is addressed. Every protocol
/// message of this library is a broadcast.
pub trait HasRecipient {
    /// The destination the transport should deliver this message to.
    fn recipient(&self) -> (r: MessageDestination)
        ensures
            r == MessageDestination::AllParties,
    ;
}

/// The keygen broadcast of one party.
pub struct KeygenMsg {
    /// The sender's party index.
    pub source: u32,
    /// One share per key id: the key id (numbered from 1) and the share
    /// scalar's 32 big-endian bytes.
    pub shares: Vec<(u32, Vec<u8>)>,
    /// The key ids the sender owns, numbered from 1.
    pub key_ids: Vec<u32>,
    /// The sender's serialized polynomial commitment.
    pub poly_commitment: Vec<u8>,
}

/// The keygen protocol message.
pub enum Msg {
    /// The single keygen round: a broadcast of commitment and shares.
    KeygenBroadcast(KeygenMsg),
}

impl HasRecipient for Msg {
    /// Keygen messages are always broadcast.
    fn recipient(&self) -> MessageDestination {
        match self {
            Msg::KeygenBroadcast(_) => MessageDestination::AllParties,
        }
    }
}

/// Two share maps hold the same entries: equal key ids and equal share
/// bytes, position by position.
pub open spec fn shares_equal(a: Seq<(u32, Vec<u8>)>, b: Seq<(u32, Vec<u8>)>) -> bool {
    &&& a.len() == b.len()
    &&& forall|i: int|
        0 <= i < a.len() ==> (#[trigger] a[i]).0 == b[i].0 && a[i].1@ == b[i].1@
}

/// One party of the key generation protocol: the underlying threshold-library
/// party together with the plain parameters the contracts speak of.
pub struct WstsSigner {
    /// The underlying threshold-library party. Callers drive it only
    /// through the functions of this module.
    pub inner: v2::Party,
    /// This party's index in the cohort.
    pub party_id: u32,
    /// The key ids this party owns, numbered from 1.
    pub key_ids: Vec<u32>,
    /// The cohort size.
    pub num_parties: u32,
    /// The total number of key ids.
    pub num_keys: u32,
    /// The signing threshold.
    pub threshold: u32,
    /// Whether the group secret has been computed, which the signing round
    /// requires.
    pub secret_computed: bool,
}

impl WstsSigner {
    /// The plain parameters are consistent.
    pub open spec fn wf(self) -> bool {
        &&& self.num_parties >= 1
        &&& self.party_id < self.num_parties
        &&& self.threshold >= 1
        &&& self.num_keys >= 1
        &&& forall|i: int|
            0 <= i < self.key_ids@.len() ==> 1 <= #[trigger] self.key_ids@[i] <= self.num_keys
    }

    /// Builds a fresh party with a random polynomial. `key_ids` counts from
    /// 0 as the public partition does; the stored ids are shifted up by one.
    pub fn new(
        party_id: u32,
        key_ids: &Vec<u32>,
        num_parties: u32,
        num_keys: u32,
        threshold: u32,
    ) -> (r: Result<WstsSigner, KeygenError>)
        requires
            num_parties >= 1,
            party_id < num_parties,
            num_keys >= 1,
            num_keys < u32::MAX,
            forall|i: int| 0 <= i < key_ids@.len() ==> #[trigger] key_ids@[i] < num_keys,
        ensures
            r is Ok <==> threshold >= 1,
            r matches Ok(s) ==> {
                &&& s.wf()
                &&& s.party_id == party_id
                &&& s.num_parties == num_parties
                &&& s.num_keys == num_keys
                &&& s.threshold == threshold
                &&& !s.secret_computed
                &&& s.key_ids@.len() == key_ids@.len()
                &&& forall|i: int|
                    0 <= i < key_ids@.len() ==> #[trigger] s.key_ids@[i] == key_ids@[i] + 1
            },
            r matches Err(e) ==> e is SetupError,
    {
        if threshold == 0 {
            return Err(
                KeygenError::SetupError(String::from_str("threshold must be at least 1")),
            );
        }
        let mut wsts_ids: Vec<u32> = Vec::new();
        let mut i: usize = 0;
        while i < key_ids.len()
            invariant
                i <= key_ids@.len(),
                wsts_ids@.len() == i,
                forall|j: int| 0 <= j < key_ids@.len() ==> #[trigger] key_ids@[j] < num_keys,
                num_keys < u32::MAX,
                forall|j: int| 0 <= j < i ==> #[trigger] wsts_ids@[j] == key_ids@[j] + 1,
            decreases key_ids@.len() - i,
        {
            wsts_ids.push(key_ids[i] + 1);
            i = i + 1;
        }
        let inner = party_new_raw(party_id, &wsts_ids, num_parties, num_keys, threshold);
        Ok(
            WstsSigner {
                inner,
                party_id,
                key_ids: wsts_ids,
                num_parties,
                num_keys,
                threshold,
                secret_computed: false,
            },
        )
    }
}

/// Relies on `wsts::v2::Party::new` with the operating-system RNG: builds a
/// party holding a fresh random polynomial of degree `threshold - 1`. The
/// polynomial is random; nothing is claimed of the result.
#[verifier::external_body]
fn party_new_raw(
    party_id: u32,
    key_ids: &Vec<u32>,
    num_parties: u32,
    num_keys: u32,
    threshold: u32,
) -> v2::Party
    requires
        threshold >= 1,
{
    let mut rng = OsRng;
    v2::Party::new(party_id, key_ids.as_slice(), num_parties, num_keys, threshold, &mut rng)
}

/// Relies on `wsts::v2::Party::get_shares`: one evaluation of the private
/// polynomial per key id, each converted to the scalar's 32 big-endian
/// bytes via `Scalar::to_bytes`. The order of the pairs is not specified.
#[verifier::external_body]
fn party_get_shares_raw(p: &v2::Party) -> (r: Vec<(u32, Vec<u8>)>)
    ensures
        forall|i: int| 0 <= i < r@.len() ==> (#[trigger] r@[i]).1@.len() == SHARE_BYTES,
{
    p.get_shares().into_iter().map(|(k, s)| (k, s.to_bytes().to_vec())).collect()
}

/// Relies on `wsts::v2::Party::get_poly_commitment` with the
/// operating-system RNG: a commitment to the private polynomial. The body
/// re-checks through `Signer::save` that the polynomial exists and is
/// non-empty, and returns `None` otherwise, so a hand-built party cannot
/// reach the constant-term access inside the call.
#[verifier::external_body]
fn party_poly_commitment_raw(p: &v2::Party) -> Option<wsts::common::PolyCommitment> {
    let st = Signer::save(p);
    match &st.parties[0].1.polynomial {
        Some(f) if !f.data().is_empty() => {},
        _ => return None,
    }
    let mut rng = OsRng;
    p.get_poly_commitment(&mut rng)
}

/// Relies on `bincode::serialize` of a `wsts::common::PolyCommitment`,
/// which serde encodes as its scalar and point fields in order.
#[verifier::external_body]
fn poly_commitment_to_bytes(c: &wsts::common::PolyCommitment) -> Option<Vec<u8>> {
    bincode::serialize(c).ok()
}

/// Relies on `bincode::deserialize` of a `wsts::common::PolyCommitment`:
/// `None` exactly when the bytes are not a valid encoding.
#[verifier::external_body]
pub(crate) fn poly_commitment_from_bytes(b: &Vec<u8>) -> Option<wsts::common::PolyCommitment> {
    bincode::deserialize(b.as_slice()).ok()
}

/// Relies on `wsts::v2::Party::compute_secret`: verifies the collected
/// shares against the commitments and stores this party's private keys and
/// the group key. The share and commitment lists must be aligned source by
/// source and hold no repeated key, so the call reaches no absent map
/// entry; the body additionally rejects a commitment with an empty
/// polynomial, whose constant term a zero-threshold hand-built party would
/// otherwise read. Failures come back as the rendering of the library's
/// error.
#[verifier::external_body]
fn party_compute_secret_raw(
    p: &mut v2::Party,
    shares: &Vec<(u32, Vec<(u32, Vec<u8>)>)>,
    comms: &Vec<(u32, wsts::common::PolyCommitment)>,
) -> Result<(), String>
    requires
        forall|i: int|
            0 <= i < shares@.len() ==> (#[trigger] shares@[i]).1@.len() == comms@.len(),
        forall|i: int, j: int|
            0 <= i < shares@.len() && 0 <= j < shares@[i].1@.len()
                ==> (#[trigger] shares@[i].1@[j]).0 == comms@[j].0 && shares@[i].1@[j].1@.len()
                == SHARE_BYTES,
        forall|i: int, j: int|
            0 <= i < comms@.len() && 0 <= j < comms@.len() && i != j ==> (#[trigger] comms@[i]).0
                != (#[trigger] comms@[j]).0,
        forall|i: int, j: int|
            0 <= i < shares@.len() && 0 <= j < shares@.len() && i != j
                ==> (#[trigger] shares@[i]).0 != (#[trigger] shares@[j]).0,
{
    if comms.iter().any(|(_, c)| c.poly.is_empty()) {
        return Err("empty polynomial commitment".to_string());
    }
    let mut share_map = HashMap::new();
    for (key_id, per_src) in shares.iter() {
        let inner: HashMap<u32, CurveScalar> = per_src
            .iter()
            .map(|(src, b)| (*src, CurveScalar::from(<[u8; 32]>::try_from(b.as_slice()).unwrap())))
            .collect();
        share_map.insert(*key_id, inner);
    }
    let comm_map: HashMap<u32, _> = comms.iter().map(|(src, c)| (*src, c.clone())).collect();
    p.compute_secret(&share_map, &comm_map).map_err(|e| e.to_string())
}

/// Relies on `wsts::traits::Signer::save` and `bincode::serialize`: the
/// party's full state, the private keys included, as bytes.
#[verifier::external_body]
fn party_save_bytes(p: &v2::Party) -> Option<Vec<u8>> {
    bincode::serialize(&p.save()).ok()
}

/// Relies on `wsts::traits::Signer::save` for the group key,
/// `wsts::compute::tweaked_public_key` for the taproot key-path tweak with
/// no script (the same unusable tweak the FROST taproot ciphersuite applies
/// to its own key generation output), and `Point::compress` for the
/// 33-byte form of the tweaked key.
#[verifier::external_body]
fn party_tweaked_group_key_bytes(p: &v2::Party) -> (r: Vec<u8>)
    ensures
        r@.len() == POINT_BYTES,
{
    let group_key = p.save().group_key;
    let tweaked = wsts::compute::tweaked_public_key(&group_key, None);
    tweaked.compress().data.to_vec()
}

/// Whether a byte string is the canonical FROST taproot form of a group
/// verification key: exactly 33 bytes holding a SEC1 compressed non-identity
/// point. A function of the bytes alone; only the trusted wrapper below
/// applies it.
pub uninterp spec fn frost_canonical_vk(b: Seq<u8>) -> bool;

/// Relies on `frost_secp256k1_tr::VerifyingKey::deserialize`, which parses
/// a 33-byte SEC1 compressed encoding and fails on anything but a valid
/// non-identity point, and on `VerifyingKey::serialize`, which re-emits the
/// SEC1 compressed form of that point. Compressed SEC1 encodings are
/// unique, so on success the re-encoding equals the input: the parse is a
/// sanity check and the bytes are already canonical.
#[verifier::external_body]
pub(crate) fn frost_vk_reencode(b: &Vec<u8>) -> (r: Option<Vec<u8>>)
    ensures
        r is Some <==> frost_canonical_vk(b@),
        r matches Some(v) ==> v@ == b@ && v@.len() == POINT_BYTES,
{
    let vk = match frost_secp256k1_tr::VerifyingKey::deserialize(b.as_slice()) {
        Ok(vk) => vk,
        Err(_) => return None,
    };
    vk.serialize().ok()
}

/// The result a party keeps from a completed key generation.
pub struct WstsState {
    /// This party's index within the cohort.
    pub party_id: u32,
    /// The cohort size.
    pub n_signers: u32,
    /// The signing threshold.
    pub threshold: u32,
    /// The total number of key ids.
    pub num_keys: u32,
    /// Per party, in ascending party order: the full share map that party
    /// broadcast.
    pub shares: Vec<(u32, Vec<(u32, Vec<u8>)>)>,
    /// Per party, in ascending party order: the key ids it owns.
    pub key_ids: Vec<(u32, Vec<u32>)>,
    /// Per party, in ascending party order: its serialized polynomial
    /// commitment.
    pub poly_commitments: Vec<(u32, Vec<u8>)>,
    /// The serialized state of this party, the computed secret included.
    pub party_state: Vec<u8>,
    /// The group verification key in FROST taproot form: the compressed
    /// key-path-tweaked group key, 33 bytes.
    pub public_key_frost_format: Vec<u8>,
}

impl WstsState {
    /// An empty result carrying only the party and cohort identifiers.
    pub fn new(party_id: u32, n_signers: u32) -> (r: WstsState)
        ensures
            r.party_id == party_id,
            r.n_signers == n_signers,
            r.threshold == 0,
            r.num_keys == 0,
            r.shares@.len() == 0,
            r.key_ids@.len() == 0,
            r.poly_commitments@.len() == 0,
            r.party_state@.len() == 0,
            r.public_key_frost_format@.len() == 0,
    {
        WstsState {
            party_id,
            n_signers,
            threshold: 0,
            num_keys: 0,
            shares: Vec::new(),
            key_ids: Vec::new(),
            poly_commitments: Vec::new(),
            party_state: Vec::new(),
            public_key_frost_format: Vec::new(),
        }
    }

    /// A state as a finished keygen leaves it: one entry per party, in
    /// ascending party order, and a 33-byte group key.
    pub open spec fn complete(self) -> bool {
        &&& self.n_signers >= 1
        &&& self.threshold >= 1
        &&& self.party_id < self.n_signers
        &&& self.key_ids@.len() == self.n_signers
        &&& self.shares@.len() == self.n_signers
        &&& self.poly_commitments@.len() == self.n_signers
        &&& forall|i: int|
            0 <= i < self.n_signers ==> (#[trigger] self.key_ids@[i]).0 == i
                && (#[trigger] self.shares@[i]).0 == i && (#[trigger] self.poly_commitments@[i]).0
                == i
        &&& self.public_key_frost_format@.len() == POINT_BYTES
    }
}

/// The message list holds exactly one broadcast per party `0 .. n`.
pub open spec fn sources_complete(msgs: Seq<KeygenMsg>, n: u32) -> bool {
    &&& msgs.len() == n
    &&& forall|i: int| 0 <= i < msgs.len() ==> (#[trigger] msgs[i]).source < n
    &&& forall|i: int, j: int|
        0 <= i < msgs.len() && 0 <= j < msgs.len() && i != j ==> (#[trigger] msgs[i]).source != (
        #[trigger] msgs[j]).source
}

/// The broadcast carries a share for the key id.
pub open spec fn has_share_for(m: KeygenMsg, kid: u32) -> bool {
    exists|b: int| 0 <= b < m.shares@.len() && (#[trigger] m.shares@[b]).0 == kid
}

/// The state's per-party entries hold exactly what each broadcast carried.
pub open spec fn state_matches_messages(st: WstsState, msgs: Seq<KeygenMsg>) -> bool {
    forall|i: int|
        0 <= i < msgs.len() ==> {
            let s = (#[trigger] msgs[i]).source as int;
            &&& st.key_ids@[s].1@ == msgs[i].key_ids@
            &&& shares_equal(st.shares@[s].1@, msgs[i].shares@)
            &&& st.poly_commitments@[s].1@ == msgs[i].poly_commitment@
        }
}

/// Builds this party's keygen broadcast: its share map, its key ids and its
/// polynomial commitment.
pub fn keygen_broadcast(signer: &WstsSigner) -> (r: Result<KeygenMsg, KeygenError>)
    ensures
        r matches Ok(m) ==> {
            &&& m.source == signer.party_id
            &&& m.key_ids@ == signer.key_ids@
            &&& forall|i: int|
                0 <= i < m.shares@.len() ==> (#[trigger] m.shares@[i]).1@.len() == SHARE_BYTES
        },
        r matches Err(e) ==> e is MpcError || e is SerializationError,
{
    let shares = party_get_shares_raw(&signer.inner);
    let commitment = match party_poly_commitment_raw(&signer.inner) {
        Some(c) => c,
        None => {
            return Err(KeygenError::MpcError(String::from_str("party holds no polynomial")));
        },
    };
    let poly_bytes = match poly_commitment_to_bytes(&commitment) {
        Some(b) => b,
        None => {
            return Err(
                KeygenError::SerializationError(
                    String::from_str("failed to serialize polynomial commitment"),
                ),
            );
        },
    };
    let key_ids = copy_ids(&signer.key_ids);
    Ok(KeygenMsg { source: signer.party_id, shares, key_ids, poly_commitment: poly_bytes })
}

/// Finds the share for `key_id` in a broadcast share map.
fn find_share(shares: &Vec<(u32, Vec<u8>)>, key_id: u32) -> (r: Option<usize>)
    ensures
        r matches Some(i) ==> i < shares@.len() && shares@[i as int].0 == key_id,
        r is None ==> forall|i: int|
            0 <= i < shares@.len() ==> (#[trigger] shares@[i]).0 != key_id,
{
    let mut i: usize = 0;
    while i < shares.len()
        invariant
            i <= shares@.len(),
            forall|j: int| 0 <= j < i ==> (#[trigger] shares@[j]).0 != key_id,
        decreases shares@.len() - i,
    {
        if shares[i].0 == key_id {
            return Some(i);
        }
        i = i + 1;
    }
    None
}

/// Copies a byte vector.
pub(crate) fn copy_bytes(b: &Vec<u8>) -> (r: Vec<u8>)
    ensures
        r@ == b@,
{
    let mut out: Vec<u8> = Vec::new();
    let mut i: usize = 0;
    while i < b.len()
        invariant
            i <= b@.len(),
            out@.len() == i,
            forall|j: int| 0 <= j < i ==> out@[j] == b@[j],
        decreases b@.len() - i,
    {
        out.push(b[i]);
        i = i + 1;
    }
    proof {
        assert(out@ =~= b@);
    }
    out
}

/// Copies a vector of ids.
pub(crate) fn copy_ids(b: &Vec<u32>) -> (r: Vec<u32>)
    ensures
        r@ == b@,
{
    let mut out: Vec<u32> = Vec::new();
    let mut i: usize = 0;
    while i < b.len()
        invariant
            i <= b@.len(),
            out@.len() == i,
            forall|j: int| 0 <= j < i ==> out@[j] == b@[j],
        decreases b@.len() - i,
    {
        out.push(b[i]);
        i = i + 1;
    }
    proof {
        assert(out@ =~= b@);
    }
    out
}

/// Copies a broadcast share map entry by entry.
pub(crate) fn copy_shares(b: &Vec<(u32, Vec<u8>)>) -> (r: Vec<(u32, Vec<u8>)>)
    ensures
        shares_equal(r@, b@),
{
    let mut out: Vec<(u32, Vec<u8>)> = Vec::new();
    let mut i: usize = 0;
    while i < b.len()
        invariant
            i <= b@.len(),
            out@.len() == i,
            forall|j: int|
                0 <= j < i ==> (#[trigger] out@[j]).0 == b@[j].0 && out@[j].1@ == b@[j].1@,
        decreases b@.len() - i,
    {
        let share = copy_bytes(&b[i].1);
        out.push((b[i].0, share));
        i = i + 1;
    }
    out
}

/// Runs the collection half of the keygen round: takes one broadcast per
/// party (this party's own included), verifies the round is complete,
/// computes this party's share of the group secret, and assembles the
/// stored result. The group key is converted to its FROST taproot form,
/// which both checks that it is a valid curve point and fixes its 33-byte
/// encoding.
#[verifier::loop_isolation(false)]
pub fn wsts_protocol(signer: &mut WstsSigner, messages: Vec<KeygenMsg>) -> (r: Result<
    WstsState,
    KeygenError,
>)
    requires
        old(signer).wf(),
    ensures
        final(signer).party_id == old(signer).party_id,
        final(signer).num_parties == old(signer).num_parties,
        final(signer).num_keys == old(signer).num_keys,
        final(signer).threshold == old(signer).threshold,
        final(signer).key_ids@ == old(signer).key_ids@,
        final(signer).wf(),
        r matches Ok(st) ==> {
            &&& final(signer).secret_computed
            &&& st.complete()
            &&& st.party_id == old(signer).party_id
            &&& st.n_signers == old(signer).num_parties
            &&& st.threshold == old(signer).threshold
            &&& st.num_keys == old(signer).num_keys
            &&& sources_complete(messages@, old(signer).num_parties)
            &&& state_matches_messages(st, messages@)
            &&& forall|i: int, b: int|
                0 <= i < messages@.len() && 0 <= b < messages@[i].shares@.len()
                    ==> (#[trigger] messages@[i].shares@[b]).1@.len() == SHARE_BYTES
            &&& forall|a: int, b: int|
                0 <= a < old(signer).key_ids@.len() && 0 <= b < old(signer).key_ids@.len() && a
                    != b ==> (#[trigger] old(signer).key_ids@[a]) != (#[trigger] old(
                    signer,
                ).key_ids@[b])
            &&& forall|i: int, a: int|
                0 <= i < messages@.len() && 0 <= a < old(signer).key_ids@.len()
                    ==> #[trigger] has_share_for(messages@[i], old(signer).key_ids@[a])
            &&& frost_canonical_vk(st.public_key_frost_format@)
        },
        messages@.len() != old(signer).num_parties ==> r is Err && r->Err_0 is MpcError,
        r matches Err(e) ==> final(signer).secret_computed == old(signer).secret_computed && (
        e is MpcError || e is SerializationError || e is InvalidPublicKey),
{
    let n = signer.num_parties;
    let n_usize = n as usize;

    if messages.len() != n_usize {
        return Err(KeygenError::MpcError(String::from_str("wrong number of messages")));
    }

    // Order the broadcasts by sender, rejecting duplicates and unknown
    // senders.
    let mut found: Vec<bool> = Vec::new();
    let mut idx: Vec<usize> = Vec::new();
    let mut i: usize = 0;
    while i < n_usize
        invariant
            i <= n_usize,
            found@.len() == i,
            idx@.len() == i,
            forall|j: int| 0 <= j < i ==> !(#[trigger] found@[j]),
        decreases n_usize - i,
    {
        found.push(false);
        idx.push(0);
        i = i + 1;
    }
    let mut m: usize = 0;
    while m < messages.len()
        invariant
            m <= messages@.len(),
            messages@.len() == n_usize,
            found@.len() == n_usize,
            idx@.len() == n_usize,
            n_usize == n,
            forall|s: int|
                0 <= s < n_usize ==> ((#[trigger] found@[s]) <==> exists|j: int|
                    0 <= j < m && (#[trigger] messages@[j]).source == s),
            forall|s: int|
                0 <= s < n_usize && #[trigger] found@[s] ==> idx@[s] < m && messages@[idx@[s] as int].source
                    == s,
            forall|j1: int, j2: int|
                0 <= j1 < m && 0 <= j2 < m && j1 != j2 ==> (#[trigger] messages@[j1]).source != (
                #[trigger] messages@[j2]).source,
            forall|j: int| 0 <= j < m ==> (#[trigger] messages@[j]).source < n,
        decreases messages@.len() - m,
    {
        let src = messages[m].source;
        if src >= n {
            return Err(KeygenError::MpcError(String::from_str("message from unknown party")));
        }
        let s = src as usize;
        if found[s] {
            return Err(KeygenError::MpcError(String::from_str("duplicate message")));
        }
        found.set(s, true);
        idx.set(s, m);
        m = m + 1;
    }
    let mut s: usize = 0;
    while s < n_usize
        invariant
            s <= n_usize,
            found@.len() == n_usize,
            idx@.len() == n_usize,
            n_usize == n,
            messages@.len() == n_usize,
            forall|j: int|
                0 <= j < n_usize && #[trigger] found@[j] ==> idx@[j] < messages@.len()
                    && messages@[idx@[j] as int].source == j,
            forall|j: int| 0 <= j < s ==> #[trigger] found@[j],
        decreases n_usize - s,
    {
        if !found[s] {
            return Err(KeygenError::MpcError(String::from_str("round incomplete")));
        }
        s = s + 1;
    }
    proof {
        assert(sources_complete(messages@, n));
        assert forall|j: int| 0 <= j < n_usize implies (#[trigger] idx@[j]) < messages@.len()
            && messages@[idx@[j] as int].source == j by {
            assert(found@[j]);
        }
    }

    // Check the share maps before converting scalars.
    let mut mi: usize = 0;
    while mi < messages.len()
        invariant
            mi <= messages@.len(),
            forall|a: int, b: int|
                0 <= a < mi && 0 <= b < messages@[a].shares@.len()
                    ==> (#[trigger] messages@[a].shares@[b]).1@.len() == SHARE_BYTES,
        decreases messages@.len() - mi,
    {
        let mut bi: usize = 0;
        while bi < messages[mi].shares.len()
            invariant
                mi < messages@.len(),
                bi <= messages@[mi as int].shares@.len(),
                forall|a: int, b: int|
                    0 <= a < mi && 0 <= b < messages@[a].shares@.len()
                        ==> (#[trigger] messages@[a].shares@[b]).1@.len() == SHARE_BYTES,
                forall|b: int|
                    0 <= b < bi ==> (#[trigger] messages@[mi as int].shares@[b]).1@.len()
                        == SHARE_BYTES,
            decreases messages@[mi as int].shares@.len() - bi,
        {
            if messages[mi].shares[bi].1.len() != SHARE_BYTES {
                return Err(KeygenError::MpcError(String::from_str("malformed share")));
            }
            bi = bi + 1;
        }
        mi = mi + 1;
    }

    // Decode every commitment, in ascending party order.
    let mut comms: Vec<(u32, wsts::common::PolyCommitment)> = Vec::new();
    let mut s2: usize = 0;
    while s2 < n_usize
        invariant
            s2 <= n_usize,
            n_usize == n,
            messages@.len() == n_usize,
            comms@.len() == s2,
            idx@.len() == n_usize,
            forall|j: int|
                0 <= j < n_usize ==> (#[trigger] idx@[j]) < messages@.len()
                    && messages@[idx@[j] as int].source == j,
            forall|j: int| 0 <= j < s2 ==> (#[trigger] comms@[j]).0 == j,
        decreases n_usize - s2,
    {
        match poly_commitment_from_bytes(&messages[idx[s2]].poly_commitment) {
            Some(c) => {
                comms.push((s2 as u32, c));
            },
            None => {
                return Err(
                    KeygenError::MpcError(String::from_str("malformed polynomial commitment")),
                );
            },
        }
        s2 = s2 + 1;
    }

    // Assemble, for every key id this party owns, the share each party sent
    // for it, in ascending party order.
    let mut party_shares: Vec<(u32, Vec<(u32, Vec<u8>)>)> = Vec::new();
    let mut ki: usize = 0;
    while ki < signer.key_ids.len()
        invariant
            ki <= signer.key_ids@.len(),
            n_usize == n,
            messages@.len() == n_usize,
            idx@.len() == n_usize,
            comms@.len() == n_usize,
            forall|j: int|
                0 <= j < n_usize ==> (#[trigger] idx@[j]) < messages@.len()
                    && messages@[idx@[j] as int].source == j,
            forall|a: int, b: int|
                0 <= a < messages@.len() && 0 <= b < messages@[a].shares@.len()
                    ==> (#[trigger] messages@[a].shares@[b]).1@.len() == SHARE_BYTES,
            party_shares@.len() == ki,
            forall|a: int| 0 <= a < ki ==> (#[trigger] party_shares@[a]).1@.len() == n_usize,
            forall|a: int, b: int|
                0 <= a < ki && 0 <= b < party_shares@[a].1@.len()
                    ==> (#[trigger] party_shares@[a].1@[b]).0 == b as u32
                    && party_shares@[a].1@[b].1@.len() == SHARE_BYTES,
            forall|a: int|
                0 <= a < ki ==> (#[trigger] party_shares@[a]).0 == signer.key_ids@[a],
            forall|a: int, b: int|
                0 <= a < ki && 0 <= b < ki && a != b ==> (#[trigger] party_shares@[a]).0 != (
                #[trigger] party_shares@[b]).0,
            forall|a: int, s: int|
                0 <= a < ki && 0 <= s < n_usize ==> #[trigger] has_share_for(
                    messages@[idx@[s] as int],
                    signer.key_ids@[a],
                ),
        decreases signer.key_ids@.len() - ki,
    {
        let kid = signer.key_ids[ki];
        // Reject a repeated own key id so the assembled keys stay distinct.
        let mut prev: usize = 0;
        while prev < ki
            invariant
                prev <= ki,
                ki < signer.key_ids@.len(),
                party_shares@.len() == ki,
                kid == signer.key_ids@[ki as int],
                forall|a: int|
                    0 <= a < ki ==> (#[trigger] party_shares@[a]).0 == signer.key_ids@[a],
                forall|a: int| 0 <= a < prev ==> (#[trigger] party_shares@[a]).0 != kid,
            decreases ki - prev,
        {
            if party_shares[prev].0 == kid {
                return Err(KeygenError::MpcError(String::from_str("repeated key id")));
            }
            prev = prev + 1;
        }
        let mut per_src: Vec<(u32, Vec<u8>)> = Vec::new();
        let mut src: usize = 0;
        while src < n_usize
            invariant
                src <= n_usize,
                n_usize == n,
                messages@.len() == n_usize,
                idx@.len() == n_usize,
                forall|j: int|
                    0 <= j < n_usize ==> (#[trigger] idx@[j]) < messages@.len()
                        && messages@[idx@[j] as int].source == j,
                forall|a: int, b: int|
                    0 <= a < messages@.len() && 0 <= b < messages@[a].shares@.len()
                        ==> (#[trigger] messages@[a].shares@[b]).1@.len() == SHARE_BYTES,
                per_src@.len() == src,
                forall|b: int|
                    0 <= b < src ==> (#[trigger] per_src@[b]).0 == b as u32 && per_src@[b].1@.len()
                        == SHARE_BYTES,
                forall|s: int|
                    0 <= s < src ==> #[trigger] has_share_for(messages@[idx@[s] as int], kid),
            decreases n_usize - src,
        {
            match find_share(&messages[idx[src]].shares, kid) {
                Some(pos) => {
                    proof {
                        assert(messages@[idx@[src as int] as int].shares@[pos as int].0 == kid);
                        assert(has_share_for(messages@[idx@[src as int] as int], kid));
                    }
                    let share = copy_bytes(&messages[idx[src]].shares[pos].1);
                    per_src.push((src as u32, share));
                },
                None => {
                    return Err(KeygenError::MpcError(String::from_str("missing share")));
                },
            }
            src = src + 1;
        }
        party_shares.push((kid, per_src));
        ki = ki + 1;
    }

    proof {
        // The per-key scan rejected repeats, so this party's key ids are
        // pairwise distinct, and every broadcast held each of them.
        assert forall|a: int, b: int|
            0 <= a < signer.key_ids@.len() && 0 <= b < signer.key_ids@.len() && a != b implies (
        #[trigger] signer.key_ids@[a]) != (#[trigger] signer.key_ids@[b]) by {
            assert(party_shares@[a].0 == signer.key_ids@[a]);
            assert(party_shares@[b].0 == signer.key_ids@[b]);
        }
    }

    // Verify the shares and compute this party's piece of the group secret.
    match party_compute_secret_raw(&mut signer.inner, &party_shares, &comms) {
        Ok(()) => {},
        Err(e) => {
            return Err(KeygenError::MpcError(e));
        },
    }

    let party_state = match party_save_bytes(&signer.inner) {
        Some(b) => b,
        None => {
            return Err(
                KeygenError::SerializationError(String::from_str("failed to serialize party")),
            );
        },
    };

    // Convert the group key to its FROST taproot form; the parse checks the
    // point and pins the canonical 33-byte encoding.
    let tweaked = party_tweaked_group_key_bytes(&signer.inner);
    let public_key_frost_format = match frost_vk_reencode(&tweaked) {
        Some(b) => b,
        None => {
            return Err(KeygenError::InvalidPublicKey);
        },
    };

    // Assemble the stored result, one entry per party in ascending order.
    let mut out_shares: Vec<(u32, Vec<(u32, Vec<u8>)>)> = Vec::new();
    let mut out_key_ids: Vec<(u32, Vec<u32>)> = Vec::new();
    let mut out_polys: Vec<(u32, Vec<u8>)> = Vec::new();
    let mut s3: usize = 0;
    while s3 < n_usize
        invariant
            s3 <= n_usize,
            n_usize == n,
            messages@.len() == n_usize,
            idx@.len() == n_usize,
            forall|j: int|
                0 <= j < n_usize ==> (#[trigger] idx@[j]) < messages@.len()
                    && messages@[idx@[j] as int].source == j,
            out_shares@.len() == s3,
            out_key_ids@.len() == s3,
            out_polys@.len() == s3,
            forall|j: int| 0 <= j < s3 ==> (#[trigger] out_shares@[j]).0 == j,
            forall|j: int| 0 <= j < s3 ==> (#[trigger] out_key_ids@[j]).0 == j,
            forall|j: int| 0 <= j < s3 ==> (#[trigger] out_polys@[j]).0 == j,
            forall|j: int|
                0 <= j < s3 ==> (#[trigger] out_key_ids@[j]).1@ == messages@[idx@[j] as int].key_ids@,
            forall|j: int|
                0 <= j < s3 ==> shares_equal(
                    (#[trigger] out_shares@[j]).1@,
                    messages@[idx@[j] as int].shares@,
                ),
            forall|j: int|
                0 <= j < s3 ==> (#[trigger] out_polys@[j]).1@ == messages@[idx@[j] as int].poly_commitment@,
        decreases n_usize - s3,
    {
        let ids_copy = copy_ids(&messages[idx[s3]].key_ids);
        let shares_copy = copy_shares(&messages[idx[s3]].shares);
        let poly_copy = copy_bytes(&messages[idx[s3]].poly_commitment);
        out_key_ids.push((s3 as u32, ids_copy));
        out_shares.push((s3 as u32, shares_copy));
        out_polys.push((s3 as u32, poly_copy));
        proof {
            assert(out_key_ids@[s3 as int].0 == s3 as u32);
            assert(out_shares@[s3 as int].0 == s3 as u32);
            assert(out_polys@[s3 as int].0 == s3 as u32);
            assert(out_key_ids@[s3 as int].1@ == messages@[idx@[s3 as int] as int].key_ids@);
            assert(shares_equal(
                out_shares@[s3 as int].1@,
                messages@[idx@[s3 as int] as int].shares@,
            ));
            assert(out_polys@[s3 as int].1@ == messages@[idx@[s3 as int] as int].poly_commitment@);
        }
        s3 = s3 + 1;
    }

    signer.secret_computed = true;

    let st = WstsState {
        party_id: signer.party_id,
        n_signers: n,
        threshold: signer.threshold,
        num_keys: signer.num_keys,
        shares: out_shares,
        key_ids: out_key_ids,
        poly_commitments: out_polys,
        party_state,
        public_key_frost_format,
    };
    proof {
        assert(st.complete());
        assert forall|i: int| 0 <= i < messages@.len() implies {
            let s_i = (#[trigger] messages@[i]).source as int;
            &&& st.key_ids@[s_i].1@ == messages@[i].key_ids@
            &&& shares_equal(st.shares@[s_i].1@, messages@[i].shares@)
            &&& st.poly_commitments@[s_i].1@ == messages@[i].poly_commitment@
        } by {
            let s_i = messages@[i].source as int;
            assert(idx@[s_i] < messages@.len() && messages@[idx@[s_i] as int].source == s_i);
            assert(idx@[s_i] == i);
        }
        assert(state_matches_messages(st, messages@));
        assert forall|i: int, a: int|
            0 <= i < messages@.len() && 0 <= a < signer.key_ids@.len() implies #[trigger] has_share_for(
            messages@[i],
            signer.key_ids@[a],
        ) by {
            let s_i = messages@[i].source as int;
            assert(idx@[s_i] < messages@.len() && messages@[idx@[s_i] as int].source == s_i);
            assert(idx@[s_i] == i);
            assert(has_share_for(messages@[idx@[s_i] as int], signer.key_ids@[a]));
        }
    }
    Ok(st)
}

} // verus!
