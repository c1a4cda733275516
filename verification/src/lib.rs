//! A two-phase threshold-signature library for the WSTS scheme over
//! secp256k1, producing signatures in the FROST taproot encoding.
//!
//! The library holds the protocol logic: parameter validation and key-id
//! partitioning, session-fingerprint derivation, the keygen and signing
//! round state machines, the persistent-state codec, and the signature
//! layout. Network delivery and disk I/O stay outside; callers drive the
//! round functions with the messages they collected.

use vstd::prelude::*;

use k256::sha2::Digest;
use k256::sha2::Sha256;

pub mod codec;
pub mod keygen;
pub mod keygen_state_machine;
pub mod sig_format;
pub mod signing;
pub mod signing_state_machine;
pub mod store;
pub mod utils;

verus! {

/// The digest that SHA-256 assigns to a byte sequence. The library states
/// contracts against this name; only the trusted wrapper below applies it.
pub uninterp spec fn sha256_of(data: Seq<u8>) -> Seq<u8>;

/// Relies on `k256::sha2::Sha256`: the 32-byte SHA-256 digest of the input,
/// a function of the input bytes alone.
#[verifier::external_body]
pub(crate) fn sha256(data: &[u8]) -> (r: [u8; 32])
    ensures
        r@ == sha256_of(data@),
{
    let mut hasher = Sha256::default();
    hasher.update(data);
    let out = hasher.finalize();
    let mut hash = [0u8; 32];
    hash.copy_from_slice(out.as_slice());
    hash
}

/// The salt folded into every meta hash, the ASCII bytes of `wsts-protocol`.
pub open spec fn meta_salt_spec() -> Seq<u8> {
    seq![0x77u8, 0x73, 0x74, 0x73, 0x2d, 0x70, 0x72, 0x6f, 0x74, 0x6f, 0x63, 0x6f, 0x6c]
}

/// The execution salt of keygen sessions, the ASCII bytes of `wsts-keygen`.
pub open spec fn keygen_salt_spec() -> Seq<u8> {
    seq![0x77u8, 0x73, 0x74, 0x73, 0x2d, 0x6b, 0x65, 0x79, 0x67, 0x65, 0x6e]
}

/// The execution salt of signing sessions, the ASCII bytes of `wsts-signing`.
pub open spec fn signing_salt_spec() -> Seq<u8> {
    seq![0x77u8, 0x73, 0x74, 0x73, 0x2d, 0x73, 0x69, 0x67, 0x6e, 0x69, 0x6e, 0x67]
}

/// The keygen execution salt as bytes.
pub fn keygen_salt() -> (r: Vec<u8>)
    ensures
        r@ == keygen_salt_spec(),
{
    let a: [u8; 11] = [0x77, 0x73, 0x74, 0x73, 0x2d, 0x6b, 0x65, 0x79, 0x67, 0x65, 0x6e];
    let mut v: Vec<u8> = Vec::new();
    let mut i: usize = 0;
    while i < 11
        invariant
            i <= 11,
            v@.len() == i,
            forall|j: int| 0 <= j < i ==> v@[j] == a@[j],
        decreases 11 - i,
    {
        v.push(a[i]);
        i = i + 1;
    }
    proof {
        assert(v@ =~= keygen_salt_spec());
    }
    v
}

/// The signing execution salt as bytes.
pub fn signing_salt() -> (r: Vec<u8>)
    ensures
        r@ == signing_salt_spec(),
{
    let a: [u8; 12] = [0x77, 0x73, 0x74, 0x73, 0x2d, 0x73, 0x69, 0x67, 0x6e, 0x69, 0x6e, 0x67];
    let mut v: Vec<u8> = Vec::new();
    let mut i: usize = 0;
    while i < 12
        invariant
            i <= 12,
            v@.len() == i,
            forall|j: int| 0 <= j < i ==> v@[j] == a@[j],
        decreases 12 - i,
    {
        v.push(a[i]);
        i = i + 1;
    }
    proof {
        assert(v@ =~= signing_salt_spec());
    }
    v
}

/// The big-endian bytes of a `u16`.
pub open spec fn u16_be_spec(x: u16) -> Seq<u8> {
    seq![(x >> 8) as u8, x as u8]
}

/// The big-endian bytes of a `u64`.
pub open spec fn u64_be_spec(x: u64) -> Seq<u8> {
    seq![
        (x >> 56) as u8,
        (x >> 48) as u8,
        (x >> 40) as u8,
        (x >> 32) as u8,
        (x >> 24) as u8,
        (x >> 16) as u8,
        (x >> 8) as u8,
        x as u8,
    ]
}

/// The preimage of the meta hash: `n`, the blueprint id and the call id in
/// big-endian form, followed by the fixed meta salt.
pub open spec fn meta_preimage_spec(n: u16, blueprint_id: u64, call_id: u64) -> Seq<u8> {
    u16_be_spec(n) + u64_be_spec(blueprint_id) + u64_be_spec(call_id) + meta_salt_spec()
}

/// The pair of digests that identifies a session: the meta hash keys the
/// persistent store, and the execution hash separates protocol runs.
pub open spec fn session_hashes_spec(n: u16, blueprint_id: u64, call_id: u64, salt: Seq<u8>) -> (
    Seq<u8>,
    Seq<u8>,
) {
    (
        sha256_of(meta_preimage_spec(n, blueprint_id, call_id)),
        sha256_of(sha256_of(meta_preimage_spec(n, blueprint_id, call_id)) + salt),
    )
}

/// Derives the deterministic hashes that identify a WSTS session. For
/// signing, `call_id` must be the call id of the preceding keygen job.
pub fn compute_execution_hashes(n: u16, blueprint_id: u64, call_id: u64, salt: &[u8]) -> (r: (
    [u8; 32],
    [u8; 32],
))
    ensures
        r.0@ == sha256_of(meta_preimage_spec(n, blueprint_id, call_id)),
        r.1@ == sha256_of(r.0@ + salt@),
        (r.0@, r.1@) == session_hashes_spec(n, blueprint_id, call_id, salt@),
{
    let mut preimage: Vec<u8> = Vec::new();
    preimage.push((n >> 8) as u8);
    preimage.push(n as u8);
    push_u64_be(&mut preimage, blueprint_id);
    push_u64_be(&mut preimage, call_id);
    let mut salt_part: Vec<u8> = {
        let a: [u8; 13] = [
            0x77,
            0x73,
            0x74,
            0x73,
            0x2d,
            0x70,
            0x72,
            0x6f,
            0x74,
            0x6f,
            0x63,
            0x6f,
            0x6c,
        ];
        let mut v: Vec<u8> = Vec::new();
        let mut i: usize = 0;
        while i < 13
            invariant
                i <= 13,
                v@.len() == i,
                forall|j: int| 0 <= j < i ==> v@[j] == a@[j],
            decreases 13 - i,
        {
            v.push(a[i]);
            i = i + 1;
        }
        proof {
            assert(v@ =~= meta_salt_spec());
        }
        v
    };
    preimage.append(&mut salt_part);
    proof {
        assert(preimage@ =~= meta_preimage_spec(n, blueprint_id, call_id));
    }
    let meta_hash = sha256(preimage.as_slice());

    let mut exec_preimage: Vec<u8> = Vec::new();
    let mut i: usize = 0;
    while i < 32
        invariant
            i <= 32,
            exec_preimage@.len() == i,
            forall|j: int| 0 <= j < i ==> exec_preimage@[j] == meta_hash@[j],
        decreases 32 - i,
    {
        exec_preimage.push(meta_hash[i]);
        i = i + 1;
    }
    let mut j: usize = 0;
    while j < salt.len()
        invariant
            j <= salt@.len(),
            exec_preimage@.len() == 32 + j,
            forall|x: int| 0 <= x < 32 ==> exec_preimage@[x] == meta_hash@[x],
            forall|x: int| 0 <= x < j ==> exec_preimage@[32 + x] == salt@[x],
        decreases salt@.len() - j,
    {
        exec_preimage.push(salt[j]);
        j = j + 1;
    }
    proof {
        assert(exec_preimage@ =~= meta_hash@ + salt@);
    }
    let execution_hash = sha256(exec_preimage.as_slice());

    (meta_hash, execution_hash)
}

/// Appends the big-endian bytes of `x`.
fn push_u64_be(v: &mut Vec<u8>, x: u64)
    ensures
        final(v)@ == old(v)@ + u64_be_spec(x),
{
    v.push((x >> 56) as u8);
    v.push((x >> 48) as u8);
    v.push((x >> 40) as u8);
    v.push((x >> 32) as u8);
    v.push((x >> 24) as u8);
    v.push((x >> 16) as u8);
    v.push((x >> 8) as u8);
    v.push(x as u8);
    proof {
        assert(v@ =~= old(v)@ + u64_be_spec(x));
    }
}

/// Sessions with distinct call ids have distinct meta-hash preimages: the
/// call id stands byte for byte in the preimage, so the two store keys
/// collide only if SHA-256 itself collides on distinct inputs.
pub proof fn lemma_distinct_call_ids_distinct_preimages(
    n: u16,
    blueprint_id: u64,
    c1: u64,
    c2: u64,
)
    requires
        c1 != c2,
    ensures
        meta_preimage_spec(n, blueprint_id, c1) != meta_preimage_spec(n, blueprint_id, c2),
{
    let p1 = meta_preimage_spec(n, blueprint_id, c1);
    let p2 = meta_preimage_spec(n, blueprint_id, c2);
    if p1 == p2 {
        assert(p1[10] == (c1 >> 56) as u8 && p2[10] == (c2 >> 56) as u8);
        assert(p1[11] == (c1 >> 48) as u8 && p2[11] == (c2 >> 48) as u8);
        assert(p1[12] == (c1 >> 40) as u8 && p2[12] == (c2 >> 40) as u8);
        assert(p1[13] == (c1 >> 32) as u8 && p2[13] == (c2 >> 32) as u8);
        assert(p1[14] == (c1 >> 24) as u8 && p2[14] == (c2 >> 24) as u8);
        assert(p1[15] == (c1 >> 16) as u8 && p2[15] == (c2 >> 16) as u8);
        assert(p1[16] == (c1 >> 8) as u8 && p2[16] == (c2 >> 8) as u8);
        assert(p1[17] == c1 as u8 && p2[17] == c2 as u8);
        assert(c1 == c2) by (bit_vector)
            requires
                (c1 >> 56) as u8 == (c2 >> 56) as u8,
                (c1 >> 48) as u8 == (c2 >> 48) as u8,
                (c1 >> 40) as u8 == (c2 >> 40) as u8,
                (c1 >> 32) as u8 == (c2 >> 32) as u8,
                (c1 >> 24) as u8 == (c2 >> 24) as u8,
                (c1 >> 16) as u8 == (c2 >> 16) as u8,
                (c1 >> 8) as u8 == (c2 >> 8) as u8,
                c1 as u8 == c2 as u8,
        ;
    }
}

/// The session fingerprint depends on the four inputs alone: equal inputs
/// give byte-equal hashes, whatever else (party order included) differs
/// between the two derivations.
pub proof fn lemma_session_id_deterministic(
    n1: u16,
    b1: u64,
    c1: u64,
    s1: Seq<u8>,
    n2: u16,
    b2: u64,
    c2: u64,
    s2: Seq<u8>,
)
    requires
        n1 == n2,
        b1 == b2,
        c1 == c2,
        s1 == s2,
    ensures
        session_hashes_spec(n1, b1, c1, s1) == session_hashes_spec(n2, b2, c2, s2),
{
}

} // verus!
