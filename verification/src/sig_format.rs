//! The 65-byte signature layout: a compressed curve point followed by a
//! 32-byte scalar, and its 64-byte x-only form.

use vstd::prelude::*;

verus! {

/// Length of a compressed secp256k1 point.
pub const POINT_BYTES: usize = 33;

/// Length of a secp256k1 scalar in big-endian form.
pub const SCALAR_BYTES: usize = 32;

/// Length of the signature blob: `R.compress() ‖ z`.
pub const SIGNATURE_BYTES: usize = 65;

/// The signature blob is the compressed `R` point followed by the scalar
/// `z`: bytes `0..33` hold the point, bytes `33..65` the scalar.
pub open spec fn signature_layout_spec(r: Seq<u8>, z: Seq<u8>) -> Seq<u8>
    recommends
        r.len() == POINT_BYTES,
        z.len() == SCALAR_BYTES,
{
    r + z
}

/// Builds the 65-byte signature blob from the compressed point and the
/// scalar bytes.
pub fn encode_signature(r_bytes: &Vec<u8>, z_bytes: &Vec<u8>) -> (out: Vec<u8>)
    requires
        r_bytes@.len() == POINT_BYTES,
        z_bytes@.len() == SCALAR_BYTES,
    ensures
        out@ == signature_layout_spec(r_bytes@, z_bytes@),
        out@.len() == SIGNATURE_BYTES,
        out@.subrange(0, POINT_BYTES as int) == r_bytes@,
        out@.subrange(POINT_BYTES as int, SIGNATURE_BYTES as int) == z_bytes@,
{
    let mut out: Vec<u8> = Vec::new();
    let mut i: usize = 0;
    while i < r_bytes.len()
        invariant
            i <= r_bytes@.len(),
            out@.len() == i,
            forall|x: int| 0 <= x < i ==> out@[x] == r_bytes@[x],
        decreases r_bytes@.len() - i,
    {
        out.push(r_bytes[i]);
        i = i + 1;
    }
    let mut j: usize = 0;
    while j < z_bytes.len()
        invariant
            j <= z_bytes@.len(),
            out@.len() == r_bytes@.len() + j,
            forall|x: int| 0 <= x < r_bytes@.len() ==> out@[x] == r_bytes@[x],
            forall|x: int| 0 <= x < j ==> out@[r_bytes@.len() + x] == z_bytes@[x],
        decreases z_bytes@.len() - j,
    {
        out.push(z_bytes[j]);
        j = j + 1;
    }
    proof {
        assert(out@ =~= r_bytes@ + z_bytes@);
        assert(out@.subrange(0, POINT_BYTES as int) =~= r_bytes@);
        assert(out@.subrange(POINT_BYTES as int, SIGNATURE_BYTES as int) =~= z_bytes@);
    }
    out
}

/// Splits a signature blob back into the compressed point and the scalar
/// bytes. Succeeds exactly on 65-byte inputs.
pub fn split_signature(b: &Vec<u8>) -> (r: Option<(Vec<u8>, Vec<u8>)>)
    ensures
        r is Some <==> b@.len() == SIGNATURE_BYTES,
        r matches Some(parts) ==> {
            &&& parts.0@ == b@.subrange(0, POINT_BYTES as int)
            &&& parts.1@ == b@.subrange(POINT_BYTES as int, SIGNATURE_BYTES as int)
            &&& b@ == signature_layout_spec(parts.0@, parts.1@)
            &&& parts.0@.len() == POINT_BYTES
            &&& parts.1@.len() == SCALAR_BYTES
        },
{
    if b.len() != SIGNATURE_BYTES {
        return None;
    }
    let mut r_bytes: Vec<u8> = Vec::new();
    let mut i: usize = 0;
    while i < POINT_BYTES
        invariant
            i <= POINT_BYTES,
            b@.len() == SIGNATURE_BYTES,
            r_bytes@.len() == i,
            forall|x: int| 0 <= x < i ==> r_bytes@[x] == b@[x],
        decreases POINT_BYTES - i,
    {
        r_bytes.push(b[i]);
        i = i + 1;
    }
    let mut z_bytes: Vec<u8> = Vec::new();
    let mut j: usize = POINT_BYTES;
    while j < SIGNATURE_BYTES
        invariant
            POINT_BYTES <= j <= SIGNATURE_BYTES,
            b@.len() == SIGNATURE_BYTES,
            z_bytes@.len() == j - POINT_BYTES,
            forall|x: int| 0 <= x < j - POINT_BYTES ==> z_bytes@[x] == b@[POINT_BYTES + x],
        decreases SIGNATURE_BYTES - j,
    {
        z_bytes.push(b[j]);
        j = j + 1;
    }
    proof {
        assert(r_bytes@ =~= b@.subrange(0, POINT_BYTES as int));
        assert(z_bytes@ =~= b@.subrange(POINT_BYTES as int, SIGNATURE_BYTES as int));
        assert(b@ =~= r_bytes@ + z_bytes@);
    }
    Some((r_bytes, z_bytes))
}

/// The 64-byte x-only form that the FROST taproot verifier reads: the
/// signature blob with its point-parity byte dropped.
pub fn frost_compact_form(b: &Vec<u8>) -> (r: Option<Vec<u8>>)
    ensures
        r is Some <==> b@.len() == SIGNATURE_BYTES,
        r matches Some(v) ==> v@ == b@.subrange(1, SIGNATURE_BYTES as int) && v@.len() == 64,
{
    if b.len() != SIGNATURE_BYTES {
        return None;
    }
    let mut out: Vec<u8> = Vec::new();
    let mut i: usize = 1;
    while i < SIGNATURE_BYTES
        invariant
            1 <= i <= SIGNATURE_BYTES,
            b@.len() == SIGNATURE_BYTES,
            out@.len() == i - 1,
            forall|x: int| 0 <= x < i - 1 ==> out@[x] == b@[1 + x],
        decreases SIGNATURE_BYTES - i,
    {
        out.push(b[i]);
        i = i + 1;
    }
    proof {
        assert(out@ =~= b@.subrange(1, SIGNATURE_BYTES as int));
    }
    Some(out)
}

/// Splitting a signature blob and concatenating the parts gives back the
/// original bytes, and building a blob from 33-plus-32 bytes then splitting
/// it returns the parts unchanged.
pub proof fn lemma_signature_layout_round_trip(r: Seq<u8>, z: Seq<u8>)
    requires
        r.len() == POINT_BYTES,
        z.len() == SCALAR_BYTES,
    ensures
        signature_layout_spec(r, z).subrange(0, POINT_BYTES as int) == r,
        signature_layout_spec(r, z).subrange(POINT_BYTES as int, SIGNATURE_BYTES as int) == z,
        signature_layout_spec(r, z).len() == SIGNATURE_BYTES,
{
    assert(signature_layout_spec(r, z).subrange(0, POINT_BYTES as int) =~= r);
    assert(signature_layout_spec(r, z).subrange(POINT_BYTES as int, SIGNATURE_BYTES as int)
        =~= z);
}

} // verus!
