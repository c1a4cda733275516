//! The deterministic binary encoding of a stored keygen result.
//!
//! Every number is big-endian; byte strings and lists carry a 32-bit count
//! in front. The encoding is private to this library; its one obligation is
//! that decoding an encoded state gives the state back exactly, which
//! [`lemma_state_codec_round_trip`] proves.

use vstd::prelude::*;

use crate::keygen_state_machine::WstsState;

verus! {

/// The big-endian bytes of a `u32`.
pub open spec fn enc_u32(x: u32) -> Seq<u8> {
    seq![(x >> 24) as u8, (x >> 16) as u8, (x >> 8) as u8, x as u8]
}

/// The `u32` held by four big-endian bytes.
pub open spec fn u32_of_bytes(b0: u8, b1: u8, b2: u8, b3: u8) -> u32 {
    ((b0 as u32) << 24) | ((b1 as u32) << 16) | ((b2 as u32) << 8) | (b3 as u32)
}

/// Reads a big-endian `u32` at `i`.
pub open spec fn dec_u32(s: Seq<u8>, i: int) -> Option<(u32, int)> {
    if 0 <= i && i + 4 <= s.len() {
        Some((u32_of_bytes(s[i], s[i + 1], s[i + 2], s[i + 3]), i + 4))
    } else {
        None
    }
}

/// A byte string: its length, then its bytes.
pub open spec fn enc_blob(b: Seq<u8>) -> Seq<u8> {
    enc_u32(b.len() as u32) + b
}

/// Reads a length-prefixed byte string at `i`.
pub open spec fn dec_blob(s: Seq<u8>, i: int) -> Option<(Seq<u8>, int)> {
    match dec_u32(s, i) {
        Some((len, j)) => {
            if j + len <= s.len() {
                Some((s.subrange(j, j + len), j + len))
            } else {
                None
            }
        },
        None => None,
    }
}

/// The entries of a tagged-blob list: a `u32` tag and a byte string each.
pub open spec fn enc_titems(l: Seq<(u32, Seq<u8>)>) -> Seq<u8>
    decreases l.len(),
{
    if l.len() == 0 {
        Seq::empty()
    } else {
        enc_u32(l[0].0) + enc_blob(l[0].1) + enc_titems(l.drop_first())
    }
}

/// A tagged-blob list: its length, then its entries.
pub open spec fn enc_tlist(l: Seq<(u32, Seq<u8>)>) -> Seq<u8> {
    enc_u32(l.len() as u32) + enc_titems(l)
}

/// Reads `cnt` tagged-blob entries at `i`.
pub open spec fn dec_titems(s: Seq<u8>, i: int, cnt: nat) -> Option<(Seq<(u32, Seq<u8>)>, int)>
    decreases cnt,
{
    if cnt == 0 {
        Some((Seq::empty(), i))
    } else {
        match dec_u32(s, i) {
            Some((tag, j)) => match dec_blob(s, j) {
                Some((payload, k)) => match dec_titems(s, k, (cnt - 1) as nat) {
                    Some((rest, end)) => Some((seq![(tag, payload)] + rest, end)),
                    None => None,
                },
                None => None,
            },
            None => None,
        }
    }
}

/// Reads a length-prefixed tagged-blob list at `i`.
pub open spec fn dec_tlist(s: Seq<u8>, i: int) -> Option<(Seq<(u32, Seq<u8>)>, int)> {
    match dec_u32(s, i) {
        Some((cnt, j)) => dec_titems(s, j, cnt as nat),
        None => None,
    }
}

/// The entries of an id list: a `u32` each.
pub open spec fn enc_iitems(l: Seq<u32>) -> Seq<u8>
    decreases l.len(),
{
    if l.len() == 0 {
        Seq::empty()
    } else {
        enc_u32(l[0]) + enc_iitems(l.drop_first())
    }
}

/// An id list: its length, then its entries.
pub open spec fn enc_ilist(l: Seq<u32>) -> Seq<u8> {
    enc_u32(l.len() as u32) + enc_iitems(l)
}

/// Reads `cnt` ids at `i`.
pub open spec fn dec_iitems(s: Seq<u8>, i: int, cnt: nat) -> Option<(Seq<u32>, int)>
    decreases cnt,
{
    if cnt == 0 {
        Some((Seq::empty(), i))
    } else {
        match dec_u32(s, i) {
            Some((x, j)) => match dec_iitems(s, j, (cnt - 1) as nat) {
                Some((rest, end)) => Some((seq![x] + rest, end)),
                None => None,
            },
            None => None,
        }
    }
}

/// Reads a length-prefixed id list at `i`.
pub open spec fn dec_ilist(s: Seq<u8>, i: int) -> Option<(Seq<u32>, int)> {
    match dec_u32(s, i) {
        Some((cnt, j)) => dec_iitems(s, j, cnt as nat),
        None => None,
    }
}

/// Splitting a `u32` into big-endian bytes and recombining them gives the
/// value back.
pub proof fn lemma_u32_bytes_value(x: u32)
    ensures
        u32_of_bytes((x >> 24) as u8, (x >> 16) as u8, (x >> 8) as u8, x as u8) == x,
{
    assert((((x >> 24) as u8 as u32) << 24) | (((x >> 16) as u8 as u32) << 16) | (((x >> 8) as u8
        as u32) << 8) | ((x as u8) as u32) == x) by (bit_vector);
}

/// Reading four bytes that hold `enc_u32(x)` yields `x`.
pub proof fn lemma_dec_u32_at(s: Seq<u8>, i: int, x: u32)
    requires
        0 <= i,
        i + 4 <= s.len(),
        s.subrange(i, i + 4) == enc_u32(x),
    ensures
        dec_u32(s, i) == Some((x, i + 4)),
{
    assert(s[i] == s.subrange(i, i + 4)[0]);
    assert(s[i + 1] == s.subrange(i, i + 4)[1]);
    assert(s[i + 2] == s.subrange(i, i + 4)[2]);
    assert(s[i + 3] == s.subrange(i, i + 4)[3]);
    lemma_u32_bytes_value(x);
}

/// Reading bytes that hold `enc_blob(b)` yields `b`.
pub proof fn lemma_dec_blob_at(s: Seq<u8>, i: int, b: Seq<u8>)
    requires
        0 <= i,
        i + 4 + b.len() <= s.len(),
        b.len() < 0x1_0000_0000,
        s.subrange(i, i + 4 + b.len() as int) == enc_blob(b),
    ensures
        dec_blob(s, i) == Some((b, i + 4 + b.len() as int)),
{
    let e = enc_blob(b);
    let whole = s.subrange(i, i + 4 + b.len() as int);
    assert(whole.subrange(0, 4) =~= enc_u32(b.len() as u32));
    assert(s.subrange(i, i + 4) =~= whole.subrange(0, 4));
    lemma_dec_u32_at(s, i, b.len() as u32);
    assert(s.subrange(i + 4, i + 4 + b.len() as int) =~= b) by {
        assert forall|j: int| 0 <= j < b.len() implies s[i + 4 + j] == (#[trigger] b[j]) by {
            assert(whole[4 + j] == s[i + 4 + j]);
            assert(e[4 + j] == b[j]);
        }
    }
}

/// Reading bytes that hold `enc_titems(l)` yields the `l.len()` entries.
#[verifier::rlimit(100)]
#[verifier::spinoff_prover]
pub proof fn lemma_dec_titems_at(s: Seq<u8>, i: int, l: Seq<(u32, Seq<u8>)>)
    requires
        0 <= i,
        i + enc_titems(l).len() <= s.len(),
        s.subrange(i, i + enc_titems(l).len() as int) == enc_titems(l),
        forall|q: int| 0 <= q < l.len() ==> (#[trigger] l[q]).1.len() < 0x1_0000_0000,
    ensures
        dec_titems(s, i, l.len() as nat) == Some((l, i + enc_titems(l).len() as int)),
    decreases l.len(),
{
    let e = enc_titems(l);
    let whole = s.subrange(i, i + e.len() as int);
    if l.len() == 0 {
        assert(l =~= Seq::<(u32, Seq<u8>)>::empty());
    } else {
        let tag = l[0].0;
        let payload = l[0].1;
        let rest = l.drop_first();
        let eu = enc_u32(tag);
        let eb = enc_blob(payload);
        let er = enc_titems(rest);
        assert(e == eu + eb + er);
        assert(e.len() == 8 + payload.len() + er.len());
        assert(s.subrange(i, i + 4) =~= eu) by {
            assert(whole[0] == s[i + 0] && whole[1] == s[i + 1] && whole[2] == s[i + 2] && whole[3]
                == s[i + 3]);
        }
        lemma_dec_u32_at(s, i, tag);
        assert(s.subrange(i + 4, i + 4 + 4 + payload.len() as int) =~= eb) by {
            assert forall|j: int| 0 <= j < 4 + payload.len() implies s[i + 4 + j] == (
            #[trigger] eb[j]) by {
                assert(whole[4 + j] == s[i + 4 + j]);
                assert(e[4 + j] == eb[j]);
            }
        }
        lemma_dec_blob_at(s, i + 4, payload);
        let i2 = i + 8 + payload.len() as int;
        assert(s.subrange(i2, i2 + er.len() as int) =~= er) by {
            assert forall|j: int| 0 <= j < er.len() implies s[i2 + j] == (#[trigger] er[j]) by {
                assert(whole[8 + payload.len() + j] == s[i2 + j]);
                assert(e[8 + payload.len() + j] == er[j]);
            }
        }
        assert(forall|q: int| 0 <= q < rest.len() ==> (#[trigger] rest[q]).1.len()
            < 0x1_0000_0000);
        lemma_dec_titems_at(s, i2, rest);
        assert(seq![(tag, payload)] + rest =~= l);
    }
}

/// Reading bytes that hold `enc_tlist(l)` yields `l`.
pub proof fn lemma_dec_tlist_at(s: Seq<u8>, i: int, l: Seq<(u32, Seq<u8>)>)
    requires
        0 <= i,
        i + enc_tlist(l).len() <= s.len(),
        l.len() < 0x1_0000_0000,
        s.subrange(i, i + enc_tlist(l).len() as int) == enc_tlist(l),
        forall|q: int| 0 <= q < l.len() ==> (#[trigger] l[q]).1.len() < 0x1_0000_0000,
    ensures
        dec_tlist(s, i) == Some((l, i + enc_tlist(l).len() as int)),
{
    let e = enc_tlist(l);
    let whole = s.subrange(i, i + e.len() as int);
    assert(s.subrange(i, i + 4) =~= enc_u32(l.len() as u32)) by {
        assert(whole[0] == s[i + 0] && whole[1] == s[i + 1] && whole[2] == s[i + 2] && whole[3]
            == s[i + 3]);
    }
    lemma_dec_u32_at(s, i, l.len() as u32);
    assert(s.subrange(i + 4, i + 4 + enc_titems(l).len() as int) =~= enc_titems(l)) by {
        assert forall|j: int| 0 <= j < enc_titems(l).len() implies s[i + 4 + j] == (
        #[trigger] enc_titems(l)[j]) by {
            assert(whole[4 + j] == s[i + 4 + j]);
            assert(e[4 + j] == enc_titems(l)[j]);
        }
    }
    lemma_dec_titems_at(s, i + 4, l);
}

/// Reading bytes that hold `enc_iitems(l)` yields the `l.len()` ids.
#[verifier::rlimit(100)]
#[verifier::spinoff_prover]
pub proof fn lemma_dec_iitems_at(s: Seq<u8>, i: int, l: Seq<u32>)
    requires
        0 <= i,
        i + enc_iitems(l).len() <= s.len(),
        s.subrange(i, i + enc_iitems(l).len() as int) == enc_iitems(l),
    ensures
        dec_iitems(s, i, l.len() as nat) == Some((l, i + enc_iitems(l).len() as int)),
    decreases l.len(),
{
    let e = enc_iitems(l);
    let whole = s.subrange(i, i + e.len() as int);
    if l.len() == 0 {
        assert(l =~= Seq::<u32>::empty());
    } else {
        let head = l[0];
        let rest = l.drop_first();
        let er = enc_iitems(rest);
        assert(e == enc_u32(head) + er);
        assert(e.len() == 4 + er.len());
        assert(s.subrange(i, i + 4) =~= enc_u32(head)) by {
            assert(whole[0] == s[i + 0] && whole[1] == s[i + 1] && whole[2] == s[i + 2] && whole[3]
                == s[i + 3]);
        }
        lemma_dec_u32_at(s, i, head);
        let i2 = i + 4;
        assert(s.subrange(i2, i2 + er.len() as int) =~= er) by {
            assert forall|j: int| 0 <= j < er.len() implies s[i2 + j] == (#[trigger] er[j]) by {
                assert(whole[4 + j] == s[i2 + j]);
                assert(e[4 + j] == er[j]);
            }
        }
        lemma_dec_iitems_at(s, i2, rest);
        assert(seq![head] + rest =~= l);
    }
}

/// Reading bytes that hold `enc_ilist(l)` yields `l`.
pub proof fn lemma_dec_ilist_at(s: Seq<u8>, i: int, l: Seq<u32>)
    requires
        0 <= i,
        i + enc_ilist(l).len() <= s.len(),
        l.len() < 0x1_0000_0000,
        s.subrange(i, i + enc_ilist(l).len() as int) == enc_ilist(l),
    ensures
        dec_ilist(s, i) == Some((l, i + enc_ilist(l).len() as int)),
{
    let e = enc_ilist(l);
    let whole = s.subrange(i, i + e.len() as int);
    assert(s.subrange(i, i + 4) =~= enc_u32(l.len() as u32)) by {
        assert(whole[0] == s[i + 0] && whole[1] == s[i + 1] && whole[2] == s[i + 2] && whole[3]
            == s[i + 3]);
    }
    lemma_dec_u32_at(s, i, l.len() as u32);
    assert(s.subrange(i + 4, i + 4 + enc_iitems(l).len() as int) =~= enc_iitems(l)) by {
        assert forall|j: int| 0 <= j < enc_iitems(l).len() implies s[i + 4 + j] == (
        #[trigger] enc_iitems(l)[j]) by {
            assert(whole[4 + j] == s[i + 4 + j]);
            assert(e[4 + j] == enc_iitems(l)[j]);
        }
    }
    lemma_dec_iitems_at(s, i + 4, l);
}

} // verus!
// The state encoding: models, the wire form, and the exec encoder.

use crate::keygen_state_machine::shares_equal;

verus! {

/// Byte-string lists as the decoder models them.
pub open spec fn blob_entries_model(l: Seq<(u32, Vec<u8>)>) -> Seq<(u32, Seq<u8>)> {
    l.map_values(|e: (u32, Vec<u8>)| (e.0, e.1@))
}

/// The mathematical value of a stored keygen result.
pub ghost struct StateModel {
    /// This party's index.
    pub party_id: u32,
    /// The cohort size.
    pub n_signers: u32,
    /// The signing threshold.
    pub threshold: u32,
    /// The total number of key ids.
    pub num_keys: u32,
    /// Per party: the broadcast share map.
    pub shares: Seq<(u32, Seq<(u32, Seq<u8>)>)>,
    /// Per party: the owned key ids.
    pub key_ids: Seq<(u32, Seq<u32>)>,
    /// Per party: the serialized polynomial commitment.
    pub poly_commitments: Seq<(u32, Seq<u8>)>,
    /// The serialized party state.
    pub party_state: Seq<u8>,
    /// The group key in FROST taproot form.
    pub public_key_frost_format: Seq<u8>,
}

/// The mathematical value a state holds.
pub open spec fn state_model(st: WstsState) -> StateModel {
    StateModel {
        party_id: st.party_id,
        n_signers: st.n_signers,
        threshold: st.threshold,
        num_keys: st.num_keys,
        shares: st.shares@.map_values(
            |e: (u32, Vec<(u32, Vec<u8>)>)| (e.0, blob_entries_model(e.1@)),
        ),
        key_ids: st.key_ids@.map_values(|e: (u32, Vec<u32>)| (e.0, e.1@)),
        poly_commitments: blob_entries_model(st.poly_commitments@),
        party_state: st.party_state@,
        public_key_frost_format: st.public_key_frost_format@,
    }
}

/// The outer wire entries of the share table: each party's share map is a
/// tagged-blob list serialized as one payload.
pub open spec fn shares_wire(l: Seq<(u32, Vec<(u32, Vec<u8>)>)>) -> Seq<(u32, Seq<u8>)> {
    l.map_values(|e: (u32, Vec<(u32, Vec<u8>)>)| (e.0, enc_tlist(blob_entries_model(e.1@))))
}

/// The outer wire entries of the key-id table: each party's id list is an
/// id list serialized as one payload.
pub open spec fn keyids_wire(l: Seq<(u32, Vec<u32>)>) -> Seq<(u32, Seq<u8>)> {
    l.map_values(|e: (u32, Vec<u32>)| (e.0, enc_ilist(e.1@)))
}

/// The byte encoding of a stored keygen result.
#[verifier::opaque]
pub open spec fn enc_state(st: WstsState) -> Seq<u8> {
    enc_u32(st.party_id) + enc_u32(st.n_signers) + enc_u32(st.threshold) + enc_u32(st.num_keys)
        + enc_tlist(shares_wire(st.shares@)) + enc_tlist(keyids_wire(st.key_ids@)) + enc_tlist(
        blob_entries_model(st.poly_commitments@),
    ) + enc_blob(st.party_state@) + enc_blob(st.public_key_frost_format@)
}

/// Every count and payload of the state fits its 32-bit length field.
pub open spec fn state_encodable(st: WstsState) -> bool {
    &&& st.shares@.len() < 0x1_0000_0000
    &&& forall|i: int|
        0 <= i < st.shares@.len() ==> (#[trigger] st.shares@[i]).1@.len() < 0x1_0000_0000
            && enc_tlist(blob_entries_model(st.shares@[i].1@)).len() < 0x1_0000_0000
    &&& forall|i: int, j: int|
        0 <= i < st.shares@.len() && 0 <= j < st.shares@[i].1@.len()
            ==> (#[trigger] st.shares@[i].1@[j]).1@.len() < 0x1_0000_0000
    &&& st.key_ids@.len() < 0x1_0000_0000
    &&& forall|i: int|
        0 <= i < st.key_ids@.len() ==> (#[trigger] st.key_ids@[i]).1@.len() < 0x1_0000_0000
            && enc_ilist(st.key_ids@[i].1@).len() < 0x1_0000_0000
    &&& st.poly_commitments@.len() < 0x1_0000_0000
    &&& forall|i: int|
        0 <= i < st.poly_commitments@.len() ==> (#[trigger] st.poly_commitments@[i]).1@.len()
            < 0x1_0000_0000
    &&& st.party_state@.len() < 0x1_0000_0000
    &&& st.public_key_frost_format@.len() < 0x1_0000_0000
}

/// Appends the big-endian bytes of `x`.
fn push_u32(out: &mut Vec<u8>, x: u32)
    ensures
        final(out)@ == old(out)@ + enc_u32(x),
{
    out.push((x >> 24) as u8);
    out.push((x >> 16) as u8);
    out.push((x >> 8) as u8);
    out.push(x as u8);
    proof {
        assert(out@ =~= old(out)@ + enc_u32(x));
    }
}

/// Appends a length-prefixed byte string.
fn push_blob(out: &mut Vec<u8>, b: &Vec<u8>)
    requires
        b@.len() < 0x1_0000_0000,
    ensures
        final(out)@ == old(out)@ + enc_blob(b@),
{
    push_u32(out, b.len() as u32);
    let mut i: usize = 0;
    while i < b.len()
        invariant
            i <= b@.len(),
            out@ == old(out)@ + enc_u32(b@.len() as u32) + b@.take(i as int),
        decreases b@.len() - i,
    {
        out.push(b[i]);
        proof {
            assert(b@.take(i + 1) =~= b@.take(i as int).push(b@[i as int]));
            assert(out@ =~= old(out)@ + enc_u32(b@.len() as u32) + b@.take(i + 1));
        }
        i = i + 1;
    }
    proof {
        assert(b@.take(b@.len() as int) =~= b@);
        assert(out@ =~= old(out)@ + enc_blob(b@));
    }
}

/// Appends the entries `j ..` of a tagged-blob list.
fn write_titems(out: &mut Vec<u8>, l: &Vec<(u32, Vec<u8>)>, j: usize)
    requires
        j <= l@.len(),
        forall|i: int| 0 <= i < l@.len() ==> (#[trigger] l@[i]).1@.len() < 0x1_0000_0000,
    ensures
        final(out)@ == old(out)@ + enc_titems(blob_entries_model(l@).skip(j as int)),
    decreases l@.len() - j,
{
    if j == l.len() {
        proof {
            assert(blob_entries_model(l@).skip(j as int) =~= Seq::<(u32, Seq<u8>)>::empty());
            assert(out@ =~= old(out)@ + enc_titems(blob_entries_model(l@).skip(j as int)));
        }
        return ;
    }
    push_u32(out, l[j].0);
    push_blob(out, &l[j].1);
    write_titems(out, l, j + 1);
    proof {
        let m = blob_entries_model(l@);
        assert(m.skip(j as int)[0] == (l@[j as int].0, l@[j as int].1@));
        assert(m.skip(j as int).drop_first() =~= m.skip(j + 1));
        assert(enc_titems(m.skip(j as int)) == enc_u32(l@[j as int].0) + enc_blob(l@[j as int].1@)
            + enc_titems(m.skip(j + 1)));
        assert(out@ =~= old(out)@ + enc_titems(m.skip(j as int)));
    }
}

/// Appends a length-prefixed tagged-blob list.
fn write_tlist(out: &mut Vec<u8>, l: &Vec<(u32, Vec<u8>)>)
    requires
        l@.len() < 0x1_0000_0000,
        forall|i: int| 0 <= i < l@.len() ==> (#[trigger] l@[i]).1@.len() < 0x1_0000_0000,
    ensures
        final(out)@ == old(out)@ + enc_tlist(blob_entries_model(l@)),
{
    push_u32(out, l.len() as u32);
    write_titems(out, l, 0);
    proof {
        assert(blob_entries_model(l@).skip(0) =~= blob_entries_model(l@));
        assert(out@ =~= old(out)@ + enc_tlist(blob_entries_model(l@)));
    }
}

/// Appends the entries `j ..` of an id list.
fn write_iitems(out: &mut Vec<u8>, l: &Vec<u32>, j: usize)
    requires
        j <= l@.len(),
    ensures
        final(out)@ == old(out)@ + enc_iitems(l@.skip(j as int)),
    decreases l@.len() - j,
{
    if j == l.len() {
        proof {
            assert(l@.skip(j as int) =~= Seq::<u32>::empty());
            assert(out@ =~= old(out)@ + enc_iitems(l@.skip(j as int)));
        }
        return ;
    }
    push_u32(out, l[j]);
    write_iitems(out, l, j + 1);
    proof {
        assert(l@.skip(j as int)[0] == l@[j as int]);
        assert(l@.skip(j as int).drop_first() =~= l@.skip(j + 1));
        assert(out@ =~= old(out)@ + enc_iitems(l@.skip(j as int)));
    }
}

/// Appends a length-prefixed id list.
fn write_ilist(out: &mut Vec<u8>, l: &Vec<u32>)
    requires
        l@.len() < 0x1_0000_0000,
    ensures
        final(out)@ == old(out)@ + enc_ilist(l@),
{
    push_u32(out, l.len() as u32);
    write_iitems(out, l, 0);
    proof {
        assert(l@.skip(0) =~= l@);
        assert(out@ =~= old(out)@ + enc_ilist(l@));
    }
}

/// Encodes a stored keygen result. `None` exactly when some count or
/// payload would overflow its 32-bit length field.
#[verifier::loop_isolation(false)]
#[verifier::rlimit(60)]
pub fn encode_state(st: &WstsState) -> (r: Option<Vec<u8>>)
    ensures
        r matches Some(v) ==> v@ == enc_state(*st),
        r is Some <==> state_encodable(*st),
{
    let cap: usize = 0xFFFF_FFFF;
    if st.shares.len() > cap || st.key_ids.len() > cap || st.poly_commitments.len() > cap
        || st.party_state.len() > cap || st.public_key_frost_format.len() > cap {
        return None;
    }
    // Bounds of the nested share maps and id lists.
    let mut i: usize = 0;
    while i < st.shares.len()
        invariant
            i <= st.shares@.len(),
            forall|a: int|
                0 <= a < i ==> (#[trigger] st.shares@[a]).1@.len() < 0x1_0000_0000,
            forall|a: int, b: int|
                0 <= a < i && 0 <= b < st.shares@[a].1@.len()
                    ==> (#[trigger] st.shares@[a].1@[b]).1@.len() < 0x1_0000_0000,
        decreases st.shares@.len() - i,
    {
        if st.shares[i].1.len() > cap {
            return None;
        }
        let mut b: usize = 0;
        while b < st.shares[i].1.len()
            invariant
                i < st.shares@.len(),
                b <= st.shares@[i as int].1@.len(),
                forall|c: int|
                    0 <= c < b ==> (#[trigger] st.shares@[i as int].1@[c]).1@.len()
                        < 0x1_0000_0000,
            decreases st.shares@[i as int].1@.len() - b,
        {
            if st.shares[i].1[b].1.len() > cap {
                return None;
            }
            b = b + 1;
        }
        i = i + 1;
    }
    let mut k: usize = 0;
    while k < st.key_ids.len()
        invariant
            k <= st.key_ids@.len(),
            forall|a: int| 0 <= a < k ==> (#[trigger] st.key_ids@[a]).1@.len() < 0x1_0000_0000,
        decreases st.key_ids@.len() - k,
    {
        if st.key_ids[k].1.len() > cap {
            return None;
        }
        k = k + 1;
    }
    let mut p: usize = 0;
    while p < st.poly_commitments.len()
        invariant
            p <= st.poly_commitments@.len(),
            forall|a: int|
                0 <= a < p ==> (#[trigger] st.poly_commitments@[a]).1@.len() < 0x1_0000_0000,
        decreases st.poly_commitments@.len() - p,
    {
        if st.poly_commitments[p].1.len() > cap {
            return None;
        }
        p = p + 1;
    }

    // Serialize each party's share map and id list into payloads.
    let mut share_payloads: Vec<(u32, Vec<u8>)> = Vec::new();
    let mut si: usize = 0;
    while si < st.shares.len()
        invariant
            si <= st.shares@.len(),
            forall|a: int|
                0 <= a < st.shares@.len() ==> (#[trigger] st.shares@[a]).1@.len()
                    < 0x1_0000_0000,
            forall|a: int, b: int|
                0 <= a < st.shares@.len() && 0 <= b < st.shares@[a].1@.len()
                    ==> (#[trigger] st.shares@[a].1@[b]).1@.len() < 0x1_0000_0000,
            share_payloads@.len() == si,
            forall|a: int|
                0 <= a < si ==> (#[trigger] share_payloads@[a]).0 == st.shares@[a].0
                    && share_payloads@[a].1@ == enc_tlist(
                    blob_entries_model(st.shares@[a].1@),
                ) && share_payloads@[a].1@.len() < 0x1_0000_0000,
        decreases st.shares@.len() - si,
    {
        let mut payload: Vec<u8> = Vec::new();
        write_tlist(&mut payload, &st.shares[si].1);
        proof {
            assert(payload@ =~= enc_tlist(blob_entries_model(st.shares@[si as int].1@)));
        }
        if payload.len() > cap {
            return None;
        }
        share_payloads.push((st.shares[si].0, payload));
        si = si + 1;
    }
    let mut keyid_payloads: Vec<(u32, Vec<u8>)> = Vec::new();
    let mut ki: usize = 0;
    while ki < st.key_ids.len()
        invariant
            ki <= st.key_ids@.len(),
            forall|a: int|
                0 <= a < st.key_ids@.len() ==> (#[trigger] st.key_ids@[a]).1@.len()
                    < 0x1_0000_0000,
            keyid_payloads@.len() == ki,
            forall|a: int|
                0 <= a < ki ==> (#[trigger] keyid_payloads@[a]).0 == st.key_ids@[a].0
                    && keyid_payloads@[a].1@ == enc_ilist(st.key_ids@[a].1@)
                    && keyid_payloads@[a].1@.len() < 0x1_0000_0000,
        decreases st.key_ids@.len() - ki,
    {
        let mut payload: Vec<u8> = Vec::new();
        write_ilist(&mut payload, &st.key_ids[ki].1);
        proof {
            assert(payload@ =~= enc_ilist(st.key_ids@[ki as int].1@));
        }
        if payload.len() > cap {
            return None;
        }
        keyid_payloads.push((st.key_ids[ki].0, payload));
        ki = ki + 1;
    }

    let mut out: Vec<u8> = Vec::new();
    push_u32(&mut out, st.party_id);
    push_u32(&mut out, st.n_signers);
    push_u32(&mut out, st.threshold);
    push_u32(&mut out, st.num_keys);
    write_tlist(&mut out, &share_payloads);
    write_tlist(&mut out, &keyid_payloads);
    write_tlist(&mut out, &st.poly_commitments);
    push_blob(&mut out, &st.party_state);
    push_blob(&mut out, &st.public_key_frost_format);
    proof {
        reveal(enc_state);
        assert(blob_entries_model(share_payloads@) =~= shares_wire(st.shares@));
        assert(blob_entries_model(keyid_payloads@) =~= keyids_wire(st.key_ids@));
        assert(out@ =~= enc_state(*st));
        assert forall|a: int| 0 <= a < st.shares@.len() implies enc_tlist(
            blob_entries_model((#[trigger] st.shares@[a]).1@),
        ).len() < 0x1_0000_0000 by {
            assert(share_payloads@[a].1@ == enc_tlist(blob_entries_model(st.shares@[a].1@)));
        }
        assert forall|a: int| 0 <= a < st.key_ids@.len() implies enc_ilist(
            (#[trigger] st.key_ids@[a]).1@,
        ).len() < 0x1_0000_0000 by {
            assert(keyid_payloads@[a].1@ == enc_ilist(st.key_ids@[a].1@));
        }
        assert(state_encodable(*st));
    }
    Some(out)
}

} // verus!
// The decoder and the round-trip law.

verus! {

/// The model of a share table: each party's share map as tagged byte
/// strings.
pub open spec fn shares_table_model(l: Seq<(u32, Vec<(u32, Vec<u8>)>)>) -> Seq<
    (u32, Seq<(u32, Seq<u8>)>),
> {
    l.map_values(|e: (u32, Vec<(u32, Vec<u8>)>)| (e.0, blob_entries_model(e.1@)))
}

/// The model of a key-id table: each party's id list.
pub open spec fn keyids_table_model(l: Seq<(u32, Vec<u32>)>) -> Seq<(u32, Seq<u32>)> {
    l.map_values(|e: (u32, Vec<u32>)| (e.0, e.1@))
}

/// Parses every share-table payload as a full tagged-blob list.
pub open spec fn parse_share_payloads(l: Seq<(u32, Seq<u8>)>) -> Option<
    Seq<(u32, Seq<(u32, Seq<u8>)>)>,
>
    decreases l.len(),
{
    if l.len() == 0 {
        Some(Seq::empty())
    } else {
        match dec_tlist(l[0].1, 0) {
            Some((inner, end)) => {
                if end == l[0].1.len() {
                    match parse_share_payloads(l.drop_first()) {
                        Some(rest) => Some(seq![(l[0].0, inner)] + rest),
                        None => None,
                    }
                } else {
                    None
                }
            },
            None => None,
        }
    }
}

/// Parses every key-id payload as a full id list.
pub open spec fn parse_keyid_payloads(l: Seq<(u32, Seq<u8>)>) -> Option<Seq<(u32, Seq<u32>)>>
    decreases l.len(),
{
    if l.len() == 0 {
        Some(Seq::empty())
    } else {
        match dec_ilist(l[0].1, 0) {
            Some((inner, end)) => {
                if end == l[0].1.len() {
                    match parse_keyid_payloads(l.drop_first()) {
                        Some(rest) => Some(seq![(l[0].0, inner)] + rest),
                        None => None,
                    }
                } else {
                    None
                }
            },
            None => None,
        }
    }
}

/// Reads a whole encoded state: the four numbers, the three tables, the two
/// byte strings, nothing left over.
#[verifier::opaque]
pub open spec fn dec_state(s: Seq<u8>) -> Option<StateModel> {
    match dec_u32(s, 0) {
        None => None,
        Some((party_id, i1)) => match dec_u32(s, i1) {
            None => None,
            Some((n_signers, i2)) => match dec_u32(s, i2) {
                None => None,
                Some((threshold, i3)) => match dec_u32(s, i3) {
                    None => None,
                    Some((num_keys, i4)) => match dec_tlist(s, i4) {
                        None => None,
                        Some((shares_raw, i5)) => match dec_tlist(s, i5) {
                            None => None,
                            Some((keyids_raw, i6)) => match dec_tlist(s, i6) {
                                None => None,
                                Some((polys, i7)) => match dec_blob(s, i7) {
                                    None => None,
                                    Some((party_state, i8)) => match dec_blob(s, i8) {
                                        None => None,
                                        Some((pk, i9)) => {
                                            if i9 == s.len() {
                                                match parse_share_payloads(shares_raw) {
                                                    None => None,
                                                    Some(shares) => match parse_keyid_payloads(
                                                        keyids_raw,
                                                    ) {
                                                        None => None,
                                                        Some(key_ids) => Some(
                                                            StateModel {
                                                                party_id,
                                                                n_signers,
                                                                threshold,
                                                                num_keys,
                                                                shares,
                                                                key_ids,
                                                                poly_commitments: polys,
                                                                party_state,
                                                                public_key_frost_format: pk,
                                                            },
                                                        ),
                                                    },
                                                }
                                            } else {
                                                None
                                            }
                                        },
                                    },
                                },
                            },
                        },
                    },
                },
            },
        },
    }
}

/// Reads a big-endian `u32`.
fn read_u32(b: &Vec<u8>, pos: usize) -> (r: Option<(u32, usize)>)
    ensures
        match r {
            Some(t) => dec_u32(b@, pos as int) == Some((t.0, t.1 as int)) && t.1 <= b@.len(),
            None => dec_u32(b@, pos as int) is None,
        },
{
    if pos > b.len() || b.len() - pos < 4 {
        return None;
    }
    let x = ((b[pos] as u32) << 24) | ((b[pos + 1] as u32) << 16) | ((b[pos + 2] as u32) << 8) | (
    b[pos + 3] as u32);
    Some((x, pos + 4))
}

/// Reads a length-prefixed byte string.
#[verifier::loop_isolation(false)]
fn read_blob(b: &Vec<u8>, pos: usize) -> (r: Option<(Vec<u8>, usize)>)
    ensures
        match r {
            Some(t) => dec_blob(b@, pos as int) == Some((t.0@, t.1 as int)) && t.1 <= b@.len(),
            None => dec_blob(b@, pos as int) is None,
        },
{
    let (len, j) = match read_u32(b, pos) {
        Some(t) => t,
        None => {
            return None;
        },
    };
    let len_usize = len as usize;
    if len_usize > b.len() - j {
        return None;
    }
    let mut out: Vec<u8> = Vec::new();
    let mut i: usize = j;
    while i < j + len_usize
        invariant
            j <= i <= j + len_usize,
            j + len_usize <= b@.len(),
            out@.len() == i - j,
            forall|x: int| 0 <= x < i - j ==> out@[x] == b@[j + x],
        decreases j + len_usize - i,
    {
        out.push(b[i]);
        i = i + 1;
    }
    proof {
        assert(out@ =~= b@.subrange(j as int, j + len_usize));
    }
    Some((out, j + len_usize))
}

/// Reads `cnt` tagged-blob entries.
fn read_titems(b: &Vec<u8>, pos: usize, cnt: u32) -> (r: Option<(Vec<(u32, Vec<u8>)>, usize)>)
    requires
        pos <= b@.len(),
    ensures
        match r {
            Some(t) => dec_titems(b@, pos as int, cnt as nat) == Some(
                (blob_entries_model(t.0@), t.1 as int),
            ) && t.1 <= b@.len(),
            None => dec_titems(b@, pos as int, cnt as nat) is None,
        },
    decreases cnt,
{
    if cnt == 0 {
        let v: Vec<(u32, Vec<u8>)> = Vec::new();
        proof {
            assert(blob_entries_model(v@) =~= Seq::<(u32, Seq<u8>)>::empty());
        }
        return Some((v, pos));
    }
    let (tag, j) = match read_u32(b, pos) {
        Some(t) => t,
        None => {
            return None;
        },
    };
    let (payload, k) = match read_blob(b, j) {
        Some(t) => t,
        None => {
            return None;
        },
    };
    let (mut rest, end) = match read_titems(b, k, cnt - 1) {
        Some(t) => t,
        None => {
            return None;
        },
    };
    let ghost pre_rest = rest@;
    rest.insert(0, (tag, payload));
    proof {
        assert(blob_entries_model(rest@) =~= seq![(tag, payload@)] + blob_entries_model(pre_rest));
    }
    Some((rest, end))
}

/// Reads a length-prefixed tagged-blob list.
fn read_tlist(b: &Vec<u8>, pos: usize) -> (r: Option<(Vec<(u32, Vec<u8>)>, usize)>)
    ensures
        match r {
            Some(t) => dec_tlist(b@, pos as int) == Some(
                (blob_entries_model(t.0@), t.1 as int),
            ) && t.1 <= b@.len(),
            None => dec_tlist(b@, pos as int) is None,
        },
{
    let (cnt, j) = match read_u32(b, pos) {
        Some(t) => t,
        None => {
            return None;
        },
    };
    read_titems(b, j, cnt)
}

/// Reads `cnt` ids.
fn read_iitems(b: &Vec<u8>, pos: usize, cnt: u32) -> (r: Option<(Vec<u32>, usize)>)
    requires
        pos <= b@.len(),
    ensures
        match r {
            Some(t) => dec_iitems(b@, pos as int, cnt as nat) == Some((t.0@, t.1 as int)) && t.1
                <= b@.len(),
            None => dec_iitems(b@, pos as int, cnt as nat) is None,
        },
    decreases cnt,
{
    if cnt == 0 {
        let v: Vec<u32> = Vec::new();
        proof {
            assert(v@ =~= Seq::<u32>::empty());
        }
        return Some((v, pos));
    }
    let (x, j) = match read_u32(b, pos) {
        Some(t) => t,
        None => {
            return None;
        },
    };
    let (mut rest, end) = match read_iitems(b, j, cnt - 1) {
        Some(t) => t,
        None => {
            return None;
        },
    };
    let ghost pre_rest = rest@;
    rest.insert(0, x);
    proof {
        assert(rest@ =~= seq![x] + pre_rest);
    }
    Some((rest, end))
}

/// Reads a length-prefixed id list.
fn read_ilist(b: &Vec<u8>, pos: usize) -> (r: Option<(Vec<u32>, usize)>)
    ensures
        match r {
            Some(t) => dec_ilist(b@, pos as int) == Some((t.0@, t.1 as int)) && t.1 <= b@.len(),
            None => dec_ilist(b@, pos as int) is None,
        },
{
    let (cnt, j) = match read_u32(b, pos) {
        Some(t) => t,
        None => {
            return None;
        },
    };
    read_iitems(b, j, cnt)
}

/// Parses the share-table payloads from entry `j` on.
fn parse_share_payloads_exec(raw: &Vec<(u32, Vec<u8>)>, j: usize) -> (r: Option<
    Vec<(u32, Vec<(u32, Vec<u8>)>)>,
>)
    requires
        j <= raw@.len(),
    ensures
        match r {
            Some(v) => parse_share_payloads(blob_entries_model(raw@).skip(j as int)) == Some(
                shares_table_model(v@),
            ),
            None => parse_share_payloads(blob_entries_model(raw@).skip(j as int)) is None,
        },
    decreases raw@.len() - j,
{
    let ghost tail = blob_entries_model(raw@).skip(j as int);
    if j == raw.len() {
        let v: Vec<(u32, Vec<(u32, Vec<u8>)>)> = Vec::new();
        proof {
            assert(tail =~= Seq::<(u32, Seq<u8>)>::empty());
            assert(shares_table_model(v@) =~= Seq::<(u32, Seq<(u32, Seq<u8>)>)>::empty());
        }
        return Some(v);
    }
    proof {
        assert(tail[0] == (raw@[j as int].0, raw@[j as int].1@));
    }
    let (inner, end) = match read_tlist(&raw[j].1, 0) {
        Some(t) => t,
        None => {
            return None;
        },
    };
    if end != raw[j].1.len() {
        return None;
    }
    let mut out = match parse_share_payloads_exec(raw, j + 1) {
        Some(v) => v,
        None => {
            proof {
                assert(tail.drop_first() =~= blob_entries_model(raw@).skip(j + 1));
            }
            return None;
        },
    };
    let ghost pre_out = out@;
    out.insert(0, (raw[j].0, inner));
    proof {
        assert(tail.drop_first() =~= blob_entries_model(raw@).skip(j + 1));
        assert(shares_table_model(out@) =~= seq![(raw@[j as int].0, blob_entries_model(inner@))]
            + shares_table_model(pre_out));
    }
    Some(out)
}

/// Parses the key-id payloads from entry `j` on.
fn parse_keyid_payloads_exec(raw: &Vec<(u32, Vec<u8>)>, j: usize) -> (r: Option<
    Vec<(u32, Vec<u32>)>,
>)
    requires
        j <= raw@.len(),
    ensures
        match r {
            Some(v) => parse_keyid_payloads(blob_entries_model(raw@).skip(j as int)) == Some(
                keyids_table_model(v@),
            ),
            None => parse_keyid_payloads(blob_entries_model(raw@).skip(j as int)) is None,
        },
    decreases raw@.len() - j,
{
    let ghost tail = blob_entries_model(raw@).skip(j as int);
    if j == raw.len() {
        let v: Vec<(u32, Vec<u32>)> = Vec::new();
        proof {
            assert(tail =~= Seq::<(u32, Seq<u8>)>::empty());
            assert(keyids_table_model(v@) =~= Seq::<(u32, Seq<u32>)>::empty());
        }
        return Some(v);
    }
    proof {
        assert(tail[0] == (raw@[j as int].0, raw@[j as int].1@));
    }
    let (inner, end) = match read_ilist(&raw[j].1, 0) {
        Some(t) => t,
        None => {
            return None;
        },
    };
    if end != raw[j].1.len() {
        return None;
    }
    let mut out = match parse_keyid_payloads_exec(raw, j + 1) {
        Some(v) => v,
        None => {
            proof {
                assert(tail.drop_first() =~= blob_entries_model(raw@).skip(j + 1));
            }
            return None;
        },
    };
    let ghost pre_out = out@;
    out.insert(0, (raw[j].0, inner));
    proof {
        assert(tail.drop_first() =~= blob_entries_model(raw@).skip(j + 1));
        assert(keyids_table_model(out@) =~= seq![(raw@[j as int].0, inner@)] + keyids_table_model(
            pre_out,
        ));
    }
    Some(out)
}

/// Decodes a stored keygen result. The result's mathematical value is
/// exactly what [`dec_state`] reads from the bytes.
pub fn decode_state(b: &Vec<u8>) -> (r: Option<WstsState>)
    ensures
        r matches Some(st) ==> dec_state(b@) == Some(state_model(st)),
        r is None ==> dec_state(b@) is None,
{
    proof {
        reveal(dec_state);
    }
    let (party_id, i1) = match read_u32(b, 0) {
        Some(t) => t,
        None => {
            return None;
        },
    };
    let (n_signers, i2) = match read_u32(b, i1) {
        Some(t) => t,
        None => {
            return None;
        },
    };
    let (threshold, i3) = match read_u32(b, i2) {
        Some(t) => t,
        None => {
            return None;
        },
    };
    let (num_keys, i4) = match read_u32(b, i3) {
        Some(t) => t,
        None => {
            return None;
        },
    };
    let (shares_raw, i5) = match read_tlist(b, i4) {
        Some(t) => t,
        None => {
            return None;
        },
    };
    let (keyids_raw, i6) = match read_tlist(b, i5) {
        Some(t) => t,
        None => {
            return None;
        },
    };
    let (polys, i7) = match read_tlist(b, i6) {
        Some(t) => t,
        None => {
            return None;
        },
    };
    let (party_state, i8) = match read_blob(b, i7) {
        Some(t) => t,
        None => {
            return None;
        },
    };
    let (pk, i9) = match read_blob(b, i8) {
        Some(t) => t,
        None => {
            return None;
        },
    };
    if i9 != b.len() {
        return None;
    }
    let ghost shares_tail = blob_entries_model(shares_raw@).skip(0);
    let shares = match parse_share_payloads_exec(&shares_raw, 0) {
        Some(v) => v,
        None => {
            proof {
                assert(shares_tail =~= blob_entries_model(shares_raw@));
            }
            return None;
        },
    };
    let ghost keyid_tail = blob_entries_model(keyids_raw@).skip(0);
    let key_ids = match parse_keyid_payloads_exec(&keyids_raw, 0) {
        Some(v) => v,
        None => {
            proof {
                assert(shares_tail =~= blob_entries_model(shares_raw@));
                assert(keyid_tail =~= blob_entries_model(keyids_raw@));
            }
            return None;
        },
    };
    let st = WstsState {
        party_id,
        n_signers,
        threshold,
        num_keys,
        shares,
        key_ids,
        poly_commitments: polys,
        party_state,
        public_key_frost_format: pk,
    };
    proof {
        assert(shares_tail =~= blob_entries_model(shares_raw@));
        assert(keyid_tail =~= blob_entries_model(keyids_raw@));
        assert(state_model(st).shares == shares_table_model(st.shares@));
        assert(state_model(st).key_ids == keyids_table_model(st.key_ids@));
        assert(dec_state(b@) == Some(state_model(st)));
    }
    Some(st)
}

/// Every payload of the share table parses back to the table itself.
#[verifier::rlimit(100)]
#[verifier::spinoff_prover]
pub proof fn lemma_parse_share_payloads(l: Seq<(u32, Vec<(u32, Vec<u8>)>)>)
    requires
        forall|i: int|
            0 <= i < l.len() ==> (#[trigger] l[i]).1@.len() < 0x1_0000_0000,
        forall|i: int, j: int|
            0 <= i < l.len() && 0 <= j < l[i].1@.len() ==> (#[trigger] l[i].1@[j]).1@.len()
                < 0x1_0000_0000,
    ensures
        parse_share_payloads(shares_wire(l)) == Some(shares_table_model(l)),
    decreases l.len(),
{
    if l.len() == 0 {
        assert(shares_wire(l) =~= Seq::<(u32, Seq<u8>)>::empty());
        assert(shares_table_model(l) =~= Seq::<(u32, Seq<(u32, Seq<u8>)>)>::empty());
    } else {
        let w = shares_wire(l);
        let inner = blob_entries_model(l[0].1@);
        assert(w[0] == (l[0].0, enc_tlist(inner)));
        assert(enc_tlist(inner).subrange(0, enc_tlist(inner).len() as int) =~= enc_tlist(inner));
        lemma_dec_tlist_at(enc_tlist(inner), 0, inner);
        assert(dec_tlist(enc_tlist(inner), 0) == Some((inner, enc_tlist(inner).len() as int)));
        assert(w.drop_first() =~= shares_wire(l.drop_first()));
        lemma_parse_share_payloads(l.drop_first());
        assert(seq![(l[0].0, inner)] + shares_table_model(l.drop_first()) =~= shares_table_model(
            l,
        ));
    }
}

/// Every payload of the key-id table parses back to the table itself.
#[verifier::rlimit(100)]
#[verifier::spinoff_prover]
pub proof fn lemma_parse_keyid_payloads(l: Seq<(u32, Vec<u32>)>)
    requires
        forall|i: int| 0 <= i < l.len() ==> (#[trigger] l[i]).1@.len() < 0x1_0000_0000,
    ensures
        parse_keyid_payloads(keyids_wire(l)) == Some(keyids_table_model(l)),
    decreases l.len(),
{
    if l.len() == 0 {
        assert(keyids_wire(l) =~= Seq::<(u32, Seq<u8>)>::empty());
        assert(keyids_table_model(l) =~= Seq::<(u32, Seq<u32>)>::empty());
    } else {
        let w = keyids_wire(l);
        let inner = l[0].1@;
        assert(w[0] == (l[0].0, enc_ilist(inner)));
        assert(enc_ilist(inner).subrange(0, enc_ilist(inner).len() as int) =~= enc_ilist(inner));
        lemma_dec_ilist_at(enc_ilist(inner), 0, inner);
        assert(dec_ilist(enc_ilist(inner), 0) == Some((inner, enc_ilist(inner).len() as int)));
        assert(w.drop_first() =~= keyids_wire(l.drop_first()));
        lemma_parse_keyid_payloads(l.drop_first());
        assert(seq![(l[0].0, inner)] + keyids_table_model(l.drop_first()) =~= keyids_table_model(
            l,
        ));
    }
}

/// Where each field of the encoding begins: the three tables and the two
/// byte strings follow the four numbers.
pub open spec fn pos_keyids(st: WstsState) -> int {
    16 + enc_tlist(shares_wire(st.shares@)).len() as int
}

/// Where the commitment table begins.
pub open spec fn pos_polys(st: WstsState) -> int {
    pos_keyids(st) + enc_tlist(keyids_wire(st.key_ids@)).len() as int
}

/// Where the serialized party state begins.
pub open spec fn pos_pstate(st: WstsState) -> int {
    pos_polys(st) + enc_tlist(blob_entries_model(st.poly_commitments@)).len() as int
}

/// Where the group key begins.
pub open spec fn pos_pk(st: WstsState) -> int {
    pos_pstate(st) + enc_blob(st.party_state@).len() as int
}

/// Where the encoding ends.
pub open spec fn pos_end(st: WstsState) -> int {
    pos_pk(st) + enc_blob(st.public_key_frost_format@).len() as int
}

/// The four numbers and the two id tables decode at their positions.
#[verifier::rlimit(100)]
#[verifier::spinoff_prover]
proof fn lemma_state_dec_front(st: WstsState)
    requires
        state_encodable(st),
    ensures
        dec_u32(enc_state(st), 0) == Some((st.party_id, 4 as int)),
        dec_u32(enc_state(st), 4) == Some((st.n_signers, 8 as int)),
        dec_u32(enc_state(st), 8) == Some((st.threshold, 12 as int)),
        dec_u32(enc_state(st), 12) == Some((st.num_keys, 16 as int)),
        dec_tlist(enc_state(st), 16) == Some((shares_wire(st.shares@), pos_keyids(st))),
        dec_tlist(enc_state(st), pos_keyids(st)) == Some(
            (keyids_wire(st.key_ids@), pos_polys(st)),
        ),
{
    reveal(enc_state);
    let s = enc_state(st);
    let a = enc_u32(st.party_id);
    let b = enc_u32(st.n_signers);
    let c = enc_u32(st.threshold);
    let d = enc_u32(st.num_keys);
    let sw = shares_wire(st.shares@);
    let kw = keyids_wire(st.key_ids@);
    let pw = blob_entries_model(st.poly_commitments@);
    let e = enc_tlist(sw);
    let f = enc_tlist(kw);
    let g = enc_tlist(pw);
    let h = enc_blob(st.party_state@);
    let i = enc_blob(st.public_key_frost_format@);
    assert(s == a + b + c + d + e + f + g + h + i);
    let p5 = 16 + e.len() as int;
    let p6 = p5 + f.len() as int;
    assert(p5 == pos_keyids(st) && p6 == pos_polys(st));

    assert(s.subrange(0, 4) =~= a);
    lemma_dec_u32_at(s, 0, st.party_id);
    assert(s.subrange(4, 8) =~= b);
    lemma_dec_u32_at(s, 4, st.n_signers);
    assert(s.subrange(8, 12) =~= c);
    lemma_dec_u32_at(s, 8, st.threshold);
    assert(s.subrange(12, 16) =~= d);
    lemma_dec_u32_at(s, 12, st.num_keys);

    assert forall|x: int| 0 <= x < sw.len() implies (#[trigger] sw[x]).1.len()
        < 0x1_0000_0000 by {
        assert(sw[x] == (st.shares@[x].0, enc_tlist(blob_entries_model(st.shares@[x].1@))));
    }
    assert(s.subrange(16, p5) =~= e) by {
        assert forall|j: int| 0 <= j < e.len() implies s[16 + j] == (#[trigger] e[j]) by {}
    }
    lemma_dec_tlist_at(s, 16, sw);

    assert forall|x: int| 0 <= x < kw.len() implies (#[trigger] kw[x]).1.len()
        < 0x1_0000_0000 by {
        assert(kw[x] == (st.key_ids@[x].0, enc_ilist(st.key_ids@[x].1@)));
    }
    assert(s.subrange(p5, p6) =~= f) by {
        assert forall|j: int| 0 <= j < f.len() implies s[p5 + j] == (#[trigger] f[j]) by {}
    }
    lemma_dec_tlist_at(s, p5, kw);
}

/// The bytes of the commitment table stand between `pos_polys` and
/// `pos_pstate`.
#[verifier::rlimit(100)]
#[verifier::spinoff_prover]
proof fn lemma_state_sub_polys(st: WstsState)
    ensures
        enc_state(st).len() == pos_end(st),
        enc_state(st).subrange(pos_polys(st), pos_pstate(st)) == enc_tlist(
            blob_entries_model(st.poly_commitments@),
        ),
{
    reveal(enc_state);
    let s = enc_state(st);
    let g = enc_tlist(blob_entries_model(st.poly_commitments@));
    let p6 = pos_polys(st);
    let p7 = pos_pstate(st);
    assert(s.subrange(p6, p7) =~= g) by {
        assert forall|j: int| 0 <= j < g.len() implies s[p6 + j] == (#[trigger] g[j]) by {}
    }
}

/// The bytes of the serialized party state stand between `pos_pstate` and
/// `pos_pk`.
#[verifier::rlimit(100)]
#[verifier::spinoff_prover]
proof fn lemma_state_sub_pstate(st: WstsState)
    ensures
        enc_state(st).subrange(pos_pstate(st), pos_pk(st)) == enc_blob(st.party_state@),
{
    reveal(enc_state);
    let s = enc_state(st);
    let h = enc_blob(st.party_state@);
    let p7 = pos_pstate(st);
    let p8 = pos_pk(st);
    assert(s.subrange(p7, p8) =~= h) by {
        assert forall|j: int| 0 <= j < h.len() implies s[p7 + j] == (#[trigger] h[j]) by {}
    }
}

/// The bytes of the group key stand between `pos_pk` and the end.
#[verifier::rlimit(100)]
#[verifier::spinoff_prover]
proof fn lemma_state_sub_pk(st: WstsState)
    ensures
        enc_state(st).subrange(pos_pk(st), pos_end(st)) == enc_blob(
            st.public_key_frost_format@,
        ),
{
    reveal(enc_state);
    let s = enc_state(st);
    let i = enc_blob(st.public_key_frost_format@);
    let p8 = pos_pk(st);
    let p9 = pos_end(st);
    assert(s.subrange(p8, p9) =~= i) by {
        assert forall|j: int| 0 <= j < i.len() implies s[p8 + j] == (#[trigger] i[j]) by {}
    }
}

/// The commitment table and the two byte strings decode at their positions,
/// ending exactly at the end of the encoding.
#[verifier::rlimit(100)]
#[verifier::spinoff_prover]
proof fn lemma_state_dec_back(st: WstsState)
    requires
        state_encodable(st),
    ensures
        dec_tlist(enc_state(st), pos_polys(st)) == Some(
            (blob_entries_model(st.poly_commitments@), pos_pstate(st)),
        ),
        dec_blob(enc_state(st), pos_pstate(st)) == Some((st.party_state@, pos_pk(st))),
        dec_blob(enc_state(st), pos_pk(st)) == Some(
            (st.public_key_frost_format@, pos_end(st)),
        ),
        pos_end(st) == enc_state(st).len(),
{
    let s = enc_state(st);
    let pw = blob_entries_model(st.poly_commitments@);
    lemma_state_sub_polys(st);
    lemma_state_sub_pstate(st);
    lemma_state_sub_pk(st);
    assert forall|x: int| 0 <= x < pw.len() implies (#[trigger] pw[x]).1.len()
        < 0x1_0000_0000 by {
        assert(pw[x] == (st.poly_commitments@[x].0, st.poly_commitments@[x].1@));
    }
    lemma_dec_tlist_at(s, pos_polys(st), pw);
    lemma_dec_blob_at(s, pos_pstate(st), st.party_state@);
    lemma_dec_blob_at(s, pos_pk(st), st.public_key_frost_format@);
}

/// Serialize-then-deserialize is exact: reading back the encoding of any
/// encodable state yields precisely the state's mathematical value.
#[verifier::rlimit(100)]
#[verifier::spinoff_prover]
pub proof fn lemma_state_codec_round_trip(st: WstsState)
    requires
        state_encodable(st),
    ensures
        dec_state(enc_state(st)) == Some(state_model(st)),
{
    reveal(dec_state);
    lemma_state_dec_front(st);
    lemma_state_dec_back(st);
    lemma_parse_share_payloads(st.shares@);
    lemma_parse_keyid_payloads(st.key_ids@);
    assert(dec_state(enc_state(st)) == Some(state_model(st)));
}

} // verus!
