//! End-to-end and unit tests for the WSTS keygen and signing library,
//! running against the real threshold-cryptography crates.

use wsts_blueprint::codec::{decode_state, encode_state};
use wsts_blueprint::compute_execution_hashes;
use wsts_blueprint::keygen::{keygen_setup, KeygenError, KeygenSession};
use wsts_blueprint::keygen_state_machine::{keygen_broadcast, wsts_protocol, KeygenMsg, WstsState};
use wsts_blueprint::sig_format::{encode_signature, frost_compact_form, split_signature};
use wsts_blueprint::signing::{load_keygen_state, validate_operator_keys, SigningError};
use wsts_blueprint::signing_state_machine::{
    wsts_signing_protocol, wsts_signing_round1, wsts_signing_round2, Round1Msg, Round2Msg,
};
use wsts_blueprint::store::{store_key_for, KeygenStore};
use wsts_blueprint::utils::{generate_party_key_ids, validate_parameters};

fn operator_keys(n: u32) -> Vec<Vec<u8>> {
    (0..n)
        .map(|i| {
            p256k1::point::Point::from(p256k1::scalar::Scalar::from(i + 7)).compress().data.to_vec()
        })
        .collect()
}

fn clone_keygen_msg(m: &KeygenMsg) -> KeygenMsg {
    KeygenMsg {
        source: m.source,
        shares: m.shares.iter().map(|(k, v)| (*k, v.clone())).collect(),
        key_ids: m.key_ids.clone(),
        poly_commitment: m.poly_commitment.clone(),
    }
}

fn clone_round1(m: &Round1Msg) -> Round1Msg {
    Round1Msg { source: m.source, key_ids: m.key_ids.clone(), nonce: m.nonce.clone() }
}

fn clone_round2(m: &Round2Msg) -> Round2Msg {
    Round2Msg { source: m.source, signature_share: m.signature_share.clone() }
}

/// Runs a full keygen for `n` parties and returns each party's state.
fn run_keygen(n: u32, t: u16, blueprint_id: u64, call_id: u64) -> (Vec<WstsState>, Vec<Vec<u8>>) {
    let keys = operator_keys(n);
    let mut sessions: Vec<KeygenSession> = (0..n)
        .map(|i| {
            keygen_setup(t, i as u16, blueprint_id, call_id, &keys).expect("keygen setup failed")
        })
        .collect();
    let msgs: Vec<KeygenMsg> = sessions
        .iter()
        .map(|s| keygen_broadcast(&s.signer).expect("broadcast failed"))
        .collect();
    let mut states = Vec::new();
    let mut metas = Vec::new();
    for s in sessions.iter_mut() {
        let batch: Vec<KeygenMsg> = msgs.iter().map(clone_keygen_msg).collect();
        let st = wsts_protocol(&mut s.signer, batch).expect("keygen protocol failed");
        states.push(st);
        metas.push(s.meta_hash.clone());
    }
    (states, metas)
}

/// Runs a full signing round over the given keygen states.
fn run_signing(states: &[WstsState], message: &[u8]) -> Vec<Vec<u8>> {
    let mut sessions = Vec::new();
    let mut round1 = Vec::new();
    for st in states {
        let (sess, r1) =
            wsts_signing_round1(st, message.to_vec()).expect("signing round 1 failed");
        sessions.push(sess);
        round1.push(r1);
    }
    let mut round2 = Vec::new();
    for sess in sessions.iter_mut() {
        let batch: Vec<Round1Msg> = round1.iter().map(clone_round1).collect();
        round2.push(wsts_signing_round2(sess, batch).expect("signing round 2 failed"));
    }
    let mut sigs = Vec::new();
    for sess in sessions {
        let batch: Vec<Round2Msg> = round2.iter().map(clone_round2).collect();
        let out = wsts_signing_protocol(sess, batch).expect("signing protocol failed");
        sigs.push(out.signature_frost_format);
    }
    sigs
}

fn frost_verify(pk: &[u8], message: &[u8], sig65: &[u8]) {
    assert_eq!(sig65.len(), 65);
    let compact = &sig65[1..65];
    let sig = frost_secp256k1_tr::Signature::deserialize(compact)
        .expect("FROST signature parse failed");
    let vk = frost_secp256k1_tr::VerifyingKey::deserialize(pk)
        .expect("FROST verifying key parse failed");
    vk.verify(message, &sig).expect("FROST verification failed");
}

#[test]
fn validate_parameters_boundaries() {
    assert!(validate_parameters(3, 3, 2).is_ok());
    assert!(validate_parameters(3, 9, 2).is_ok());
    // t = n - 1 is the largest accepted threshold.
    assert!(validate_parameters(4, 4, 3).is_ok());
    assert!(matches!(validate_parameters(4, 4, 4), Err(KeygenError::SetupError(_))));
    assert!(matches!(validate_parameters(3, 0, 1), Err(KeygenError::SetupError(_))));
    assert!(matches!(validate_parameters(4, 10, 1), Err(KeygenError::SetupError(_))));
    assert!(matches!(validate_parameters(0, 0, 0), Err(KeygenError::SetupError(_))));
}

#[test]
fn partition_covers_all_keys_in_order() {
    let ids = generate_party_key_ids(4, 8);
    assert_eq!(ids, vec![vec![0u32, 1], vec![2, 3], vec![4, 5], vec![6, 7]]);
    let ids = generate_party_key_ids(3, 3);
    assert_eq!(ids, vec![vec![0u32], vec![1], vec![2]]);
    // Every key id 0..k appears exactly once, ascending.
    let ids = generate_party_key_ids(5, 20);
    let flat: Vec<u32> = ids.into_iter().flatten().collect();
    assert_eq!(flat, (0u32..20).collect::<Vec<u32>>());
}

#[test]
fn session_hashes_deterministic_and_exact() {
    let salt = b"wsts-keygen";
    let (m1, e1) = compute_execution_hashes(3, 42, 7, salt);
    let (m2, e2) = compute_execution_hashes(3, 42, 7, salt);
    assert_eq!(m1, m2);
    assert_eq!(e1, e2);

    // The meta hash is the documented SHA-256 chain, bit for bit.
    let mut h = <k256::sha2::Sha256 as k256::sha2::Digest>::new();
    k256::sha2::Digest::update(&mut h, 3u16.to_be_bytes());
    k256::sha2::Digest::update(&mut h, 42u64.to_be_bytes());
    k256::sha2::Digest::update(&mut h, 7u64.to_be_bytes());
    k256::sha2::Digest::update(&mut h, b"wsts-protocol");
    let expected_meta: [u8; 32] = k256::sha2::Digest::finalize(h).into();
    assert_eq!(m1, expected_meta);

    let mut h2 = <k256::sha2::Sha256 as k256::sha2::Digest>::new();
    k256::sha2::Digest::update(&mut h2, expected_meta);
    k256::sha2::Digest::update(&mut h2, salt);
    let expected_exec: [u8; 32] = k256::sha2::Digest::finalize(h2).into();
    assert_eq!(e1, expected_exec);

    // A different call id gives a different meta hash.
    let (m3, _) = compute_execution_hashes(3, 42, 8, salt);
    assert_ne!(m1, m3);
}

#[test]
fn store_key_is_lowercase_hex() {
    let key = store_key_for(&vec![0x00, 0xff, 0x10, 0xab]);
    assert_eq!(key, "00ff10ab");
    let meta = vec![0u8; 32];
    assert_eq!(store_key_for(&meta).len(), 64);
}

#[test]
fn signature_layout_round_trip() {
    let r: Vec<u8> = (0u8..33).collect();
    let z: Vec<u8> = (100u8..132).collect();
    let blob = encode_signature(&r, &z);
    assert_eq!(blob.len(), 65);
    assert_eq!(&blob[0..33], r.as_slice());
    assert_eq!(&blob[33..65], z.as_slice());
    let (r2, z2) = split_signature(&blob).expect("split failed");
    assert_eq!(r2, r);
    assert_eq!(z2, z);
    let compact = frost_compact_form(&blob).expect("compact failed");
    assert_eq!(compact, blob[1..65].to_vec());
    assert!(split_signature(&blob[..64].to_vec()).is_none());
    assert!(frost_compact_form(&vec![0u8; 66]).is_none());
}

#[test]
fn state_codec_round_trip_is_exact() {
    let st = WstsState {
        party_id: 1,
        n_signers: 3,
        threshold: 2,
        num_keys: 3,
        shares: vec![
            (0, vec![(1, vec![9u8; 32]), (2, vec![8u8; 32])]),
            (1, vec![(1, vec![7u8; 32])]),
            (2, vec![]),
        ],
        key_ids: vec![(0, vec![1]), (1, vec![2]), (2, vec![3])],
        poly_commitments: vec![(0, vec![1, 2, 3]), (1, vec![]), (2, vec![4, 5])],
        party_state: vec![42u8; 17],
        public_key_frost_format: vec![2u8; 33],
    };
    let bytes = encode_state(&st).expect("encode failed");
    let back = decode_state(&bytes).expect("decode failed");
    assert_eq!(back.party_id, st.party_id);
    assert_eq!(back.n_signers, st.n_signers);
    assert_eq!(back.threshold, st.threshold);
    assert_eq!(back.num_keys, st.num_keys);
    assert_eq!(back.shares, st.shares);
    assert_eq!(back.key_ids, st.key_ids);
    assert_eq!(back.poly_commitments, st.poly_commitments);
    assert_eq!(back.party_state, st.party_state);
    assert_eq!(back.public_key_frost_format, st.public_key_frost_format);
    // Re-encoding gives the same bytes.
    assert_eq!(encode_state(&back).expect("re-encode failed"), bytes);
    // Garbage does not decode.
    assert!(decode_state(&vec![1u8, 2, 3]).is_none());
}

#[test]
fn keygen_then_sign_end_to_end() {
    let (states, metas) = run_keygen(3, 2, 11, 1);
    // Every party derives the same FROST-format group key.
    assert_eq!(states[0].public_key_frost_format, states[1].public_key_frost_format);
    assert_eq!(states[1].public_key_frost_format, states[2].public_key_frost_format);
    assert_eq!(states[0].public_key_frost_format.len(), 33);
    // Every party derives the same store key.
    assert_eq!(metas[0], metas[1]);
    assert_eq!(metas[1], metas[2]);

    let message = vec![1u8, 2, 3];
    let sigs = run_signing(&states, &message);
    assert_eq!(sigs[0], sigs[1]);
    assert_eq!(sigs[1], sigs[2]);
    assert_eq!(sigs[0].len(), 65);
    frost_verify(&states[0].public_key_frost_format, &message, &sigs[0]);

    // The x-only form re-encodes to the same bytes after a FROST parse.
    let compact = frost_compact_form(&sigs[0]).expect("compact failed");
    let parsed = frost_secp256k1_tr::Signature::deserialize(&compact).expect("parse failed");
    assert_eq!(parsed.serialize().expect("serialize failed"), compact);
}

#[test]
fn keygen_results_are_stored_per_call_id() {
    let (states_a, metas_a) = run_keygen(3, 2, 11, 1);
    let (states_b, metas_b) = run_keygen(3, 2, 11, 2);
    // Distinct call ids give distinct meta hashes.
    assert_ne!(metas_a[0], metas_b[0]);

    let mut store = KeygenStore::new();
    store.put(metas_a[0].clone(), clone_state(&states_a[0]));
    store.put(metas_b[0].clone(), clone_state(&states_b[0]));
    let got_a = store.get(&metas_a[0]).expect("entry for the first call is missing");
    let got_b = store.get(&metas_b[0]).expect("entry for the second call is missing");
    assert_eq!(got_a.public_key_frost_format, states_a[0].public_key_frost_format);
    assert_eq!(got_b.public_key_frost_format, states_b[0].public_key_frost_format);
    assert_ne!(
        got_a.public_key_frost_format, got_b.public_key_frost_format,
        "two keygen runs agreed on a group key"
    );
}

fn clone_state(st: &WstsState) -> WstsState {
    let bytes = encode_state(st).expect("encode failed");
    decode_state(&bytes).expect("decode failed")
}

#[test]
fn signing_rejects_invalid_operator_keys() {
    let mut keys = operator_keys(3);
    assert!(validate_operator_keys(&keys).is_ok());
    keys[2] = vec![0xffu8; 33];
    assert!(matches!(
        validate_operator_keys(&keys),
        Err(SigningError::InvalidPublicKey)
    ));
}

#[test]
fn signing_without_stored_keygen_fails() {
    match load_keygen_state(None) {
        Err(SigningError::ContextError(s)) => assert_eq!(s, "Key entry not found"),
        _ => panic!("expected a context error"),
    }
}

#[test]
fn keygen_with_missing_broadcast_fails() {
    let keys = operator_keys(3);
    let mut sessions: Vec<KeygenSession> = (0..3)
        .map(|i| keygen_setup(2, i as u16, 11, 1, &keys).expect("keygen setup failed"))
        .collect();
    let msgs: Vec<KeygenMsg> = sessions
        .iter()
        .map(|s| keygen_broadcast(&s.signer).expect("broadcast failed"))
        .collect();
    // One party's broadcast is dropped: every honest party fails with an
    // MPC error.
    for s in sessions.iter_mut() {
        let batch: Vec<KeygenMsg> = msgs[..2].iter().map(clone_keygen_msg).collect();
        match wsts_protocol(&mut s.signer, batch) {
            Err(KeygenError::MpcError(_)) => {},
            other => panic!("expected an MPC error, got {:?}", other.is_ok()),
        }
    }
}

#[test]
fn keygen_rejects_duplicates_and_strangers() {
    let keys = operator_keys(3);
    let mut session = keygen_setup(2, 0, 11, 1, &keys).expect("keygen setup failed");
    let others: Vec<KeygenSession> = (1..3)
        .map(|i| keygen_setup(2, i as u16, 11, 1, &keys).expect("keygen setup failed"))
        .collect();
    let m0 = keygen_broadcast(&session.signer).expect("broadcast failed");
    let m1 = keygen_broadcast(&others[0].signer).expect("broadcast failed");
    let m2 = keygen_broadcast(&others[1].signer).expect("broadcast failed");

    // A duplicate sender.
    let batch = vec![clone_keygen_msg(&m0), clone_keygen_msg(&m1), clone_keygen_msg(&m1)];
    assert!(matches!(
        wsts_protocol(&mut session.signer, batch),
        Err(KeygenError::MpcError(_))
    ));

    // A sender outside the cohort.
    let mut stranger = clone_keygen_msg(&m2);
    stranger.source = 9;
    let batch = vec![clone_keygen_msg(&m0), clone_keygen_msg(&m1), stranger];
    assert!(matches!(
        wsts_protocol(&mut session.signer, batch),
        Err(KeygenError::MpcError(_))
    ));

    // A malformed share.
    let mut bad = clone_keygen_msg(&m2);
    bad.shares[0].1 = vec![1u8; 3];
    let batch = vec![clone_keygen_msg(&m0), clone_keygen_msg(&m1), bad];
    assert!(matches!(
        wsts_protocol(&mut session.signer, batch),
        Err(KeygenError::MpcError(_))
    ));

    // A malformed polynomial commitment.
    let mut bad = clone_keygen_msg(&m2);
    bad.poly_commitment = vec![0u8; 4];
    let batch = vec![clone_keygen_msg(&m0), clone_keygen_msg(&m1), bad];
    assert!(matches!(
        wsts_protocol(&mut session.signer, batch),
        Err(KeygenError::MpcError(_))
    ));
}

#[test]
fn keygen_setup_rejects_bad_inputs() {
    let keys = operator_keys(3);
    // An invalid operator key.
    let mut bad_keys = keys.clone();
    bad_keys[1] = vec![0xffu8; 33];
    assert!(matches!(
        keygen_setup(2, 0, 11, 1, &bad_keys),
        Err(KeygenError::InvalidPublicKey)
    ));
    // A threshold at the cohort size.
    assert!(matches!(keygen_setup(3, 0, 11, 1, &keys), Err(KeygenError::SetupError(_))));
    // A zero threshold: the DKG samples a polynomial of degree t - 1.
    assert!(matches!(keygen_setup(0, 0, 11, 1, &keys), Err(KeygenError::SetupError(_))));
    // A party index outside the cohort.
    assert!(matches!(keygen_setup(2, 5, 11, 1, &keys), Err(KeygenError::SetupError(_))));
}

#[test]
fn large_message_five_parties() {
    let (states, _) = run_keygen(5, 3, 12, 1);
    let mut message = vec![0u8; 1 << 20];
    rand::RngCore::fill_bytes(&mut rand::rngs::OsRng, &mut message);
    let sigs = run_signing(&states, &message);
    for s in &sigs {
        assert_eq!(s.len(), 65);
    }
    assert_eq!(sigs[0], sigs[4]);
    frost_verify(&states[0].public_key_frost_format, &message, &sigs[0]);
}

#[test]
fn two_signing_sessions_over_one_keygen() {
    let (states, _) = run_keygen(3, 2, 13, 1);
    let m1 = b"first message".to_vec();
    let m2 = b"second message".to_vec();
    let sigs1 = run_signing(&states, &m1);
    let sigs2 = run_signing(&states, &m2);
    assert_ne!(sigs1[0], sigs2[0]);
    frost_verify(&states[0].public_key_frost_format, &m1, &sigs1[0]);
    frost_verify(&states[0].public_key_frost_format, &m2, &sigs2[0]);
}

#[test]
fn signing_rejects_missing_round_messages() {
    let (states, _) = run_keygen(3, 2, 14, 1);
    let message = vec![5u8; 4];
    let mut sessions = Vec::new();
    let mut round1 = Vec::new();
    for st in &states {
        let (sess, r1) = wsts_signing_round1(st, message.clone()).expect("round 1 failed");
        sessions.push(sess);
        round1.push(r1);
    }
    // Round one with a dropped message fails for every party.
    for sess in sessions.iter_mut() {
        let batch: Vec<Round1Msg> = round1[..2].iter().map(clone_round1).collect();
        assert!(matches!(
            wsts_signing_round2(sess, batch),
            Err(SigningError::MpcError(_))
        ));
    }
}
