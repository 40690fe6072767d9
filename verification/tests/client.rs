//! What clients send.
use clear_msig::accounts::AccountMeta;
use clear_msig::address::Address;
use clear_msig::bench::{
    case_approve, case_cancel, case_cleanup, case_create_wallet, case_execute, case_propose,
    WalletSetup,
};
use clear_msig::client::{
    add_intent_msg, add_intent_msg_for_hash, build_approve_data, build_cancel_data,
    build_cleanup_data, build_create_wallet_data, build_execute_data, build_propose_data,
    ed25519_keypair_from_label, ed25519_pubkey, format_timestamp, remove_intent_msg, sha256_bytes,
    sign_message, suffix, wrap_offchain, ProgramKind, DEFAULT_EXPIRY,
};
use clear_msig::metas::{
    approve_metas, cancel_metas, cleanup_metas, create_wallet_metas, execute_metas, propose_metas,
};
use clear_msig::pda::{intent_pda, proposal_pda, system_program_id, vault_pda, wallet_pda};

const ANCHOR: ProgramKind = ProgramKind::AnchorV2;
const QUASAR: ProgramKind = ProgramKind::Quasar;

fn address(n: u8) -> Address {
    Address::new_from_array([n; 32])
}

fn meta(m: &AccountMeta) -> ([u8; 32], bool, bool) {
    (m.pubkey.bytes, m.is_signer, m.is_writable)
}

#[test]
fn offchain_messages_have_a_header() {
    let out = wrap_offchain(b"hello");
    assert_eq!(&out[..16], b"\xffsolana offchain");
    assert_eq!(&out[16..20], &[0, 0, 5, 0]);
    assert_eq!(&out[20..], b"hello");
    // The length counts modulo 65536.
    let long = wrap_offchain(&vec![1u8; 65_539]);
    assert_eq!(&long[18..20], &[3, 0]);
    assert_eq!(long.len(), 65_559);
}

#[test]
fn removal_messages() {
    let msg = remove_intent_msg("approve", 1_000_000_000, "treasury", 42, 7);
    let body = b"expires 2001-09-09 01:46:40: approve remove intent 7 | wallet: treasury proposal: 42";
    assert_eq!(msg, wrap_offchain(body));
    assert_eq!(suffix("x", 0), b" | wallet: x proposal: 0".to_vec());
    assert_eq!(format_timestamp(1_000_000_000), b"2001-09-09 01:46:40".to_vec());
}

#[test]
fn addition_messages() {
    let msg = add_intent_msg("propose", 0, "w", 1, b"abc");
    let body = b"expires 1970-01-01 00:00:00: propose add intent definition_hash: \
ba7816bf8f01cfea414140de5dae2223b00361a396177a9cb410ff61f20015ad | wallet: w proposal: 1";
    assert_eq!(msg, wrap_offchain(body));
    let by_hash = add_intent_msg_for_hash("propose", 0, "w", 1, &sha256_bytes(b"abc"));
    assert_eq!(msg, by_hash);
}

#[test]
fn keys_come_from_labels() {
    let key = ed25519_keypair_from_label("bench-proposer");
    assert_eq!(key.seed, sha256_bytes(b"bench-proposer"));
    let dalek = ed25519_dalek::SigningKey::from_bytes(&key.seed);
    assert_eq!(ed25519_pubkey(&key), dalek.verifying_key().to_bytes());
    let signature = sign_message(&key, b"message");
    assert!(brine_ed25519::sig_verify(&ed25519_pubkey(&key), &signature, b"message").is_ok());
    assert!(brine_ed25519::sig_verify(&ed25519_pubkey(&key), &signature, b"another").is_err());
}

#[test]
fn quasar_discriminators_are_numbers() {
    let names = ["create_wallet", "propose", "approve", "cancel", "execute", "cleanup_proposal"];
    for (n, name) in names.iter().enumerate() {
        assert_eq!(QUASAR.discriminator(name), vec![n as u8]);
    }
    assert_eq!(build_execute_data(QUASAR), vec![4]);
    assert_eq!(build_cleanup_data(QUASAR), vec![5]);
}

#[test]
fn anchor_discriminators_are_digests() {
    assert_eq!(ANCHOR.discriminator("propose"), sha256_bytes(b"global:propose")[..8].to_vec());
    assert_eq!(build_execute_data(ANCHOR), sha256_bytes(b"global:execute")[..8].to_vec());
    assert_eq!(build_cleanup_data(ANCHOR), sha256_bytes(b"global:cleanup_proposal")[..8].to_vec());
    // Any name has one.
    assert_eq!(ANCHOR.discriminator("x"), sha256_bytes(b"global:x")[..8].to_vec());
}

#[test]
fn data_of_a_wallet_creation() {
    let proposers = [[1u8; 32], [2u8; 32]];
    let approvers = [[3u8; 32]];
    let data = build_create_wallet_data(ANCHOR, 1, 2, 0x0102, b"abc", &proposers, &approvers);
    let mut expected = sha256_bytes(b"global:create_wallet")[..8].to_vec();
    expected.extend([1, 2, 2, 1, 0, 0]);
    expected.extend([3, 0, 0, 0, 0, 0, 0, 0]);
    expected.extend(b"abc");
    expected.extend([2, 0, 0, 0, 0, 0, 0, 0]);
    expected.extend([1u8; 32]);
    expected.extend([2u8; 32]);
    expected.extend([1, 0, 0, 0, 0, 0, 0, 0]);
    expected.extend([3u8; 32]);
    assert_eq!(data, expected);

    let data = build_create_wallet_data(QUASAR, 1, 2, 0x0102, b"abc", &proposers, &approvers);
    let mut expected = vec![0u8, 1, 2, 2, 1, 0, 0];
    expected.extend([3, 0, 0, 0]);
    expected.extend(b"abc");
    expected.extend([2, 0, 0, 0]);
    expected.extend([1u8; 32]);
    expected.extend([2u8; 32]);
    expected.extend([1, 0, 0, 0]);
    expected.extend([3u8; 32]);
    assert_eq!(data, expected);
}

#[test]
fn data_of_a_proposal() {
    let data = build_propose_data(ANCHOR, 7, -2, &[1; 32], &[2; 64], &[9, 8]);
    let mut expected = sha256_bytes(b"global:propose")[..8].to_vec();
    expected.extend([0xfe, 0xff, 0xff, 0xff, 0xff, 0xff, 0xff, 0xff]);
    expected.extend([1u8; 32]);
    expected.extend([2u8; 64]);
    expected.extend([2, 0, 0, 0, 0, 0, 0, 0, 9, 8]);
    assert_eq!(data, expected);

    let data = build_propose_data(QUASAR, 7, -2, &[1; 32], &[2; 64], &[9, 8]);
    let mut expected = vec![1u8, 7, 0, 0, 0, 0, 0, 0, 0];
    expected.extend([0xfe, 0xff, 0xff, 0xff, 0xff, 0xff, 0xff, 0xff]);
    expected.extend([1u8; 32]);
    expected.extend([2u8; 64]);
    expected.extend([9, 8]);
    assert_eq!(data, expected);
}

#[test]
fn data_of_votes() {
    let mut expected = vec![2u8, 1, 0, 0, 0, 0, 0, 0, 0, 5];
    expected.extend([6u8; 64]);
    assert_eq!(build_approve_data(QUASAR, 1, 5, &[6; 64]), expected);
    expected[0] = 3;
    assert_eq!(build_cancel_data(QUASAR, 1, 5, &[6; 64]), expected);
    let anchor = build_cancel_data(ANCHOR, 1, 5, &[6; 64]);
    assert_eq!(&anchor[..8], &sha256_bytes(b"global:cancel")[..8]);
    assert_eq!(&anchor[8..], &expected[1..]);
}

#[test]
fn accounts_of_instructions() {
    let (wallet, name_hash) = wallet_pda(b"w").unwrap();
    let intent = |i: u8| intent_pda(&wallet, i).unwrap();
    let system = (system_program_id().bytes, false, false);
    let metas = create_wallet_metas(address(1), b"w").unwrap();
    let seen: Vec<_> = metas.iter().map(meta).collect();
    assert_eq!(
        seen,
        vec![
            ([1; 32], true, true),
            (name_hash, false, false),
            (wallet.bytes, false, true),
            (intent(0).bytes, false, true),
            (intent(1).bytes, false, true),
            (intent(2).bytes, false, true),
            system,
        ]
    );

    let proposal = proposal_pda(&intent(1), 4).unwrap();
    let metas = propose_metas(address(1), wallet, intent(1), 4).unwrap();
    let seen: Vec<_> = metas.iter().map(meta).collect();
    assert_eq!(
        seen,
        vec![
            ([1; 32], true, true),
            (wallet.bytes, false, true),
            (intent(1).bytes, false, true),
            (proposal.bytes, false, true),
            system,
        ]
    );

    let vote = vec![([1; 32], false, false), ([2; 32], false, true), ([3; 32], false, true)];
    let metas = approve_metas(address(1), address(2), address(3));
    assert_eq!(metas.iter().map(meta).collect::<Vec<_>>(), vote);
    let metas = cancel_metas(address(1), address(2), address(3));
    assert_eq!(metas.iter().map(meta).collect::<Vec<_>>(), vote);

    let remaining = vec![AccountMeta::new(address(9), true)];
    let metas = execute_metas(wallet, address(2), address(3), remaining).unwrap();
    let seen: Vec<_> = metas.iter().map(meta).collect();
    assert_eq!(
        seen,
        vec![
            (wallet.bytes, false, true),
            (vault_pda(&wallet).unwrap().bytes, false, true),
            ([2; 32], false, true),
            ([3; 32], false, true),
            system,
            ([9; 32], true, true),
        ]
    );

    let metas = cleanup_metas(address(1), address(2));
    let seen: Vec<_> = metas.iter().map(meta).collect();
    assert_eq!(seen, vec![([1; 32], false, true), ([2; 32], false, true)]);
}

#[test]
fn the_benchmark_builds_on_itself() {
    let setup = WalletSetup::default(address(1)).unwrap();
    assert_eq!(setup.wallet_name_str(), "bench-wallet");
    assert_eq!(setup.wallet.bytes, wallet_pda(b"bench-wallet").unwrap().0.bytes);
    assert_eq!(setup.proposer.seed, sha256_bytes(b"bench-proposer"));
    assert_eq!(setup.approver.seed, sha256_bytes(b"bench-approver"));

    for kind in [ANCHOR, QUASAR] {
        let create = case_create_wallet(kind, &setup).unwrap();
        assert!(create.steps.is_empty());
        let expected = build_create_wallet_data(
            kind,
            1,
            1,
            0,
            b"bench-wallet",
            &[ed25519_pubkey(&setup.proposer)],
            &[ed25519_pubkey(&setup.approver)],
        );
        assert_eq!(create.measured.data, expected);
        assert!(create.measured.creator_signs);

        let propose = case_propose(kind, &setup).unwrap();
        assert_eq!(propose.steps.len(), 1);
        assert_eq!(propose.steps[0].data, create.measured.data);
        let msg = remove_intent_msg("propose", DEFAULT_EXPIRY, "bench-wallet", 0, 2);
        let expected = build_propose_data(
            kind,
            0,
            DEFAULT_EXPIRY,
            &ed25519_pubkey(&setup.proposer),
            &sign_message(&setup.proposer, &msg),
            &[2],
        );
        assert_eq!(propose.measured.data, expected);

        let approve = case_approve(kind, &setup).unwrap();
        assert_eq!(approve.steps.len(), 2);
        assert_eq!(approve.steps[1].data, propose.measured.data);
        let msg = remove_intent_msg("approve", DEFAULT_EXPIRY, "bench-wallet", 0, 2);
        let signature = sign_message(&setup.approver, &msg);
        assert_eq!(approve.measured.data, build_approve_data(kind, DEFAULT_EXPIRY, 0, &signature));
        assert!(!approve.measured.creator_signs);

        let cancel = case_cancel(kind, &setup).unwrap();
        let msg = remove_intent_msg("cancel", DEFAULT_EXPIRY, "bench-wallet", 0, 2);
        let signature = sign_message(&setup.approver, &msg);
        assert_eq!(cancel.measured.data, build_cancel_data(kind, DEFAULT_EXPIRY, 0, &signature));
        assert_eq!(cancel.steps.len(), 2);

        let execute = case_execute(kind, &setup).unwrap();
        assert_eq!(execute.steps.len(), 3);
        assert_eq!(execute.measured.data, build_execute_data(kind));
        assert_eq!(execute.measured.metas.len(), 6);
        let target = intent_pda(&setup.wallet, 2).unwrap();
        assert_eq!(execute.measured.metas[5].pubkey.bytes, target.bytes);

        let cleanup = case_cleanup(kind, &setup).unwrap();
        assert_eq!(cleanup.steps.len(), 4);
        assert_eq!(cleanup.steps[3].data, execute.measured.data);
        assert_eq!(cleanup.measured.data, build_cleanup_data(kind));
        assert_eq!(meta(&cleanup.measured.metas[1]), ([1; 32], false, true));
    }
}
