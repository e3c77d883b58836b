use wallet_sdk::args::{TxArgs, TxParams, encode_args, decode_args};
use wallet_sdk::error::SdkError;
use wallet_sdk::flow::{SubmitKind, SubmitPhase};
use wallet_sdk::sdk::Sdk;
use wallet_sdk::shielded::ShieldedContext;
use wallet_sdk::tx::{Tx, Section, Signature, sign_tx, encode_sig_blob, decode_sig_blob};
use wallet_sdk::txtype::TxType;
use wallet_sdk::wallet::{Wallet, public_key_of, validate_pk};

fn params() -> TxParams {
    TxParams {
        gas_token: b"NAM".to_vec(),
        gas_limit: 20_000,
        password: None,
        verification_key: None,
    }
}

fn bond_args() -> TxArgs {
    TxArgs::Bond {
        source: Some(b"atest1source".to_vec()),
        validator: b"atest1validator".to_vec(),
        amount: 1_000,
        tx: params(),
    }
}

fn transfer_args(spending_key: Option<Vec<u8>>) -> TxArgs {
    TxArgs::Transfer {
        source: Some(b"atest1source".to_vec()),
        target: b"atest1target".to_vec(),
        token: b"NAM".to_vec(),
        amount: 750,
        spending_key,
        tx: params(),
    }
}

fn gas_payer() -> Vec<u8> {
    public_key_of(&b"gas-payer-secret".to_vec())
}

#[test]
fn tx_type_codes_are_the_protocol_discriminants() {
    assert_eq!(TxType::Bond.code(), 1);
    assert_eq!(TxType::Unbond.code(), 2);
    assert_eq!(TxType::Withdraw.code(), 3);
    assert_eq!(TxType::Transfer.code(), 4);
    assert_eq!(TxType::IBCTransfer.code(), 5);
    assert_eq!(TxType::RevealPK.code(), 6);
    for c in 1u8..=6u8 {
        let t = TxType::from_code(c).unwrap();
        assert_eq!(t.code(), c);
    }
    assert!(TxType::from_code(0).is_none());
    assert!(TxType::from_code(7).is_none());
}

#[test]
fn wallet_find_key_by_derived_public_key() {
    let mut w = Wallet::new();
    w.add_key(&b"sk1aaaa".to_vec(), None, Some(b"alice".to_vec()));
    let pk = public_key_of(&b"sk1aaaa".to_vec());
    let sk = w.find_key_by_public_key(&pk, &None).unwrap();
    assert_eq!(sk, b"sk1aaaa".to_vec());
}

#[test]
fn wallet_password_protected_lookup_without_password_is_key_not_found() {
    let mut w = Wallet::new();
    w.add_key(&b"sk2bbbb".to_vec(), Some(b"hunter2".to_vec()), Some(b"bob".to_vec()));
    let pk = public_key_of(&b"sk2bbbb".to_vec());
    assert_eq!(w.find_key_by_public_key(&pk, &None), Err(SdkError::KeyNotFound));
    assert_eq!(
        w.find_key_by_public_key(&pk, &Some(b"wrong".to_vec())),
        Err(SdkError::KeyNotFound)
    );
    assert_eq!(
        w.find_key_by_public_key(&pk, &Some(b"hunter2".to_vec())),
        Ok(b"sk2bbbb".to_vec())
    );
}

#[test]
fn wallet_lookup_of_unknown_key_is_key_not_found() {
    let w = Wallet::new();
    let pk = public_key_of(&b"nobody".to_vec());
    assert_eq!(w.find_key_by_public_key(&pk, &None), Err(SdkError::KeyNotFound));
}

#[test]
fn wallet_encode_decode_round_trip_keeps_keys_and_aliases() {
    let mut w = Wallet::new();
    w.add_key(&b"k1".to_vec(), None, Some(b"alice".to_vec()));
    w.add_key(&b"k2".to_vec(), Some(b"pw".to_vec()), Some(b"bob".to_vec()));
    w.add_key(&b"k3".to_vec(), None, None);
    w.add_spending_key(&b"xsk1".to_vec(), None, &b"shielded-alice".to_vec());
    let blob = w.encode();
    let back = Wallet::decode(&blob).unwrap();
    assert_eq!(back.key_count(), 3);
    assert_eq!(back.spending_key_count(), 1);
    assert_eq!(back.key_alias(0), b"alice".to_vec());
    assert_eq!(back.key_alias(1), b"bob".to_vec());
    assert_eq!(back.key_alias(2), public_key_of(&b"k3".to_vec()));
    assert_eq!(back.spending_key_alias(0), b"shielded-alice".to_vec());
    let pk = public_key_of(&b"k2".to_vec());
    assert_eq!(
        back.find_key_by_public_key(&pk, &Some(b"pw".to_vec())),
        Ok(b"k2".to_vec())
    );
}

#[test]
fn wallet_decode_of_garbage_fails() {
    assert_eq!(Wallet::decode(&b"not a wallet".to_vec()).err(), Some(SdkError::DecodeError));
}

#[test]
fn fresh_wallet_round_trips_empty() {
    let w = Wallet::new();
    let back = Wallet::decode(&w.encode()).unwrap();
    assert_eq!(back.key_count(), 0);
    assert_eq!(back.spending_key_count(), 0);
}

#[test]
fn shielded_load_needs_exactly_three_blobs() {
    let mut ctx = ShieldedContext::new();
    assert_eq!(ctx.load(vec![b"spend".to_vec(), b"output".to_vec()]), Err(SdkError::DecodeError));
    assert!(!ctx.has_params());
    assert_eq!(
        ctx.load(vec![b"s".to_vec(), b"o".to_vec(), b"c".to_vec(), b"extra".to_vec()]),
        Err(SdkError::DecodeError)
    );
    assert!(!ctx.has_params());
    assert_eq!(ctx.load(vec![b"s".to_vec(), b"o".to_vec(), b"c".to_vec()]), Ok(()));
    assert!(ctx.has_params());
}

#[test]
fn shielded_transfer_build_fails_before_params_and_succeeds_after() {
    let mut sdk = Sdk::new();
    let msg = encode_args(&transfer_args(Some(b"xsk-spend".to_vec())));
    let gp = gas_payer();
    assert_eq!(sdk.build_tx(TxType::Transfer, &msg, &gp), Err(SdkError::ShieldedParamsNotLoaded));
    sdk.load_masp_params(vec![b"s".to_vec(), b"o".to_vec(), b"c".to_vec()]).unwrap();
    let bytes = sdk.build_tx(TxType::Transfer, &msg, &gp).unwrap();
    let t = Tx::from_bytes(&bytes).unwrap();
    assert_eq!(t.section_count(), 4);
}

#[test]
fn build_tx_round_trips_for_all_six_kinds() {
    let sdk = Sdk::new();
    let gp = gas_payer();
    let cases: Vec<(TxType, TxArgs)> = vec![
        (TxType::Bond, bond_args()),
        (
            TxType::Unbond,
            TxArgs::Unbond {
                source: Some(b"src".to_vec()),
                validator: b"val".to_vec(),
                amount: 5,
                tx: params(),
            },
        ),
        (
            TxType::Withdraw,
            TxArgs::Withdraw {
                source: Some(b"src".to_vec()),
                validator: b"val".to_vec(),
                tx: params(),
            },
        ),
        (TxType::Transfer, transfer_args(None)),
        (
            TxType::IBCTransfer,
            TxArgs::IBCTransfer {
                source: Some(b"src".to_vec()),
                receiver: b"cosmos1abc".to_vec(),
                channel: b"channel-0".to_vec(),
                amount: 9,
                tx: params(),
            },
        ),
        (
            TxType::RevealPK,
            TxArgs::RevealPK {
                tx: TxParams {
                    gas_token: b"NAM".to_vec(),
                    gas_limit: 20_000,
                    password: None,
                    verification_key: Some(gas_payer()),
                },
            },
        ),
    ];
    for (t, a) in cases {
        let msg = encode_args(&a);
        let bytes = sdk.build_tx(t, &msg, &gp).expect("build must succeed");
        let back = Tx::from_bytes(&bytes).expect("unsigned tx bytes must decode");
        assert_eq!(back.section_count(), 3);
        assert!(back.is_unsigned());
        // No loss: re-encoding yields the same bytes.
        assert_eq!(back.to_bytes(), bytes);
    }
}

#[test]
fn args_encode_decode_round_trip() {
    let a = bond_args();
    let blob = encode_args(&a);
    let back = decode_args(TxType::Bond, &blob).unwrap();
    let reblob = encode_args(&back);
    assert_eq!(blob, reblob);
    assert!(decode_args(TxType::Transfer, &blob).is_err());
    assert!(decode_args(TxType::Bond, &b"junk".to_vec()).is_err());
}

#[test]
fn build_tx_rejects_missing_source() {
    let sdk = Sdk::new();
    let a = TxArgs::Bond {
        source: None,
        validator: b"val".to_vec(),
        amount: 1,
        tx: params(),
    };
    let msg = encode_args(&a);
    assert_eq!(sdk.build_tx(TxType::Bond, &msg, &gas_payer()), Err(SdkError::MissingRequiredField));
}

#[test]
fn build_tx_rejects_reveal_pk_without_verification_key() {
    let sdk = Sdk::new();
    let a = TxArgs::RevealPK { tx: params() };
    let msg = encode_args(&a);
    assert_eq!(
        sdk.build_tx(TxType::RevealPK, &msg, &gas_payer()),
        Err(SdkError::MissingRequiredField)
    );
}

#[test]
fn build_tx_rejects_bad_gas_payer_and_bad_blob() {
    let sdk = Sdk::new();
    let msg = encode_args(&bond_args());
    assert_eq!(
        sdk.build_tx(TxType::Bond, &msg, &b"no-tag-here".to_vec()),
        Err(SdkError::DecodeError)
    );
    assert!(!validate_pk(&b"no-tag-here".to_vec()));
    assert_eq!(
        sdk.build_tx(TxType::Bond, &b"garbage".to_vec(), &gas_payer()),
        Err(SdkError::DecodeError)
    );
}

#[test]
fn sig_blob_round_trip() {
    let blob = encode_sig_blob(&b"pk".to_vec(), &b"sigbytes".to_vec());
    let (pk, sig) = decode_sig_blob(&blob).unwrap();
    assert_eq!(pk, b"pk".to_vec());
    assert_eq!(sig, b"sigbytes".to_vec());
    assert_eq!(decode_sig_blob(&b"nope".to_vec()).err(), Some(SdkError::SignatureError));
}

#[test]
fn sign_tx_appends_raw_then_wrapper() {
    let sdk = Sdk::new();
    let msg = encode_args(&bond_args());
    let bytes = sdk.build_tx(TxType::Bond, &msg, &gas_payer()).unwrap();
    let raw = encode_sig_blob(&b"signer-pk".to_vec(), &b"raw-signature".to_vec());
    let wrapper = encode_sig_blob(&b"signer-pk".to_vec(), &b"wrapper-signature".to_vec());
    let signed = sign_tx(&bytes, &raw, &wrapper).unwrap();
    assert_eq!(signed.section_count(), 5);
    assert!(!signed.is_unsigned());
    // The two signature sections cover different content: the wrapper one
    // covers strictly more (it includes the raw signature section).
    match (signed.section_at(3), signed.section_at(4)) {
        (Section::Signature(r), Section::Signature(w)) => {
            assert!(w.covered.len() > r.covered.len());
        }
        _ => panic!("expected two signature sections at the end"),
    }
}

#[test]
fn sign_tx_order_matters() {
    let sdk = Sdk::new();
    let msg = encode_args(&bond_args());
    let bytes = sdk.build_tx(TxType::Bond, &msg, &gas_payer()).unwrap();
    let signed = sign_tx(
        &bytes,
        &encode_sig_blob(&b"pk".to_vec(), &b"raw-sig".to_vec()),
        &encode_sig_blob(&b"pk".to_vec(), &b"wrapper-sig".to_vec()),
    )
    .unwrap();

    // Assemble in the wrong order by hand: wrapper signature first.
    let mut swapped = Tx::from_bytes(&bytes).unwrap();
    let wh = swapped.wrapper_hash();
    swapped.add_section(Section::Signature(Signature {
        public_key: b"pk".to_vec(),
        sig_bytes: b"wrapper-sig".to_vec(),
        covered: wh,
    }));
    let rh = swapped.raw_hash();
    swapped.add_section(Section::Signature(Signature {
        public_key: b"pk".to_vec(),
        sig_bytes: b"raw-sig".to_vec(),
        covered: rh,
    }));
    swapped.protocol_filter();

    assert_ne!(signed.to_bytes(), swapped.to_bytes());
}

#[test]
fn sign_tx_rejects_bad_inputs() {
    let sdk = Sdk::new();
    let msg = encode_args(&bond_args());
    let bytes = sdk.build_tx(TxType::Bond, &msg, &gas_payer()).unwrap();
    let good = encode_sig_blob(&b"pk".to_vec(), &b"sig".to_vec());
    assert_eq!(
        sign_tx(&b"not a tx".to_vec(), &good, &good).err(),
        Some(SdkError::DecodeError)
    );
    assert_eq!(
        sign_tx(&bytes, &b"bad blob".to_vec(), &good).err(),
        Some(SdkError::SignatureError)
    );
    assert_eq!(
        sign_tx(&bytes, &good, &b"bad blob".to_vec()).err(),
        Some(SdkError::SignatureError)
    );
}

fn sdk_with_key(sk: &[u8]) -> (Sdk, Vec<u8>) {
    let mut sdk = Sdk::new();
    sdk.add_key(&sk.to_vec(), None, Some(b"alice".to_vec()));
    let pk = public_key_of(&sk.to_vec());
    (sdk, pk)
}

#[test]
fn unrevealed_address_makes_one_reveal_then_one_primary_submission() {
    let (sdk, pk) = sdk_with_key(b"sk-flow");
    let msg = encode_args(&bond_args());
    let mut flow = sdk
        .submit_bond(&msg, None, &Some(pk), false)
        .expect("flow must start");
    assert!(flow.reveal_needed());
    let reveal_bytes = flow.reveal_request().unwrap().expect("a reveal tx must be requested");
    assert!(Tx::from_bytes(&reveal_bytes).is_ok());
    flow.reveal_result(true).unwrap();
    sdk.sign_flow(&mut flow, &None).unwrap();
    let primary_bytes = flow.submit_request().unwrap();
    assert!(Tx::from_bytes(&primary_bytes).is_ok());
    flow.submit_result(true).unwrap();
    assert_eq!(flow.phase(), SubmitPhase::Submitted);
    assert_eq!(flow.log_len(), 2);
    assert_eq!(flow.log_at(0), SubmitKind::RevealPk);
    assert_eq!(flow.log_at(1), SubmitKind::Primary);
}

#[test]
fn revealed_address_makes_zero_reveal_submissions() {
    let (sdk, pk) = sdk_with_key(b"sk-flow2");
    let msg = encode_args(&bond_args());
    let mut flow = sdk.submit_bond(&msg, None, &Some(pk), true).unwrap();
    assert!(!flow.reveal_needed());
    assert!(flow.reveal_request().unwrap().is_none());
    sdk.sign_flow(&mut flow, &None).unwrap();
    let _ = flow.submit_request().unwrap();
    flow.submit_result(true).unwrap();
    assert_eq!(flow.phase(), SubmitPhase::Submitted);
    assert_eq!(flow.log_len(), 1);
    assert_eq!(flow.log_at(0), SubmitKind::Primary);
}

#[test]
fn failed_reveal_short_circuits_the_pipeline() {
    let (sdk, pk) = sdk_with_key(b"sk-flow3");
    let msg = encode_args(&bond_args());
    let mut flow = sdk.submit_bond(&msg, None, &Some(pk), false).unwrap();
    let _ = flow.reveal_request().unwrap().unwrap();
    assert_eq!(flow.reveal_result(false), Err(SdkError::SubmissionError));
    assert_eq!(flow.phase(), SubmitPhase::Failed);
    // The primary transaction is never signed or submitted.
    assert_eq!(sdk.sign_flow(&mut flow, &None), Err(SdkError::OutOfOrder));
    assert_eq!(flow.submit_request().err(), Some(SdkError::OutOfOrder));
    assert_eq!(flow.log_len(), 1);
    assert_eq!(flow.log_at(0), SubmitKind::RevealPk);
}

#[test]
fn out_of_order_steps_are_rejected() {
    let (sdk, pk) = sdk_with_key(b"sk-flow4");
    let msg = encode_args(&bond_args());
    let mut flow = sdk.submit_bond(&msg, None, &Some(pk), false).unwrap();
    // Signing before the reveal prerequisite is settled is rejected.
    assert_eq!(sdk.sign_flow(&mut flow, &None), Err(SdkError::OutOfOrder));
    // Submitting before signing is rejected.
    assert_eq!(flow.submit_request().err(), Some(SdkError::OutOfOrder));
    // Reporting a reveal answer twice is rejected.
    let _ = flow.reveal_request().unwrap();
    flow.reveal_result(true).unwrap();
    assert_eq!(flow.reveal_result(true), Err(SdkError::OutOfOrder));
}

#[test]
fn submission_error_conditions() {
    let (sdk, pk) = sdk_with_key(b"sk-err");
    let msg = encode_args(&bond_args());
    // No resolvable public key.
    assert_eq!(
        sdk.submit_bond(&msg, None, &None, true).err(),
        Some(SdkError::SigningDataUnavailable)
    );
    // A key the wallet does not hold.
    let other = public_key_of(&b"someone-else".to_vec());
    assert_eq!(
        sdk.submit_bond(&msg, None, &Some(other), true).err(),
        Some(SdkError::KeyNotFound)
    );
    // A malformed argument blob.
    assert_eq!(
        sdk.submit_bond(&b"junk".to_vec(), None, &Some(pk.clone()), true).err(),
        Some(SdkError::DecodeError)
    );
    // A password-protected key without its password.
    let mut sdk2 = Sdk::new();
    sdk2.add_key(&b"sk-pw".to_vec(), Some(b"pw".to_vec()), None);
    let pk2 = public_key_of(&b"sk-pw".to_vec());
    assert_eq!(
        sdk2.submit_bond(&msg, None, &Some(pk2), true).err(),
        Some(SdkError::KeyNotFound)
    );
}

#[test]
fn shielded_submit_transfer_needs_params() {
    let (sdk, pk) = sdk_with_key(b"sk-shield");
    let msg = encode_args(&transfer_args(None));
    assert_eq!(
        sdk
            .submit_transfer(&msg, None, Some(b"xsk".to_vec()), &Some(pk.clone()), true)
            .err(),
        Some(SdkError::ShieldedParamsNotLoaded)
    );
    let (mut sdk2, pk2) = sdk_with_key(b"sk-shield");
    sdk2.load_masp_params(vec![b"s".to_vec(), b"o".to_vec(), b"c".to_vec()]).unwrap();
    assert!(sdk2
        .submit_transfer(&msg, None, Some(b"xsk".to_vec()), &Some(pk2), true)
        .is_ok());
    let _ = pk;
}

#[test]
fn externally_signed_submission_walks_the_same_machine() {
    let sdk = Sdk::new();
    let vk = public_key_of(&b"ext-signer".to_vec());
    let reveal_msg = encode_args(&TxArgs::RevealPK {
        tx: TxParams {
            gas_token: b"NAM".to_vec(),
            gas_limit: 20_000,
            password: None,
            verification_key: Some(vk.clone()),
        },
    });
    let tx_bytes = sdk.build_tx(TxType::RevealPK, &reveal_msg, &vk).unwrap();
    let mut flow = sdk.submit_signed_tx(&reveal_msg, &tx_bytes, false).unwrap();
    let _ = flow.reveal_request().unwrap().unwrap();
    flow.reveal_result(true).unwrap();
    flow.sign_raw(&encode_sig_blob(&vk, &b"ext-raw".to_vec())).unwrap();
    flow.sign_wrapper(&encode_sig_blob(&vk, &b"ext-wrapper".to_vec())).unwrap();
    let bytes = flow.submit_request().unwrap();
    assert!(Tx::from_bytes(&bytes).is_ok());
    flow.submit_result(true).unwrap();
    assert_eq!(flow.phase(), SubmitPhase::Submitted);
}

#[test]
fn externally_signed_reveal_pk_has_no_prerequisite() {
    let sdk = Sdk::new();
    let vk = public_key_of(&b"ext-signer2".to_vec());
    let reveal_msg = encode_args(&TxArgs::RevealPK {
        tx: TxParams {
            gas_token: b"NAM".to_vec(),
            gas_limit: 20_000,
            password: None,
            verification_key: Some(vk.clone()),
        },
    });
    let tx_bytes = sdk.build_tx(TxType::RevealPK, &reveal_msg, &vk).unwrap();
    let mut flow = sdk.submit_signed_reveal_pk(&reveal_msg, &tx_bytes).unwrap();
    assert!(!flow.reveal_needed());
    assert!(flow.reveal_request().unwrap().is_none());
}

#[test]
fn sdk_encode_decode_replaces_the_keyring() {
    let mut sdk = Sdk::new();
    sdk.add_key(&b"sk-a".to_vec(), None, Some(b"a".to_vec()));
    sdk.add_key(&b"sk-b".to_vec(), None, Some(b"b".to_vec()));
    let snapshot = sdk.encode();
    let mut other = Sdk::new();
    other.add_key(&b"sk-z".to_vec(), None, Some(b"z".to_vec()));
    other.decode(&snapshot).unwrap();
    let pk_a = public_key_of(&b"sk-a".to_vec());
    assert_eq!(other.find_key_by_public_key(&pk_a, &None), Ok(b"sk-a".to_vec()));
    let pk_z = public_key_of(&b"sk-z".to_vec());
    assert_eq!(other.find_key_by_public_key(&pk_z, &None), Err(SdkError::KeyNotFound));
    assert_eq!(other.decode(&b"garbage".to_vec()).err(), Some(SdkError::DecodeError));
    // Failed decode left the replaced keyring intact.
    assert_eq!(other.find_key_by_public_key(&pk_a, &None), Ok(b"sk-a".to_vec()));
}

#[test]
fn clear_storage_forgets_keys() {
    let mut sdk = Sdk::new();
    sdk.add_key(&b"sk-c".to_vec(), None, None);
    sdk.clear_storage();
    let pk = public_key_of(&b"sk-c".to_vec());
    assert_eq!(sdk.find_key_by_public_key(&pk, &None), Err(SdkError::KeyNotFound));
}
