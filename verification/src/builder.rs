//! Builder dispatch.
//!
//! One entry point builds the unsigned container for any of the six
//! transaction kinds: it validates the gas payer, decodes the kind's
//! argument blob, enforces the per-kind presence rules (a source for every
//! kind but reveal-pk, where the verification key substitutes; loaded
//! shielded parameters before any shielded transfer), and assembles the
//! container — kind discriminant, gas payer, argument payload, and the
//! shielded-builder section when a spending key is involved.  It alters no
//! argument on the way through.

use vstd::prelude::*;
use crate::args::{
    TxArgs, TxArgsModel, kind_of, args_wf, small_arg, spec_encode_args, spec_parse_args,
    encode_args, decode_args, lemma_args_fields_small, args_fields,
};
use crate::codec::{clone_bytes, lemma_enc_fields_len_bound};
use crate::error::SdkError;
use crate::tx::{
    Tx, Section, SectionModel, base_tx_wf, tx_wf, spec_encode_tx, spec_parse_tx,
    lemma_tx_round_trip,
};
use crate::txtype::{TxType, spec_code};
use crate::wallet::spec_pk_wf;

verus! {

/// The spending key a record carries, if any: only shielded transfers have
/// one.
pub open spec fn spending_key_of(a: TxArgsModel) -> Option<Seq<u8>> {
    match a {
        TxArgsModel::Transfer { spending_key, .. } => spending_key,
        _ => None,
    }
}

/// The source a record names, if any.
pub open spec fn source_of(a: TxArgsModel) -> Option<Seq<u8>> {
    match a {
        TxArgsModel::Bond { source, .. } => source,
        TxArgsModel::Unbond { source, .. } => source,
        TxArgsModel::Withdraw { source, .. } => source,
        TxArgsModel::Transfer { source, .. } => source,
        TxArgsModel::IBCTransfer { source, .. } => source,
        TxArgsModel::RevealPK { tx } => tx.verification_key,
    }
}

/// The first build error a record runs into, if any: a missing source (or,
/// for reveal-pk, a missing verification key), or a shielded transfer before
/// the proving parameters are loaded.
pub open spec fn spec_build_check(a: TxArgsModel, shielded_loaded: bool) -> Option<SdkError> {
    if source_of(a) is None {
        Some(SdkError::MissingRequiredField)
    } else if spending_key_of(a) is Some && !shielded_loaded {
        Some(SdkError::ShieldedParamsNotLoaded)
    } else {
        None
    }
}

/// The unsigned container for a record: the kind discriminant, the gas
/// payer, the argument payload, and — for a shielded transfer — the builder
/// section carrying the spending key.
pub open spec fn spec_build_sections(a: TxArgsModel, gas_payer: Seq<u8>) -> Seq<SectionModel> {
    let base = seq![
        SectionModel::Data(seq![spec_code(kind_of(a))]),
        SectionModel::Data(gas_payer),
        SectionModel::Data(spec_encode_args(a)),
    ];
    match spending_key_of(a) {
        Some(sk) => base.push(SectionModel::MaspBuilder(sk)),
        None => base,
    }
}

/// What `build_tx` returns for every input, error by error: a malformed or
/// ill-tagged gas payer or argument blob is a `DecodeError`; then the
/// per-kind checks of [`spec_build_check`]; otherwise the container's wire
/// bytes.
pub open spec fn spec_build_tx(
    t: TxType,
    b: Seq<u8>,
    gas_payer: Seq<u8>,
    shielded_loaded: bool,
) -> Result<Seq<u8>, SdkError> {
    if !spec_pk_wf(gas_payer) || !small_arg(gas_payer) {
        Err(SdkError::DecodeError)
    } else {
        match spec_parse_args(t, b) {
            None => Err(SdkError::DecodeError),
            Some(a) => match spec_build_check(a, shielded_loaded) {
                Some(e) => Err(e),
                None => Ok(spec_encode_tx(spec_build_sections(a, gas_payer))),
            },
        }
    }
}

/// The container of any bounded record is a well-formed unsigned
/// transaction.
pub proof fn lemma_build_sections_wf(a: TxArgsModel, gas_payer: Seq<u8>)
    requires
        args_wf(a),
        small_arg(gas_payer),
    ensures
        base_tx_wf(spec_build_sections(a, gas_payer)),
        tx_wf(spec_build_sections(a, gas_payer)),
{
    lemma_args_fields_small(a);
    lemma_enc_fields_len_bound(args_fields(a), 0x0010_0009);
    assert(args_fields(a).len() * (4 + 0x0010_0009) <= 9 * (4 + 0x0010_0009))
        by (nonlinear_arith)
        requires args_fields(a).len() <= 9
    ;
    assert(spec_encode_args(a).len() < 0x0100_0000);
    let ss = spec_build_sections(a, gas_payer);
    match spending_key_of(a) {
        Some(sk) => {
            assert(ss.len() == 4);
            assert(a matches TxArgsModel::Transfer { spending_key: Some(s), .. } && s == sk);
        },
        None => {
            assert(ss.len() == 3);
        },
    }
    assert forall|i: int| 0 <= i < ss.len() implies crate::tx::section_ok(#[trigger] ss[i])
        && !(ss[i] is Signature) by {
        let base = seq![
            SectionModel::Data(seq![spec_code(kind_of(a))]),
            SectionModel::Data(gas_payer),
            SectionModel::Data(spec_encode_args(a)),
        ];
        assert(base[0] == SectionModel::Data(seq![spec_code(kind_of(a))]));
        assert(base[1] == SectionModel::Data(gas_payer));
        assert(base[2] == SectionModel::Data(spec_encode_args(a)));
    }
}

/// Round-trip law: for every kind and every bounded, complete argument
/// record, building succeeds and the container's bytes decode back to
/// exactly the container — nothing is lost.
pub proof fn lemma_build_round_trip(a: TxArgsModel, gas_payer: Seq<u8>, shielded_loaded: bool)
    requires
        args_wf(a),
        spec_pk_wf(gas_payer),
        small_arg(gas_payer),
        spec_build_check(a, shielded_loaded) is None,
    ensures
        spec_build_tx(kind_of(a), spec_encode_args(a), gas_payer, shielded_loaded) == Ok::<
            Seq<u8>,
            SdkError,
        >(spec_encode_tx(spec_build_sections(a, gas_payer))),
        spec_parse_tx(spec_encode_tx(spec_build_sections(a, gas_payer))) == Some(
            spec_build_sections(a, gas_payer),
        ),
{
    crate::args::lemma_args_round_trip(a);
    lemma_build_sections_wf(a, gas_payer);
    lemma_tx_round_trip(spec_build_sections(a, gas_payer));
}

/// The kind of an argument record.
pub fn kind_of_args(a: &TxArgs) -> (r: TxType)
    ensures
        r == kind_of(a@),
{
    match a {
        TxArgs::Bond { .. } => TxType::Bond,
        TxArgs::Unbond { .. } => TxType::Unbond,
        TxArgs::Withdraw { .. } => TxType::Withdraw,
        TxArgs::Transfer { .. } => TxType::Transfer,
        TxArgs::IBCTransfer { .. } => TxType::IBCTransfer,
        TxArgs::RevealPK { .. } => TxType::RevealPK,
    }
}

/// Assembles the unsigned container for a record.
pub fn build_container(a: &TxArgs, gas_payer: &Vec<u8>) -> (t: Tx)
    requires
        args_wf(a@),
        small_arg(gas_payer@),
    ensures
        t@ == spec_build_sections(a@, gas_payer@),
        base_tx_wf(t@),
        tx_wf(t@),
{
    let k = kind_of_args(a);
    let mut code_bytes: Vec<u8> = Vec::new();
    code_bytes.push(k.code());
    assert(code_bytes@ =~= seq![spec_code(kind_of(a@))]);
    let mut t = Tx::new();
    t.add_section(Section::Data(code_bytes));
    t.add_section(Section::Data(clone_bytes(gas_payer)));
    t.add_section(Section::Data(encode_args(a)));
    let sk_opt: Option<Vec<u8>> = match a {
        TxArgs::Transfer { spending_key: Some(s), .. } => Some(clone_bytes(s)),
        _ => None,
    };
    match sk_opt {
        Some(s) => {
            t.add_section(Section::MaspBuilder(s));
        },
        None => {},
    }
    proof {
        assert(t@ =~= spec_build_sections(a@, gas_payer@));
        lemma_build_sections_wf(a@, gas_payer@);
    }
    t
}

/// Which build error a decoded record runs into, if any.
pub fn build_check(a: &TxArgs, shielded_loaded: bool) -> (r: Option<SdkError>)
    ensures
        r == spec_build_check(a@, shielded_loaded),
{
    let has_source: bool = match a {
        TxArgs::Bond { source: Some(_), .. } => true,
        TxArgs::Unbond { source: Some(_), .. } => true,
        TxArgs::Withdraw { source: Some(_), .. } => true,
        TxArgs::Transfer { source: Some(_), .. } => true,
        TxArgs::IBCTransfer { source: Some(_), .. } => true,
        TxArgs::RevealPK { tx } => tx.verification_key.is_some(),
        _ => false,
    };
    if !has_source {
        return Some(SdkError::MissingRequiredField);
    }
    let shielded: bool = match a {
        TxArgs::Transfer { spending_key: Some(_), .. } => true,
        _ => false,
    };
    if shielded && !shielded_loaded {
        return Some(SdkError::ShieldedParamsNotLoaded);
    }
    None
}

/// Builds the unsigned transaction of a kind and returns its wire bytes.
pub fn build_tx(t: TxType, tx_msg: &Vec<u8>, gas_payer: &Vec<u8>, shielded_loaded: bool) -> (r:
    Result<Vec<u8>, SdkError>)
    ensures
        match r {
            Ok(b) => spec_build_tx(t, tx_msg@, gas_payer@, shielded_loaded) == Ok::<
                Seq<u8>,
                SdkError,
            >(b@),
            Err(e) => spec_build_tx(t, tx_msg@, gas_payer@, shielded_loaded) == Err::<
                Seq<u8>,
                SdkError,
            >(e),
        },
{
    if !crate::wallet::validate_pk(gas_payer) || gas_payer.len() >= 0x0010_0000 {
        return Err(SdkError::DecodeError);
    }
    let a = match decode_args(t, tx_msg) {
        Ok(a) => a,
        Err(e) => {
            return Err(SdkError::DecodeError);
        },
    };
    match build_check(&a, shielded_loaded) {
        Some(e) => {
            return Err(e);
        },
        None => {},
    }
    let container = build_container(&a, gas_payer);
    Ok(container.to_bytes())
}

} // verus!
