//! Per-kind transaction arguments.
//!
//! The host hands each submission an opaque argument blob.  The blob is a
//! framed field list: four wrapper-level fields first (gas token, gas limit,
//! optional password, optional verification key), then the kind-specific
//! fields in a fixed positional order.  The format is versionless: the field
//! order must match exactly, and any deviation is a `DecodeError`.

use vstd::prelude::*;
use crate::codec::{
    enc_opt, dec_opt, enc_u64, dec_u64, enc_fields, dec_fields, fields_fit, field_fits, seqs_of,
    opt_seq_of, encode_fields, decode_fields, encode_opt, decode_opt, clone_bytes, u64_field,
    read_u64_field, push_field, lemma_fields_round_trip, lemma_opt_round_trip,
    lemma_u64_round_trip,
};
use crate::error::SdkError;
use crate::txtype::TxType;

verus! {

/// Size bound on every argument component, far under what a data section of
/// the transaction container can carry.
pub open spec fn small_arg(s: Seq<u8>) -> bool {
    s.len() < 0x0010_0000
}

pub open spec fn opt_small_arg(o: Option<Seq<u8>>) -> bool {
    match o {
        None => true,
        Some(s) => small_arg(s),
    }
}

/// The wrapper-level arguments every kind carries.
#[verifier::ext_equal]
pub ghost struct TxParamsModel {
    pub gas_token: Seq<u8>,
    pub gas_limit: u64,
    pub password: Option<Seq<u8>>,
    pub verification_key: Option<Seq<u8>>,
}

pub struct TxParams {
    pub gas_token: Vec<u8>,
    pub gas_limit: u64,
    pub password: Option<Vec<u8>>,
    pub verification_key: Option<Vec<u8>>,
}

impl View for TxParams {
    type V = TxParamsModel;

    open spec fn view(&self) -> TxParamsModel {
        TxParamsModel {
            gas_token: self.gas_token@,
            gas_limit: self.gas_limit,
            password: opt_seq_of(self.password),
            verification_key: opt_seq_of(self.verification_key),
        }
    }
}

/// One variant per transaction kind.  `source` is present for every kind but
/// RevealPK, where the wrapper-level verification key substitutes for it.
#[verifier::ext_equal]
pub ghost enum TxArgsModel {
    Bond { source: Option<Seq<u8>>, validator: Seq<u8>, amount: u64, tx: TxParamsModel },
    Unbond { source: Option<Seq<u8>>, validator: Seq<u8>, amount: u64, tx: TxParamsModel },
    Withdraw { source: Option<Seq<u8>>, validator: Seq<u8>, tx: TxParamsModel },
    Transfer {
        source: Option<Seq<u8>>,
        target: Seq<u8>,
        token: Seq<u8>,
        amount: u64,
        spending_key: Option<Seq<u8>>,
        tx: TxParamsModel,
    },
    IBCTransfer {
        source: Option<Seq<u8>>,
        receiver: Seq<u8>,
        channel: Seq<u8>,
        amount: u64,
        tx: TxParamsModel,
    },
    RevealPK { tx: TxParamsModel },
}

pub enum TxArgs {
    Bond { source: Option<Vec<u8>>, validator: Vec<u8>, amount: u64, tx: TxParams },
    Unbond { source: Option<Vec<u8>>, validator: Vec<u8>, amount: u64, tx: TxParams },
    Withdraw { source: Option<Vec<u8>>, validator: Vec<u8>, tx: TxParams },
    Transfer {
        source: Option<Vec<u8>>,
        target: Vec<u8>,
        token: Vec<u8>,
        amount: u64,
        spending_key: Option<Vec<u8>>,
        tx: TxParams,
    },
    IBCTransfer {
        source: Option<Vec<u8>>,
        receiver: Vec<u8>,
        channel: Vec<u8>,
        amount: u64,
        tx: TxParams,
    },
    RevealPK { tx: TxParams },
}

impl View for TxArgs {
    type V = TxArgsModel;

    open spec fn view(&self) -> TxArgsModel {
        match self {
            TxArgs::Bond { source, validator, amount, tx } => TxArgsModel::Bond {
                source: opt_seq_of(*source),
                validator: validator@,
                amount: *amount,
                tx: tx@,
            },
            TxArgs::Unbond { source, validator, amount, tx } => TxArgsModel::Unbond {
                source: opt_seq_of(*source),
                validator: validator@,
                amount: *amount,
                tx: tx@,
            },
            TxArgs::Withdraw { source, validator, tx } => TxArgsModel::Withdraw {
                source: opt_seq_of(*source),
                validator: validator@,
                tx: tx@,
            },
            TxArgs::Transfer { source, target, token, amount, spending_key, tx } => TxArgsModel::Transfer {
                source: opt_seq_of(*source),
                target: target@,
                token: token@,
                amount: *amount,
                spending_key: opt_seq_of(*spending_key),
                tx: tx@,
            },
            TxArgs::IBCTransfer { source, receiver, channel, amount, tx } => TxArgsModel::IBCTransfer {
                source: opt_seq_of(*source),
                receiver: receiver@,
                channel: channel@,
                amount: *amount,
                tx: tx@,
            },
            TxArgs::RevealPK { tx } => TxArgsModel::RevealPK { tx: tx@ },
        }
    }
}

/// The kind an argument record belongs to.
pub open spec fn kind_of(a: TxArgsModel) -> TxType {
    match a {
        TxArgsModel::Bond { .. } => TxType::Bond,
        TxArgsModel::Unbond { .. } => TxType::Unbond,
        TxArgsModel::Withdraw { .. } => TxType::Withdraw,
        TxArgsModel::Transfer { .. } => TxType::Transfer,
        TxArgsModel::IBCTransfer { .. } => TxType::IBCTransfer,
        TxArgsModel::RevealPK { .. } => TxType::RevealPK,
    }
}

pub open spec fn params_wf(p: TxParamsModel) -> bool {
    small_arg(p.gas_token) && opt_small_arg(p.password) && opt_small_arg(p.verification_key)
}

/// Every component bounded.
pub open spec fn args_wf(a: TxArgsModel) -> bool {
    match a {
        TxArgsModel::Bond { source, validator, amount, tx } => opt_small_arg(source) && small_arg(
            validator,
        ) && params_wf(tx),
        TxArgsModel::Unbond { source, validator, amount, tx } => opt_small_arg(source)
            && small_arg(validator) && params_wf(tx),
        TxArgsModel::Withdraw { source, validator, tx } => opt_small_arg(source) && small_arg(
            validator,
        ) && params_wf(tx),
        TxArgsModel::Transfer { source, target, token, amount, spending_key, tx } => opt_small_arg(
            source,
        ) && small_arg(target) && small_arg(token) && opt_small_arg(spending_key) && params_wf(tx),
        TxArgsModel::IBCTransfer { source, receiver, channel, amount, tx } => opt_small_arg(source)
            && small_arg(receiver) && small_arg(channel) && params_wf(tx),
        TxArgsModel::RevealPK { tx } => params_wf(tx),
    }
}

// ---- wire form ----

pub open spec fn params_fields(p: TxParamsModel) -> Seq<Seq<u8>> {
    seq![p.gas_token, enc_u64(p.gas_limit), enc_opt(p.password), enc_opt(p.verification_key)]
}

pub open spec fn tx_params_of(a: TxArgsModel) -> TxParamsModel {
    match a {
        TxArgsModel::Bond { tx, .. } => tx,
        TxArgsModel::Unbond { tx, .. } => tx,
        TxArgsModel::Withdraw { tx, .. } => tx,
        TxArgsModel::Transfer { tx, .. } => tx,
        TxArgsModel::IBCTransfer { tx, .. } => tx,
        TxArgsModel::RevealPK { tx } => tx,
    }
}

pub open spec fn extras_fields(a: TxArgsModel) -> Seq<Seq<u8>> {
    match a {
        TxArgsModel::Bond { source, validator, amount, .. } => seq![
            enc_opt(source),
            validator,
            enc_u64(amount),
        ],
        TxArgsModel::Unbond { source, validator, amount, .. } => seq![
            enc_opt(source),
            validator,
            enc_u64(amount),
        ],
        TxArgsModel::Withdraw { source, validator, .. } => seq![enc_opt(source), validator],
        TxArgsModel::Transfer { source, target, token, amount, spending_key, .. } => seq![
            enc_opt(source),
            target,
            token,
            enc_u64(amount),
            enc_opt(spending_key),
        ],
        TxArgsModel::IBCTransfer { source, receiver, channel, amount, .. } => seq![
            enc_opt(source),
            receiver,
            channel,
            enc_u64(amount),
        ],
        TxArgsModel::RevealPK { .. } => Seq::empty(),
    }
}

pub open spec fn args_fields(a: TxArgsModel) -> Seq<Seq<u8>> {
    params_fields(tx_params_of(a)) + extras_fields(a)
}

/// The argument blob of a record.
pub open spec fn spec_encode_args(a: TxArgsModel) -> Seq<u8> {
    enc_fields(args_fields(a))
}

/// How many fields each kind's blob holds.
pub open spec fn expected_fields(t: TxType) -> int {
    match t {
        TxType::Bond => 7,
        TxType::Unbond => 7,
        TxType::Withdraw => 6,
        TxType::Transfer => 9,
        TxType::IBCTransfer => 8,
        TxType::RevealPK => 4,
    }
}

/// The wrapper-level arguments the first four fields denote, if well formed.
pub open spec fn parse_params(fs: Seq<Seq<u8>>) -> Option<TxParamsModel> {
    if fs.len() < 4 {
        None
    } else if !small_arg(fs[0]) {
        None
    } else if fs[1].len() != 8 {
        None
    } else {
        match dec_opt(fs[2]) {
            None => None,
            Some(pw) => if !opt_small_arg(pw) {
                None
            } else {
                match dec_opt(fs[3]) {
                    None => None,
                    Some(vk) => if !opt_small_arg(vk) {
                        None
                    } else {
                        Some(
                            TxParamsModel {
                                gas_token: fs[0],
                                gas_limit: dec_u64(fs[1]),
                                password: pw,
                                verification_key: vk,
                            },
                        )
                    },
                }
            },
        }
    }
}

/// The argument record a blob denotes for a kind, if any.
pub open spec fn spec_parse_args(t: TxType, b: Seq<u8>) -> Option<TxArgsModel> {
    match dec_fields(b) {
        None => None,
        Some(fs) => if fs.len() != expected_fields(t) {
            None
        } else {
            match parse_params(fs) {
                None => None,
                Some(p) => match t {
                    TxType::Bond => match dec_opt(fs[4]) {
                        None => None,
                        Some(src) => if opt_small_arg(src) && small_arg(fs[5]) && fs[6].len()
                            == 8 {
                            Some(
                                TxArgsModel::Bond {
                                    source: src,
                                    validator: fs[5],
                                    amount: dec_u64(fs[6]),
                                    tx: p,
                                },
                            )
                        } else {
                            None
                        },
                    },
                    TxType::Unbond => match dec_opt(fs[4]) {
                        None => None,
                        Some(src) => if opt_small_arg(src) && small_arg(fs[5]) && fs[6].len()
                            == 8 {
                            Some(
                                TxArgsModel::Unbond {
                                    source: src,
                                    validator: fs[5],
                                    amount: dec_u64(fs[6]),
                                    tx: p,
                                },
                            )
                        } else {
                            None
                        },
                    },
                    TxType::Withdraw => match dec_opt(fs[4]) {
                        None => None,
                        Some(src) => if opt_small_arg(src) && small_arg(fs[5]) {
                            Some(TxArgsModel::Withdraw { source: src, validator: fs[5], tx: p })
                        } else {
                            None
                        },
                    },
                    TxType::Transfer => match dec_opt(fs[4]) {
                        None => None,
                        Some(src) => if opt_small_arg(src) && small_arg(fs[5]) && small_arg(fs[6])
                            && fs[7].len() == 8 {
                            match dec_opt(fs[8]) {
                                None => None,
                                Some(sk) => if opt_small_arg(sk) {
                                    Some(
                                        TxArgsModel::Transfer {
                                            source: src,
                                            target: fs[5],
                                            token: fs[6],
                                            amount: dec_u64(fs[7]),
                                            spending_key: sk,
                                            tx: p,
                                        },
                                    )
                                } else {
                                    None
                                },
                            }
                        } else {
                            None
                        },
                    },
                    TxType::IBCTransfer => match dec_opt(fs[4]) {
                        None => None,
                        Some(src) => if opt_small_arg(src) && small_arg(fs[5]) && small_arg(fs[6])
                            && fs[7].len() == 8 {
                            Some(
                                TxArgsModel::IBCTransfer {
                                    source: src,
                                    receiver: fs[5],
                                    channel: fs[6],
                                    amount: dec_u64(fs[7]),
                                    tx: p,
                                },
                            )
                        } else {
                            None
                        },
                    },
                    TxType::RevealPK => Some(TxArgsModel::RevealPK { tx: p }),
                },
            }
        },
    }
}

// ---- bounds and round trip ----

proof fn lemma_params_fields_basics(p: TxParamsModel)
    requires
        params_wf(p),
    ensures
        params_fields(p).len() == 4,
        fields_fit(params_fields(p)),
        params_fields(p)[0] == p.gas_token,
        params_fields(p)[1] == enc_u64(p.gas_limit),
        params_fields(p)[2] == enc_opt(p.password),
        params_fields(p)[3] == enc_opt(p.verification_key),
{
    lemma_u64_round_trip(p.gas_limit);
    assert forall|i: int| 0 <= i < params_fields(p).len() implies field_fits(
        #[trigger] params_fields(p)[i],
    ) by {
        assert(params_fields(p)[0] == p.gas_token);
        assert(params_fields(p)[1] == enc_u64(p.gas_limit));
        assert(params_fields(p)[2] == enc_opt(p.password));
        assert(params_fields(p)[3] == enc_opt(p.verification_key));
    }
}

pub proof fn lemma_args_fields_small(a: TxArgsModel)
    requires
        args_wf(a),
    ensures
        fields_fit(args_fields(a)),
        args_fields(a).len() == expected_fields(kind_of(a)),
        forall|i: int|
            0 <= i < args_fields(a).len() ==> (#[trigger] args_fields(a)[i]).len()
                <= 0x0010_0009,
{
    lemma_params_fields_basics(tx_params_of(a));
    assert forall|i: int| 0 <= i < args_fields(a).len() implies field_fits(
        #[trigger] args_fields(a)[i],
    ) && args_fields(a)[i].len() <= 0x0010_0009 by {
        if i < 4 {
            assert(args_fields(a)[i] == params_fields(tx_params_of(a))[i]);
        } else {
            let j = i - 4;
            assert(args_fields(a)[i] == extras_fields(a)[j]);
            match a {
                TxArgsModel::Bond { source, validator, amount, .. } => {
                    assert(extras_fields(a)[0] == enc_opt(source));
                    assert(extras_fields(a)[1] == validator);
                    assert(extras_fields(a)[2] == enc_u64(amount));
                    lemma_u64_round_trip(amount);
                },
                TxArgsModel::Unbond { source, validator, amount, .. } => {
                    assert(extras_fields(a)[0] == enc_opt(source));
                    assert(extras_fields(a)[1] == validator);
                    assert(extras_fields(a)[2] == enc_u64(amount));
                    lemma_u64_round_trip(amount);
                },
                TxArgsModel::Withdraw { source, validator, .. } => {
                    assert(extras_fields(a)[0] == enc_opt(source));
                    assert(extras_fields(a)[1] == validator);
                },
                TxArgsModel::Transfer { source, target, token, amount, spending_key, .. } => {
                    assert(extras_fields(a)[0] == enc_opt(source));
                    assert(extras_fields(a)[1] == target);
                    assert(extras_fields(a)[2] == token);
                    assert(extras_fields(a)[3] == enc_u64(amount));
                    assert(extras_fields(a)[4] == enc_opt(spending_key));
                    lemma_u64_round_trip(amount);
                },
                TxArgsModel::IBCTransfer { source, receiver, channel, amount, .. } => {
                    assert(extras_fields(a)[0] == enc_opt(source));
                    assert(extras_fields(a)[1] == receiver);
                    assert(extras_fields(a)[2] == channel);
                    assert(extras_fields(a)[3] == enc_u64(amount));
                    lemma_u64_round_trip(amount);
                },
                TxArgsModel::RevealPK { .. } => {},
            }
        }
    }
}

proof fn lemma_parse_params_round(p: TxParamsModel, rest: Seq<Seq<u8>>)
    requires
        params_wf(p),
    ensures
        parse_params(params_fields(p) + rest) == Some(p),
{
    lemma_params_fields_basics(p);
    let fs = params_fields(p) + rest;
    assert(fs[0] == p.gas_token);
    assert(fs[1] == enc_u64(p.gas_limit));
    assert(fs[2] == enc_opt(p.password));
    assert(fs[3] == enc_opt(p.verification_key));
    lemma_u64_round_trip(p.gas_limit);
    lemma_opt_round_trip(p.password);
    lemma_opt_round_trip(p.verification_key);
}

#[verifier::spinoff_prover]
#[verifier::rlimit(100)]
proof fn lemma_args_rt_prefix(a: TxArgsModel)
    requires
        args_wf(a),
    ensures
        dec_fields(spec_encode_args(a)) == Some(args_fields(a)),
        args_fields(a).len() == expected_fields(kind_of(a)),
        parse_params(args_fields(a)) == Some(tx_params_of(a)),
        forall|j: int|
            0 <= j < extras_fields(a).len() ==> args_fields(a)[4 + j] == #[trigger] extras_fields(
                a,
            )[j],
{
    lemma_args_fields_small(a);
    lemma_fields_round_trip(args_fields(a));
    lemma_parse_params_round(tx_params_of(a), extras_fields(a));
    lemma_params_fields_basics(tx_params_of(a));
}

#[verifier::spinoff_prover]
#[verifier::rlimit(100)]
proof fn lemma_args_rt_bond(a: TxArgsModel)
    requires
        args_wf(a),
        a is Bond || a is Unbond,
    ensures
        spec_parse_args(kind_of(a), spec_encode_args(a)) == Some(a),
{
    lemma_args_rt_prefix(a);
    match a {
        TxArgsModel::Bond { source, validator, amount, tx } => {
            assert(extras_fields(a)[0] == enc_opt(source));
            assert(extras_fields(a)[1] == validator);
            assert(extras_fields(a)[2] == enc_u64(amount));
            lemma_opt_round_trip(source);
            lemma_u64_round_trip(amount);
        },
        TxArgsModel::Unbond { source, validator, amount, tx } => {
            assert(extras_fields(a)[0] == enc_opt(source));
            assert(extras_fields(a)[1] == validator);
            assert(extras_fields(a)[2] == enc_u64(amount));
            lemma_opt_round_trip(source);
            lemma_u64_round_trip(amount);
        },
        _ => {},
    }
}

#[verifier::spinoff_prover]
#[verifier::rlimit(100)]
proof fn lemma_args_rt_withdraw(a: TxArgsModel)
    requires
        args_wf(a),
        a is Withdraw || a is RevealPK,
    ensures
        spec_parse_args(kind_of(a), spec_encode_args(a)) == Some(a),
{
    lemma_args_rt_prefix(a);
    match a {
        TxArgsModel::Withdraw { source, validator, tx } => {
            assert(extras_fields(a)[0] == enc_opt(source));
            assert(extras_fields(a)[1] == validator);
            lemma_opt_round_trip(source);
        },
        _ => {},
    }
}

#[verifier::spinoff_prover]
#[verifier::rlimit(100)]
proof fn lemma_args_rt_transfer(a: TxArgsModel)
    requires
        args_wf(a),
        a is Transfer,
    ensures
        spec_parse_args(kind_of(a), spec_encode_args(a)) == Some(a),
{
    lemma_args_rt_prefix(a);
    match a {
        TxArgsModel::Transfer { source, target, token, amount, spending_key, tx } => {
            assert(extras_fields(a)[0] == enc_opt(source));
            assert(extras_fields(a)[1] == target);
            assert(extras_fields(a)[2] == token);
            assert(extras_fields(a)[3] == enc_u64(amount));
            assert(extras_fields(a)[4] == enc_opt(spending_key));
            lemma_opt_round_trip(source);
            lemma_opt_round_trip(spending_key);
            lemma_u64_round_trip(amount);
        },
        _ => {},
    }
}

#[verifier::spinoff_prover]
#[verifier::rlimit(100)]
proof fn lemma_args_rt_ibc(a: TxArgsModel)
    requires
        args_wf(a),
        a is IBCTransfer,
    ensures
        spec_parse_args(kind_of(a), spec_encode_args(a)) == Some(a),
{
    lemma_args_rt_prefix(a);
    match a {
        TxArgsModel::IBCTransfer { source, receiver, channel, amount, tx } => {
            assert(extras_fields(a)[0] == enc_opt(source));
            assert(extras_fields(a)[1] == receiver);
            assert(extras_fields(a)[2] == channel);
            assert(extras_fields(a)[3] == enc_u64(amount));
            lemma_opt_round_trip(source);
            lemma_u64_round_trip(amount);
        },
        _ => {},
    }
}

/// Round-trip law: the blob of any bounded argument record parses back, for
/// its own kind, to exactly that record.
pub proof fn lemma_args_round_trip(a: TxArgsModel)
    requires
        args_wf(a),
    ensures
        spec_parse_args(kind_of(a), spec_encode_args(a)) == Some(a),
{
    match a {
        TxArgsModel::Bond { .. } => lemma_args_rt_bond(a),
        TxArgsModel::Unbond { .. } => lemma_args_rt_bond(a),
        TxArgsModel::Withdraw { .. } => lemma_args_rt_withdraw(a),
        TxArgsModel::Transfer { .. } => lemma_args_rt_transfer(a),
        TxArgsModel::IBCTransfer { .. } => lemma_args_rt_ibc(a),
        TxArgsModel::RevealPK { .. } => lemma_args_rt_withdraw(a),
    }
}

// ---- executable form ----

fn push_params(fields: &mut Vec<Vec<u8>>, p: &TxParams)
    requires
        params_wf(p@),
        fields_fit(seqs_of(old(fields)@)),
    ensures
        seqs_of(final(fields)@) == seqs_of(old(fields)@) + params_fields(p@),
        fields_fit(seqs_of(final(fields)@)),
{
    proof {
        lemma_params_fields_basics(p@);
    }
    push_field(fields, clone_bytes(&p.gas_token));
    push_field(fields, u64_field(p.gas_limit));
    push_field(fields, encode_opt(&p.password));
    push_field(fields, encode_opt(&p.verification_key));
    assert(seqs_of(fields@) =~= seqs_of(old(fields)@) + params_fields(p@));
}

/// Frames an argument record into its blob.
pub fn encode_args(a: &TxArgs) -> (r: Vec<u8>)
    requires
        args_wf(a@),
    ensures
        r@ == spec_encode_args(a@),
{
    let mut fields: Vec<Vec<u8>> = Vec::new();
    proof {
        assert(seqs_of(fields@) =~= Seq::<Seq<u8>>::empty());
        lemma_args_fields_small(a@);
    }
    match a {
        TxArgs::Bond { source, validator, amount, tx } => {
            push_params(&mut fields, tx);
            push_field(&mut fields, encode_opt(source));
            push_field(&mut fields, clone_bytes(validator));
            push_field(&mut fields, u64_field(*amount));
            proof {
                lemma_u64_round_trip(*amount);
            }
        },
        TxArgs::Unbond { source, validator, amount, tx } => {
            push_params(&mut fields, tx);
            push_field(&mut fields, encode_opt(source));
            push_field(&mut fields, clone_bytes(validator));
            push_field(&mut fields, u64_field(*amount));
            proof {
                lemma_u64_round_trip(*amount);
            }
        },
        TxArgs::Withdraw { source, validator, tx } => {
            push_params(&mut fields, tx);
            push_field(&mut fields, encode_opt(source));
            push_field(&mut fields, clone_bytes(validator));
        },
        TxArgs::Transfer { source, target, token, amount, spending_key, tx } => {
            push_params(&mut fields, tx);
            push_field(&mut fields, encode_opt(source));
            push_field(&mut fields, clone_bytes(target));
            push_field(&mut fields, clone_bytes(token));
            push_field(&mut fields, u64_field(*amount));
            push_field(&mut fields, encode_opt(spending_key));
            proof {
                lemma_u64_round_trip(*amount);
            }
        },
        TxArgs::IBCTransfer { source, receiver, channel, amount, tx } => {
            push_params(&mut fields, tx);
            push_field(&mut fields, encode_opt(source));
            push_field(&mut fields, clone_bytes(receiver));
            push_field(&mut fields, clone_bytes(channel));
            push_field(&mut fields, u64_field(*amount));
            proof {
                lemma_u64_round_trip(*amount);
            }
        },
        TxArgs::RevealPK { tx } => {
            push_params(&mut fields, tx);
        },
    }
    assert(seqs_of(fields@) =~= args_fields(a@));
    encode_fields(&fields)
}

/// How many fields this kind's blob must hold.
fn expected_count(t: TxType) -> (r: usize)
    ensures
        r == expected_fields(t),
{
    match t {
        TxType::Bond => 7,
        TxType::Unbond => 7,
        TxType::Withdraw => 6,
        TxType::Transfer => 9,
        TxType::IBCTransfer => 8,
        TxType::RevealPK => 4,
    }
}

fn parse_params_exec(fs: &Vec<Vec<u8>>) -> (r: Result<TxParams, SdkError>)
    requires
        fs@.len() >= 4,
    ensures
        match r {
            Ok(p) => parse_params(seqs_of(fs@)) == Some(p@),
            Err(e) => parse_params(seqs_of(fs@)) is None && e == SdkError::DecodeError,
        },
{
    let ghost sfs = seqs_of(fs@);
    assert(sfs[0] == fs@[0]@ && sfs[1] == fs@[1]@ && sfs[2] == fs@[2]@ && sfs[3] == fs@[3]@);
    if fs[0].len() >= 0x0010_0000 {
        return Err(SdkError::DecodeError);
    }
    if fs[1].len() != 8 {
        return Err(SdkError::DecodeError);
    }
    let gas_limit = read_u64_field(&fs[1]);
    let password = match decode_opt(&fs[2]) {
        Ok(o) => o,
        Err(e) => {
            return Err(SdkError::DecodeError);
        },
    };
    let pw_big: bool = match &password {
        Some(v) => v.len() >= 0x0010_0000,
        None => false,
    };
    if pw_big {
        return Err(SdkError::DecodeError);
    }
    let verification_key = match decode_opt(&fs[3]) {
        Ok(o) => o,
        Err(e) => {
            return Err(SdkError::DecodeError);
        },
    };
    let vk_big: bool = match &verification_key {
        Some(v) => v.len() >= 0x0010_0000,
        None => false,
    };
    if vk_big {
        return Err(SdkError::DecodeError);
    }
    Ok(TxParams { gas_token: clone_bytes(&fs[0]), gas_limit, password, verification_key })
}

/// Reads an optional small component out of a field.
fn decode_opt_small(f: &Vec<u8>) -> (r: Result<Option<Vec<u8>>, SdkError>)
    ensures
        match r {
            Ok(o) => dec_opt(f@) == Some(opt_seq_of(o)) && opt_small_arg(opt_seq_of(o)),
            Err(e) => (dec_opt(f@) is None || !opt_small_arg(dec_opt(f@).unwrap())) && e
                == SdkError::DecodeError,
        },
{
    let o = match decode_opt(f) {
        Ok(o) => o,
        Err(e) => {
            return Err(SdkError::DecodeError);
        },
    };
    let big: bool = match &o {
        Some(v) => v.len() >= 0x0010_0000,
        None => false,
    };
    if big {
        return Err(SdkError::DecodeError);
    }
    Ok(o)
}

/// Decodes the argument blob of a kind.  Succeeds exactly on the blobs the
/// kind's grammar admits, and then returns exactly the record the blob
/// denotes.
pub fn decode_args(t: TxType, b: &Vec<u8>) -> (r: Result<TxArgs, SdkError>)
    ensures
        match r {
            Ok(a) => spec_parse_args(t, b@) == Some(a@) && kind_of(a@) == t && args_wf(a@),
            Err(e) => spec_parse_args(t, b@) is None && e == SdkError::DecodeError,
        },
{
    let fs = match decode_fields(b) {
        Ok(f) => f,
        Err(e) => {
            return Err(SdkError::DecodeError);
        },
    };
    let ghost sfs = seqs_of(fs@);
    if fs.len() != expected_count(t) {
        return Err(SdkError::DecodeError);
    }
    let p = match parse_params_exec(&fs) {
        Ok(p) => p,
        Err(e) => {
            return Err(SdkError::DecodeError);
        },
    };
    match t {
        TxType::Bond => {
            assert(sfs[4] == fs@[4]@ && sfs[5] == fs@[5]@ && sfs[6] == fs@[6]@);
            let source = match decode_opt_small(&fs[4]) {
                Ok(o) => o,
                Err(e) => {
                    return Err(SdkError::DecodeError);
                },
            };
            if fs[5].len() >= 0x0010_0000 || fs[6].len() != 8 {
                return Err(SdkError::DecodeError);
            }
            let amount = read_u64_field(&fs[6]);
            Ok(TxArgs::Bond { source, validator: clone_bytes(&fs[5]), amount, tx: p })
        },
        TxType::Unbond => {
            assert(sfs[4] == fs@[4]@ && sfs[5] == fs@[5]@ && sfs[6] == fs@[6]@);
            let source = match decode_opt_small(&fs[4]) {
                Ok(o) => o,
                Err(e) => {
                    return Err(SdkError::DecodeError);
                },
            };
            if fs[5].len() >= 0x0010_0000 || fs[6].len() != 8 {
                return Err(SdkError::DecodeError);
            }
            let amount = read_u64_field(&fs[6]);
            Ok(TxArgs::Unbond { source, validator: clone_bytes(&fs[5]), amount, tx: p })
        },
        TxType::Withdraw => {
            assert(sfs[4] == fs@[4]@ && sfs[5] == fs@[5]@);
            let source = match decode_opt_small(&fs[4]) {
                Ok(o) => o,
                Err(e) => {
                    return Err(SdkError::DecodeError);
                },
            };
            if fs[5].len() >= 0x0010_0000 {
                return Err(SdkError::DecodeError);
            }
            Ok(TxArgs::Withdraw { source, validator: clone_bytes(&fs[5]), tx: p })
        },
        TxType::Transfer => {
            assert(sfs[4] == fs@[4]@ && sfs[5] == fs@[5]@ && sfs[6] == fs@[6]@ && sfs[7]
                == fs@[7]@ && sfs[8] == fs@[8]@);
            let source = match decode_opt_small(&fs[4]) {
                Ok(o) => o,
                Err(e) => {
                    return Err(SdkError::DecodeError);
                },
            };
            if fs[5].len() >= 0x0010_0000 || fs[6].len() >= 0x0010_0000 || fs[7].len() != 8 {
                return Err(SdkError::DecodeError);
            }
            let spending_key = match decode_opt_small(&fs[8]) {
                Ok(o) => o,
                Err(e) => {
                    return Err(SdkError::DecodeError);
                },
            };
            let amount = read_u64_field(&fs[7]);
            Ok(
                TxArgs::Transfer {
                    source,
                    target: clone_bytes(&fs[5]),
                    token: clone_bytes(&fs[6]),
                    amount,
                    spending_key,
                    tx: p,
                },
            )
        },
        TxType::IBCTransfer => {
            assert(sfs[4] == fs@[4]@ && sfs[5] == fs@[5]@ && sfs[6] == fs@[6]@ && sfs[7]
                == fs@[7]@);
            let source = match decode_opt_small(&fs[4]) {
                Ok(o) => o,
                Err(e) => {
                    return Err(SdkError::DecodeError);
                },
            };
            if fs[5].len() >= 0x0010_0000 || fs[6].len() >= 0x0010_0000 || fs[7].len() != 8 {
                return Err(SdkError::DecodeError);
            }
            let amount = read_u64_field(&fs[7]);
            Ok(
                TxArgs::IBCTransfer {
                    source,
                    receiver: clone_bytes(&fs[5]),
                    channel: clone_bytes(&fs[6]),
                    amount,
                    tx: p,
                },
            )
        },
        TxType::RevealPK => {
            Ok(TxArgs::RevealPK { tx: p })
        },
    }
}

} // verus!
