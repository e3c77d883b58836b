//! The SDK session: one wallet, one shielded context, and the entry points
//! of the submission pipeline.
//!
//! Every operation here is synchronous and deterministic.  The ledger and
//! the host runtime stay outside: a caller performs the queries and
//! submissions a [`TxFlow`] asks for and reports the answers back.  What the
//! session decides — who signs, whether a reveal-pk transaction must go
//! first, in which order signatures attach, what is an error — is stated in
//! the contracts below.

use vstd::prelude::*;
use crate::args::{
    TxArgs, TxArgsModel, TxParamsModel, args_wf, small_arg, spec_parse_args, decode_args,
    tx_params_of,
};
use crate::builder::{spec_build_check, spec_build_sections, build_check, build_container};
use crate::codec::{clone_bytes, clone_opt_bytes, opt_seq_of};
use crate::error::SdkError;
use crate::flow::{
    TxFlow, FlowModel, SubmitPhase, SubmitKind, flow_wf, resolve_signing_data, pick_signer,
};
use crate::shielded::{ShieldedContext, ShieldedParamsModel};
use crate::tx::{
    Tx, spec_parse_tx, spec_unsigned, encode_sig_blob, lemma_sig_blob_round_trip,
};
use crate::txtype::TxType;
use crate::wallet::{
    Wallet, WalletModel, wallet_wf, spec_pk_wf, spec_find_key, validate_pk, spec_encode_wallet,
    spec_decode_wallet, small, opt_small,
};

verus! {

/// The mathematical content of a session.
#[verifier::ext_equal]
pub ghost struct SdkModel {
    pub wallet: WalletModel,
    pub shielded: Option<ShieldedParamsModel>,
}

/// The SDK session state: the keyring and the shielded context.  One
/// instance serves one sequential caller; nothing here locks.
pub struct Sdk {
    wallet: Wallet,
    shielded_ctx: ShieldedContext,
}

impl View for Sdk {
    type V = SdkModel;

    closed spec fn view(&self) -> SdkModel {
        SdkModel { wallet: self.wallet@, shielded: self.shielded_ctx@ }
    }
}

/// The reveal-pk argument record the guard derives for a signer: the
/// caller's wrapper-level arguments with the signer's key as the
/// verification key.
pub open spec fn reveal_args_of(p: TxParamsModel, pk: Seq<u8>) -> TxArgsModel {
    TxArgsModel::RevealPK {
        tx: TxParamsModel {
            gas_token: p.gas_token,
            gas_limit: p.gas_limit,
            password: p.password,
            verification_key: Some(pk),
        },
    }
}

/// The first error a submission attempt runs into before a flow exists, if
/// any: the per-kind build checks, then an unresolvable or ill-formed
/// signer, then a missing wallet key.
pub open spec fn spec_begin_check(
    a: TxArgsModel,
    loaded: bool,
    wallet: WalletModel,
    password: Option<Seq<u8>>,
    queried: Option<Seq<u8>>,
) -> Option<SdkError> {
    match spec_build_check(a, loaded) {
        Some(e) => Some(e),
        None => match queried {
            None => Some(SdkError::SigningDataUnavailable),
            Some(pk) => if !(spec_pk_wf(pk) && small_arg(pk)) {
                Some(SdkError::DecodeError)
            } else if spec_find_key(wallet.keys, pk, password) is None {
                Some(SdkError::KeyNotFound)
            } else {
                None
            },
        },
    }
}

/// What a freshly begun flow holds: the built container, the signer, and the
/// reveal prerequisite exactly when the address is unrevealed.
pub open spec fn spec_flow_ok(f: FlowModel, a: TxArgsModel, pk: Seq<u8>, revealed: bool) -> bool {
    &&& f.phase == SubmitPhase::Built
    &&& f.log == Seq::<SubmitKind>::empty()
    &&& f.signer == pk
    &&& f.tx == spec_build_sections(a, pk)
    &&& f.needs_reveal == !revealed
    &&& (!revealed ==> f.reveal_tx == Some(
        spec_build_sections(reveal_args_of(tx_params_of(a), pk), pk),
    ))
    &&& (revealed ==> f.reveal_tx is None)
}

/// The model signature over a digest: a tag, the head of the key material,
/// the head of the digest.  The real scheme lives with the external key
/// holder; nothing in the pipeline depends on more than this being a
/// deterministic, bounded function.
pub open spec fn spec_sig_of(sk: Seq<u8>, digest: Seq<u8>) -> Seq<u8> {
    seq![0x53u8] + sk.take(if sk.len() < 64 { sk.len() as int } else { 64 }) + digest.take(
        if digest.len() < 32 {
            digest.len() as int
        } else {
            32
        },
    )
}

/// Produces the model signature of a digest under a secret key.
pub fn sign_bytes(sk: &Vec<u8>, digest: &Vec<u8>) -> (r: Vec<u8>)
    ensures
        r@ == spec_sig_of(sk@, digest@),
        r@.len() <= 97,
{
    let mut out: Vec<u8> = Vec::new();
    out.push(0x53u8);
    let klen: usize = if sk.len() < 64 {
        sk.len()
    } else {
        64
    };
    let mut i: usize = 0;
    while i < klen
        invariant
            i <= klen,
            klen <= sk@.len(),
            out@ == seq![0x53u8] + sk@.take(klen as int).take(i as int),
        decreases klen - i,
    {
        out.push(sk[i]);
        assert(out@ =~= seq![0x53u8] + sk@.take(klen as int).take(i as int + 1));
        i = i + 1;
    }
    let dlen: usize = if digest.len() < 32 {
        digest.len()
    } else {
        32
    };
    let mut j: usize = 0;
    while j < dlen
        invariant
            j <= dlen,
            dlen <= digest@.len(),
            klen <= sk@.len(),
            out@ == seq![0x53u8] + sk@.take(klen as int) + digest@.take(dlen as int).take(
                j as int,
            ),
        decreases dlen - j,
    {
        out.push(digest[j]);
        assert(out@ =~= seq![0x53u8] + sk@.take(klen as int) + digest@.take(dlen as int).take(
            j as int + 1,
        ));
        j = j + 1;
    }
    proof {
        assert(sk@.take(klen as int).take(klen as int) =~= sk@.take(klen as int));
        assert(digest@.take(dlen as int).take(dlen as int) =~= digest@.take(dlen as int));
        assert(out@ =~= spec_sig_of(sk@, digest@));
    }
    out
}

impl Sdk {
    /// A fresh session: empty keyring, nothing loaded.
    pub fn new() -> (r: Sdk)
        ensures
            r@.wallet.keys.len() == 0,
            r@.wallet.spending_keys.len() == 0,
            r@.shielded is None,
            wallet_wf(r@.wallet),
    {
        Sdk { wallet: Wallet::new(), shielded_ctx: ShieldedContext::new() }
    }

    /// Whether the shielded proving parameters are loaded in this session.
    pub fn has_masp_params(&self) -> (r: bool)
        ensures
            r == (self@.shielded is Some),
    {
        self.shielded_ctx.has_params()
    }

    /// Loads the shielded proving parameters from the host-supplied blobs:
    /// exactly three, in the order spend, output, convert.
    pub fn load_masp_params(&mut self, params: Vec<Vec<u8>>) -> (r: Result<(), SdkError>)
        ensures
            final(self)@.wallet == old(self)@.wallet,
            match r {
                Ok(_) => params@.len() == 3 && final(self)@.shielded == Some(
                    ShieldedParamsModel {
                        spend: params@[0]@,
                        output: params@[1]@,
                        convert: params@[2]@,
                    },
                ),
                Err(e) => params@.len() != 3 && e == SdkError::DecodeError && final(self)@
                    == old(self)@,
            },
    {
        self.shielded_ctx.load(params)
    }

    /// Serializes the keyring to its opaque snapshot.
    pub fn encode(&self) -> (r: Vec<u8>)
        requires
            wallet_wf(self@.wallet),
        ensures
            r@ == spec_encode_wallet(self@.wallet),
    {
        self.wallet.encode()
    }

    /// Replaces the keyring with the one a snapshot denotes; on a malformed
    /// snapshot nothing changes.
    pub fn decode(&mut self, data: &Vec<u8>) -> (r: Result<(), SdkError>)
        ensures
            final(self)@.shielded == old(self)@.shielded,
            match r {
                Ok(_) => spec_decode_wallet(data@) == Some(final(self)@.wallet) && wallet_wf(
                    final(self)@.wallet,
                ),
                Err(e) => spec_decode_wallet(data@) is None && e == SdkError::DecodeError
                    && final(self)@ == old(self)@,
            },
    {
        let w = match Wallet::decode(data) {
            Ok(w) => w,
            Err(e) => {
                return Err(SdkError::DecodeError);
            },
        };
        self.wallet = w;
        Ok(())
    }

    /// Forgets every stored key.
    pub fn clear_storage(&mut self)
        ensures
            final(self)@.wallet.keys.len() == 0,
            final(self)@.wallet.spending_keys.len() == 0,
            wallet_wf(final(self)@.wallet),
            final(self)@.shielded == old(self)@.shielded,
    {
        self.wallet.clear();
    }

    /// Stores a transparent secret key; see [`Wallet::add_key`].
    pub fn add_key(&mut self, private_key: &Vec<u8>, password: Option<Vec<u8>>, alias: Option<
        Vec<u8>,
    >)
        requires
            small(private_key@),
            opt_small(opt_seq_of(password)),
            opt_small(opt_seq_of(alias)),
            private_key@.len() + 1 < 0x0100_0000,
            old(self)@.wallet.keys.len() + 1 < 0x0100_0000,
            wallet_wf(old(self)@.wallet),
        ensures
            final(self)@.wallet.keys == old(self)@.wallet.keys.push(
                crate::wallet::KeyEntryModel {
                    alias: match opt_seq_of(alias) {
                        Some(a) => a,
                        None => crate::wallet::spec_public_key_of(private_key@),
                    },
                    public_key: crate::wallet::spec_public_key_of(private_key@),
                    secret_key: private_key@,
                    password: opt_seq_of(password),
                },
            ),
            final(self)@.wallet.spending_keys == old(self)@.wallet.spending_keys,
            wallet_wf(final(self)@.wallet),
            final(self)@.shielded == old(self)@.shielded,
    {
        self.wallet.add_key(private_key, password, alias);
    }

    /// Stores a shielded spending key; see [`Wallet::add_spending_key`].
    pub fn add_spending_key(&mut self, xsk: &Vec<u8>, password: Option<Vec<u8>>, alias: &Vec<u8>)
        requires
            small(xsk@),
            small(alias@),
            opt_small(opt_seq_of(password)),
            old(self)@.wallet.spending_keys.len() + 1 < 0x0100_0000,
            wallet_wf(old(self)@.wallet),
        ensures
            final(self)@.wallet.spending_keys == old(self)@.wallet.spending_keys.push(
                crate::wallet::SpendingEntryModel {
                    alias: alias@,
                    key: xsk@,
                    password: opt_seq_of(password),
                },
            ),
            final(self)@.wallet.keys == old(self)@.wallet.keys,
            wallet_wf(final(self)@.wallet),
            final(self)@.shielded == old(self)@.shielded,
    {
        self.wallet.add_spending_key(xsk, password, alias);
    }

    /// Looks a secret key up by public key; see
    /// [`Wallet::find_key_by_public_key`].
    pub fn find_key_by_public_key(&self, pk: &Vec<u8>, password: &Option<Vec<u8>>) -> (r: Result<
        Vec<u8>,
        SdkError,
    >)
        ensures
            match r {
                Ok(sk) => spec_find_key(self@.wallet.keys, pk@, opt_seq_of(*password)) == Some(
                    sk@,
                ),
                Err(e) => spec_find_key(self@.wallet.keys, pk@, opt_seq_of(*password)) is None
                    && e == SdkError::KeyNotFound,
            },
    {
        self.wallet.find_key_by_public_key(pk, password)
    }

    /// Builds the unsigned transaction of a kind from its argument blob and
    /// a textual gas payer, and returns the container's wire bytes; see
    /// [`crate::builder::spec_build_tx`] for the exact contract.
    pub fn build_tx(&self, tx_type: TxType, tx_msg: &Vec<u8>, gas_payer: &Vec<u8>) -> (r: Result<
        Vec<u8>,
        SdkError,
    >)
        ensures
            match r {
                Ok(b) => crate::builder::spec_build_tx(
                    tx_type,
                    tx_msg@,
                    gas_payer@,
                    self@.shielded is Some,
                ) == Ok::<Seq<u8>, SdkError>(b@),
                Err(e) => crate::builder::spec_build_tx(
                    tx_type,
                    tx_msg@,
                    gas_payer@,
                    self@.shielded is Some,
                ) == Err::<Seq<u8>, SdkError>(e),
            },
    {
        crate::builder::build_tx(tx_type, tx_msg, gas_payer, self.shielded_ctx.has_params())
    }

    /// The shared tail of every locally signed submission: run the per-kind
    /// checks, resolve and validate the signer, confirm the wallet holds its
    /// key, build the container, and start the flow — with the reveal-pk
    /// prerequisite exactly when the address is unrevealed.
    fn begin_flow(
        &self,
        a: &TxArgs,
        password: &Option<Vec<u8>>,
        queried_pk: &Option<Vec<u8>>,
        revealed: bool,
    ) -> (r: Result<TxFlow, SdkError>)
        requires
            args_wf(a@),
            wallet_wf(self@.wallet),
        ensures
            match r {
                Ok(f) => spec_begin_check(
                    a@,
                    self@.shielded is Some,
                    self@.wallet,
                    opt_seq_of(*password),
                    opt_seq_of(*queried_pk),
                ) is None && flow_wf(f@) && spec_flow_ok(f@, a@, queried_pk.unwrap()@, revealed),
                Err(e) => spec_begin_check(
                    a@,
                    self@.shielded is Some,
                    self@.wallet,
                    opt_seq_of(*password),
                    opt_seq_of(*queried_pk),
                ) == Some(e),
            },
    {
        match build_check(a, self.shielded_ctx.has_params()) {
            Some(e) => {
                return Err(e);
            },
            None => {},
        }
        let sd = match resolve_signing_data(
            match a {
                TxArgs::Bond { source: Some(s), .. } => s,
                TxArgs::Unbond { source: Some(s), .. } => s,
                TxArgs::Withdraw { source: Some(s), .. } => s,
                TxArgs::Transfer { source: Some(s), .. } => s,
                TxArgs::IBCTransfer { source: Some(s), .. } => s,
                TxArgs::RevealPK { tx } => match &tx.verification_key {
                    Some(v) => v,
                    None => {
                        return Err(SdkError::MissingRequiredField);
                    },
                },
                _ => {
                    return Err(SdkError::MissingRequiredField);
                },
            },
            queried_pk,
        ) {
            Ok(sd) => sd,
            Err(e) => {
                return Err(SdkError::SigningDataUnavailable);
            },
        };
        let pk = match pick_signer(&sd) {
            Ok(pk) => pk,
            Err(e) => {
                return Err(SdkError::MissingSigner);
            },
        };
        if !validate_pk(&pk) || pk.len() >= 0x0010_0000 {
            return Err(SdkError::DecodeError);
        }
        match self.wallet.find_key_by_public_key(&pk, password) {
            Ok(_) => {},
            Err(e) => {
                return Err(SdkError::KeyNotFound);
            },
        }
        let container = build_container(a, &pk);
        let reveal: Option<Tx> = if revealed {
            None
        } else {
            let p = match a {
                TxArgs::Bond { tx, .. } => tx,
                TxArgs::Unbond { tx, .. } => tx,
                TxArgs::Withdraw { tx, .. } => tx,
                TxArgs::Transfer { tx, .. } => tx,
                TxArgs::IBCTransfer { tx, .. } => tx,
                TxArgs::RevealPK { tx } => tx,
            };
            let ra = TxArgs::RevealPK {
                tx: crate::args::TxParams {
                    gas_token: clone_bytes(&p.gas_token),
                    gas_limit: p.gas_limit,
                    password: clone_opt_bytes(&p.password),
                    verification_key: Some(clone_bytes(&pk)),
                },
            };
            assert(ra@ == reveal_args_of(tx_params_of(a@), pk@));
            Some(build_container(&ra, &pk))
        };
        Ok(TxFlow::start(container, reveal, pk))
    }

    /// Begins a transfer submission.  A supplied spending key makes the
    /// transfer shielded and replaces the one in the argument blob.
    pub fn submit_transfer(
        &self,
        tx_msg: &Vec<u8>,
        password: Option<Vec<u8>>,
        xsk: Option<Vec<u8>>,
        queried_pk: &Option<Vec<u8>>,
        revealed: bool,
    ) -> (r: Result<TxFlow, SdkError>)
        requires
            wallet_wf(self@.wallet),
            opt_seq_of(xsk) is Some ==> crate::args::small_arg(opt_seq_of(xsk).unwrap()),
        ensures
            ({
                let pa = spec_parse_args(TxType::Transfer, tx_msg@);
                match r {
                    Ok(f) => pa is Some && ({
                        let a = spec_with_xsk(pa.unwrap(), opt_seq_of(xsk));
                        &&& spec_begin_check(
                            a,
                            self@.shielded is Some,
                            self@.wallet,
                            opt_seq_of(password),
                            opt_seq_of(*queried_pk),
                        ) is None
                        &&& flow_wf(f@)
                        &&& spec_flow_ok(f@, a, queried_pk.unwrap()@, revealed)
                    }),
                    Err(e) => if pa is None {
                        e == SdkError::DecodeError
                    } else {
                        spec_begin_check(
                            spec_with_xsk(pa.unwrap(), opt_seq_of(xsk)),
                            self@.shielded is Some,
                            self@.wallet,
                            opt_seq_of(password),
                            opt_seq_of(*queried_pk),
                        ) == Some(e)
                    },
                }
            }),
    {
        let a0 = match decode_args(TxType::Transfer, tx_msg) {
            Ok(a) => a,
            Err(e) => {
                return Err(SdkError::DecodeError);
            },
        };
        let a = match a0 {
            TxArgs::Transfer { source, target, token, amount, spending_key, tx } => {
                let merged: Option<Vec<u8>> = match xsk {
                    Some(k) => Some(k),
                    None => spending_key,
                };
                TxArgs::Transfer { source, target, token, amount, spending_key: merged, tx }
            },
            other => other,
        };
        self.begin_flow(&a, &password, queried_pk, revealed)
    }

    /// Begins an IBC transfer submission.
    pub fn submit_ibc_transfer(
        &self,
        tx_msg: &Vec<u8>,
        password: Option<Vec<u8>>,
        queried_pk: &Option<Vec<u8>>,
        revealed: bool,
    ) -> (r: Result<TxFlow, SdkError>)
        requires
            wallet_wf(self@.wallet),
        ensures
            submit_kind_post(
                r,
                TxType::IBCTransfer,
                tx_msg@,
                self@,
                opt_seq_of(password),
                opt_seq_of(*queried_pk),
                revealed,
            ),
    {
        let a = match decode_args(TxType::IBCTransfer, tx_msg) {
            Ok(a) => a,
            Err(e) => {
                return Err(SdkError::DecodeError);
            },
        };
        self.begin_flow(&a, &password, queried_pk, revealed)
    }

    /// Begins a bond submission.
    pub fn submit_bond(
        &self,
        tx_msg: &Vec<u8>,
        password: Option<Vec<u8>>,
        queried_pk: &Option<Vec<u8>>,
        revealed: bool,
    ) -> (r: Result<TxFlow, SdkError>)
        requires
            wallet_wf(self@.wallet),
        ensures
            submit_kind_post(
                r,
                TxType::Bond,
                tx_msg@,
                self@,
                opt_seq_of(password),
                opt_seq_of(*queried_pk),
                revealed,
            ),
    {
        let a = match decode_args(TxType::Bond, tx_msg) {
            Ok(a) => a,
            Err(e) => {
                return Err(SdkError::DecodeError);
            },
        };
        self.begin_flow(&a, &password, queried_pk, revealed)
    }

    /// Begins an unbond submission.
    pub fn submit_unbond(
        &self,
        tx_msg: &Vec<u8>,
        password: Option<Vec<u8>>,
        queried_pk: &Option<Vec<u8>>,
        revealed: bool,
    ) -> (r: Result<TxFlow, SdkError>)
        requires
            wallet_wf(self@.wallet),
        ensures
            submit_kind_post(
                r,
                TxType::Unbond,
                tx_msg@,
                self@,
                opt_seq_of(password),
                opt_seq_of(*queried_pk),
                revealed,
            ),
    {
        let a = match decode_args(TxType::Unbond, tx_msg) {
            Ok(a) => a,
            Err(e) => {
                return Err(SdkError::DecodeError);
            },
        };
        self.begin_flow(&a, &password, queried_pk, revealed)
    }

    /// Begins a withdraw submission.
    pub fn submit_withdraw(
        &self,
        tx_msg: &Vec<u8>,
        password: Option<Vec<u8>>,
        queried_pk: &Option<Vec<u8>>,
        revealed: bool,
    ) -> (r: Result<TxFlow, SdkError>)
        requires
            wallet_wf(self@.wallet),
        ensures
            submit_kind_post(
                r,
                TxType::Withdraw,
                tx_msg@,
                self@,
                opt_seq_of(password),
                opt_seq_of(*queried_pk),
                revealed,
            ),
    {
        let a = match decode_args(TxType::Withdraw, tx_msg) {
            Ok(a) => a,
            Err(e) => {
                return Err(SdkError::DecodeError);
            },
        };
        self.begin_flow(&a, &password, queried_pk, revealed)
    }

    /// Begins an externally signed submission.  The transaction bytes must
    /// decode to an unsigned container; the caller attaches the raw and
    /// wrapper signature blobs through the flow, in that order.
    pub fn submit_signed_tx(&self, tx_msg: &Vec<u8>, tx_bytes: &Vec<u8>, revealed: bool) -> (r:
        Result<TxFlow, SdkError>)
        ensures
            ({
                let pa = spec_parse_args(TxType::RevealPK, tx_msg@);
                match r {
                    Ok(f) => pa is Some && ({
                        let vk = tx_params_of(pa.unwrap()).verification_key;
                        &&& vk is Some
                        &&& spec_pk_wf(vk.unwrap()) && small_arg(vk.unwrap())
                        &&& spec_parse_tx(tx_bytes@) is Some
                        &&& spec_parse_tx(tx_bytes@).unwrap().len() <= 64
                        &&& spec_unsigned(spec_parse_tx(tx_bytes@).unwrap())
                        &&& f@.tx == spec_parse_tx(tx_bytes@).unwrap()
                        &&& flow_wf(f@)
                        &&& f@.phase == SubmitPhase::Built
                        &&& f@.log == Seq::<SubmitKind>::empty()
                        &&& f@.needs_reveal == !revealed
                        &&& f@.signer == vk.unwrap()
                        &&& (!revealed ==> f@.reveal_tx == Some(
                            spec_build_sections(
                                reveal_args_of(tx_params_of(pa.unwrap()), vk.unwrap()),
                                vk.unwrap(),
                            ),
                        ))
                    }),
                    Err(e) => if pa is None {
                        e == SdkError::DecodeError
                    } else if tx_params_of(pa.unwrap()).verification_key is None {
                        e == SdkError::MissingRequiredField
                    } else if !(spec_pk_wf(tx_params_of(pa.unwrap()).verification_key.unwrap())
                        && small_arg(tx_params_of(pa.unwrap()).verification_key.unwrap())) {
                        e == SdkError::DecodeError
                    } else {
                        (spec_parse_tx(tx_bytes@) is None || spec_parse_tx(tx_bytes@).unwrap().len()
                            > 64 || !spec_unsigned(spec_parse_tx(tx_bytes@).unwrap())) && e
                            == SdkError::DecodeError
                    },
                }
            }),
    {
        let a = match decode_args(TxType::RevealPK, tx_msg) {
            Ok(a) => a,
            Err(e) => {
                return Err(SdkError::DecodeError);
            },
        };
        let (params, vk) = match a {
            TxArgs::RevealPK { tx } => {
                match tx.verification_key {
                    Some(ref v) => {
                        let vv = clone_bytes(v);
                        (tx, vv)
                    },
                    None => {
                        return Err(SdkError::MissingRequiredField);
                    },
                }
            },
            _ => {
                return Err(SdkError::DecodeError);
            },
        };
        if !validate_pk(&vk) || vk.len() >= 0x0010_0000 {
            return Err(SdkError::DecodeError);
        }
        let t = match Tx::from_bytes(tx_bytes) {
            Ok(t) => t,
            Err(e) => {
                return Err(SdkError::DecodeError);
            },
        };
        if t.section_count() > 64 || !t.is_unsigned() {
            return Err(SdkError::DecodeError);
        }
        let reveal: Option<Tx> = if revealed {
            None
        } else {
            let ra = TxArgs::RevealPK {
                tx: crate::args::TxParams {
                    gas_token: clone_bytes(&params.gas_token),
                    gas_limit: params.gas_limit,
                    password: clone_opt_bytes(&params.password),
                    verification_key: Some(clone_bytes(&vk)),
                },
            };
            Some(build_container(&ra, &vk))
        };
        Ok(TxFlow::start(t, reveal, vk))
    }

    /// Begins an externally signed reveal-pk submission: no prerequisite —
    /// this is the reveal itself.
    pub fn submit_signed_reveal_pk(&self, tx_msg: &Vec<u8>, tx_bytes: &Vec<u8>) -> (r: Result<
        TxFlow,
        SdkError,
    >)
        ensures
            ({
                let pa = spec_parse_args(TxType::RevealPK, tx_msg@);
                match r {
                    Ok(f) => pa is Some && spec_parse_tx(tx_bytes@) is Some && spec_parse_tx(
                        tx_bytes@,
                    ).unwrap().len() <= 64 && spec_unsigned(spec_parse_tx(tx_bytes@).unwrap())
                        && f@.tx == spec_parse_tx(tx_bytes@).unwrap() && flow_wf(f@) && f@.phase
                        == SubmitPhase::Built && !f@.needs_reveal && f@.log == Seq::<
                        SubmitKind,
                    >::empty(),
                    Err(e) => e == SdkError::DecodeError && (pa is None || (match tx_params_of(
                        pa.unwrap(),
                    ).verification_key {
                        Some(v) => !small_arg(v),
                        None => false,
                    }) || spec_parse_tx(tx_bytes@) is None || spec_parse_tx(
                        tx_bytes@,
                    ).unwrap().len() > 64 || !spec_unsigned(spec_parse_tx(tx_bytes@).unwrap())),
                }
            }),
    {
        let a = match decode_args(TxType::RevealPK, tx_msg) {
            Ok(a) => a,
            Err(e) => {
                return Err(SdkError::DecodeError);
            },
        };
        let signer: Vec<u8> = match &a {
            TxArgs::RevealPK { tx } => match &tx.verification_key {
                Some(v) => {
                    if v.len() >= 0x0010_0000 {
                        return Err(SdkError::DecodeError);
                    }
                    clone_bytes(v)
                },
                None => Vec::new(),
            },
            _ => Vec::new(),
        };
        let t = match Tx::from_bytes(tx_bytes) {
            Ok(t) => t,
            Err(e) => {
                return Err(SdkError::DecodeError);
            },
        };
        if t.section_count() > 64 || !t.is_unsigned() {
            return Err(SdkError::DecodeError);
        }
        Ok(TxFlow::start(t, None, signer))
    }

    /// Signs a flow's transaction with the locally held key of its signer:
    /// the raw signature over the payload digest, then the wrapper signature
    /// over everything, in the mandated order.
    pub fn sign_flow(&self, flow: &mut TxFlow, password: &Option<Vec<u8>>) -> (r: Result<
        (),
        SdkError,
    >)
        requires
            flow_wf(old(flow)@),
        ensures
            flow_wf(final(flow)@),
            match r {
                Ok(_) => old(flow)@.phase == SubmitPhase::RevealChecked && spec_find_key(
                    self@.wallet.keys,
                    old(flow)@.signer,
                    opt_seq_of(*password),
                ) is Some && final(flow)@.phase == SubmitPhase::SignedWrapper,
                Err(e) => final(flow)@ == old(flow)@ && if spec_find_key(
                    self@.wallet.keys,
                    old(flow)@.signer,
                    opt_seq_of(*password),
                ) is None {
                    e == SdkError::KeyNotFound
                } else {
                    old(flow)@.phase != SubmitPhase::RevealChecked && e == SdkError::OutOfOrder
                },
            },
    {
        let pk = flow.signer_pk();
        let sk = match self.wallet.find_key_by_public_key(&pk, password) {
            Ok(sk) => sk,
            Err(e) => {
                return Err(SdkError::KeyNotFound);
            },
        };
        let digest = match flow.raw_digest() {
            Ok(d) => d,
            Err(e) => {
                return Err(SdkError::OutOfOrder);
            },
        };
        let raw_sig = sign_bytes(&sk, &digest);
        proof {
            lemma_sig_blob_round_trip(pk@, raw_sig@);
        }
        let raw_blob = encode_sig_blob(&pk, &raw_sig);
        match flow.sign_raw(&raw_blob) {
            Ok(_) => {},
            Err(e) => {
                return Err(e);
            },
        }
        let wdigest = match flow.wrapper_digest() {
            Ok(d) => d,
            Err(e) => {
                return Err(e);
            },
        };
        let wrapper_sig = sign_bytes(&sk, &wdigest);
        proof {
            lemma_sig_blob_round_trip(pk@, wrapper_sig@);
        }
        let wrapper_blob = encode_sig_blob(&pk, &wrapper_sig);
        match flow.sign_wrapper(&wrapper_blob) {
            Ok(_) => {},
            Err(e) => {
                return Err(e);
            },
        }
        Ok(())
    }
}

/// The spending key a caller supplies overrides the one in the blob.
pub open spec fn spec_with_xsk(a: TxArgsModel, xsk: Option<Seq<u8>>) -> TxArgsModel {
    match a {
        TxArgsModel::Transfer { source, target, token, amount, spending_key, tx } => TxArgsModel::Transfer {
            source,
            target,
            token,
            amount,
            spending_key: match xsk {
                Some(k) => Some(k),
                None => spending_key,
            },
            tx,
        },
        other => other,
    }
}

/// The shared contract of the non-transfer submissions.
pub open spec fn submit_kind_post(
    r: Result<TxFlow, SdkError>,
    t: TxType,
    msg: Seq<u8>,
    s: SdkModel,
    password: Option<Seq<u8>>,
    queried: Option<Seq<u8>>,
    revealed: bool,
) -> bool {
    let pa = spec_parse_args(t, msg);
    match r {
        Ok(f) => pa is Some && spec_begin_check(
            pa.unwrap(),
            s.shielded is Some,
            s.wallet,
            password,
            queried,
        ) is None && flow_wf(f@) && spec_flow_ok(f@, pa.unwrap(), queried.unwrap(), revealed),
        Err(e) => if pa is None {
            e == SdkError::DecodeError
        } else {
            spec_begin_check(pa.unwrap(), s.shielded is Some, s.wallet, password, queried)
                == Some(e)
        },
    }
}

} // verus!
