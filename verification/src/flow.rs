//! The submission pipeline as an explicit state machine.
//!
//! Every submission walks the same phases, in order: `Built` →
//! `RevealChecked` → `SignedRaw` → `SignedWrapper` → `Submitted`.  Calling a
//! step out of order is rejected with `OutOfOrder` rather than trusted to
//! caller discipline.  The reveal-public-key prerequisite is decided up
//! front: an address whose key the chain has never seen gets exactly one
//! reveal submission before the primary transaction; a revealed address gets
//! none ([`lemma_submission_calls`]).  A failed reveal short-circuits the
//! pipeline: the primary transaction is never signed or submitted.
//!
//! The flow performs no I/O.  It hands the host the bytes to submit and is
//! told what the ledger answered; every submission the host is asked to make
//! is recorded, in order, in an observable log.

use vstd::prelude::*;
use crate::codec::clone_bytes;
use crate::error::SdkError;
use crate::tx::{
    Tx, Section, Signature, SectionModel, SignatureModel, base_tx_wf, tx_wf, spec_encode_tx,
    spec_raw_hash, spec_wrapper_hash, spec_attach_signatures, protocol_sections_of,
    parse_sig_blob, decode_sig_blob,
};

verus! {

/// The phases of one submission, in their mandated order.
#[derive(Clone, Copy, Debug, PartialEq, Eq, Structural)]
pub enum SubmitPhase {
    Built,
    RevealChecked,
    SignedRaw,
    SignedWrapper,
    Submitted,
    Failed,
}

/// One submission call the host was asked to make.
#[derive(Clone, Copy, Debug, PartialEq, Eq, Structural)]
pub enum SubmitKind {
    RevealPk,
    Primary,
}

/// The resolved signing data of one submission attempt: the public keys
/// required to sign (this design supports exactly one), the gas payer, and
/// the owning address.
pub struct SigningTxData {
    pub public_keys: Vec<Vec<u8>>,
    pub gas_payer: Vec<u8>,
    pub owner: Vec<u8>,
}

/// Resolves signing data for an address.  The default signer is the address
/// itself; the ledger answers what public key, if any, the address has.  An
/// address with no resolvable public key cannot sign anything.
pub fn resolve_signing_data(owner: &Vec<u8>, queried_pk: &Option<Vec<u8>>) -> (r: Result<
    SigningTxData,
    SdkError,
>)
    ensures
        match r {
            Ok(sd) => queried_pk is Some && sd.public_keys@.len() == 1 && sd.public_keys@[0]@
                == queried_pk.unwrap()@ && sd.gas_payer@ == queried_pk.unwrap()@ && sd.owner@
                == owner@,
            Err(e) => queried_pk is None && e == SdkError::SigningDataUnavailable,
        },
{
    match queried_pk {
        None => Err(SdkError::SigningDataUnavailable),
        Some(pk) => {
            let mut pks: Vec<Vec<u8>> = Vec::new();
            pks.push(clone_bytes(pk));
            Ok(SigningTxData { public_keys: pks, gas_payer: clone_bytes(pk), owner: clone_bytes(owner) })
        },
    }
}

/// Picks the signer: exactly one public key is expected.  None at all is a
/// fatal `MissingSigner`; more than one is the documented single-signer
/// limitation, and the first is taken deterministically.
pub fn pick_signer(sd: &SigningTxData) -> (r: Result<Vec<u8>, SdkError>)
    ensures
        match r {
            Ok(pk) => sd.public_keys@.len() >= 1 && pk@ == sd.public_keys@[0]@,
            Err(e) => sd.public_keys@.len() == 0 && e == SdkError::MissingSigner,
        },
{
    if sd.public_keys.len() == 0 {
        Err(SdkError::MissingSigner)
    } else {
        Ok(clone_bytes(&sd.public_keys[0]))
    }
}

/// The mathematical content of a flow.
#[verifier::ext_equal]
pub ghost struct FlowModel {
    pub phase: SubmitPhase,
    pub needs_reveal: bool,
    pub base: Seq<SectionModel>,
    pub tx: Seq<SectionModel>,
    pub reveal_tx: Option<Seq<SectionModel>>,
    pub signer: Seq<u8>,
    pub rpk: Seq<u8>,
    pub rsig: Seq<u8>,
    pub wpk: Seq<u8>,
    pub wsig: Seq<u8>,
    pub log: Seq<SubmitKind>,
}

/// The submissions made so far for the reveal prerequisite.
pub open spec fn reveal_log(needs_reveal: bool) -> Seq<SubmitKind> {
    if needs_reveal {
        seq![SubmitKind::RevealPk]
    } else {
        Seq::empty()
    }
}

/// The raw signature section a flow attaches: it covers the payload digest
/// of the built transaction.
pub open spec fn raw_sec_of(m: FlowModel) -> SectionModel {
    SectionModel::Signature(
        SignatureModel { public_key: m.rpk, sig_bytes: m.rsig, covered: spec_raw_hash(m.base) },
    )
}

pub open spec fn sig_small(s: Seq<u8>) -> bool {
    s.len() < 0x0100_0000
}

/// The shape of a fully signed flow transaction: both signatures attached in
/// the mandated order, then normalized for submission.
pub open spec fn signed_shape(m: FlowModel) -> bool {
    &&& sig_small(m.rpk) && sig_small(m.rsig) && sig_small(m.wpk) && sig_small(m.wsig)
    &&& m.tx == protocol_sections_of(spec_attach_signatures(m.base, m.rpk, m.rsig, m.wpk, m.wsig))
}

/// The flow invariant: what holds of the transaction, the log, and the
/// reveal prerequisite in every phase.
pub open spec fn flow_wf(m: FlowModel) -> bool {
    &&& base_tx_wf(m.base)
    &&& (m.needs_reveal <==> m.reveal_tx is Some)
    &&& (match m.reveal_tx {
        Some(rt) => base_tx_wf(rt),
        None => true,
    })
    &&& m.signer.len() < 0x0100_0000
    &&& match m.phase {
        SubmitPhase::Built => m.tx == m.base && m.log == Seq::<SubmitKind>::empty(),
        SubmitPhase::RevealChecked => m.tx == m.base && m.log == reveal_log(m.needs_reveal),
        SubmitPhase::SignedRaw => {
            &&& sig_small(m.rpk) && sig_small(m.rsig)
            &&& m.tx == m.base.push(raw_sec_of(m))
            &&& m.log == reveal_log(m.needs_reveal)
        },
        SubmitPhase::SignedWrapper => signed_shape(m) && m.log == reveal_log(m.needs_reveal),
        SubmitPhase::Submitted => signed_shape(m) && m.log == reveal_log(m.needs_reveal)
            + seq![SubmitKind::Primary],
        SubmitPhase::Failed => true,
    }
}

/// Submission-order law: a completed flow that needed the reveal
/// prerequisite made exactly one reveal-pk submission followed by exactly
/// one primary submission; one that did not need it made exactly one primary
/// submission and no reveal-pk submission at all.
pub proof fn lemma_submission_calls(m: FlowModel)
    requires
        flow_wf(m),
        m.phase == SubmitPhase::Submitted,
    ensures
        m.needs_reveal ==> m.log == seq![SubmitKind::RevealPk, SubmitKind::Primary],
        !m.needs_reveal ==> m.log == seq![SubmitKind::Primary],
{
    if m.needs_reveal {
        assert(reveal_log(true) + seq![SubmitKind::Primary] =~= seq![
            SubmitKind::RevealPk,
            SubmitKind::Primary,
        ]);
    } else {
        assert(reveal_log(false) + seq![SubmitKind::Primary] =~= seq![SubmitKind::Primary]);
    }
}

/// One submission attempt walking the mandated phases.
pub struct TxFlow {
    phase: SubmitPhase,
    needs_reveal: bool,
    tx: Tx,
    reveal_tx: Option<Tx>,
    signer: Vec<u8>,
    log: Vec<SubmitKind>,
    base: Ghost<Seq<SectionModel>>,
    rpk: Ghost<Seq<u8>>,
    rsig: Ghost<Seq<u8>>,
    wpk: Ghost<Seq<u8>>,
    wsig: Ghost<Seq<u8>>,
}

impl View for TxFlow {
    type V = FlowModel;

    closed spec fn view(&self) -> FlowModel {
        FlowModel {
            phase: self.phase,
            needs_reveal: self.needs_reveal,
            base: self.base@,
            tx: self.tx@,
            reveal_tx: match self.reveal_tx {
                Some(rt) => Some(rt@),
                None => None,
            },
            signer: self.signer@,
            rpk: self.rpk@,
            rsig: self.rsig@,
            wpk: self.wpk@,
            wsig: self.wsig@,
            log: self.log@,
        }
    }
}

impl TxFlow {
    /// Starts a flow over a built, unsigned transaction.  The reveal
    /// transaction is present exactly when the signer's address has not been
    /// revealed on chain.
    pub fn start(tx: Tx, reveal_tx: Option<Tx>, signer: Vec<u8>) -> (r: TxFlow)
        requires
            base_tx_wf(tx@),
            (match reveal_tx {
                Some(rt) => base_tx_wf(rt@),
                None => true,
            }),
            signer@.len() < 0x0100_0000,
        ensures
            flow_wf(r@),
            r@.phase == SubmitPhase::Built,
            r@.base == tx@,
            r@.tx == tx@,
            r@.needs_reveal == (reveal_tx is Some),
            r@.signer == signer@,
            r@.log == Seq::<SubmitKind>::empty(),
            (match reveal_tx {
                Some(rt) => r@.reveal_tx == Some(rt@),
                None => r@.reveal_tx is None,
            }),
    {
        let needs_reveal = reveal_tx.is_some();
        let ghost b = tx@;
        TxFlow {
            phase: SubmitPhase::Built,
            needs_reveal,
            tx,
            reveal_tx,
            signer,
            log: Vec::new(),
            base: Ghost(b),
            rpk: Ghost(Seq::empty()),
            rsig: Ghost(Seq::empty()),
            wpk: Ghost(Seq::empty()),
            wsig: Ghost(Seq::empty()),
        }
    }

    /// The phase the flow stands in.
    pub fn phase(&self) -> (r: SubmitPhase)
        ensures
            r == self@.phase,
    {
        self.phase
    }

    /// Whether the reveal prerequisite applies to this flow.
    pub fn reveal_needed(&self) -> (r: bool)
        ensures
            r == self@.needs_reveal,
    {
        self.needs_reveal
    }

    /// The signer's public key.
    pub fn signer_pk(&self) -> (r: Vec<u8>)
        ensures
            r@ == self@.signer,
    {
        clone_bytes(&self.signer)
    }

    /// How many submission calls the flow has asked for so far.
    pub fn log_len(&self) -> (r: usize)
        ensures
            r == self@.log.len(),
    {
        self.log.len()
    }

    /// The submission call at a position of the log.
    pub fn log_at(&self, i: usize) -> (r: SubmitKind)
        requires
            i < self@.log.len(),
        ensures
            r == self@.log[i as int],
    {
        self.log[i]
    }

    /// The reveal-pk guard.  In phase `Built` only: either the prerequisite
    /// does not apply and the flow moves straight to `RevealChecked`, or the
    /// bytes of the reveal transaction to submit are handed out and the flow
    /// waits in `Built` for the ledger's answer.
    pub fn reveal_request(&mut self) -> (r: Result<Option<Vec<u8>>, SdkError>)
        requires
            flow_wf(old(self)@),
        ensures
            flow_wf(final(self)@),
            match r {
                Ok(req) => old(self)@.phase == SubmitPhase::Built && match req {
                    None => !old(self)@.needs_reveal && final(self)@ == FlowModel {
                        phase: SubmitPhase::RevealChecked,
                        ..old(self)@
                    },
                    Some(b) => old(self)@.needs_reveal && b@ == spec_encode_tx(
                        old(self)@.reveal_tx.unwrap(),
                    ) && final(self)@ == old(self)@,
                },
                Err(e) => old(self)@.phase != SubmitPhase::Built && e == SdkError::OutOfOrder
                    && final(self)@ == old(self)@,
            },
    {
        if self.phase != SubmitPhase::Built {
            return Err(SdkError::OutOfOrder);
        }
        if !self.needs_reveal {
            self.phase = SubmitPhase::RevealChecked;
            return Ok(None);
        }
        let rt = self.reveal_tx.as_ref().unwrap();
        proof {
            assert(base_tx_wf(rt@));
            assert(tx_wf(rt@));
        }
        Ok(Some(rt.to_bytes()))
    }

    /// Records the ledger's answer to the reveal submission.  Acceptance
    /// moves the flow to `RevealChecked`; rejection fails the whole pipeline
    /// — the primary transaction is never signed or submitted.
    pub fn reveal_result(&mut self, accepted: bool) -> (r: Result<(), SdkError>)
        requires
            flow_wf(old(self)@),
        ensures
            flow_wf(final(self)@),
            match r {
                Ok(_) => old(self)@.phase == SubmitPhase::Built && old(self)@.needs_reveal
                    && accepted && final(self)@ == FlowModel {
                    phase: SubmitPhase::RevealChecked,
                    log: old(self)@.log.push(SubmitKind::RevealPk),
                    ..old(self)@
                },
                Err(e) => if old(self)@.phase != SubmitPhase::Built || !old(self)@.needs_reveal {
                    e == SdkError::OutOfOrder && final(self)@ == old(self)@
                } else {
                    !accepted && e == SdkError::SubmissionError && final(self)@ == FlowModel {
                        phase: SubmitPhase::Failed,
                        log: old(self)@.log.push(SubmitKind::RevealPk),
                        ..old(self)@
                    }
                },
            },
    {
        if self.phase != SubmitPhase::Built || !self.needs_reveal {
            return Err(SdkError::OutOfOrder);
        }
        self.log.push(SubmitKind::RevealPk);
        proof {
            assert(self.log@ =~= reveal_log(true));
        }
        if accepted {
            self.phase = SubmitPhase::RevealChecked;
            Ok(())
        } else {
            self.phase = SubmitPhase::Failed;
            Err(SdkError::SubmissionError)
        }
    }

    /// The payload digest the raw signature must cover.  Available once the
    /// reveal prerequisite is settled.
    pub fn raw_digest(&self) -> (r: Result<Vec<u8>, SdkError>)
        requires
            flow_wf(self@),
        ensures
            match r {
                Ok(d) => self@.phase == SubmitPhase::RevealChecked && d@ == spec_raw_hash(
                    self@.base,
                ),
                Err(e) => self@.phase != SubmitPhase::RevealChecked && e == SdkError::OutOfOrder,
            },
    {
        if self.phase != SubmitPhase::RevealChecked {
            return Err(SdkError::OutOfOrder);
        }
        proof {
            assert(tx_wf(self@.tx));
        }
        Ok(self.tx.raw_hash())
    }

    /// Attaches the raw signature, parsed from its blob, covering the
    /// payload digest.  First signing step; only valid in `RevealChecked`.
    pub fn sign_raw(&mut self, raw_sig_blob: &Vec<u8>) -> (r: Result<(), SdkError>)
        requires
            flow_wf(old(self)@),
        ensures
            flow_wf(final(self)@),
            match r {
                Ok(_) => old(self)@.phase == SubmitPhase::RevealChecked && parse_sig_blob(
                    raw_sig_blob@,
                ) is Some && final(self)@ == FlowModel {
                    phase: SubmitPhase::SignedRaw,
                    tx: old(self)@.base.push(
                        SectionModel::Signature(
                            SignatureModel {
                                public_key: parse_sig_blob(raw_sig_blob@).unwrap().0,
                                sig_bytes: parse_sig_blob(raw_sig_blob@).unwrap().1,
                                covered: spec_raw_hash(old(self)@.base),
                            },
                        ),
                    ),
                    rpk: parse_sig_blob(raw_sig_blob@).unwrap().0,
                    rsig: parse_sig_blob(raw_sig_blob@).unwrap().1,
                    ..old(self)@
                },
                Err(e) => final(self)@ == old(self)@ && if old(self)@.phase
                    != SubmitPhase::RevealChecked {
                    e == SdkError::OutOfOrder
                } else {
                    parse_sig_blob(raw_sig_blob@) is None && e == SdkError::SignatureError
                },
            },
    {
        if self.phase != SubmitPhase::RevealChecked {
            return Err(SdkError::OutOfOrder);
        }
        let (pk, sig) = match decode_sig_blob(raw_sig_blob) {
            Ok(p) => p,
            Err(e) => {
                return Err(SdkError::SignatureError);
            },
        };
        proof {
            assert(tx_wf(self@.tx));
        }
        let rh = self.tx.raw_hash();
        let ghost gpk = pk@;
        let ghost gsig = sig@;
        self.tx.add_section(
            Section::Signature(Signature { public_key: pk, sig_bytes: sig, covered: rh }),
        );
        self.rpk = Ghost(gpk);
        self.rsig = Ghost(gsig);
        self.phase = SubmitPhase::SignedRaw;
        Ok(())
    }

    /// The digest the wrapper signature must cover: everything present,
    /// including the raw signature.  Available only after the raw signature
    /// is attached.
    pub fn wrapper_digest(&self) -> (r: Result<Vec<u8>, SdkError>)
        requires
            flow_wf(self@),
        ensures
            match r {
                Ok(d) => self@.phase == SubmitPhase::SignedRaw && d@ == spec_wrapper_hash(
                    self@.tx,
                ),
                Err(e) => self@.phase != SubmitPhase::SignedRaw && e == SdkError::OutOfOrder,
            },
    {
        if self.phase != SubmitPhase::SignedRaw {
            return Err(SdkError::OutOfOrder);
        }
        proof {
            crate::tx::lemma_with_raw_wf(self@.base, self@.rpk, self@.rsig);
        }
        Ok(self.tx.wrapper_hash())
    }

    /// Attaches the wrapper signature over everything present — strictly
    /// after the raw signature — and normalizes the sections for submission.
    pub fn sign_wrapper(&mut self, wrapper_sig_blob: &Vec<u8>) -> (r: Result<(), SdkError>)
        requires
            flow_wf(old(self)@),
        ensures
            flow_wf(final(self)@),
            match r {
                Ok(_) => old(self)@.phase == SubmitPhase::SignedRaw && parse_sig_blob(
                    wrapper_sig_blob@,
                ) is Some && final(self)@ == FlowModel {
                    phase: SubmitPhase::SignedWrapper,
                    tx: protocol_sections_of(
                        spec_attach_signatures(
                            old(self)@.base,
                            old(self)@.rpk,
                            old(self)@.rsig,
                            parse_sig_blob(wrapper_sig_blob@).unwrap().0,
                            parse_sig_blob(wrapper_sig_blob@).unwrap().1,
                        ),
                    ),
                    wpk: parse_sig_blob(wrapper_sig_blob@).unwrap().0,
                    wsig: parse_sig_blob(wrapper_sig_blob@).unwrap().1,
                    ..old(self)@
                },
                Err(e) => final(self)@ == old(self)@ && if old(self)@.phase
                    != SubmitPhase::SignedRaw {
                    e == SdkError::OutOfOrder
                } else {
                    parse_sig_blob(wrapper_sig_blob@) is None && e == SdkError::SignatureError
                },
            },
    {
        if self.phase != SubmitPhase::SignedRaw {
            return Err(SdkError::OutOfOrder);
        }
        let (pk, sig) = match decode_sig_blob(wrapper_sig_blob) {
            Ok(p) => p,
            Err(e) => {
                return Err(SdkError::SignatureError);
            },
        };
        proof {
            crate::tx::lemma_with_raw_wf(self@.base, self@.rpk, self@.rsig);
        }
        let wh = self.tx.wrapper_hash();
        let ghost gpk = pk@;
        let ghost gsig = sig@;
        self.tx.add_section(
            Section::Signature(Signature { public_key: pk, sig_bytes: sig, covered: wh }),
        );
        self.tx.protocol_filter();
        self.wpk = Ghost(gpk);
        self.wsig = Ghost(gsig);
        self.phase = SubmitPhase::SignedWrapper;
        Ok(())
    }

    /// The bytes of the fully signed transaction to submit.  Only valid once
    /// both signatures are attached.
    pub fn submit_request(&self) -> (r: Result<Vec<u8>, SdkError>)
        requires
            flow_wf(self@),
        ensures
            match r {
                Ok(b) => self@.phase == SubmitPhase::SignedWrapper && b@ == spec_encode_tx(
                    self@.tx,
                ),
                Err(e) => self@.phase != SubmitPhase::SignedWrapper && e == SdkError::OutOfOrder,
            },
    {
        if self.phase != SubmitPhase::SignedWrapper {
            return Err(SdkError::OutOfOrder);
        }
        proof {
            crate::tx::lemma_signed_wf(self@.base, self@.rpk, self@.rsig, self@.wpk, self@.wsig);
        }
        Ok(self.tx.to_bytes())
    }

    /// Records the ledger's answer to the primary submission.
    pub fn submit_result(&mut self, accepted: bool) -> (r: Result<(), SdkError>)
        requires
            flow_wf(old(self)@),
        ensures
            flow_wf(final(self)@),
            match r {
                Ok(_) => old(self)@.phase == SubmitPhase::SignedWrapper && accepted
                    && final(self)@ == FlowModel {
                    phase: SubmitPhase::Submitted,
                    log: old(self)@.log.push(SubmitKind::Primary),
                    ..old(self)@
                },
                Err(e) => if old(self)@.phase != SubmitPhase::SignedWrapper {
                    e == SdkError::OutOfOrder && final(self)@ == old(self)@
                } else {
                    !accepted && e == SdkError::SubmissionError && final(self)@ == FlowModel {
                        phase: SubmitPhase::Failed,
                        log: old(self)@.log.push(SubmitKind::Primary),
                        ..old(self)@
                    }
                },
            },
    {
        if self.phase != SubmitPhase::SignedWrapper {
            return Err(SdkError::OutOfOrder);
        }
        self.log.push(SubmitKind::Primary);
        proof {
            assert(self.log@ =~= reveal_log(self@.needs_reveal) + seq![SubmitKind::Primary]);
        }
        if accepted {
            self.phase = SubmitPhase::Submitted;
            Ok(())
        } else {
            self.phase = SubmitPhase::Failed;
            Err(SdkError::SubmissionError)
        }
    }
}

} // verus!
