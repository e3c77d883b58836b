//! The transaction container and the signature assembler.
//!
//! A transaction is an ordered list of sections — payload data, an optional
//! shielded-builder section, and signature sections — mutable only by
//! appending.  Two digests matter to the protocol: the raw hash, covering the
//! payload sections alone, and the wrapper hash, covering every section
//! present.  A digest is modeled as the covered encoding itself: it is
//! collision-free by construction, and injectivity is the only property the
//! assembler relies on; the chain applies a real hash to the same bytes.
//!
//! Attaching signatures is order-dependent: the raw signature must be
//! appended strictly before the wrapper signature, because the wrapper hash
//! covers the raw signature section.  [`lemma_sign_order_dependent`] proves
//! that the two orders always yield different transactions with different
//! wrapper hashes.

use vstd::prelude::*;
use crate::codec::{
    enc_fields, dec_fields, fields_fit, field_fits, seqs_of, encode_fields, decode_fields,
    clone_bytes, push_bytes, lemma_fields_round_trip,
    lemma_enc_fields_push_len, lemma_enc_len3, lemma_enc_fields_len_bound,
};
use crate::error::SdkError;

verus! {

/// A (public-key reference, signature bytes, covered-hash) triple.
#[verifier::ext_equal]
pub ghost struct SignatureModel {
    pub public_key: Seq<u8>,
    pub sig_bytes: Seq<u8>,
    pub covered: Seq<u8>,
}

/// One section of a transaction.
#[verifier::ext_equal]
pub ghost enum SectionModel {
    Data(Seq<u8>),
    MaspBuilder(Seq<u8>),
    Signature(SignatureModel),
}

pub struct Signature {
    pub public_key: Vec<u8>,
    pub sig_bytes: Vec<u8>,
    pub covered: Vec<u8>,
}

impl View for Signature {
    type V = SignatureModel;

    open spec fn view(&self) -> SignatureModel {
        SignatureModel {
            public_key: self.public_key@,
            sig_bytes: self.sig_bytes@,
            covered: self.covered@,
        }
    }
}

pub enum Section {
    Data(Vec<u8>),
    MaspBuilder(Vec<u8>),
    Signature(Signature),
}

impl View for Section {
    type V = SectionModel;

    open spec fn view(&self) -> SectionModel {
        match self {
            Section::Data(b) => SectionModel::Data(b@),
            Section::MaspBuilder(b) => SectionModel::MaspBuilder(b@),
            Section::Signature(g) => SectionModel::Signature(g@),
        }
    }
}

/// The transaction container: an ordered, append-only section list.
pub struct Tx {
    sections: Vec<Section>,
}

impl View for Tx {
    type V = Seq<SectionModel>;

    closed spec fn view(&self) -> Seq<SectionModel> {
        self.sections@.map_values(|s: Section| s@)
    }
}

/// Size bounds per section, chosen so that any transaction the pipeline
/// builds — including both signature sections, each carrying a covered
/// digest — still frames into 4-byte-prefixed fields.
pub open spec fn section_ok(s: SectionModel) -> bool {
    match s {
        SectionModel::Data(b) => b.len() < 0x0100_0000,
        SectionModel::MaspBuilder(b) => b.len() < 0x0100_0000,
        SectionModel::Signature(g) => g.public_key.len() < 0x0100_0000 && g.sig_bytes.len()
            < 0x0100_0000 && g.covered.len() <= 0xf000_0000,
    }
}

/// Any encodable transaction.
pub open spec fn tx_wf(ss: Seq<SectionModel>) -> bool {
    ss.len() <= 66 && forall|i: int| 0 <= i < ss.len() ==> section_ok(#[trigger] ss[i])
}

/// An unsigned transaction as the builders produce it: payload sections only,
/// with room left for the two signature sections.
pub open spec fn base_tx_wf(ss: Seq<SectionModel>) -> bool {
    &&& ss.len() <= 64
    &&& forall|i: int| 0 <= i < ss.len() ==> section_ok(#[trigger] ss[i])
    &&& forall|i: int| 0 <= i < ss.len() ==> !((#[trigger] ss[i]) is Signature)
}

// ---- wire form ----

pub open spec fn sig_parts(g: SignatureModel) -> Seq<Seq<u8>> {
    seq![g.public_key, g.sig_bytes, g.covered]
}

/// One section as a framed field: a tag byte, then the content (nested
/// framing for a signature's three parts).
pub open spec fn sec_field(s: SectionModel) -> Seq<u8> {
    match s {
        SectionModel::Data(b) => seq![0u8] + b,
        SectionModel::MaspBuilder(b) => seq![1u8] + b,
        SectionModel::Signature(g) => seq![2u8] + enc_fields(sig_parts(g)),
    }
}

pub open spec fn tx_fields(ss: Seq<SectionModel>) -> Seq<Seq<u8>> {
    ss.map_values(|s: SectionModel| sec_field(s))
}

/// The wire bytes of a transaction.
pub open spec fn spec_encode_tx(ss: Seq<SectionModel>) -> Seq<u8> {
    enc_fields(tx_fields(ss))
}

/// The section a tagged field denotes, if well formed and bounded.
pub open spec fn parse_section(f: Seq<u8>) -> Option<SectionModel> {
    if f.len() < 1 {
        None
    } else if f[0] == 0 {
        if f.len() - 1 < 0x0100_0000 {
            Some(SectionModel::Data(f.skip(1)))
        } else {
            None
        }
    } else if f[0] == 1 {
        if f.len() - 1 < 0x0100_0000 {
            Some(SectionModel::MaspBuilder(f.skip(1)))
        } else {
            None
        }
    } else if f[0] == 2 {
        match dec_fields(f.skip(1)) {
            None => None,
            Some(ps) => if ps.len() == 3 && ps[0].len() < 0x0100_0000 && ps[1].len()
                < 0x0100_0000 && ps[2].len() <= 0xf000_0000 {
                Some(
                    SectionModel::Signature(
                        SignatureModel { public_key: ps[0], sig_bytes: ps[1], covered: ps[2] },
                    ),
                )
            } else {
                None
            },
        }
    } else {
        None
    }
}

pub open spec fn parse_sections(fs: Seq<Seq<u8>>) -> Option<Seq<SectionModel>>
    decreases fs.len(),
{
    if fs.len() <= 0 {
        Some(Seq::empty())
    } else {
        match parse_section(fs[0]) {
            None => None,
            Some(s) => match parse_sections(fs.skip(1)) {
                None => None,
                Some(rest) => Some(seq![s] + rest),
            },
        }
    }
}

/// The transaction a blob denotes, if any.
pub open spec fn spec_parse_tx(b: Seq<u8>) -> Option<Seq<SectionModel>> {
    match dec_fields(b) {
        None => None,
        Some(fs) => match parse_sections(fs) {
            None => None,
            Some(ss) => if ss.len() <= 66 {
                Some(ss)
            } else {
                None
            },
        },
    }
}

// ---- digests ----

/// The payload sections: everything but signatures, order kept.
pub open spec fn data_sections_of(ss: Seq<SectionModel>) -> Seq<SectionModel>
    decreases ss.len(),
{
    if ss.len() <= 0 {
        Seq::empty()
    } else {
        let init = data_sections_of(ss.drop_last());
        if ss.last() is Signature {
            init
        } else {
            init.push(ss.last())
        }
    }
}

/// The raw digest: the encoding of the payload sections alone.
pub open spec fn spec_raw_hash(ss: Seq<SectionModel>) -> Seq<u8> {
    spec_encode_tx(data_sections_of(ss))
}

/// The wrapper digest: the encoding of every section present.
pub open spec fn spec_wrapper_hash(ss: Seq<SectionModel>) -> Seq<u8> {
    spec_encode_tx(ss)
}

/// The submission form: the shielded-builder sections are stripped, nothing
/// else changes.
pub open spec fn protocol_sections_of(ss: Seq<SectionModel>) -> Seq<SectionModel>
    decreases ss.len(),
{
    if ss.len() <= 0 {
        Seq::empty()
    } else {
        let init = protocol_sections_of(ss.drop_last());
        if ss.last() is MaspBuilder {
            init
        } else {
            init.push(ss.last())
        }
    }
}

// ---- signature blobs ----

/// An externally produced signature travels as two framed fields: the
/// signer's public key, then the signature bytes.
pub open spec fn spec_encode_sig_blob(pk: Seq<u8>, sig: Seq<u8>) -> Seq<u8> {
    enc_fields(seq![pk, sig])
}

pub open spec fn parse_sig_blob(b: Seq<u8>) -> Option<(Seq<u8>, Seq<u8>)> {
    match dec_fields(b) {
        None => None,
        Some(ps) => if ps.len() == 2 && ps[0].len() < 0x0100_0000 && ps[1].len() < 0x0100_0000 {
            Some((ps[0], ps[1]))
        } else {
            None
        },
    }
}

pub proof fn lemma_sig_blob_round_trip(pk: Seq<u8>, sig: Seq<u8>)
    requires
        pk.len() < 0x0100_0000,
        sig.len() < 0x0100_0000,
    ensures
        parse_sig_blob(spec_encode_sig_blob(pk, sig)) == Some((pk, sig)),
{
    assert(fields_fit(seq![pk, sig])) by {
        assert(seq![pk, sig][0] == pk);
        assert(seq![pk, sig][1] == sig);
    }
    lemma_fields_round_trip(seq![pk, sig]);
}

/// Frames a public key and signature bytes into a signature blob.
pub fn encode_sig_blob(pk: &Vec<u8>, sig: &Vec<u8>) -> (r: Vec<u8>)
    requires
        pk@.len() < 0x0100_0000,
        sig@.len() < 0x0100_0000,
    ensures
        r@ == spec_encode_sig_blob(pk@, sig@),
{
    let mut parts: Vec<Vec<u8>> = Vec::new();
    parts.push(clone_bytes(pk));
    parts.push(clone_bytes(sig));
    proof {
        assert(seqs_of(parts@) =~= seq![pk@, sig@]);
        assert(fields_fit(seq![pk@, sig@])) by {
            assert(seq![pk@, sig@][0] == pk@);
            assert(seq![pk@, sig@][1] == sig@);
        }
    }
    encode_fields(&parts)
}

/// Reads a signature blob back into its public key and signature bytes.
pub fn decode_sig_blob(b: &Vec<u8>) -> (r: Result<(Vec<u8>, Vec<u8>), SdkError>)
    ensures
        match r {
            Ok(p) => parse_sig_blob(b@) == Some((p.0@, p.1@)),
            Err(e) => parse_sig_blob(b@) is None && e == SdkError::SignatureError,
        },
{
    let ps = match decode_fields(b) {
        Ok(ps) => ps,
        Err(e) => {
            return Err(SdkError::SignatureError);
        },
    };
    if ps.len() != 2 || ps[0].len() >= 0x0100_0000 || ps[1].len() >= 0x0100_0000 {
        return Err(SdkError::SignatureError);
    }
    let pk = clone_bytes(&ps[0]);
    let sig = clone_bytes(&ps[1]);
    Ok((pk, sig))
}

// ---- bounds ----

proof fn lemma_sec_field_len(s: SectionModel)
    requires
        section_ok(s),
    ensures
        sec_field(s).len() <= 0xf300_0000,
        field_fits(sec_field(s)),
        sec_field(s).len() >= 1,
{
    match s {
        SectionModel::Data(b) => {},
        SectionModel::MaspBuilder(b) => {},
        SectionModel::Signature(g) => {
            lemma_enc_len3(g.public_key, g.sig_bytes, g.covered);
        },
    }
}

proof fn lemma_tx_fields_fit(ss: Seq<SectionModel>)
    requires
        forall|i: int| 0 <= i < ss.len() ==> section_ok(#[trigger] ss[i]),
    ensures
        fields_fit(tx_fields(ss)),
{
    assert forall|i: int| 0 <= i < tx_fields(ss).len() implies field_fits(
        #[trigger] tx_fields(ss)[i],
    ) by {
        assert(tx_fields(ss)[i] == sec_field(ss[i]));
        lemma_sec_field_len(ss[i]);
    }
}

/// A payload-only transaction is its own payload.
proof fn lemma_data_sections_plain(ss: Seq<SectionModel>)
    requires
        forall|i: int| 0 <= i < ss.len() ==> !((#[trigger] ss[i]) is Signature),
    ensures
        data_sections_of(ss) == ss,
    decreases ss.len(),
{
    if ss.len() == 0 {
        assert(ss =~= Seq::<SectionModel>::empty());
    } else {
        lemma_data_sections_plain(ss.drop_last());
        assert(!(ss.last() is Signature));
        assert(ss.drop_last().push(ss.last()) =~= ss);
    }
}

/// Appending a signature section leaves the payload unchanged.
proof fn lemma_data_sections_push_sig(ss: Seq<SectionModel>, g: SignatureModel)
    ensures
        data_sections_of(ss.push(SectionModel::Signature(g))) == data_sections_of(ss),
{
    assert(ss.push(SectionModel::Signature(g)).drop_last() =~= ss);
}

proof fn lemma_base_encode_len(ss: Seq<SectionModel>)
    requires
        base_tx_wf(ss),
    ensures
        spec_encode_tx(ss).len() <= 0x4100_0000,
{
    assert forall|i: int| 0 <= i < tx_fields(ss).len() implies (#[trigger] tx_fields(ss)[i]).len()
        <= 0x0100_0001 by {
        assert(tx_fields(ss)[i] == sec_field(ss[i]));
        assert(section_ok(ss[i]) && !(ss[i] is Signature));
    }
    lemma_enc_fields_len_bound(tx_fields(ss), 0x0100_0001);
    assert(tx_fields(ss).len() * (4 + 0x0100_0001) <= 64 * (4 + 0x0100_0001))
        by (nonlinear_arith)
        requires tx_fields(ss).len() <= 64
    ;
}

proof fn lemma_tx_fields_push(ss: Seq<SectionModel>, s: SectionModel)
    ensures
        tx_fields(ss.push(s)) == tx_fields(ss).push(sec_field(s)),
        spec_encode_tx(ss.push(s)).len() == spec_encode_tx(ss).len() + 4 + sec_field(s).len(),
{
    assert(tx_fields(ss.push(s)) =~= tx_fields(ss).push(sec_field(s)));
    lemma_enc_fields_push_len(tx_fields(ss), sec_field(s));
}

// ---- attaching signatures ----

/// The mandated order: the raw signature covers the payload digest, then the
/// wrapper signature covers the digest of everything including the raw
/// signature.
pub open spec fn spec_attach_signatures(
    ss: Seq<SectionModel>,
    rpk: Seq<u8>,
    rsig: Seq<u8>,
    wpk: Seq<u8>,
    wsig: Seq<u8>,
) -> Seq<SectionModel> {
    let with_raw = ss.push(
        SectionModel::Signature(
            SignatureModel { public_key: rpk, sig_bytes: rsig, covered: spec_raw_hash(ss) },
        ),
    );
    with_raw.push(
        SectionModel::Signature(
            SignatureModel { public_key: wpk, sig_bytes: wsig, covered: spec_wrapper_hash(with_raw) },
        ),
    )
}

/// The reversed order: the wrapper signature is computed and appended first,
/// so it cannot cover the raw signature section.
pub open spec fn spec_attach_swapped(
    ss: Seq<SectionModel>,
    rpk: Seq<u8>,
    rsig: Seq<u8>,
    wpk: Seq<u8>,
    wsig: Seq<u8>,
) -> Seq<SectionModel> {
    let with_wrapper = ss.push(
        SectionModel::Signature(
            SignatureModel { public_key: wpk, sig_bytes: wsig, covered: spec_wrapper_hash(ss) },
        ),
    );
    with_wrapper.push(
        SectionModel::Signature(
            SignatureModel {
                public_key: rpk,
                sig_bytes: rsig,
                covered: spec_raw_hash(with_wrapper),
            },
        ),
    )
}

proof fn lemma_attach_wf(ss: Seq<SectionModel>, rpk: Seq<u8>, rsig: Seq<u8>, wpk: Seq<u8>, wsig: Seq<u8>)
    requires
        base_tx_wf(ss),
        rpk.len() < 0x0100_0000,
        rsig.len() < 0x0100_0000,
        wpk.len() < 0x0100_0000,
        wsig.len() < 0x0100_0000,
    ensures
        spec_raw_hash(ss).len() <= 0x4100_0000,
        tx_wf(
            ss.push(
                SectionModel::Signature(
                    SignatureModel { public_key: rpk, sig_bytes: rsig, covered: spec_raw_hash(ss) },
                ),
            ),
        ),
        spec_wrapper_hash(
            ss.push(
                SectionModel::Signature(
                    SignatureModel { public_key: rpk, sig_bytes: rsig, covered: spec_raw_hash(ss) },
                ),
            ),
        ).len() <= 0xf000_0000,
        tx_wf(spec_attach_signatures(ss, rpk, rsig, wpk, wsig)),
{
    lemma_data_sections_plain(ss);
    lemma_base_encode_len(ss);
    let rawsec = SectionModel::Signature(
        SignatureModel { public_key: rpk, sig_bytes: rsig, covered: spec_raw_hash(ss) },
    );
    assert(section_ok(rawsec));
    let with_raw = ss.push(rawsec);
    assert(tx_wf(with_raw)) by {
        assert(forall|i: int| 0 <= i < ss.len() ==> with_raw[i] == ss[i]);
    }
    lemma_tx_fields_push(ss, rawsec);
    lemma_enc_len3(rpk, rsig, spec_raw_hash(ss));
    assert(sec_field(rawsec).len() <= 0x4300_0020);
    assert(spec_wrapper_hash(with_raw).len() <= 0xf000_0000);
    let wsec = SectionModel::Signature(
        SignatureModel { public_key: wpk, sig_bytes: wsig, covered: spec_wrapper_hash(with_raw) },
    );
    assert(section_ok(wsec));
    let done = with_raw.push(wsec);
    assert(tx_wf(done)) by {
        assert(forall|i: int| 0 <= i < with_raw.len() ==> done[i] == with_raw[i]);
    }
}

proof fn lemma_attach_swapped_wf(
    ss: Seq<SectionModel>,
    rpk: Seq<u8>,
    rsig: Seq<u8>,
    wpk: Seq<u8>,
    wsig: Seq<u8>,
)
    requires
        base_tx_wf(ss),
        rpk.len() < 0x0100_0000,
        rsig.len() < 0x0100_0000,
        wpk.len() < 0x0100_0000,
        wsig.len() < 0x0100_0000,
    ensures
        tx_wf(spec_attach_swapped(ss, rpk, rsig, wpk, wsig)),
        spec_raw_hash(
            ss.push(
                SectionModel::Signature(
                    SignatureModel { public_key: wpk, sig_bytes: wsig, covered: spec_wrapper_hash(ss) },
                ),
            ),
        ) == spec_encode_tx(ss),
{
    lemma_data_sections_plain(ss);
    lemma_base_encode_len(ss);
    let wsec = SectionModel::Signature(
        SignatureModel { public_key: wpk, sig_bytes: wsig, covered: spec_wrapper_hash(ss) },
    );
    assert(section_ok(wsec));
    let with_wrapper = ss.push(wsec);
    assert(tx_wf(with_wrapper)) by {
        assert(forall|i: int| 0 <= i < ss.len() ==> with_wrapper[i] == ss[i]);
    }
    lemma_data_sections_push_sig(ss, SignatureModel { public_key: wpk, sig_bytes: wsig, covered: spec_wrapper_hash(ss) });
    assert(spec_raw_hash(with_wrapper) == spec_encode_tx(ss));
    let rawsec = SectionModel::Signature(
        SignatureModel { public_key: rpk, sig_bytes: rsig, covered: spec_raw_hash(with_wrapper) },
    );
    assert(section_ok(rawsec));
    let done = with_wrapper.push(rawsec);
    assert(tx_wf(done)) by {
        assert(forall|i: int| 0 <= i < with_wrapper.len() ==> done[i] == with_wrapper[i]);
    }
}

/// Attaching the raw signature to an unsigned transaction keeps it
/// encodable.
pub proof fn lemma_with_raw_wf(ss: Seq<SectionModel>, rpk: Seq<u8>, rsig: Seq<u8>)
    requires
        base_tx_wf(ss),
        rpk.len() < 0x0100_0000,
        rsig.len() < 0x0100_0000,
    ensures
        tx_wf(
            ss.push(
                SectionModel::Signature(
                    SignatureModel { public_key: rpk, sig_bytes: rsig, covered: spec_raw_hash(ss) },
                ),
            ),
        ),
{
    lemma_attach_wf(ss, rpk, rsig, rpk, rsig);
}

/// A fully signed, normalized transaction is encodable.
pub proof fn lemma_signed_wf(
    ss: Seq<SectionModel>,
    rpk: Seq<u8>,
    rsig: Seq<u8>,
    wpk: Seq<u8>,
    wsig: Seq<u8>,
)
    requires
        base_tx_wf(ss),
        rpk.len() < 0x0100_0000,
        rsig.len() < 0x0100_0000,
        wpk.len() < 0x0100_0000,
        wsig.len() < 0x0100_0000,
    ensures
        tx_wf(protocol_sections_of(spec_attach_signatures(ss, rpk, rsig, wpk, wsig))),
{
    lemma_attach_wf(ss, rpk, rsig, wpk, wsig);
    lemma_protocol_sections_ok(spec_attach_signatures(ss, rpk, rsig, wpk, wsig));
}

// ---- round trips ----

#[verifier::spinoff_prover]
#[verifier::rlimit(100)]
proof fn lemma_section_round_trip(s: SectionModel)
    requires
        section_ok(s),
    ensures
        sec_field(s).len() >= 1,
        parse_section(sec_field(s)) == Some(s),
{
    match s {
        SectionModel::Data(b) => {
            assert(sec_field(s)[0] == 0u8);
            assert(sec_field(s).skip(1) =~= b);
        },
        SectionModel::MaspBuilder(b) => {
            assert(sec_field(s)[0] == 1u8);
            assert(sec_field(s).skip(1) =~= b);
        },
        SectionModel::Signature(g) => {
            assert(fields_fit(sig_parts(g))) by {
                assert(sig_parts(g)[0] == g.public_key);
                assert(sig_parts(g)[1] == g.sig_bytes);
                assert(sig_parts(g)[2] == g.covered);
            }
            lemma_fields_round_trip(sig_parts(g));
            assert(sec_field(s)[0] == 2u8);
            assert(sec_field(s).skip(1) =~= enc_fields(sig_parts(g)));
            assert(sig_parts(g)[0] == g.public_key);
            assert(sig_parts(g)[1] == g.sig_bytes);
            assert(sig_parts(g)[2] == g.covered);
        },
    }
}

#[verifier::spinoff_prover]
#[verifier::rlimit(100)]
proof fn lemma_sections_round_trip(ss: Seq<SectionModel>)
    requires
        forall|i: int| 0 <= i < ss.len() ==> section_ok(#[trigger] ss[i]),
    ensures
        parse_sections(tx_fields(ss)) == Some(ss),
    decreases ss.len(),
{
    let fs = tx_fields(ss);
    if ss.len() == 0 {
        assert(fs =~= Seq::<Seq<u8>>::empty());
        assert(ss =~= Seq::<SectionModel>::empty());
    } else {
        assert(fs[0] == sec_field(ss[0]));
        lemma_section_round_trip(ss[0]);
        assert(fs.skip(1) =~= tx_fields(ss.skip(1)));
        lemma_sections_round_trip(ss.skip(1));
        assert(parse_sections(fs) == Some(seq![ss[0]] + ss.skip(1)));
        assert(seq![ss[0]] + ss.skip(1) =~= ss);
    }
}

/// Round-trip law: the wire bytes of any well-formed transaction decode back
/// to exactly its sections — nothing is lost or reordered.
pub proof fn lemma_tx_round_trip(ss: Seq<SectionModel>)
    requires
        tx_wf(ss),
    ensures
        spec_parse_tx(spec_encode_tx(ss)) == Some(ss),
{
    lemma_tx_fields_fit(ss);
    lemma_fields_round_trip(tx_fields(ss));
    lemma_sections_round_trip(ss);
}

/// Order dependence of signing: appending the wrapper signature before the
/// raw signature always yields a different transaction with a different
/// wrapper digest than the mandated raw-then-wrapper order, whatever the
/// signer supplied.
pub proof fn lemma_sign_order_dependent(
    ss: Seq<SectionModel>,
    rpk: Seq<u8>,
    rsig: Seq<u8>,
    wpk: Seq<u8>,
    wsig: Seq<u8>,
)
    requires
        base_tx_wf(ss),
        rpk.len() < 0x0100_0000,
        rsig.len() < 0x0100_0000,
        wpk.len() < 0x0100_0000,
        wsig.len() < 0x0100_0000,
    ensures
        spec_attach_signatures(ss, rpk, rsig, wpk, wsig) != spec_attach_swapped(
            ss,
            rpk,
            rsig,
            wpk,
            wsig,
        ),
        spec_wrapper_hash(spec_attach_signatures(ss, rpk, rsig, wpk, wsig))
            != spec_wrapper_hash(spec_attach_swapped(ss, rpk, rsig, wpk, wsig)),
{
    lemma_attach_wf(ss, rpk, rsig, wpk, wsig);
    lemma_attach_swapped_wf(ss, rpk, rsig, wpk, wsig);
    let good = spec_attach_signatures(ss, rpk, rsig, wpk, wsig);
    let bad = spec_attach_swapped(ss, rpk, rsig, wpk, wsig);
    let rawsec = SectionModel::Signature(
        SignatureModel { public_key: rpk, sig_bytes: rsig, covered: spec_raw_hash(ss) },
    );
    let with_raw = ss.push(rawsec);
    // The last section of the correct order covers strictly more bytes than
    // the last section of the swapped order can.
    lemma_data_sections_plain(ss);
    lemma_tx_fields_push(ss, rawsec);
    lemma_sec_field_len(rawsec);
    assert(good.last() == SectionModel::Signature(
        SignatureModel { public_key: wpk, sig_bytes: wsig, covered: spec_wrapper_hash(with_raw) },
    ));
    assert(spec_wrapper_hash(with_raw).len() >= spec_encode_tx(ss).len() + 5);
    assert(good.last() != bad.last());
    assert(good != bad) by {
        assert(good.len() == ss.len() + 2);
        assert(bad.len() == ss.len() + 2);
        if good == bad {
            assert(good.last() == bad.last());
        }
    }
    lemma_tx_round_trip(good);
    lemma_tx_round_trip(bad);
    assert(spec_wrapper_hash(good) != spec_wrapper_hash(bad)) by {
        if spec_wrapper_hash(good) == spec_wrapper_hash(bad) {
            assert(spec_parse_tx(spec_encode_tx(good)) == spec_parse_tx(spec_encode_tx(bad)));
        }
    }
}

// ---- executable container ----

/// A standalone copy of a section.
pub fn clone_section(s: &Section) -> (r: Section)
    ensures
        r@ == s@,
{
    match s {
        Section::Data(b) => Section::Data(clone_bytes(b)),
        Section::MaspBuilder(b) => Section::MaspBuilder(clone_bytes(b)),
        Section::Signature(g) => Section::Signature(
            Signature {
                public_key: clone_bytes(&g.public_key),
                sig_bytes: clone_bytes(&g.sig_bytes),
                covered: clone_bytes(&g.covered),
            },
        ),
    }
}

fn encode_section(s: &Section) -> (r: Vec<u8>)
    requires
        section_ok(s@),
    ensures
        r@ == sec_field(s@),
{
    let mut out: Vec<u8> = Vec::new();
    match s {
        Section::Data(b) => {
            out.push(0u8);
            push_bytes(&mut out, b);
            assert(out@ =~= sec_field(s@));
        },
        Section::MaspBuilder(b) => {
            out.push(1u8);
            push_bytes(&mut out, b);
            assert(out@ =~= sec_field(s@));
        },
        Section::Signature(g) => {
            let mut parts: Vec<Vec<u8>> = Vec::new();
            parts.push(clone_bytes(&g.public_key));
            parts.push(clone_bytes(&g.sig_bytes));
            parts.push(clone_bytes(&g.covered));
            proof {
                assert(seqs_of(parts@) =~= sig_parts(g@));
                assert(fields_fit(sig_parts(g@))) by {
                    assert(sig_parts(g@)[0] == g@.public_key);
                    assert(sig_parts(g@)[1] == g@.sig_bytes);
                    assert(sig_parts(g@)[2] == g@.covered);
                }
            }
            let body = encode_fields(&parts);
            out.push(2u8);
            push_bytes(&mut out, &body);
            assert(out@ =~= sec_field(s@));
        },
    }
    out
}

impl Tx {
    /// An empty transaction container.
    pub fn new() -> (r: Tx)
        ensures
            r@ == Seq::<SectionModel>::empty(),
    {
        let t = Tx { sections: Vec::new() };
        proof {
            assert(t@ =~= Seq::<SectionModel>::empty());
        }
        t
    }

    /// Appends a section; sections are never removed or reordered.
    pub fn add_section(&mut self, s: Section)
        ensures
            final(self)@ == old(self)@.push(s@),
    {
        self.sections.push(s);
        proof {
            assert(self@ =~= old(self)@.push(self.sections@.last()@));
        }
    }

    /// How many sections the transaction holds.
    pub fn section_count(&self) -> (r: usize)
        ensures
            r == self@.len(),
    {
        self.sections.len()
    }

    /// The section at a position.
    pub fn section_at(&self, i: usize) -> (r: &Section)
        requires
            i < self@.len(),
        ensures
            r@ == self@[i as int],
    {
        &self.sections[i]
    }

    /// Whether no signature section is present yet.
    pub fn is_unsigned(&self) -> (r: bool)
        ensures
            r == (forall|i: int| 0 <= i < self@.len() ==> !((#[trigger] self@[i]) is Signature)),
    {
        let mut i: usize = 0;
        while i < self.sections.len()
            invariant
                i <= self.sections.len(),
                forall|k: int| 0 <= k < i ==> !((#[trigger] self@[k]) is Signature),
            decreases self.sections.len() - i,
        {
            let is_sig: bool = match &self.sections[i] {
                Section::Signature(_) => true,
                _ => false,
            };
            assert(self@[i as int] == self.sections@[i as int]@);
            if is_sig {
                return false;
            }
            i = i + 1;
        }
        true
    }

    /// The wire bytes of the transaction.
    pub fn to_bytes(&self) -> (r: Vec<u8>)
        requires
            tx_wf(self@),
        ensures
            r@ == spec_encode_tx(self@),
    {
        let mut fields: Vec<Vec<u8>> = Vec::new();
        let mut i: usize = 0;
        while i < self.sections.len()
            invariant
                i <= self.sections.len(),
                tx_wf(self@),
                self@ == self.sections@.map_values(|s: Section| s@),
                seqs_of(fields@) == tx_fields(self@.take(i as int)),
            decreases self.sections.len() - i,
        {
            let s = &self.sections[i];
            assert(s@ == self@[i as int]);
            let ef = encode_section(s);
            let ghost old_fields = fields@;
            fields.push(ef);
            proof {
                assert(self@.take(i as int + 1) =~= self@.take(i as int).push(self@[i as int]));
                assert(seqs_of(fields@) =~= seqs_of(old_fields).push(ef@));
                assert(tx_fields(self@.take(i as int).push(self@[i as int])) =~= tx_fields(
                    self@.take(i as int),
                ).push(sec_field(self@[i as int])));
            }
            i = i + 1;
        }
        proof {
            assert(self@.take(self@.len() as int) =~= self@);
            lemma_tx_fields_fit(self@);
        }
        encode_fields(&fields)
    }

    /// The wrapper digest: covers every section present.
    pub fn wrapper_hash(&self) -> (r: Vec<u8>)
        requires
            tx_wf(self@),
        ensures
            r@ == spec_wrapper_hash(self@),
    {
        self.to_bytes()
    }

    /// The raw digest: covers the payload sections alone, so it is unchanged
    /// by any signature section attached later.
    pub fn raw_hash(&self) -> (r: Vec<u8>)
        requires
            tx_wf(self@),
        ensures
            r@ == spec_raw_hash(self@),
    {
        let mut fields: Vec<Vec<u8>> = Vec::new();
        let mut i: usize = 0;
        while i < self.sections.len()
            invariant
                i <= self.sections.len(),
                tx_wf(self@),
                self@ == self.sections@.map_values(|s: Section| s@),
                seqs_of(fields@) == tx_fields(data_sections_of(self@.take(i as int))),
            decreases self.sections.len() - i,
        {
            let s = &self.sections[i];
            assert(s@ == self@[i as int]);
            let is_sig: bool = match s {
                Section::Signature(_) => true,
                _ => false,
            };
            proof {
                assert(self@.take(i as int + 1).drop_last() =~= self@.take(i as int));
                assert(self@.take(i as int + 1).last() == self@[i as int]);
            }
            if !is_sig {
                let ef = encode_section(s);
                let ghost old_fields = fields@;
                fields.push(ef);
                proof {
                    assert(seqs_of(fields@) =~= seqs_of(old_fields).push(ef@));
                    assert(tx_fields(
                        data_sections_of(self@.take(i as int)).push(self@[i as int]),
                    ) =~= tx_fields(data_sections_of(self@.take(i as int))).push(
                        sec_field(self@[i as int]),
                    ));
                }
            }
            i = i + 1;
        }
        proof {
            assert(self@.take(self@.len() as int) =~= self@);
            assert forall|k: int| 0 <= k < data_sections_of(self@).len() implies section_ok(
                #[trigger] data_sections_of(self@)[k],
            ) by {
                lemma_data_sections_elems(self@);
            }
            lemma_tx_fields_fit(data_sections_of(self@));
        }
        encode_fields(&fields)
    }

    /// Strips the shielded-builder sections before submission; everything
    /// else stays, in order.
    pub fn protocol_filter(&mut self)
        ensures
            final(self)@ == protocol_sections_of(old(self)@),
    {
        let mut kept: Vec<Section> = Vec::new();
        let mut i: usize = 0;
        while i < self.sections.len()
            invariant
                i <= self.sections.len(),
                self@ == self.sections@.map_values(|s: Section| s@),
                kept@.map_values(|s: Section| s@) == protocol_sections_of(self@.take(i as int)),
            decreases self.sections.len() - i,
        {
            let s = &self.sections[i];
            assert(s@ == self@[i as int]);
            let is_masp: bool = match s {
                Section::MaspBuilder(_) => true,
                _ => false,
            };
            proof {
                assert(self@.take(i as int + 1).drop_last() =~= self@.take(i as int));
                assert(self@.take(i as int + 1).last() == self@[i as int]);
            }
            if !is_masp {
                let c = clone_section(s);
                let ghost old_kept = kept@;
                kept.push(c);
                proof {
                    assert(kept@.map_values(|s: Section| s@) =~= old_kept.map_values(
                        |s: Section| s@,
                    ).push(c@));
                }
            }
            i = i + 1;
        }
        proof {
            assert(self@.take(self@.len() as int) =~= self@);
        }
        self.sections = kept;
    }

    /// Reads a transaction back from its wire bytes.  Succeeds exactly on the
    /// blobs the wire grammar admits, and then returns exactly the sections
    /// the blob denotes.
    pub fn from_bytes(data: &Vec<u8>) -> (r: Result<Tx, SdkError>)
        ensures
            match r {
                Ok(t) => spec_parse_tx(data@) == Some(t@) && tx_wf(t@),
                Err(e) => spec_parse_tx(data@) is None && e == SdkError::DecodeError,
            },
    {
        let fields = match decode_fields(data) {
            Ok(f) => f,
            Err(e) => {
                return Err(SdkError::DecodeError);
            },
        };
        let ghost efs = seqs_of(fields@);
        let mut out: Vec<Section> = Vec::new();
        let mut i: usize = 0;
        proof {
            assert(efs.skip(0) =~= efs);
            if let Some(rest) = parse_sections(efs) {
                assert(out@.map_values(|s: Section| s@) + rest =~= rest);
            }
        }
        while i < fields.len()
            invariant
                i <= fields.len(),
                efs == seqs_of(fields@),
                dec_fields(data@) == Some(efs),
                match parse_sections(efs.skip(i as int)) {
                    Some(rest) => parse_sections(efs) == Some(
                        out@.map_values(|s: Section| s@) + rest,
                    ),
                    None => parse_sections(efs) is None,
                },
                forall|k: int| 0 <= k < out@.len() ==> section_ok((#[trigger] out@[k])@),
            decreases fields.len() - i,
        {
            let ghost tail = efs.skip(i as int);
            let f = &fields[i];
            proof {
                assert(tail[0] == f@);
                assert(tail.skip(1) =~= efs.skip(i as int + 1));
            }
            if f.len() < 1 {
                assert(parse_section(tail[0]) is None);
                assert(parse_sections(tail) is None);
                return Err(SdkError::DecodeError);
            }
            let tag = f[0];
            let mut body: Vec<u8> = Vec::new();
            let mut p: usize = 1;
            while p < f.len()
                invariant
                    1 <= p <= f.len(),
                    body@ == f@.subrange(1, p as int),
                decreases f.len() - p,
            {
                body.push(f[p]);
                assert(body@ =~= f@.subrange(1, p as int + 1));
                p = p + 1;
            }
            assert(body@ =~= f@.skip(1));
            let sec: Section;
            if tag == 0 {
                if body.len() >= 0x0100_0000 {
                    assert(parse_section(tail[0]) is None);
                    assert(parse_sections(tail) is None);
                    return Err(SdkError::DecodeError);
                }
                sec = Section::Data(body);
            } else if tag == 1 {
                if body.len() >= 0x0100_0000 {
                    assert(parse_section(tail[0]) is None);
                    assert(parse_sections(tail) is None);
                    return Err(SdkError::DecodeError);
                }
                sec = Section::MaspBuilder(body);
            } else if tag == 2 {
                let parts = match decode_fields(&body) {
                    Ok(ps) => ps,
                    Err(e) => {
                        assert(parse_section(tail[0]) is None);
                        assert(parse_sections(tail) is None);
                        return Err(SdkError::DecodeError);
                    },
                };
                if parts.len() != 3 || parts[0].len() >= 0x0100_0000 || parts[1].len()
                    >= 0x0100_0000 || parts[2].len() > 0xf000_0000 {
                    assert(parse_section(tail[0]) is None);
                    assert(parse_sections(tail) is None);
                    return Err(SdkError::DecodeError);
                }
                sec = Section::Signature(
                    Signature {
                        public_key: clone_bytes(&parts[0]),
                        sig_bytes: clone_bytes(&parts[1]),
                        covered: clone_bytes(&parts[2]),
                    },
                );
            } else {
                assert(parse_section(tail[0]) is None);
                assert(parse_sections(tail) is None);
                return Err(SdkError::DecodeError);
            }
            let ghost old_out = out@;
            out.push(sec);
            proof {
                assert(parse_section(f@) == Some(out@.last()@));
                assert(out@.map_values(|s: Section| s@) =~= old_out.map_values(
                    |s: Section| s@,
                ).push(out@.last()@));
                if let Some(rest2) = parse_sections(efs.skip(i as int + 1)) {
                    assert(parse_sections(tail) == Some(seq![out@.last()@] + rest2));
                    assert(old_out.map_values(|s: Section| s@) + (seq![out@.last()@] + rest2)
                        =~= out@.map_values(|s: Section| s@) + rest2);
                } else {
                    assert(parse_sections(tail) is None);
                }
            }
            i = i + 1;
        }
        proof {
            assert(efs.skip(i as int) =~= Seq::<Seq<u8>>::empty());
            assert(parse_sections(efs.skip(i as int)) == Some(Seq::<SectionModel>::empty()));
            assert(out@.map_values(|s: Section| s@) + Seq::<SectionModel>::empty()
                =~= out@.map_values(|s: Section| s@));
        }
        if out.len() > 66 {
            return Err(SdkError::DecodeError);
        }
        let t = Tx { sections: out };
        Ok(t)
    }
}

/// Every payload section of a transaction is one of its sections, and in
/// particular well formed when they all are.
proof fn lemma_data_sections_elems(ss: Seq<SectionModel>)
    requires
        forall|i: int| 0 <= i < ss.len() ==> section_ok(#[trigger] ss[i]),
    ensures
        data_sections_of(ss).len() <= ss.len(),
        forall|i: int|
            0 <= i < data_sections_of(ss).len() ==> section_ok(
                #[trigger] data_sections_of(ss)[i],
            ),
    decreases ss.len(),
{
    if ss.len() == 0 {
    } else {
        assert(forall|i: int|
            0 <= i < ss.drop_last().len() ==> section_ok(#[trigger] ss.drop_last()[i]));
        lemma_data_sections_elems(ss.drop_last());
    }
}

// ---- the assembler ----

/// No signature section present.
pub open spec fn spec_unsigned(ss: Seq<SectionModel>) -> bool {
    forall|i: int| 0 <= i < ss.len() ==> !((#[trigger] ss[i]) is Signature)
}

/// What `sign_tx` returns for every input: the decoded unsigned transaction
/// with the raw signature attached first, the wrapper signature attached
/// second, and the shielded-builder sections stripped; `DecodeError` exactly
/// when the transaction bytes do not decode to an unsigned transaction with
/// room for two more sections, and `SignatureError` exactly when a signature
/// blob does not parse.
pub open spec fn spec_sign_tx(txb: Seq<u8>, rb: Seq<u8>, wb: Seq<u8>) -> Result<
    Seq<SectionModel>,
    SdkError,
> {
    match spec_parse_tx(txb) {
        None => Err(SdkError::DecodeError),
        Some(ss) => if ss.len() > 64 || !spec_unsigned(ss) {
            Err(SdkError::DecodeError)
        } else {
            match parse_sig_blob(rb) {
                None => Err(SdkError::SignatureError),
                Some(rs) => match parse_sig_blob(wb) {
                    None => Err(SdkError::SignatureError),
                    Some(ws) => Ok(
                        protocol_sections_of(
                            spec_attach_signatures(ss, rs.0, rs.1, ws.0, ws.1),
                        ),
                    ),
                },
            }
        },
    }
}

proof fn lemma_protocol_sections_ok(ss: Seq<SectionModel>)
    requires
        forall|i: int| 0 <= i < ss.len() ==> section_ok(#[trigger] ss[i]),
    ensures
        protocol_sections_of(ss).len() <= ss.len(),
        forall|i: int|
            0 <= i < protocol_sections_of(ss).len() ==> section_ok(
                #[trigger] protocol_sections_of(ss)[i],
            ),
    decreases ss.len(),
{
    if ss.len() == 0 {
    } else {
        assert(forall|i: int|
            0 <= i < ss.drop_last().len() ==> section_ok(#[trigger] ss.drop_last()[i]));
        lemma_protocol_sections_ok(ss.drop_last());
    }
}

/// Decodes a transaction, attaches the raw signature over the raw digest and
/// then the wrapper signature over the wrapper digest — in that order — and
/// normalizes the result for submission.
pub fn sign_tx(tx_bytes: &Vec<u8>, raw_sig_bytes: &Vec<u8>, wrapper_sig_bytes: &Vec<u8>) -> (r:
    Result<Tx, SdkError>)
    ensures
        match r {
            Ok(t) => spec_sign_tx(tx_bytes@, raw_sig_bytes@, wrapper_sig_bytes@)
                == Ok::<Seq<SectionModel>, SdkError>(t@) && tx_wf(t@),
            Err(e) => spec_sign_tx(tx_bytes@, raw_sig_bytes@, wrapper_sig_bytes@)
                == Err::<Seq<SectionModel>, SdkError>(e),
        },
{
    let mut t = match Tx::from_bytes(tx_bytes) {
        Ok(t) => t,
        Err(e) => {
            return Err(SdkError::DecodeError);
        },
    };
    let ghost ss = t@;
    if t.section_count() > 64 || !t.is_unsigned() {
        return Err(SdkError::DecodeError);
    }
    assert(base_tx_wf(ss));
    let (rpk, rsig) = match decode_sig_blob(raw_sig_bytes) {
        Ok(p) => p,
        Err(e) => {
            return Err(SdkError::SignatureError);
        },
    };
    let (wpk, wsig) = match decode_sig_blob(wrapper_sig_bytes) {
        Ok(p) => p,
        Err(e) => {
            return Err(SdkError::SignatureError);
        },
    };
    proof {
        lemma_attach_wf(ss, rpk@, rsig@, wpk@, wsig@);
    }
    let rh = t.raw_hash();
    t.add_section(
        Section::Signature(Signature { public_key: rpk, sig_bytes: rsig, covered: rh }),
    );
    let wh = t.to_bytes();
    t.add_section(
        Section::Signature(Signature { public_key: wpk, sig_bytes: wsig, covered: wh }),
    );
    assert(t@ == spec_attach_signatures(ss, rpk@, rsig@, wpk@, wsig@));
    t.protocol_filter();
    proof {
        lemma_protocol_sections_ok(spec_attach_signatures(ss, rpk@, rsig@, wpk@, wsig@));
    }
    Ok(t)
}

} // verus!
