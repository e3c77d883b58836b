//! Length-prefixed binary framing.
//!
//! Every byte blob the library produces — wallet snapshots, unsigned and
//! signed transactions, argument records — is a flat list of fields, each
//! field written as a 4-byte little-endian length followed by its bytes.
//! Encoding and decoding are specified as mathematical functions on byte
//! sequences and proved inverse to each other, which is what the round-trip
//! laws of the wallet and of the transaction container rest on.

use vstd::prelude::*;
use crate::error::SdkError;

verus! {

/// Largest field length the 4-byte prefix can carry.
pub open spec fn field_fits(f: Seq<u8>) -> bool {
    f.len() <= 0xffff_ffff
}

pub open spec fn fields_fit(fs: Seq<Seq<u8>>) -> bool {
    forall|i: int| 0 <= i < fs.len() ==> field_fits(#[trigger] fs[i])
}

/// A 32-bit length in little-endian byte order.
pub open spec fn enc_u32(n: u32) -> Seq<u8> {
    seq![
        (n & 0xff) as u8,
        ((n >> 8) & 0xff) as u8,
        ((n >> 16) & 0xff) as u8,
        ((n >> 24) & 0xff) as u8,
    ]
}

/// The value of four little-endian bytes.
pub open spec fn dec_u32(b: Seq<u8>) -> u32 {
    (b[0] as u32) | ((b[1] as u32) << 8) | ((b[2] as u32) << 16) | ((b[3] as u32) << 24)
}

pub proof fn lemma_u32_round_trip(n: u32)
    ensures
        enc_u32(n).len() == 4,
        dec_u32(enc_u32(n)) == n,
{
    assert((((n & 0xff) as u8) as u32) | (((((n >> 8) & 0xff) as u8) as u32) << 8)
        | (((((n >> 16) & 0xff) as u8) as u32) << 16)
        | (((((n >> 24) & 0xff) as u8) as u32) << 24) == n) by (bit_vector);
}

/// A 64-bit amount in little-endian byte order.
pub open spec fn enc_u64(n: u64) -> Seq<u8> {
    seq![
        (n & 0xff) as u8,
        ((n >> 8) & 0xff) as u8,
        ((n >> 16) & 0xff) as u8,
        ((n >> 24) & 0xff) as u8,
        ((n >> 32) & 0xff) as u8,
        ((n >> 40) & 0xff) as u8,
        ((n >> 48) & 0xff) as u8,
        ((n >> 56) & 0xff) as u8,
    ]
}

/// The value of eight little-endian bytes.
pub open spec fn dec_u64(b: Seq<u8>) -> u64 {
    (b[0] as u64) | ((b[1] as u64) << 8) | ((b[2] as u64) << 16) | ((b[3] as u64) << 24)
        | ((b[4] as u64) << 32) | ((b[5] as u64) << 40) | ((b[6] as u64) << 48)
        | ((b[7] as u64) << 56)
}

pub proof fn lemma_u64_round_trip(n: u64)
    ensures
        enc_u64(n).len() == 8,
        dec_u64(enc_u64(n)) == n,
{
    assert((((n & 0xff) as u8) as u64) | (((((n >> 8) & 0xff) as u8) as u64) << 8)
        | (((((n >> 16) & 0xff) as u8) as u64) << 16)
        | (((((n >> 24) & 0xff) as u8) as u64) << 24)
        | (((((n >> 32) & 0xff) as u8) as u64) << 32)
        | (((((n >> 40) & 0xff) as u8) as u64) << 40)
        | (((((n >> 48) & 0xff) as u8) as u64) << 48)
        | (((((n >> 56) & 0xff) as u8) as u64) << 56) == n) by (bit_vector);
}

/// One framed field: its length, then its bytes.
pub open spec fn enc_field(f: Seq<u8>) -> Seq<u8> {
    enc_u32(f.len() as u32) + f
}

/// A framed field list, fields in order.
pub open spec fn enc_fields(fs: Seq<Seq<u8>>) -> Seq<u8>
    decreases fs.len(),
{
    if fs.len() <= 0 {
        Seq::empty()
    } else {
        enc_field(fs[0]) + enc_fields(fs.skip(1))
    }
}

/// The mathematical decoder: the unique field list a blob frames, if any.
pub open spec fn dec_fields(b: Seq<u8>) -> Option<Seq<Seq<u8>>>
    decreases b.len(),
{
    if b.len() <= 0 {
        Some(Seq::empty())
    } else if b.len() < 4 {
        None
    } else {
        let n = dec_u32(b.subrange(0, 4)) as int;
        if b.len() < 4 + n {
            None
        } else {
            match dec_fields(b.subrange(4 + n, b.len() as int)) {
                Some(rest) => Some(seq![b.subrange(4, 4 + n)] + rest),
                None => None,
            }
        }
    }
}

/// The views of a list of byte vectors.
pub open spec fn seqs_of(vs: Seq<Vec<u8>>) -> Seq<Seq<u8>> {
    vs.map_values(|v: Vec<u8>| v@)
}

pub proof fn lemma_enc_fields_push(fs: Seq<Seq<u8>>, f: Seq<u8>)
    ensures
        enc_fields(fs.push(f)) == enc_fields(fs) + enc_field(f),
    decreases fs.len(),
{
    if fs.len() == 0 {
        assert(fs.push(f).skip(1) =~= Seq::<Seq<u8>>::empty());
        assert(fs.push(f)[0] == f);
        assert(enc_fields(fs.push(f).skip(1)) == Seq::<u8>::empty());
        assert(enc_fields(fs) == Seq::<u8>::empty());
        assert(enc_field(f) + Seq::<u8>::empty() =~= Seq::<u8>::empty() + enc_field(f));
    } else {
        lemma_enc_fields_push(fs.skip(1), f);
        assert(fs.push(f).skip(1) =~= fs.skip(1).push(f));
        assert(fs.push(f)[0] == fs[0]);
        assert(enc_field(fs[0]) + (enc_fields(fs.skip(1)) + enc_field(f)) =~= (enc_field(fs[0])
            + enc_fields(fs.skip(1))) + enc_field(f));
    }
}

pub proof fn lemma_enc_fields_push_len(fs: Seq<Seq<u8>>, f: Seq<u8>)
    ensures
        enc_fields(fs.push(f)).len() == enc_fields(fs).len() + 4 + f.len(),
{
    lemma_enc_fields_push(fs, f);
}

pub proof fn lemma_enc_len3(a: Seq<u8>, b: Seq<u8>, c: Seq<u8>)
    ensures
        enc_fields(seq![a, b, c]).len() == 12 + a.len() + b.len() + c.len(),
{
    reveal_with_fuel(enc_fields, 4);
    assert(seq![a, b, c].skip(1) =~= seq![b, c]);
    assert(seq![b, c].skip(1) =~= seq![c]);
    assert(seq![c].skip(1) =~= Seq::<Seq<u8>>::empty());
}

pub proof fn lemma_enc_len4(a: Seq<u8>, b: Seq<u8>, c: Seq<u8>, d: Seq<u8>)
    ensures
        enc_fields(seq![a, b, c, d]).len() == 16 + a.len() + b.len() + c.len() + d.len(),
{
    reveal_with_fuel(enc_fields, 5);
    assert(seq![a, b, c, d].skip(1) =~= seq![b, c, d]);
    assert(seq![b, c, d].skip(1) =~= seq![c, d]);
    assert(seq![c, d].skip(1) =~= seq![d]);
    assert(seq![d].skip(1) =~= Seq::<Seq<u8>>::empty());
}

/// The framing of a list of bounded fields is itself bounded.
pub proof fn lemma_enc_fields_len_bound(fs: Seq<Seq<u8>>, m: int)
    requires
        m >= 0,
        forall|i: int| 0 <= i < fs.len() ==> (#[trigger] fs[i]).len() <= m,
    ensures
        enc_fields(fs).len() <= fs.len() * (4 + m),
    decreases fs.len(),
{
    if fs.len() == 0 {
    } else {
        assert(forall|i: int| 0 <= i < fs.skip(1).len() ==> (#[trigger] fs.skip(1)[i]).len()
            <= m);
        lemma_enc_fields_len_bound(fs.skip(1), m);
        assert((fs.len() - 1) * (4 + m) + (4 + m) == fs.len() * (4 + m)) by (nonlinear_arith);
    }
}

/// Encoding is a left inverse of decoding: a framed field list always decodes
/// back to exactly the fields it was framed from.
#[verifier::spinoff_prover]
#[verifier::rlimit(100)]
pub proof fn lemma_fields_round_trip(fs: Seq<Seq<u8>>)
    requires
        fields_fit(fs),
    ensures
        dec_fields(enc_fields(fs)) == Some(fs),
    decreases fs.len(),
{
    if fs.len() == 0 {
        assert(fs =~= Seq::<Seq<u8>>::empty());
    } else {
        let f = fs[0];
        let b = enc_fields(fs);
        lemma_u32_round_trip(f.len() as u32);
        lemma_fields_round_trip(fs.skip(1));
        assert(b == enc_u32(f.len() as u32) + f + enc_fields(fs.skip(1)));
        assert(b.len() >= 4 + f.len());
        assert(b.subrange(0, 4) =~= enc_u32(f.len() as u32));
        let n = dec_u32(b.subrange(0, 4)) as int;
        assert(n == f.len());
        assert(b.subrange(4, 4 + n) =~= f);
        assert(b.subrange(4 + n, b.len() as int) =~= enc_fields(fs.skip(1)));
        assert(seq![f] + fs.skip(1) =~= fs);
    }
}

/// Appends the little-endian bytes of a 32-bit length.
fn push_u32(out: &mut Vec<u8>, n: u32)
    ensures
        final(out)@ == old(out)@ + enc_u32(n),
{
    out.push((n & 0xff) as u8);
    out.push(((n >> 8) & 0xff) as u8);
    out.push(((n >> 16) & 0xff) as u8);
    out.push(((n >> 24) & 0xff) as u8);
    assert(out@ =~= old(out)@ + enc_u32(n));
}

/// Appends the little-endian bytes of a 64-bit amount.
pub fn push_u64(out: &mut Vec<u8>, n: u64)
    ensures
        final(out)@ == old(out)@ + enc_u64(n),
{
    out.push((n & 0xff) as u8);
    out.push(((n >> 8) & 0xff) as u8);
    out.push(((n >> 16) & 0xff) as u8);
    out.push(((n >> 24) & 0xff) as u8);
    out.push(((n >> 32) & 0xff) as u8);
    out.push(((n >> 40) & 0xff) as u8);
    out.push(((n >> 48) & 0xff) as u8);
    out.push(((n >> 56) & 0xff) as u8);
    assert(out@ =~= old(out)@ + enc_u64(n));
}

/// Appends a copy of the given bytes.
pub fn push_bytes(out: &mut Vec<u8>, f: &Vec<u8>)
    ensures
        final(out)@ == old(out)@ + f@,
{
    let mut j: usize = 0;
    while j < f.len()
        invariant
            j <= f.len(),
            out@ == old(out)@ + f@.take(j as int),
        decreases f.len() - j,
    {
        out.push(f[j]);
        assert(out@ =~= old(out)@ + f@.take(j as int + 1));
        j = j + 1;
    }
    assert(f@.take(f@.len() as int) =~= f@);
}

/// The value of an 8-byte little-endian field.
pub fn read_u64_field(f: &Vec<u8>) -> (r: u64)
    requires
        f@.len() == 8,
    ensures
        r == dec_u64(f@),
{
    (f[0] as u64) | ((f[1] as u64) << 8) | ((f[2] as u64) << 16) | ((f[3] as u64) << 24)
        | ((f[4] as u64) << 32) | ((f[5] as u64) << 40) | ((f[6] as u64) << 48)
        | ((f[7] as u64) << 56)
}

/// The little-endian bytes of a 64-bit amount, as one field.
pub fn u64_field(n: u64) -> (r: Vec<u8>)
    ensures
        r@ == enc_u64(n),
{
    let mut out: Vec<u8> = Vec::new();
    push_u64(&mut out, n);
    assert(out@ =~= enc_u64(n));
    out
}

/// Appends a field to a field list, keeping every field in bounds.
pub fn push_field(fields: &mut Vec<Vec<u8>>, f: Vec<u8>)
    requires
        field_fits(f@),
        fields_fit(seqs_of(old(fields)@)),
    ensures
        final(fields)@ == old(fields)@.push(f),
        seqs_of(final(fields)@) == seqs_of(old(fields)@).push(f@),
        fields_fit(seqs_of(final(fields)@)),
{
    fields.push(f);
    proof {
        assert(seqs_of(fields@) =~= seqs_of(old(fields)@).push(fields@.last()@));
    }
}

/// A standalone copy of a byte vector.
pub fn clone_bytes(a: &Vec<u8>) -> (r: Vec<u8>)
    ensures
        r@ == a@,
{
    let mut out: Vec<u8> = Vec::new();
    push_bytes(&mut out, a);
    assert(out@ =~= a@);
    out
}

/// Whether two byte vectors hold the same bytes.
pub fn bytes_eq(a: &Vec<u8>, b: &Vec<u8>) -> (r: bool)
    ensures
        r == (a@ == b@),
{
    if a.len() != b.len() {
        assert(a@ != b@);
        return false;
    }
    let mut j: usize = 0;
    while j < a.len()
        invariant
            j <= a.len(),
            a@.len() == b@.len(),
            forall|k: int| 0 <= k < j ==> a@[k] == b@[k],
        decreases a.len() - j,
    {
        if a[j] != b[j] {
            return false;
        }
        j = j + 1;
    }
    assert(a@ =~= b@);
    true
}

/// Frames a field list into one blob.
pub fn encode_fields(fs: &Vec<Vec<u8>>) -> (r: Vec<u8>)
    requires
        fields_fit(seqs_of(fs@)),
    ensures
        r@ == enc_fields(seqs_of(fs@)),
{
    let mut out: Vec<u8> = Vec::new();
    let mut i: usize = 0;
    while i < fs.len()
        invariant
            i <= fs.len(),
            fields_fit(seqs_of(fs@)),
            out@ == enc_fields(seqs_of(fs@).take(i as int)),
        decreases fs.len() - i,
    {
        let ghost pre = out@;
        let f = &fs[i];
        assert(f@ == seqs_of(fs@)[i as int]);
        assert(field_fits(f@));
        push_u32(&mut out, f.len() as u32);
        push_bytes(&mut out, f);
        proof {
            assert(out@ =~= pre + enc_field(f@));
            assert(seqs_of(fs@).take(i as int + 1) =~= seqs_of(fs@).take(i as int).push(f@));
            lemma_enc_fields_push(seqs_of(fs@).take(i as int), f@);
            assert(out@ =~= enc_fields(seqs_of(fs@).take(i as int + 1)));
        }
        i = i + 1;
    }
    assert(seqs_of(fs@).take(fs@.len() as int) =~= seqs_of(fs@));
    out
}

/// Reads the framed field list back out of a blob.  Succeeds exactly when the
/// mathematical decoder does, and returns exactly the fields it names.
pub fn decode_fields(b: &Vec<u8>) -> (r: Result<Vec<Vec<u8>>, SdkError>)
    ensures
        match r {
            Ok(fs) => dec_fields(b@) == Some(seqs_of(fs@)),
            Err(e) => dec_fields(b@) is None && e == SdkError::DecodeError,
        },
{
    let mut pos: usize = 0;
    let mut acc: Vec<Vec<u8>> = Vec::new();
    proof {
        assert(b@.skip(0) =~= b@);
        if let Some(rest) = dec_fields(b@) {
            assert(seqs_of(acc@) + rest =~= rest);
        }
    }
    while pos < b.len()
        invariant
            pos <= b.len(),
            match dec_fields(b@.skip(pos as int)) {
                Some(rest) => dec_fields(b@) == Some(seqs_of(acc@) + rest),
                None => dec_fields(b@) is None,
            },
        decreases b.len() - pos,
    {
        let ghost tail = b@.skip(pos as int);
        assert(tail.len() > 0);
        if b.len() - pos < 4 {
            assert(dec_fields(tail) is None);
            return Err(SdkError::DecodeError);
        }
        let n32: u32 = (b[pos] as u32) | ((b[pos + 1] as u32) << 8) | ((b[pos + 2] as u32) << 16)
            | ((b[pos + 3] as u32) << 24);
        proof {
            assert(tail.subrange(0, 4) =~= b@.subrange(pos as int, pos as int + 4));
            assert(dec_u32(tail.subrange(0, 4)) == n32);
        }
        let n: usize = n32 as usize;
        if b.len() - pos - 4 < n {
            assert(dec_fields(tail) is None);
            return Err(SdkError::DecodeError);
        }
        let mut f: Vec<u8> = Vec::new();
        let mut j: usize = 0;
        while j < n
            invariant
                j <= n,
                pos + 4 + n <= b.len(),
                f@ == b@.subrange(pos as int + 4, pos as int + 4 + j as int),
            decreases n - j,
        {
            f.push(b[pos + 4 + j]);
            assert(f@ =~= b@.subrange(pos as int + 4, pos as int + 4 + j as int + 1));
            j = j + 1;
        }
        let ghost old_acc = acc@;
        acc.push(f);
        let new_pos = pos + 4 + n;
        proof {
            assert(tail.subrange(4, 4 + n as int) =~= b@.subrange(
                pos as int + 4,
                pos as int + 4 + n as int,
            ));
            assert(tail.subrange(4 + n as int, tail.len() as int) =~= b@.skip(new_pos as int));
            assert(dec_fields(tail) == (match dec_fields(b@.skip(new_pos as int)) {
                Some(rest) => Some(seq![f@] + rest),
                None => None::<Seq<Seq<u8>>>,
            }));
            assert(seqs_of(acc@) =~= seqs_of(old_acc).push(f@));
            if let Some(rest) = dec_fields(b@.skip(new_pos as int)) {
                assert(seqs_of(old_acc) + (seq![f@] + rest) =~= seqs_of(acc@) + rest);
            }
        }
        pos = new_pos;
    }
    proof {
        assert(b@.skip(pos as int) =~= Seq::<u8>::empty());
        assert(dec_fields(b@.skip(pos as int)) == Some(Seq::<Seq<u8>>::empty()));
        assert(seqs_of(acc@) + Seq::<Seq<u8>>::empty() =~= seqs_of(acc@));
    }
    Ok(acc)
}

/// An optional byte string framed into a single field: a zero tag for absent,
/// a one tag followed by the bytes for present.
pub open spec fn enc_opt(o: Option<Seq<u8>>) -> Seq<u8> {
    match o {
        None => seq![0u8],
        Some(s) => seq![1u8] + s,
    }
}

/// The optional byte string a tagged field denotes, if well formed.
pub open spec fn dec_opt(f: Seq<u8>) -> Option<Option<Seq<u8>>> {
    if f.len() < 1 {
        None
    } else if f[0] == 0 {
        if f.len() == 1 {
            Some(None)
        } else {
            None
        }
    } else if f[0] == 1 {
        Some(Some(f.skip(1)))
    } else {
        None
    }
}

pub proof fn lemma_opt_round_trip(o: Option<Seq<u8>>)
    ensures
        dec_opt(enc_opt(o)) == Some(o),
{
    match o {
        None => {},
        Some(s) => {
            assert(enc_opt(o).skip(1) =~= s);
        },
    }
}

/// The view of an optional byte vector.
pub open spec fn opt_seq_of(o: Option<Vec<u8>>) -> Option<Seq<u8>> {
    match o {
        None => None,
        Some(v) => Some(v@),
    }
}

/// Frames an optional byte string into its tagged field.
pub fn encode_opt(o: &Option<Vec<u8>>) -> (r: Vec<u8>)
    ensures
        r@ == enc_opt(opt_seq_of(*o)),
{
    let mut out: Vec<u8> = Vec::new();
    match o {
        None => {
            out.push(0u8);
            assert(out@ =~= enc_opt(opt_seq_of(*o)));
        },
        Some(v) => {
            out.push(1u8);
            push_bytes(&mut out, v);
            assert(out@ =~= enc_opt(opt_seq_of(*o)));
        },
    }
    out
}

/// Reads an optional byte string back out of its tagged field.
pub fn decode_opt(f: &Vec<u8>) -> (r: Result<Option<Vec<u8>>, SdkError>)
    ensures
        match r {
            Ok(o) => dec_opt(f@) == Some(opt_seq_of(o)),
            Err(e) => dec_opt(f@) is None && e == SdkError::DecodeError,
        },
{
    if f.len() < 1 {
        return Err(SdkError::DecodeError);
    }
    if f[0] == 0 {
        if f.len() == 1 {
            Ok(None)
        } else {
            Err(SdkError::DecodeError)
        }
    } else if f[0] == 1 {
        let mut out: Vec<u8> = Vec::new();
        let mut j: usize = 1;
        while j < f.len()
            invariant
                1 <= j <= f.len(),
                out@ == f@.subrange(1, j as int),
            decreases f.len() - j,
        {
            out.push(f[j]);
            assert(out@ =~= f@.subrange(1, j as int + 1));
            j = j + 1;
        }
        assert(out@ =~= f@.skip(1));
        Ok(Some(out))
    } else {
        Err(SdkError::DecodeError)
    }
}

/// A copy of an optional byte vector.
pub fn clone_opt_bytes(o: &Option<Vec<u8>>) -> (r: Option<Vec<u8>>)
    ensures
        opt_seq_of(r) == opt_seq_of(*o),
{
    match o {
        None => None,
        Some(v) => Some(clone_bytes(v)),
    }
}

} // verus!
