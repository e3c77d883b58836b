//! In-memory keyring.
//!
//! The wallet maps aliases and public keys to secret keys, optionally guarded
//! by a password, and holds shielded spending keys beside them.  It
//! serializes to an opaque byte snapshot and back; the snapshot format is the
//! framed-field codec of [`crate::codec`], and decoding a snapshot is proved
//! to reproduce exactly the wallet that was encoded.
//!
//! Key material is opaque to the wallet: it never runs the signature scheme.
//! All it needs from the scheme is a deterministic, injective map from secret
//! to public key material, modeled here by tagging the secret bytes
//! ([`spec_public_key_of`]); the scheme itself lives with the external key
//! holder.

use vstd::prelude::*;
use crate::codec::{
    enc_opt, dec_opt, enc_fields, dec_fields, fields_fit, field_fits,
    seqs_of, opt_seq_of, encode_fields, decode_fields, encode_opt, decode_opt, clone_bytes,
    bytes_eq, push_bytes, lemma_fields_round_trip, lemma_opt_round_trip,
    lemma_enc_len3, lemma_enc_len4,
};
use crate::error::SdkError;

verus! {

/// Tag byte that turns secret key bytes into the matching public key bytes.
pub const PUBLIC_KEY_TAG: u8 = 0x50;

/// The public key material derived from a secret key: the key bytes behind a
/// public tag.  Deterministic and injective, which is all the keyring relies
/// on.
pub open spec fn spec_public_key_of(sk: Seq<u8>) -> Seq<u8> {
    seq![PUBLIC_KEY_TAG] + sk
}

/// Well-formed public key material: nonempty and carrying the public tag.
pub open spec fn spec_pk_wf(pk: Seq<u8>) -> bool {
    pk.len() >= 1 && pk[0] == PUBLIC_KEY_TAG
}

/// Derives the public key for a secret key.
pub fn public_key_of(sk: &Vec<u8>) -> (r: Vec<u8>)
    ensures
        r@ == spec_public_key_of(sk@),
        spec_pk_wf(r@),
{
    let mut out: Vec<u8> = Vec::new();
    out.push(PUBLIC_KEY_TAG);
    push_bytes(&mut out, sk);
    assert(out@ =~= spec_public_key_of(sk@));
    out
}

/// Checks that a textual/opaque public key is well formed before use.
pub fn validate_pk(pk: &Vec<u8>) -> (r: bool)
    ensures
        r == spec_pk_wf(pk@),
{
    pk.len() >= 1 && pk[0] == PUBLIC_KEY_TAG
}

/// Two distinct secret keys never share a public key.
pub proof fn lemma_public_key_injective(a: Seq<u8>, b: Seq<u8>)
    requires
        spec_public_key_of(a) == spec_public_key_of(b),
    ensures
        a == b,
{
    assert(spec_public_key_of(a).skip(1) =~= a);
    assert(spec_public_key_of(b).skip(1) =~= b);
}

/// Size bound on every byte string the wallet stores, far under what the
/// 4-byte length prefix of the snapshot format can carry.
pub open spec fn small(s: Seq<u8>) -> bool {
    s.len() < 0x0100_0000
}

pub open spec fn opt_small(o: Option<Seq<u8>>) -> bool {
    match o {
        None => true,
        Some(s) => small(s),
    }
}

/// A transparent key: alias, public key, secret key, optional password.
#[verifier::ext_equal]
pub ghost struct KeyEntryModel {
    pub alias: Seq<u8>,
    pub public_key: Seq<u8>,
    pub secret_key: Seq<u8>,
    pub password: Option<Seq<u8>>,
}

/// A shielded spending key: alias, key bytes, optional password.
#[verifier::ext_equal]
pub ghost struct SpendingEntryModel {
    pub alias: Seq<u8>,
    pub key: Seq<u8>,
    pub password: Option<Seq<u8>>,
}

/// The mathematical content of a wallet.
#[verifier::ext_equal]
pub ghost struct WalletModel {
    pub keys: Seq<KeyEntryModel>,
    pub spending_keys: Seq<SpendingEntryModel>,
}

pub open spec fn key_entry_wf(e: KeyEntryModel) -> bool {
    small(e.alias) && small(e.public_key) && small(e.secret_key) && opt_small(e.password)
}

pub open spec fn spending_entry_wf(e: SpendingEntryModel) -> bool {
    small(e.alias) && small(e.key) && opt_small(e.password)
}

/// Every entry bounded, and entry counts bounded: what the snapshot format
/// can always carry.
pub open spec fn wallet_wf(w: WalletModel) -> bool {
    &&& forall|i: int| 0 <= i < w.keys.len() ==> key_entry_wf(#[trigger] w.keys[i])
    &&& forall|i: int|
        0 <= i < w.spending_keys.len() ==> spending_entry_wf(#[trigger] w.spending_keys[i])
    &&& w.keys.len() < 0x0100_0000
    &&& w.spending_keys.len() < 0x0100_0000
}

pub struct KeyEntry {
    pub alias: Vec<u8>,
    pub public_key: Vec<u8>,
    pub secret_key: Vec<u8>,
    pub password: Option<Vec<u8>>,
}

impl View for KeyEntry {
    type V = KeyEntryModel;

    open spec fn view(&self) -> KeyEntryModel {
        KeyEntryModel {
            alias: self.alias@,
            public_key: self.public_key@,
            secret_key: self.secret_key@,
            password: opt_seq_of(self.password),
        }
    }
}

pub struct SpendingEntry {
    pub alias: Vec<u8>,
    pub key: Vec<u8>,
    pub password: Option<Vec<u8>>,
}

impl View for SpendingEntry {
    type V = SpendingEntryModel;

    open spec fn view(&self) -> SpendingEntryModel {
        SpendingEntryModel {
            alias: self.alias@,
            key: self.key@,
            password: opt_seq_of(self.password),
        }
    }
}

pub open spec fn key_views(ks: Seq<KeyEntry>) -> Seq<KeyEntryModel> {
    ks.map_values(|k: KeyEntry| k@)
}

pub open spec fn spending_views(ss: Seq<SpendingEntry>) -> Seq<SpendingEntryModel> {
    ss.map_values(|s: SpendingEntry| s@)
}

/// The in-memory keyring.
pub struct Wallet {
    keys: Vec<KeyEntry>,
    spending_keys: Vec<SpendingEntry>,
}

impl View for Wallet {
    type V = WalletModel;

    closed spec fn view(&self) -> WalletModel {
        WalletModel { keys: key_views(self.keys@), spending_keys: spending_views(self.spending_keys@) }
    }
}

/// Which secret key a lookup by public key and password yields: the first
/// entry holding the public key, and only when the supplied password matches
/// that entry's password exactly.
pub open spec fn spec_find_key(
    keys: Seq<KeyEntryModel>,
    pk: Seq<u8>,
    password: Option<Seq<u8>>,
) -> Option<Seq<u8>>
    decreases keys.len(),
{
    if keys.len() <= 0 {
        None
    } else if keys[0].public_key == pk {
        if keys[0].password == password {
            Some(keys[0].secret_key)
        } else {
            None
        }
    } else {
        spec_find_key(keys.skip(1), pk, password)
    }
}

/// Whether two optional byte strings are equal.
pub fn opt_bytes_eq(a: &Option<Vec<u8>>, b: &Option<Vec<u8>>) -> (r: bool)
    ensures
        r == (opt_seq_of(*a) == opt_seq_of(*b)),
{
    match (a, b) {
        (None, None) => true,
        (Some(x), Some(y)) => bytes_eq(x, y),
        _ => false,
    }
}

impl Wallet {
    /// A fresh, empty keyring.
    pub fn new() -> (r: Wallet)
        ensures
            r@.keys.len() == 0,
            r@.spending_keys.len() == 0,
            wallet_wf(r@),
    {
        Wallet { keys: Vec::new(), spending_keys: Vec::new() }
    }

    /// Forgets every key.
    pub fn clear(&mut self)
        ensures
            final(self)@.keys.len() == 0,
            final(self)@.spending_keys.len() == 0,
            wallet_wf(final(self)@),
    {
        self.keys = Vec::new();
        self.spending_keys = Vec::new();
    }

    /// Stores a transparent secret key under the derived public key.  When no
    /// alias is given, the derived public key doubles as the alias.
    pub fn add_key(&mut self, secret_key: &Vec<u8>, password: Option<Vec<u8>>, alias: Option<Vec<u8>>)
        requires
            small(secret_key@),
            opt_small(opt_seq_of(password)),
            opt_small(opt_seq_of(alias)),
            secret_key@.len() + 1 < 0x0100_0000,
            old(self)@.keys.len() + 1 < 0x0100_0000,
            wallet_wf(old(self)@),
        ensures
            final(self)@.keys == old(self)@.keys.push(
                KeyEntryModel {
                    alias: match opt_seq_of(alias) {
                        Some(a) => a,
                        None => spec_public_key_of(secret_key@),
                    },
                    public_key: spec_public_key_of(secret_key@),
                    secret_key: secret_key@,
                    password: opt_seq_of(password),
                },
            ),
            final(self)@.spending_keys == old(self)@.spending_keys,
            wallet_wf(final(self)@),
    {
        let pk = public_key_of(secret_key);
        let alias_bytes: Vec<u8> = match alias {
            Some(a) => a,
            None => clone_bytes(&pk),
        };
        let entry = KeyEntry {
            alias: alias_bytes,
            public_key: pk,
            secret_key: clone_bytes(secret_key),
            password,
        };
        self.keys.push(entry);
        proof {
            assert(key_views(self.keys@) =~= key_views(old(self).keys@).push(
                KeyEntryModel {
                    alias: match opt_seq_of(alias) {
                        Some(a) => a,
                        None => spec_public_key_of(secret_key@),
                    },
                    public_key: spec_public_key_of(secret_key@),
                    secret_key: secret_key@,
                    password: opt_seq_of(password),
                },
            ));
        }
    }

    /// Stores a shielded spending key under an alias.
    pub fn add_spending_key(&mut self, key: &Vec<u8>, password: Option<Vec<u8>>, alias: &Vec<u8>)
        requires
            small(key@),
            small(alias@),
            opt_small(opt_seq_of(password)),
            old(self)@.spending_keys.len() + 1 < 0x0100_0000,
            wallet_wf(old(self)@),
        ensures
            final(self)@.spending_keys == old(self)@.spending_keys.push(
                SpendingEntryModel { alias: alias@, key: key@, password: opt_seq_of(password) },
            ),
            final(self)@.keys == old(self)@.keys,
            wallet_wf(final(self)@),
    {
        let entry = SpendingEntry {
            alias: clone_bytes(alias),
            key: clone_bytes(key),
            password,
        };
        self.spending_keys.push(entry);
        proof {
            assert(spending_views(self.spending_keys@) =~= spending_views(
                old(self).spending_keys@,
            ).push(SpendingEntryModel { alias: alias@, key: key@, password: opt_seq_of(password) }));
        }
    }

    /// Looks up the secret key stored under a public key.  A wrong or absent
    /// password is reported as the same `KeyNotFound` as a missing key, so the
    /// lookup leaks nothing about which of the two failed.
    pub fn find_key_by_public_key(&self, pk: &Vec<u8>, password: &Option<Vec<u8>>) -> (r: Result<
        Vec<u8>,
        SdkError,
    >)
        ensures
            match r {
                Ok(sk) => spec_find_key(self@.keys, pk@, opt_seq_of(*password)) == Some(sk@),
                Err(e) => spec_find_key(self@.keys, pk@, opt_seq_of(*password)) is None && e
                    == SdkError::KeyNotFound,
            },
    {
        let ghost all = self@.keys;
        let mut i: usize = 0;
        proof {
            assert(all.skip(0) =~= all);
        }
        while i < self.keys.len()
            invariant
                i <= self.keys.len(),
                all == key_views(self.keys@),
                spec_find_key(all, pk@, opt_seq_of(*password)) == spec_find_key(
                    all.skip(i as int),
                    pk@,
                    opt_seq_of(*password),
                ),
            decreases self.keys.len() - i,
        {
            let entry = &self.keys[i];
            assert(all.skip(i as int)[0] == entry@);
            if bytes_eq(&entry.public_key, pk) {
                if opt_bytes_eq(&entry.password, password) {
                    return Ok(clone_bytes(&entry.secret_key));
                } else {
                    return Err(SdkError::KeyNotFound);
                }
            }
            proof {
                assert(all.skip(i as int).skip(1) =~= all.skip(i as int + 1));
            }
            i = i + 1;
        }
        assert(all.skip(i as int) =~= Seq::<KeyEntryModel>::empty());
        Err(SdkError::KeyNotFound)
    }

    /// How many transparent keys are stored.
    pub fn key_count(&self) -> (r: usize)
        ensures
            r == self@.keys.len(),
    {
        self.keys.len()
    }

    /// How many spending keys are stored.
    pub fn spending_key_count(&self) -> (r: usize)
        ensures
            r == self@.spending_keys.len(),
    {
        self.spending_keys.len()
    }

    /// The alias of the transparent key at a position.
    pub fn key_alias(&self, i: usize) -> (r: Vec<u8>)
        requires
            i < self@.keys.len(),
        ensures
            r@ == self@.keys[i as int].alias,
    {
        clone_bytes(&self.keys[i].alias)
    }

    /// The alias of the spending key at a position.
    pub fn spending_key_alias(&self, i: usize) -> (r: Vec<u8>)
        requires
            i < self@.spending_keys.len(),
        ensures
            r@ == self@.spending_keys[i as int].alias,
    {
        clone_bytes(&self.spending_keys[i].alias)
    }
}

// ---- snapshot format ----
//
// A wallet snapshot is a framed field list; each field is one entry, written
// as a tag byte (0 for a transparent key, 1 for a spending key) followed by a
// nested framed list of the entry's parts.

pub open spec fn key_parts(e: KeyEntryModel) -> Seq<Seq<u8>> {
    seq![e.alias, e.public_key, e.secret_key, enc_opt(e.password)]
}

pub open spec fn key_entry_field(e: KeyEntryModel) -> Seq<u8> {
    seq![0u8] + enc_fields(key_parts(e))
}

pub open spec fn spend_parts(e: SpendingEntryModel) -> Seq<Seq<u8>> {
    seq![e.alias, e.key, enc_opt(e.password)]
}

pub open spec fn spend_entry_field(e: SpendingEntryModel) -> Seq<u8> {
    seq![1u8] + enc_fields(spend_parts(e))
}

pub open spec fn key_fields_of(ks: Seq<KeyEntryModel>) -> Seq<Seq<u8>> {
    ks.map_values(|e: KeyEntryModel| key_entry_field(e))
}

pub open spec fn spend_fields_of(ss: Seq<SpendingEntryModel>) -> Seq<Seq<u8>> {
    ss.map_values(|e: SpendingEntryModel| spend_entry_field(e))
}

pub open spec fn wallet_fields(w: WalletModel) -> Seq<Seq<u8>> {
    key_fields_of(w.keys) + spend_fields_of(w.spending_keys)
}

/// The snapshot bytes of a wallet.
pub open spec fn spec_encode_wallet(w: WalletModel) -> Seq<u8> {
    enc_fields(wallet_fields(w))
}

/// The transparent key an entry body denotes, if well formed and bounded.
pub open spec fn parse_key_entry(body: Seq<u8>) -> Option<KeyEntryModel> {
    match dec_fields(body) {
        None => None,
        Some(ps) => if ps.len() == 4 && small(ps[0]) && small(ps[1]) && small(ps[2]) {
            match dec_opt(ps[3]) {
                None => None,
                Some(pw) => if opt_small(pw) {
                    Some(
                        KeyEntryModel {
                            alias: ps[0],
                            public_key: ps[1],
                            secret_key: ps[2],
                            password: pw,
                        },
                    )
                } else {
                    None
                },
            }
        } else {
            None
        },
    }
}

/// The spending key an entry body denotes, if well formed and bounded.
pub open spec fn parse_spend_entry(body: Seq<u8>) -> Option<SpendingEntryModel> {
    match dec_fields(body) {
        None => None,
        Some(ps) => if ps.len() == 3 && small(ps[0]) && small(ps[1]) {
            match dec_opt(ps[2]) {
                None => None,
                Some(pw) => if opt_small(pw) {
                    Some(SpendingEntryModel { alias: ps[0], key: ps[1], password: pw })
                } else {
                    None
                },
            }
        } else {
            None
        },
    }
}

/// The two entry lists a field list denotes, if every field is a well-formed
/// entry.
pub open spec fn parse_entries(fs: Seq<Seq<u8>>) -> Option<
    (Seq<KeyEntryModel>, Seq<SpendingEntryModel>),
>
    decreases fs.len(),
{
    if fs.len() <= 0 {
        Some((Seq::empty(), Seq::empty()))
    } else {
        match parse_entries(fs.skip(1)) {
            None => None,
            Some(rest) => {
                let f = fs[0];
                if f.len() >= 1 && f[0] == 0 {
                    match parse_key_entry(f.skip(1)) {
                        Some(k) => Some((seq![k] + rest.0, rest.1)),
                        None => None,
                    }
                } else if f.len() >= 1 && f[0] == 1 {
                    match parse_spend_entry(f.skip(1)) {
                        Some(s) => Some((rest.0, seq![s] + rest.1)),
                        None => None,
                    }
                } else {
                    None
                }
            },
        }
    }
}

/// The wallet a snapshot denotes, if any.
pub open spec fn spec_decode_wallet(b: Seq<u8>) -> Option<WalletModel> {
    match dec_fields(b) {
        None => None,
        Some(fs) => match parse_entries(fs) {
            None => None,
            Some(r) => if r.0.len() < 0x0100_0000 && r.1.len() < 0x0100_0000 {
                Some(WalletModel { keys: r.0, spending_keys: r.1 })
            } else {
                None
            },
        },
    }
}

proof fn lemma_key_parts_fit(e: KeyEntryModel)
    requires
        key_entry_wf(e),
    ensures
        fields_fit(key_parts(e)),
        field_fits(key_entry_field(e)),
{
    assert(enc_opt(e.password).len() <= 0x0100_0000);
    assert forall|i: int| 0 <= i < key_parts(e).len() implies field_fits(
        #[trigger] key_parts(e)[i],
    ) by {
        assert(key_parts(e)[0] == e.alias);
        assert(key_parts(e)[1] == e.public_key);
        assert(key_parts(e)[2] == e.secret_key);
        assert(key_parts(e)[3] == enc_opt(e.password));
    }
    lemma_enc_len4(e.alias, e.public_key, e.secret_key, enc_opt(e.password));
}

proof fn lemma_spend_parts_fit(e: SpendingEntryModel)
    requires
        spending_entry_wf(e),
    ensures
        fields_fit(spend_parts(e)),
        field_fits(spend_entry_field(e)),
{
    assert(enc_opt(e.password).len() <= 0x0100_0000);
    assert forall|i: int| 0 <= i < spend_parts(e).len() implies field_fits(
        #[trigger] spend_parts(e)[i],
    ) by {
        assert(spend_parts(e)[0] == e.alias);
        assert(spend_parts(e)[1] == e.key);
        assert(spend_parts(e)[2] == enc_opt(e.password));
    }
    lemma_enc_len3(e.alias, e.key, enc_opt(e.password));
}

proof fn lemma_wallet_fields_fit(w: WalletModel)
    requires
        wallet_wf(w),
    ensures
        fields_fit(wallet_fields(w)),
{
    assert forall|i: int| 0 <= i < wallet_fields(w).len() implies field_fits(
        #[trigger] wallet_fields(w)[i],
    ) by {
        if i < w.keys.len() {
            assert(wallet_fields(w)[i] == key_entry_field(w.keys[i]));
            lemma_key_parts_fit(w.keys[i]);
        } else {
            let j = i - w.keys.len();
            assert(wallet_fields(w)[i] == spend_entry_field(w.spending_keys[j]));
            lemma_spend_parts_fit(w.spending_keys[j]);
        }
    }
}

#[verifier::spinoff_prover]
#[verifier::rlimit(100)]
proof fn lemma_key_entry_round_trip(e: KeyEntryModel)
    requires
        key_entry_wf(e),
    ensures
        key_entry_field(e).len() >= 1,
        key_entry_field(e)[0] == 0u8,
        parse_key_entry(key_entry_field(e).skip(1)) == Some(e),
{
    lemma_key_parts_fit(e);
    lemma_fields_round_trip(key_parts(e));
    assert(key_entry_field(e).skip(1) =~= enc_fields(key_parts(e)));
    lemma_opt_round_trip(e.password);
    assert(key_parts(e)[0] == e.alias);
    assert(key_parts(e)[1] == e.public_key);
    assert(key_parts(e)[2] == e.secret_key);
    assert(key_parts(e)[3] == enc_opt(e.password));
}

#[verifier::spinoff_prover]
#[verifier::rlimit(100)]
proof fn lemma_spend_entry_round_trip(e: SpendingEntryModel)
    requires
        spending_entry_wf(e),
    ensures
        spend_entry_field(e).len() >= 1,
        spend_entry_field(e)[0] == 1u8,
        parse_spend_entry(spend_entry_field(e).skip(1)) == Some(e),
{
    lemma_spend_parts_fit(e);
    lemma_fields_round_trip(spend_parts(e));
    assert(spend_entry_field(e).skip(1) =~= enc_fields(spend_parts(e)));
    lemma_opt_round_trip(e.password);
    assert(spend_parts(e)[0] == e.alias);
    assert(spend_parts(e)[1] == e.key);
    assert(spend_parts(e)[2] == enc_opt(e.password));
}

#[verifier::spinoff_prover]
#[verifier::rlimit(100)]
proof fn lemma_entries_round_trip(ks: Seq<KeyEntryModel>, ss: Seq<SpendingEntryModel>)
    requires
        forall|i: int| 0 <= i < ks.len() ==> key_entry_wf(#[trigger] ks[i]),
        forall|i: int| 0 <= i < ss.len() ==> spending_entry_wf(#[trigger] ss[i]),
    ensures
        parse_entries(key_fields_of(ks) + spend_fields_of(ss)) == Some((ks, ss)),
    decreases ks.len(), ss.len(),
{
    let fs = key_fields_of(ks) + spend_fields_of(ss);
    if ks.len() > 0 {
        lemma_entries_round_trip(ks.skip(1), ss);
        assert(fs.skip(1) =~= key_fields_of(ks.skip(1)) + spend_fields_of(ss));
        assert(fs[0] == key_entry_field(ks[0]));
        lemma_key_entry_round_trip(ks[0]);
        assert(parse_entries(fs.skip(1)) == Some((ks.skip(1), ss)));
        assert(parse_entries(fs) == Some((seq![ks[0]] + ks.skip(1), ss)));
        assert(seq![ks[0]] + ks.skip(1) =~= ks);
    } else if ss.len() > 0 {
        lemma_entries_round_trip(ks, ss.skip(1));
        assert(fs =~= spend_fields_of(ss));
        assert(fs.skip(1) =~= key_fields_of(ks) + spend_fields_of(ss.skip(1)));
        assert(fs[0] == spend_entry_field(ss[0]));
        lemma_spend_entry_round_trip(ss[0]);
        assert(parse_entries(fs.skip(1)) == Some((ks, ss.skip(1))));
        assert(parse_entries(fs) == Some((ks, seq![ss[0]] + ss.skip(1))));
        assert(ks =~= Seq::<KeyEntryModel>::empty());
        assert(seq![ss[0]] + ss.skip(1) =~= ss);
    } else {
        assert(fs =~= Seq::<Seq<u8>>::empty());
        assert(ks =~= Seq::<KeyEntryModel>::empty());
        assert(ss =~= Seq::<SpendingEntryModel>::empty());
    }
}

/// Round-trip law: decoding the snapshot of any well-formed wallet
/// reproduces that wallet exactly — every key, alias, password, and spending
/// key.
pub proof fn lemma_wallet_round_trip(w: WalletModel)
    requires
        wallet_wf(w),
    ensures
        spec_decode_wallet(spec_encode_wallet(w)) == Some(w),
{
    lemma_wallet_fields_fit(w);
    lemma_fields_round_trip(wallet_fields(w));
    lemma_entries_round_trip(w.keys, w.spending_keys);
    assert(WalletModel { keys: w.keys, spending_keys: w.spending_keys } =~= w);
}

fn encode_key_entry(e: &KeyEntry) -> (r: Vec<u8>)
    requires
        key_entry_wf(e@),
    ensures
        r@ == key_entry_field(e@),
{
    let mut parts: Vec<Vec<u8>> = Vec::new();
    parts.push(clone_bytes(&e.alias));
    parts.push(clone_bytes(&e.public_key));
    parts.push(clone_bytes(&e.secret_key));
    parts.push(encode_opt(&e.password));
    proof {
        assert(seqs_of(parts@) =~= key_parts(e@));
        lemma_key_parts_fit(e@);
    }
    let body = encode_fields(&parts);
    let mut out: Vec<u8> = Vec::new();
    out.push(0u8);
    push_bytes(&mut out, &body);
    assert(out@ =~= key_entry_field(e@));
    out
}

fn encode_spend_entry(e: &SpendingEntry) -> (r: Vec<u8>)
    requires
        spending_entry_wf(e@),
    ensures
        r@ == spend_entry_field(e@),
{
    let mut parts: Vec<Vec<u8>> = Vec::new();
    parts.push(clone_bytes(&e.alias));
    parts.push(clone_bytes(&e.key));
    parts.push(encode_opt(&e.password));
    proof {
        assert(seqs_of(parts@) =~= spend_parts(e@));
        lemma_spend_parts_fit(e@);
    }
    let body = encode_fields(&parts);
    let mut out: Vec<u8> = Vec::new();
    out.push(1u8);
    push_bytes(&mut out, &body);
    assert(out@ =~= spend_entry_field(e@));
    out
}

impl Wallet {
    /// Serializes the keyring to its opaque snapshot.
    pub fn encode(&self) -> (r: Vec<u8>)
        requires
            wallet_wf(self@),
        ensures
            r@ == spec_encode_wallet(self@),
    {
        let mut fields: Vec<Vec<u8>> = Vec::new();
        let mut i: usize = 0;
        while i < self.keys.len()
            invariant
                i <= self.keys.len(),
                wallet_wf(self@),
                self@.keys == key_views(self.keys@),
                self@.spending_keys == spending_views(self.spending_keys@),
                seqs_of(fields@) == key_fields_of(self@.keys.take(i as int)),
            decreases self.keys.len() - i,
        {
            let e = &self.keys[i];
            assert(e@ == self@.keys[i as int]);
            assert(key_entry_wf(e@));
            let ef = encode_key_entry(e);
            let ghost old_fields = fields@;
            fields.push(ef);
            proof {
                assert(self@.keys.take(i as int + 1) =~= self@.keys.take(i as int).push(
                    self@.keys[i as int],
                ));
                assert(seqs_of(fields@) =~= seqs_of(old_fields).push(ef@));
                assert(key_fields_of(self@.keys.take(i as int).push(self@.keys[i as int]))
                    =~= key_fields_of(self@.keys.take(i as int)).push(
                    key_entry_field(self@.keys[i as int]),
                ));
                assert(seqs_of(fields@) =~= key_fields_of(self@.keys.take(i as int + 1)));
            }
            i = i + 1;
        }
        proof {
            assert(self@.keys.take(self@.keys.len() as int) =~= self@.keys);
            assert(seqs_of(fields@) =~= key_fields_of(self@.keys) + spend_fields_of(
                self@.spending_keys.take(0),
            ));
        }
        let mut j: usize = 0;
        while j < self.spending_keys.len()
            invariant
                j <= self.spending_keys.len(),
                wallet_wf(self@),
                self@.keys == key_views(self.keys@),
                self@.spending_keys == spending_views(self.spending_keys@),
                seqs_of(fields@) == key_fields_of(self@.keys) + spend_fields_of(
                    self@.spending_keys.take(j as int),
                ),
            decreases self.spending_keys.len() - j,
        {
            let e = &self.spending_keys[j];
            assert(e@ == self@.spending_keys[j as int]);
            assert(spending_entry_wf(e@));
            let ef = encode_spend_entry(e);
            let ghost old_fields = fields@;
            fields.push(ef);
            proof {
                assert(self@.spending_keys.take(j as int + 1) =~= self@.spending_keys.take(
                    j as int,
                ).push(self@.spending_keys[j as int]));
                assert(seqs_of(fields@) =~= seqs_of(old_fields).push(ef@));
                assert(spend_fields_of(
                    self@.spending_keys.take(j as int).push(self@.spending_keys[j as int]),
                ) =~= spend_fields_of(self@.spending_keys.take(j as int)).push(
                    spend_entry_field(self@.spending_keys[j as int]),
                ));
                assert(seqs_of(fields@) =~= key_fields_of(self@.keys) + spend_fields_of(
                    self@.spending_keys.take(j as int + 1),
                ));
            }
            j = j + 1;
        }
        proof {
            assert(self@.spending_keys.take(self@.spending_keys.len() as int)
                =~= self@.spending_keys);
            assert(seqs_of(fields@) =~= wallet_fields(self@));
            lemma_wallet_fields_fit(self@);
        }
        encode_fields(&fields)
    }

    /// Deserializes a snapshot into a fresh wallet.  Succeeds exactly on the
    /// blobs the snapshot grammar admits, and then returns exactly the wallet
    /// the snapshot denotes.
    pub fn decode(data: &Vec<u8>) -> (r: Result<Wallet, SdkError>)
        ensures
            match r {
                Ok(w) => spec_decode_wallet(data@) == Some(w@) && wallet_wf(w@),
                Err(e) => spec_decode_wallet(data@) is None && e == SdkError::DecodeError,
            },
    {
        let fields = match decode_fields(data) {
            Ok(f) => f,
            Err(e) => {
                return Err(SdkError::DecodeError);
            },
        };
        let ghost efs = seqs_of(fields@);
        let mut ks: Vec<KeyEntry> = Vec::new();
        let mut ss: Vec<SpendingEntry> = Vec::new();
        let mut i: usize = 0;
        proof {
            assert(efs.skip(0) =~= efs);
            if let Some(rest) = parse_entries(efs) {
                assert(key_views(ks@) + rest.0 =~= rest.0);
                assert(spending_views(ss@) + rest.1 =~= rest.1);
            }
        }
        while i < fields.len()
            invariant
                i <= fields.len(),
                efs == seqs_of(fields@),
                dec_fields(data@) == Some(efs),
                match parse_entries(efs.skip(i as int)) {
                    Some(rest) => parse_entries(efs) == Some(
                        (key_views(ks@) + rest.0, spending_views(ss@) + rest.1),
                    ),
                    None => parse_entries(efs) is None,
                },
                forall|k: int| 0 <= k < ks@.len() ==> key_entry_wf(#[trigger] key_views(ks@)[k]),
                forall|k: int|
                    0 <= k < ss@.len() ==> spending_entry_wf(#[trigger] spending_views(ss@)[k]),
            decreases fields.len() - i,
        {
            let ghost tail = efs.skip(i as int);
            let f = &fields[i];
            proof {
                assert(tail[0] == f@);
                assert(tail.skip(1) =~= efs.skip(i as int + 1));
            }
            if f.len() < 1 {
                assert(parse_entries(tail) is None);
                return Err(SdkError::DecodeError);
            }
            let tag = f[0];
            if tag != 0 && tag != 1 {
                assert(parse_entries(tail) is None);
                return Err(SdkError::DecodeError);
            }
            let mut body: Vec<u8> = Vec::new();
            let mut p: usize = 1;
            while p < f.len()
                invariant
                    1 <= p <= f.len(),
                    body@ == f@.subrange(1, p as int),
                decreases f.len() - p,
            {
                body.push(f[p]);
                assert(body@ =~= f@.subrange(1, p as int + 1));
                p = p + 1;
            }
            assert(body@ =~= f@.skip(1));
            if tag == 0 {
                let parts = match decode_fields(&body) {
                    Ok(ps) => ps,
                    Err(e) => {
                        assert(parse_key_entry(f@.skip(1)) is None);
                        assert(parse_entries(tail) is None);
                        return Err(SdkError::DecodeError);
                    },
                };
                if parts.len() != 4 || parts[0].len() >= 0x0100_0000 || parts[1].len()
                    >= 0x0100_0000 || parts[2].len() >= 0x0100_0000 {
                    assert(parse_key_entry(f@.skip(1)) is None);
                    assert(parse_entries(tail) is None);
                    return Err(SdkError::DecodeError);
                }
                let pw = match decode_opt(&parts[3]) {
                    Ok(o) => o,
                    Err(e) => {
                        assert(parse_key_entry(f@.skip(1)) is None);
                        assert(parse_entries(tail) is None);
                        return Err(SdkError::DecodeError);
                    },
                };
                let pw_big: bool = match &pw {
                    Some(v) => v.len() >= 0x0100_0000,
                    None => false,
                };
                if pw_big {
                    assert(parse_key_entry(f@.skip(1)) is None);
                    assert(parse_entries(tail) is None);
                    return Err(SdkError::DecodeError);
                }
                let entry = KeyEntry {
                    alias: clone_bytes(&parts[0]),
                    public_key: clone_bytes(&parts[1]),
                    secret_key: clone_bytes(&parts[2]),
                    password: pw,
                };
                let ghost old_ks = ks@;
                ks.push(entry);
                proof {
                    assert(parse_key_entry(f@.skip(1)) == Some(entry@));
                    assert(key_views(ks@) =~= key_views(old_ks).push(entry@));
                    if let Some(rest2) = parse_entries(efs.skip(i as int + 1)) {
                        assert(parse_entries(tail) == Some(
                            (seq![entry@] + rest2.0, rest2.1),
                        ));
                        assert(key_views(old_ks) + (seq![entry@] + rest2.0) =~= key_views(ks@)
                            + rest2.0);
                    } else {
                        assert(parse_entries(tail) is None);
                    }
                }
            } else {
                let parts = match decode_fields(&body) {
                    Ok(ps) => ps,
                    Err(e) => {
                        assert(parse_spend_entry(f@.skip(1)) is None);
                        assert(parse_entries(tail) is None);
                        return Err(SdkError::DecodeError);
                    },
                };
                if parts.len() != 3 || parts[0].len() >= 0x0100_0000 || parts[1].len()
                    >= 0x0100_0000 {
                    assert(parse_spend_entry(f@.skip(1)) is None);
                    assert(parse_entries(tail) is None);
                    return Err(SdkError::DecodeError);
                }
                let pw = match decode_opt(&parts[2]) {
                    Ok(o) => o,
                    Err(e) => {
                        assert(parse_spend_entry(f@.skip(1)) is None);
                        assert(parse_entries(tail) is None);
                        return Err(SdkError::DecodeError);
                    },
                };
                let pw_big: bool = match &pw {
                    Some(v) => v.len() >= 0x0100_0000,
                    None => false,
                };
                if pw_big {
                    assert(parse_spend_entry(f@.skip(1)) is None);
                    assert(parse_entries(tail) is None);
                    return Err(SdkError::DecodeError);
                }
                let entry = SpendingEntry {
                    alias: clone_bytes(&parts[0]),
                    key: clone_bytes(&parts[1]),
                    password: pw,
                };
                let ghost old_ss = ss@;
                ss.push(entry);
                proof {
                    assert(parse_spend_entry(f@.skip(1)) == Some(entry@));
                    assert(spending_views(ss@) =~= spending_views(old_ss).push(entry@));
                    if let Some(rest2) = parse_entries(efs.skip(i as int + 1)) {
                        assert(parse_entries(tail) == Some(
                            (rest2.0, seq![entry@] + rest2.1),
                        ));
                        assert(spending_views(old_ss) + (seq![entry@] + rest2.1)
                            =~= spending_views(ss@) + rest2.1);
                    } else {
                        assert(parse_entries(tail) is None);
                    }
                }
            }
            i = i + 1;
        }
        proof {
            assert(efs.skip(i as int) =~= Seq::<Seq<u8>>::empty());
            assert(parse_entries(efs.skip(i as int)) == Some(
                (Seq::<KeyEntryModel>::empty(), Seq::<SpendingEntryModel>::empty()),
            ));
            assert(key_views(ks@) + Seq::<KeyEntryModel>::empty() =~= key_views(ks@));
            assert(spending_views(ss@) + Seq::<SpendingEntryModel>::empty() =~= spending_views(
                ss@,
            ));
        }
        if ks.len() >= 0x0100_0000 || ss.len() >= 0x0100_0000 {
            return Err(SdkError::DecodeError);
        }
        let w = Wallet { keys: ks, spending_keys: ss };
        Ok(w)
    }
}

} // verus!
