//! The indexing pipeline's two stages: discovery and decode.
//!
//! Discovery walks the gateway's candidate entry addresses; for each
//! candidate not yet recorded it resolves the genesis event and inserts
//! one token row.  The decode stage walks the recorded token rows in
//! deterministic order; for each row not yet decoded it decodes the
//! entry account and inserts one metadata row plus its creator rows.
//!
//! Every gateway response reaches this module as a plain value inside a
//! `Candidate` or as the fetched account bytes, so each step is a pure
//! decision over the store model, and re-running a stage over the same
//! responses provably performs no further work.

use vstd::prelude::*;

use vstd::slice::slice_to_vec;
use crate::codec::{decode_entry, sp_entry, CreatorEntry, CreatorView, EntryView};
use crate::genesis::{
    resolve_genesis, sp_resolve_genesis, views_of_sigs, view_of_tx, GenesisError, SignatureInfo,
    SignatureInfoView, TxShape, TxShapeView,
};
use crate::store::{
    sp_token_conflict, sp_tokens_have_metadata, sp_tokens_have_token, sp_metadata_conflict,
    sp_metadatas_have_metadata, sp_metadatas_have_token,
    CreatorShare, CreatorShareView, InsertOutcome, MetadataRecord, MetadataRecordView, Store,
    TokenRecord, TokenRecordView,
};

verus! {

/// One discovery candidate together with the gateway's responses about
/// it: the entry address found by the filtered search, its signature
/// history (`None` when the history call failed), and the decoded
/// shape of the oldest entry's transaction (`None` when that fetch or
/// decode failed).
pub struct Candidate {
    pub metadata_address: Vec<u8>,
    pub signatures: Option<Vec<SignatureInfo>>,
    pub transaction: Option<TxShape>,
}

/// Mathematical value of a discovery candidate.
pub struct CandidateView {
    pub metadata_address: Seq<u8>,
    pub signatures: Option<Seq<SignatureInfoView>>,
    pub transaction: Option<TxShapeView>,
}

impl View for Candidate {
    type V = CandidateView;

    open spec fn view(&self) -> CandidateView {
        CandidateView {
            metadata_address: self.metadata_address@,
            signatures: match self.signatures {
                None => None,
                Some(v) => Some(views_of_sigs(v@)),
            },
            transaction: match self.transaction {
                None => None,
                Some(t) => Some(t@),
            },
        }
    }
}

/// The views of a candidate batch.
pub open spec fn views_of_candidates(s: Seq<Candidate>) -> Seq<CandidateView> {
    s.map_values(|c: Candidate| c@)
}

/// What discovery did with one candidate.
#[derive(Clone, Copy, Debug, PartialEq, Eq, Structural)]
pub enum DiscoveryOutcome {
    /// A token row with this entry address already exists; skipped.
    AlreadyIndexed,
    /// The signature history could not be fetched; skipped, retried on
    /// the next run.
    HistoryUnavailable,
    /// Genesis resolution rejected the candidate; skipped.
    Rejected(GenesisError),
    /// Resolution succeeded but another unique key of the new row was
    /// already taken; treated as confirmation that the row exists.
    DuplicateRace,
    /// One token row was inserted.
    Recorded,
}

/// The token row recorded for a candidate once its genesis event is
/// resolved.
pub open spec fn sp_token_row_of(
    m: Seq<u8>,
    g: crate::genesis::GenesisRecordView,
) -> TokenRecordView {
    TokenRecordView {
        token_address: g.token_address,
        metadata_address: m,
        genesis_signature: g.genesis_signature,
        genesis_block_time: g.genesis_block_time,
    }
}

/// The token table after discovery processes one candidate.
pub open spec fn sp_discovery_step(
    tokens: Seq<TokenRecordView>,
    c: CandidateView,
) -> Seq<TokenRecordView> {
    if sp_tokens_have_metadata(tokens, c.metadata_address) {
        tokens
    } else {
        match c.signatures {
            None => tokens,
            Some(sigs) => match sp_resolve_genesis(sigs, c.transaction) {
                Err(_) => tokens,
                Ok(g) => {
                    if sp_token_conflict(tokens, sp_token_row_of(c.metadata_address, g)) {
                        tokens
                    } else {
                        tokens.push(sp_token_row_of(c.metadata_address, g))
                    }
                },
            },
        }
    }
}

/// The outcome discovery reports for one candidate.
pub open spec fn sp_discovery_outcome(
    tokens: Seq<TokenRecordView>,
    c: CandidateView,
) -> DiscoveryOutcome {
    if sp_tokens_have_metadata(tokens, c.metadata_address) {
        DiscoveryOutcome::AlreadyIndexed
    } else {
        match c.signatures {
            None => DiscoveryOutcome::HistoryUnavailable,
            Some(sigs) => match sp_resolve_genesis(sigs, c.transaction) {
                Err(e) => DiscoveryOutcome::Rejected(e),
                Ok(g) => {
                    if sp_token_conflict(tokens, sp_token_row_of(c.metadata_address, g)) {
                        DiscoveryOutcome::DuplicateRace
                    } else {
                        DiscoveryOutcome::Recorded
                    }
                },
            },
        }
    }
}

/// The token table after discovery processes a whole batch in order.
pub open spec fn sp_run_discovery(
    tokens: Seq<TokenRecordView>,
    cs: Seq<CandidateView>,
) -> Seq<TokenRecordView>
    decreases cs.len(),
{
    if cs.len() == 0 {
        tokens
    } else {
        sp_run_discovery(sp_discovery_step(tokens, cs.first()), cs.drop_first())
    }
}

/// Running a batch extended by one candidate is running the batch,
/// then processing that candidate.
proof fn lemma_run_snoc(t: Seq<TokenRecordView>, cs: Seq<CandidateView>, c: CandidateView)
    ensures
        sp_run_discovery(t, cs.push(c)) == sp_discovery_step(sp_run_discovery(t, cs), c),
    decreases cs.len(),
{
    if cs.len() == 0 {
        assert(cs.push(c).first() == c);
        assert(cs.push(c).drop_first() =~= Seq::<CandidateView>::empty());
        assert(sp_run_discovery(t, cs) == t);
        assert(sp_run_discovery(t, cs.push(c)) == sp_run_discovery(
            sp_discovery_step(t, c),
            cs.push(c).drop_first(),
        ));
        assert(sp_run_discovery(sp_discovery_step(t, c), cs.push(c).drop_first())
            == sp_discovery_step(t, c));
    } else {
        assert(cs.push(c).first() == cs.first());
        assert(cs.push(c).drop_first() =~= cs.drop_first().push(c));
        assert(sp_run_discovery(t, cs.push(c)) == sp_run_discovery(
            sp_discovery_step(t, cs.first()),
            cs.drop_first().push(c),
        ));
        lemma_run_snoc(sp_discovery_step(t, cs.first()), cs.drop_first(), c);
        assert(sp_run_discovery(t, cs) == sp_run_discovery(
            sp_discovery_step(t, cs.first()),
            cs.drop_first(),
        ));
    }
}

impl Store {
    /// Process one discovery candidate: skip it if its entry address is
    /// already recorded, otherwise resolve its genesis event from the
    /// supplied gateway responses and insert one token row.  Any
    /// failure skips the candidate and leaves the store unchanged.
    pub fn process_candidate(&mut self, candidate: &Candidate) -> (r: DiscoveryOutcome)
        requires
            old(self)@.wf(),
        ensures
            final(self)@.wf(),
            final(self)@.tokens == sp_discovery_step(old(self)@.tokens, candidate@),
            r == sp_discovery_outcome(old(self)@.tokens, candidate@),
            final(self)@.metadatas == old(self)@.metadatas,
            final(self)@.creators == old(self)@.creators,
            final(self)@.repairs == old(self)@.repairs,
    {
        if self.has_token_for_metadata(candidate.metadata_address.as_slice()) {
            return DiscoveryOutcome::AlreadyIndexed;
        }
        let sigs = match &candidate.signatures {
            None => {
                return DiscoveryOutcome::HistoryUnavailable;
            },
            Some(sigs) => sigs,
        };
        let tx_ref = candidate.transaction.as_ref();
        proof {
            assert(view_of_tx(tx_ref) == candidate@.transaction);
        }
        let g = match resolve_genesis(sigs, tx_ref) {
            Err(e) => {
                return DiscoveryOutcome::Rejected(e);
            },
            Ok(g) => g,
        };
        let row = TokenRecord {
            token_address: g.token_address,
            metadata_address: slice_to_vec(candidate.metadata_address.as_slice()),
            genesis_signature: g.genesis_signature,
            genesis_block_time: g.genesis_block_time,
        };
        match self.insert_token_if_absent(row) {
            InsertOutcome::Inserted => DiscoveryOutcome::Recorded,
            InsertOutcome::AlreadyPresent => DiscoveryOutcome::DuplicateRace,
        }
    }

    /// Process a whole discovery batch in the order the gateway
    /// returned it, reporting what was done with each candidate.
    pub fn run_discovery(&mut self, candidates: &Vec<Candidate>) -> (outcomes: Vec<
        DiscoveryOutcome,
    >)
        requires
            old(self)@.wf(),
        ensures
            final(self)@.wf(),
            final(self)@.tokens == sp_run_discovery(
                old(self)@.tokens,
                views_of_candidates(candidates@),
            ),
            outcomes@.len() == candidates@.len(),
            forall|j: int|
                0 <= j < candidates@.len() ==> #[trigger] outcomes@[j] == sp_discovery_outcome(
                    sp_run_discovery(
                        old(self)@.tokens,
                        views_of_candidates(candidates@).take(j),
                    ),
                    views_of_candidates(candidates@)[j],
                ),
            final(self)@.metadatas == old(self)@.metadatas,
            final(self)@.creators == old(self)@.creators,
            final(self)@.repairs == old(self)@.repairs,
    {
        let ghost cs = views_of_candidates(candidates@);
        proof {
            assert(cs.take(0) =~= Seq::<CandidateView>::empty());
        }
        let mut outcomes: Vec<DiscoveryOutcome> = Vec::new();
        let n = candidates.len();
        let mut i: usize = 0;
        while i < n
            invariant
                old(self)@.wf(),
                self@.wf(),
                n == candidates@.len(),
                i <= n,
                outcomes@.len() == i,
                cs == views_of_candidates(candidates@),
                self@.tokens == sp_run_discovery(old(self)@.tokens, cs.take(i as int)),
                forall|j: int|
                    0 <= j < i ==> #[trigger] outcomes@[j] == sp_discovery_outcome(
                        sp_run_discovery(old(self)@.tokens, cs.take(j)),
                        cs[j],
                    ),
                self@.metadatas == old(self)@.metadatas,
                self@.creators == old(self)@.creators,
                self@.repairs == old(self)@.repairs,
            decreases n - i,
        {
            let ghost pre = self@.tokens;
            let outcome = self.process_candidate(&candidates[i]);
            outcomes.push(outcome);
            proof {
                assert(cs[i as int] == candidates@[i as int]@);
                assert(cs.take(i + 1 as int) =~= cs.take(i as int).push(cs[i as int]));
                lemma_run_snoc(old(self)@.tokens, cs.take(i as int), cs[i as int]);
            }
            i = i + 1;
        }
        proof {
            assert(cs.take(n as int) =~= cs);
        }
        outcomes
    }
}

// ---------------------------------------------------------------------
// Discovery is idempotent: a second run over identical gateway
// responses performs no further work.
// ---------------------------------------------------------------------

/// `u` extends `t`: `t` is a prefix of `u`.  Discovery only appends.
pub open spec fn sp_extends(t: Seq<TokenRecordView>, u: Seq<TokenRecordView>) -> bool {
    t.len() <= u.len() && forall|i: int| 0 <= i < t.len() ==> t[i] == u[i]
}

proof fn lemma_step_extends(t: Seq<TokenRecordView>, c: CandidateView)
    ensures
        sp_extends(t, sp_discovery_step(t, c)),
{
}

proof fn lemma_extends_trans(
    a: Seq<TokenRecordView>,
    b: Seq<TokenRecordView>,
    c: Seq<TokenRecordView>,
)
    requires
        sp_extends(a, b),
        sp_extends(b, c),
    ensures
        sp_extends(a, c),
{
}

proof fn lemma_run_extends(t: Seq<TokenRecordView>, cs: Seq<CandidateView>)
    ensures
        sp_extends(t, sp_run_discovery(t, cs)),
    decreases cs.len(),
{
    if cs.len() == 0 {
    } else {
        let s1 = sp_discovery_step(t, cs.first());
        lemma_step_extends(t, cs.first());
        lemma_run_extends(s1, cs.drop_first());
        lemma_extends_trans(t, s1, sp_run_discovery(s1, cs.drop_first()));
    }
}

proof fn lemma_extends_presence(t: Seq<TokenRecordView>, u: Seq<TokenRecordView>, m: Seq<u8>)
    requires
        sp_extends(t, u),
        sp_tokens_have_metadata(t, m),
    ensures
        sp_tokens_have_metadata(u, m),
{
    let i = choose|i: int| 0 <= i < t.len() && t[i].metadata_address == m;
    assert(u[i].metadata_address == m);
}

proof fn lemma_extends_conflict(
    t: Seq<TokenRecordView>,
    u: Seq<TokenRecordView>,
    row: TokenRecordView,
)
    requires
        sp_extends(t, u),
        sp_token_conflict(t, row),
    ensures
        sp_token_conflict(u, row),
{
    if sp_tokens_have_token(t, row.token_address) {
        let i = choose|i: int| 0 <= i < t.len() && t[i].token_address == row.token_address;
        assert(u[i].token_address == row.token_address);
    } else if sp_tokens_have_metadata(t, row.metadata_address) {
        lemma_extends_presence(t, u, row.metadata_address);
    } else {
        let i = choose|i: int|
            0 <= i < t.len() && t[i].genesis_signature == row.genesis_signature;
        assert(u[i].genesis_signature == row.genesis_signature);
    }
}

/// Processing any candidate of a batch again, at the state the whole
/// batch left behind, changes nothing.
proof fn lemma_run_absorbs(t: Seq<TokenRecordView>, cs: Seq<CandidateView>, j: int)
    requires
        0 <= j < cs.len(),
    ensures
        sp_discovery_step(sp_run_discovery(t, cs), cs[j]) == sp_run_discovery(t, cs),
    decreases cs.len(),
{
    let fin = sp_run_discovery(t, cs);
    let s1 = sp_discovery_step(t, cs.first());
    if j == 0 {
        let c = cs.first();
        lemma_run_extends(s1, cs.drop_first());
        if sp_tokens_have_metadata(t, c.metadata_address) {
            lemma_extends_presence(t, fin, c.metadata_address);
        } else {
            match c.signatures {
                None => {},
                Some(sigs) => match sp_resolve_genesis(sigs, c.transaction) {
                    Err(_) => {},
                    Ok(g) => {
                        let row = sp_token_row_of(c.metadata_address, g);
                        if sp_token_conflict(t, row) {
                            lemma_extends_conflict(t, fin, row);
                        } else {
                            assert(s1[t.len() as int].metadata_address == c.metadata_address);
                            assert(sp_tokens_have_metadata(s1, c.metadata_address));
                            lemma_extends_presence(s1, fin, c.metadata_address);
                        }
                    },
                },
            }
        }
    } else {
        assert(cs.drop_first()[j - 1] == cs[j]);
        lemma_run_absorbs(s1, cs.drop_first(), j - 1);
    }
}

proof fn lemma_run_fixed(s: Seq<TokenRecordView>, cs: Seq<CandidateView>)
    requires
        forall|j: int| 0 <= j < cs.len() ==> sp_discovery_step(s, #[trigger] cs[j]) == s,
    ensures
        sp_run_discovery(s, cs) == s,
    decreases cs.len(),
{
    if cs.len() == 0 {
    } else {
        assert(sp_discovery_step(s, cs[0]) == s);
        assert(forall|j: int|
            0 <= j < cs.drop_first().len() ==> #[trigger] cs.drop_first()[j] == cs[j + 1]);
        lemma_run_fixed(s, cs.drop_first());
    }
}

/// Structural rejection: a candidate whose transaction does not have
/// exactly five instructions is never indexed, whatever else it
/// carries — processing it leaves the token table unchanged.
pub proof fn lemma_unexpected_shape_never_indexed(
    t: Seq<TokenRecordView>,
    c: CandidateView,
)
    requires
        c.transaction is Some,
        c.transaction.unwrap().instruction_count != 5,
    ensures
        sp_discovery_step(t, c) == t,
{
}

/// Idempotence of discovery: running the whole batch a second time,
/// over identical gateway responses, yields exactly the token rows the
/// first run left behind — no duplicates, no state change.
pub proof fn lemma_discovery_idempotent(t: Seq<TokenRecordView>, cs: Seq<CandidateView>)
    ensures
        sp_run_discovery(sp_run_discovery(t, cs), cs) == sp_run_discovery(t, cs),
{
    let fin = sp_run_discovery(t, cs);
    assert forall|j: int| 0 <= j < cs.len() implies sp_discovery_step(fin, #[trigger] cs[j])
        == fin by {
        lemma_run_absorbs(t, cs, j);
    }
    lemma_run_fixed(fin, cs);
}

/// What the decode stage did with one token row.
#[derive(Clone, Copy, Debug, PartialEq, Eq, Structural)]
pub enum DecodeOutcome {
    /// A metadata row with this entry address already exists; skipped.
    AlreadyDecoded,
    /// The entry account could not be fetched; skipped, retried on the
    /// next run.
    AccountUnavailable,
    /// The account bytes are not a well-formed entry record; skipped.
    Undecodable,
    /// Decoding succeeded but another unique key of the new row was
    /// already taken; treated as confirmation that the row exists.
    DuplicateRace,
    /// One metadata row and its creator rows were inserted.
    Recorded,
}

/// The view of optionally fetched account bytes.
pub open spec fn view_of_account(account: Option<&Vec<u8>>) -> Option<Seq<u8>> {
    match account {
        None => None,
        Some(b) => Some(b@),
    }
}

/// The metadata row recorded for a token row and its decoded entry.
pub open spec fn sp_metadata_row_of(row: TokenRecordView, e: EntryView) -> MetadataRecordView {
    MetadataRecordView {
        token_address: row.token_address,
        metadata_address: row.metadata_address,
        key: e.key,
        update_authority: e.update_authority,
        mint: e.mint,
        name: e.name,
        symbol: e.symbol,
        uri: e.uri,
        seller_fee_basis_points: e.seller_fee_basis_points,
        primary_sale_happened: e.primary_sale_happened,
        is_mutable: e.is_mutable,
        edition_nonce: e.edition_nonce,
    }
}

/// The decoded entry's creator list, empty when absent.
pub open spec fn sp_entry_creators(e: EntryView) -> Seq<CreatorView> {
    match e.creators {
        None => Seq::empty(),
        Some(cs) => cs,
    }
}

/// The creator rows recorded for an entry address: one row per
/// creator, `idx` its 1-based on-chain position.
pub open spec fn sp_creator_rows_of(m: Seq<u8>, cs: Seq<CreatorView>) -> Seq<CreatorShareView> {
    Seq::new(
        cs.len(),
        |i: int|
            CreatorShareView {
                metadata_address: m,
                address: cs[i].address,
                share: cs[i].share,
                idx: (i + 1) as u64,
            },
    )
}

/// The metadata and creator tables after the decode stage processes
/// one token row with the fetched account bytes (`None` when the fetch
/// failed).
pub open spec fn sp_decode_step(
    ms: Seq<MetadataRecordView>,
    crs: Seq<CreatorShareView>,
    row: TokenRecordView,
    account: Option<Seq<u8>>,
) -> (Seq<MetadataRecordView>, Seq<CreatorShareView>) {
    if sp_metadatas_have_metadata(ms, row.metadata_address) {
        (ms, crs)
    } else {
        match account {
            None => (ms, crs),
            Some(bytes) => match sp_entry(bytes) {
                None => (ms, crs),
                Some(e) => {
                    if sp_metadata_conflict(ms, sp_metadata_row_of(row, e)) {
                        (ms, crs)
                    } else {
                        (
                            ms.push(sp_metadata_row_of(row, e)),
                            crs + sp_creator_rows_of(row.metadata_address, sp_entry_creators(e)),
                        )
                    }
                },
            },
        }
    }
}

/// The outcome the decode stage reports for one token row.
pub open spec fn sp_decode_outcome(
    ms: Seq<MetadataRecordView>,
    row: TokenRecordView,
    account: Option<Seq<u8>>,
) -> DecodeOutcome {
    if sp_metadatas_have_metadata(ms, row.metadata_address) {
        DecodeOutcome::AlreadyDecoded
    } else {
        match account {
            None => DecodeOutcome::AccountUnavailable,
            Some(bytes) => match sp_entry(bytes) {
                None => DecodeOutcome::Undecodable,
                Some(e) => {
                    if sp_metadata_conflict(ms, sp_metadata_row_of(row, e)) {
                        DecodeOutcome::DuplicateRace
                    } else {
                        DecodeOutcome::Recorded
                    }
                },
            },
        }
    }
}

// ---------------------------------------------------------------------
// The decode stage is idempotent too: a second pass over the same rows
// and account bytes performs no further work.
// ---------------------------------------------------------------------

/// One decode-stage work item: a token row together with the account
/// bytes fetched for it (`None` when the fetch failed).
pub struct DecodeItemView {
    pub row: TokenRecordView,
    pub account: Option<Seq<u8>>,
}

/// The metadata and creator tables after the decode stage processes a
/// whole batch of work items in order.
pub open spec fn sp_run_decode(
    ms: Seq<MetadataRecordView>,
    crs: Seq<CreatorShareView>,
    items: Seq<DecodeItemView>,
) -> (Seq<MetadataRecordView>, Seq<CreatorShareView>)
    decreases items.len(),
{
    if items.len() == 0 {
        (ms, crs)
    } else {
        let stepped = sp_decode_step(ms, crs, items.first().row, items.first().account);
        sp_run_decode(stepped.0, stepped.1, items.drop_first())
    }
}

/// `u` extends `t`: `t` is a prefix of `u`.  The decode stage only
/// appends metadata rows.
pub open spec fn sp_ms_extends(t: Seq<MetadataRecordView>, u: Seq<MetadataRecordView>) -> bool {
    t.len() <= u.len() && forall|i: int| 0 <= i < t.len() ==> t[i] == u[i]
}

proof fn lemma_decode_run_extends(
    ms: Seq<MetadataRecordView>,
    crs: Seq<CreatorShareView>,
    items: Seq<DecodeItemView>,
)
    ensures
        sp_ms_extends(ms, sp_run_decode(ms, crs, items).0),
    decreases items.len(),
{
    if items.len() > 0 {
        let stepped = sp_decode_step(ms, crs, items.first().row, items.first().account);
        lemma_decode_run_extends(stepped.0, stepped.1, items.drop_first());
    }
}

proof fn lemma_ms_extends_presence(
    t: Seq<MetadataRecordView>,
    u: Seq<MetadataRecordView>,
    m: Seq<u8>,
)
    requires
        sp_ms_extends(t, u),
        sp_metadatas_have_metadata(t, m),
    ensures
        sp_metadatas_have_metadata(u, m),
{
    let i = choose|i: int| 0 <= i < t.len() && t[i].metadata_address == m;
    assert(u[i].metadata_address == m);
}

proof fn lemma_ms_extends_conflict(
    t: Seq<MetadataRecordView>,
    u: Seq<MetadataRecordView>,
    row: MetadataRecordView,
)
    requires
        sp_ms_extends(t, u),
        sp_metadata_conflict(t, row),
    ensures
        sp_metadata_conflict(u, row),
{
    if sp_metadatas_have_token(t, row.token_address) {
        let i = choose|i: int| 0 <= i < t.len() && t[i].token_address == row.token_address;
        assert(u[i].token_address == row.token_address);
    } else {
        lemma_ms_extends_presence(t, u, row.metadata_address);
    }
}

proof fn lemma_decode_run_absorbs(
    ms: Seq<MetadataRecordView>,
    crs: Seq<CreatorShareView>,
    items: Seq<DecodeItemView>,
    j: int,
)
    requires
        0 <= j < items.len(),
    ensures
        sp_decode_step(
            sp_run_decode(ms, crs, items).0,
            sp_run_decode(ms, crs, items).1,
            items[j].row,
            items[j].account,
        ) == sp_run_decode(ms, crs, items),
    decreases items.len(),
{
    let fin = sp_run_decode(ms, crs, items);
    let stepped = sp_decode_step(ms, crs, items.first().row, items.first().account);
    if j == 0 {
        let it = items.first();
        lemma_decode_run_extends(stepped.0, stepped.1, items.drop_first());
        if sp_metadatas_have_metadata(ms, it.row.metadata_address) {
            lemma_ms_extends_presence(ms, fin.0, it.row.metadata_address);
        } else {
            match it.account {
                None => {},
                Some(bytes) => match sp_entry(bytes) {
                    None => {},
                    Some(e) => {
                        let mrow = sp_metadata_row_of(it.row, e);
                        if sp_metadata_conflict(ms, mrow) {
                            lemma_ms_extends_conflict(ms, fin.0, mrow);
                        } else {
                            assert(stepped.0[ms.len() as int].metadata_address
                                == it.row.metadata_address);
                            assert(sp_metadatas_have_metadata(
                                stepped.0,
                                it.row.metadata_address,
                            ));
                            lemma_ms_extends_presence(stepped.0, fin.0, it.row.metadata_address);
                        }
                    },
                },
            }
        }
    } else {
        assert(items.drop_first()[j - 1] == items[j]);
        lemma_decode_run_absorbs(stepped.0, stepped.1, items.drop_first(), j - 1);
    }
}

proof fn lemma_decode_run_fixed(
    ms: Seq<MetadataRecordView>,
    crs: Seq<CreatorShareView>,
    items: Seq<DecodeItemView>,
)
    requires
        forall|j: int|
            0 <= j < items.len() ==> sp_decode_step(
                ms,
                crs,
                (#[trigger] items[j]).row,
                items[j].account,
            ) == (ms, crs),
    ensures
        sp_run_decode(ms, crs, items) == (ms, crs),
    decreases items.len(),
{
    if items.len() > 0 {
        assert(sp_decode_step(ms, crs, items[0].row, items[0].account) == (ms, crs));
        assert(forall|j: int|
            0 <= j < items.drop_first().len() ==> #[trigger] items.drop_first()[j] == items[j
                + 1]);
        lemma_decode_run_fixed(ms, crs, items.drop_first());
    }
}

/// Idempotence of the decode stage: running the whole batch a second
/// time, over identical rows and account bytes, yields exactly the
/// metadata and creator rows the first run left behind.
pub proof fn lemma_decode_idempotent(
    ms: Seq<MetadataRecordView>,
    crs: Seq<CreatorShareView>,
    items: Seq<DecodeItemView>,
)
    ensures
        sp_run_decode(
            sp_run_decode(ms, crs, items).0,
            sp_run_decode(ms, crs, items).1,
            items,
        ) == sp_run_decode(ms, crs, items),
{
    let fin = sp_run_decode(ms, crs, items);
    assert forall|j: int| 0 <= j < items.len() implies sp_decode_step(
        fin.0,
        fin.1,
        (#[trigger] items[j]).row,
        items[j].account,
    ) == (fin.0, fin.1) by {
        lemma_decode_run_absorbs(ms, crs, items, j);
    }
    lemma_decode_run_fixed(fin.0, fin.1, items);
}

impl Store {
    /// Process one token row of the decode stage: skip it if its entry
    /// address is already decoded, otherwise decode the fetched
    /// account bytes and insert one metadata row together with one
    /// creator row per creator, `idx` 1-based in on-chain order.  Any
    /// failure skips the row and leaves the store unchanged.
    pub fn process_decode_row(&mut self, row: &TokenRecord, account: Option<&Vec<u8>>) -> (r:
        DecodeOutcome)
        requires
            old(self)@.wf(),
        ensures
            final(self)@.wf(),
            (final(self)@.metadatas, final(self)@.creators) == sp_decode_step(
                old(self)@.metadatas,
                old(self)@.creators,
                row@,
                view_of_account(account),
            ),
            r == sp_decode_outcome(old(self)@.metadatas, row@, view_of_account(account)),
            final(self)@.tokens == old(self)@.tokens,
            final(self)@.repairs == old(self)@.repairs,
    {
        if self.has_metadata_for(row.metadata_address.as_slice()) {
            return DecodeOutcome::AlreadyDecoded;
        }
        let bytes = match account {
            None => {
                return DecodeOutcome::AccountUnavailable;
            },
            Some(b) => b,
        };
        let entry = match decode_entry(bytes.as_slice()) {
            Err(_) => {
                return DecodeOutcome::Undecodable;
            },
            Ok(e) => e,
        };
        let ghost ev = entry@;
        let mrow = MetadataRecord {
            token_address: slice_to_vec(row.token_address.as_slice()),
            metadata_address: slice_to_vec(row.metadata_address.as_slice()),
            key: entry.key,
            update_authority: entry.update_authority,
            mint: entry.mint,
            name: entry.name,
            symbol: entry.symbol,
            uri: entry.uri,
            seller_fee_basis_points: entry.seller_fee_basis_points,
            primary_sale_happened: entry.primary_sale_happened,
            is_mutable: entry.is_mutable,
            edition_nonce: entry.edition_nonce,
        };
        proof {
            assert(mrow@ == sp_metadata_row_of(row@, ev));
        }
        let ghost crows = sp_creator_rows_of(row@.metadata_address, sp_entry_creators(ev));
        let mut shares: Vec<CreatorShare> = Vec::new();
        match &entry.creators {
            None => {
                proof {
                    assert(shares@.map_values(|c: CreatorShare| c@) =~= crows);
                }
            },
            Some(cs) => {
                let n = cs.len();
                proof {
                    assert(sp_entry_creators(ev) == cs@.map_values(|c: CreatorEntry| c@));
                    assert(crows.len() == n);
                    assert(shares@.map_values(|c: CreatorShare| c@) =~= crows.take(0));
                }
                let mut k: usize = 0;
                while k < n
                    invariant
                        n == cs@.len(),
                        k <= n,
                        crows == sp_creator_rows_of(
                            row@.metadata_address,
                            cs@.map_values(|c: CreatorEntry| c@),
                        ),
                        shares@.map_values(|c: CreatorShare| c@) =~= crows.take(k as int),
                    decreases n - k,
                {
                    let share = CreatorShare {
                        metadata_address: slice_to_vec(row.metadata_address.as_slice()),
                        address: slice_to_vec(cs[k].address.as_slice()),
                        share: cs[k].share,
                        idx: (k as u64) + 1,
                    };
                    proof {
                        assert(cs@.map_values(|c: CreatorEntry| c@)[k as int] == cs@[k as int]@);
                        assert(share@ == crows[k as int]);
                    }
                    let ghost shares_old = shares@;
                    shares.push(share);
                    proof {
                        let f = |c: CreatorShare| c@;
                        assert(shares_old.map_values(f).len() == shares_old.len());
                        assert(shares_old.len() == k);
                        assert(shares@ == shares_old.push(share));
                        assert(shares@.len() == k + 1);
                        assert forall|j: int| 0 <= j < k + 1 implies #[trigger] shares@.map_values(
                            f,
                        )[j] == crows.take(k + 1 as int)[j] by {
                            assert(shares@.map_values(f)[j] == shares@[j]@);
                            if j < k {
                                assert(shares@[j] == shares_old[j]);
                                assert(shares_old.map_values(f)[j] == shares_old[j]@);
                            } else {
                                assert(shares@[j] == share);
                            }
                        }
                        assert(shares@.map_values(f) =~= crows.take(k + 1 as int));
                    }
                    k = k + 1;
                }
                proof {
                    assert(crows.take(n as int) =~= crows);
                }
            },
        }
        match self.insert_metadata_if_absent(mrow, shares) {
            InsertOutcome::Inserted => DecodeOutcome::Recorded,
            InsertOutcome::AlreadyPresent => DecodeOutcome::DuplicateRace,
        }
    }
}

} // verus!
