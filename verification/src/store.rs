//! The relational snapshot: an in-memory model of the four tables the
//! pipeline reads and writes.
//!
//! The surrounding application mirrors this model into its durable
//! store; every decision the pipeline makes is taken against the model,
//! so the dedup invariants are proved here once and hold of any mirror
//! that replays the same inserts.  Inserts are idempotent-upserts:
//! `insert ... if absent` reports whether a row was added, and a row
//! whose unique keys are already present leaves the model unchanged.
//!
//! Key fields hold the textual form of an address or signature as
//! bytes; rows are ordered by those keys in lexicographic byte order.

use vstd::prelude::*;

use crate::bytes::{bytes_eq, lex_le, bytes_le, lemma_lex_le_total, lemma_lex_le_trans};
use vstd::slice::slice_to_vec;

verus! {

broadcast use vstd::seq_lib::group_to_multiset_ensures;

/// A discovered token/entry pair, one row of the "tokens" table.
#[derive(Clone, Debug)]
pub struct TokenRecord {
    pub token_address: Vec<u8>,
    pub metadata_address: Vec<u8>,
    pub genesis_signature: Vec<u8>,
    pub genesis_block_time: i64,
}

/// Mathematical value of a token row.
pub struct TokenRecordView {
    pub token_address: Seq<u8>,
    pub metadata_address: Seq<u8>,
    pub genesis_signature: Seq<u8>,
    pub genesis_block_time: i64,
}

impl View for TokenRecord {
    type V = TokenRecordView;

    open spec fn view(&self) -> TokenRecordView {
        TokenRecordView {
            token_address: self.token_address@,
            metadata_address: self.metadata_address@,
            genesis_signature: self.genesis_signature@,
            genesis_block_time: self.genesis_block_time,
        }
    }
}

/// A decoded registry entry snapshot, one row of the "metadatas" table.
#[derive(Clone, Debug)]
pub struct MetadataRecord {
    pub token_address: Vec<u8>,
    pub metadata_address: Vec<u8>,
    pub key: u8,
    pub update_authority: Vec<u8>,
    pub mint: Vec<u8>,
    pub name: Vec<u8>,
    pub symbol: Vec<u8>,
    pub uri: Vec<u8>,
    pub seller_fee_basis_points: u16,
    pub primary_sale_happened: bool,
    pub is_mutable: bool,
    pub edition_nonce: Option<u8>,
}

/// Mathematical value of a metadata row.
pub struct MetadataRecordView {
    pub token_address: Seq<u8>,
    pub metadata_address: Seq<u8>,
    pub key: u8,
    pub update_authority: Seq<u8>,
    pub mint: Seq<u8>,
    pub name: Seq<u8>,
    pub symbol: Seq<u8>,
    pub uri: Seq<u8>,
    pub seller_fee_basis_points: u16,
    pub primary_sale_happened: bool,
    pub is_mutable: bool,
    pub edition_nonce: Option<u8>,
}

impl View for MetadataRecord {
    type V = MetadataRecordView;

    open spec fn view(&self) -> MetadataRecordView {
        MetadataRecordView {
            token_address: self.token_address@,
            metadata_address: self.metadata_address@,
            key: self.key,
            update_authority: self.update_authority@,
            mint: self.mint@,
            name: self.name@,
            symbol: self.symbol@,
            uri: self.uri@,
            seller_fee_basis_points: self.seller_fee_basis_points,
            primary_sale_happened: self.primary_sale_happened,
            is_mutable: self.is_mutable,
            edition_nonce: self.edition_nonce,
        }
    }
}

/// One creator's share of a registry entry, one row of the "creators"
/// table; `idx` is the 1-based on-chain position.
#[derive(Clone, Debug)]
pub struct CreatorShare {
    pub metadata_address: Vec<u8>,
    pub address: Vec<u8>,
    pub share: u8,
    pub idx: u64,
}

/// Mathematical value of a creator row.
pub struct CreatorShareView {
    pub metadata_address: Seq<u8>,
    pub address: Seq<u8>,
    pub share: u8,
    pub idx: u64,
}

impl View for CreatorShare {
    type V = CreatorShareView;

    open spec fn view(&self) -> CreatorShareView {
        CreatorShareView {
            metadata_address: self.metadata_address@,
            address: self.address@,
            share: self.share,
            idx: self.idx,
        }
    }
}

/// An externally curated correction, one row of the "repairs" table:
/// the desired name and uri for a token's registry entry.
#[derive(Clone, Debug)]
pub struct RepairDirective {
    pub token_address: Vec<u8>,
    pub metadata_address: Vec<u8>,
    pub old_name: Vec<u8>,
    pub new_name: Vec<u8>,
    pub old_uri: Vec<u8>,
    pub new_uri: Vec<u8>,
}

/// Mathematical value of a repair row.
pub struct RepairDirectiveView {
    pub token_address: Seq<u8>,
    pub metadata_address: Seq<u8>,
    pub old_name: Seq<u8>,
    pub new_name: Seq<u8>,
    pub old_uri: Seq<u8>,
    pub new_uri: Seq<u8>,
}

impl View for RepairDirective {
    type V = RepairDirectiveView;

    open spec fn view(&self) -> RepairDirectiveView {
        RepairDirectiveView {
            token_address: self.token_address@,
            metadata_address: self.metadata_address@,
            old_name: self.old_name@,
            new_name: self.new_name@,
            old_uri: self.old_uri@,
            new_uri: self.new_uri@,
        }
    }
}

/// Whether an insert added a row or found its unique keys taken.
#[derive(Clone, Copy, Debug, PartialEq, Eq, Structural)]
pub enum InsertOutcome {
    Inserted,
    AlreadyPresent,
}

/// The four tables.
pub struct Store {
    pub tokens: Vec<TokenRecord>,
    pub metadatas: Vec<MetadataRecord>,
    pub creators: Vec<CreatorShare>,
    pub repairs: Vec<RepairDirective>,
}

/// Mathematical value of the whole snapshot.
pub struct StoreView {
    pub tokens: Seq<TokenRecordView>,
    pub metadatas: Seq<MetadataRecordView>,
    pub creators: Seq<CreatorShareView>,
    pub repairs: Seq<RepairDirectiveView>,
}

/// The views of a token table.
pub open spec fn views_of_tokens(s: Seq<TokenRecord>) -> Seq<TokenRecordView> {
    s.map_values(|r: TokenRecord| r@)
}

/// The views of a repair table.
pub open spec fn views_of_repairs(s: Seq<RepairDirective>) -> Seq<RepairDirectiveView> {
    s.map_values(|r: RepairDirective| r@)
}

impl View for Store {
    type V = StoreView;

    open spec fn view(&self) -> StoreView {
        StoreView {
            tokens: views_of_tokens(self.tokens@),
            metadatas: self.metadatas@.map_values(|r: MetadataRecord| r@),
            creators: self.creators@.map_values(|r: CreatorShare| r@),
            repairs: views_of_repairs(self.repairs@),
        }
    }
}

// ---------------------------------------------------------------------
// Membership and well-formedness.
// ---------------------------------------------------------------------

/// Some token row carries this entry (metadata) address.
pub open spec fn sp_tokens_have_metadata(tokens: Seq<TokenRecordView>, m: Seq<u8>) -> bool {
    exists|i: int| 0 <= i < tokens.len() && tokens[i].metadata_address == m
}

/// Some token row carries this token address.
pub open spec fn sp_tokens_have_token(tokens: Seq<TokenRecordView>, t: Seq<u8>) -> bool {
    exists|i: int| 0 <= i < tokens.len() && tokens[i].token_address == t
}

/// Some token row carries this genesis signature.
pub open spec fn sp_tokens_have_signature(tokens: Seq<TokenRecordView>, g: Seq<u8>) -> bool {
    exists|i: int| 0 <= i < tokens.len() && tokens[i].genesis_signature == g
}

/// A new token row collides with an existing one on some unique key.
pub open spec fn sp_token_conflict(tokens: Seq<TokenRecordView>, r: TokenRecordView) -> bool {
    sp_tokens_have_token(tokens, r.token_address) || sp_tokens_have_metadata(
        tokens,
        r.metadata_address,
    ) || sp_tokens_have_signature(tokens, r.genesis_signature)
}

/// Some metadata row carries this entry (metadata) address.
pub open spec fn sp_metadatas_have_metadata(ms: Seq<MetadataRecordView>, m: Seq<u8>) -> bool {
    exists|i: int| 0 <= i < ms.len() && ms[i].metadata_address == m
}

/// Some metadata row carries this token address.
pub open spec fn sp_metadatas_have_token(ms: Seq<MetadataRecordView>, t: Seq<u8>) -> bool {
    exists|i: int| 0 <= i < ms.len() && ms[i].token_address == t
}

/// A new metadata row collides with an existing one on some unique key.
pub open spec fn sp_metadata_conflict(ms: Seq<MetadataRecordView>, r: MetadataRecordView) -> bool {
    sp_metadatas_have_token(ms, r.token_address) || sp_metadatas_have_metadata(
        ms,
        r.metadata_address,
    )
}

/// Some repair row carries this token address.
pub open spec fn sp_repairs_have_token(rs: Seq<RepairDirectiveView>, t: Seq<u8>) -> bool {
    exists|i: int| 0 <= i < rs.len() && rs[i].token_address == t
}

/// Some repair row carries this entry (metadata) address.
pub open spec fn sp_repairs_have_metadata(rs: Seq<RepairDirectiveView>, m: Seq<u8>) -> bool {
    exists|i: int| 0 <= i < rs.len() && rs[i].metadata_address == m
}

/// A new repair row collides with an existing one on some unique key.
pub open spec fn sp_repair_conflict(rs: Seq<RepairDirectiveView>, r: RepairDirectiveView) -> bool {
    sp_repairs_have_token(rs, r.token_address) || sp_repairs_have_metadata(rs, r.metadata_address)
}

/// Dedup invariant of the token table: every token address, entry
/// address and genesis signature names at most one row.
pub open spec fn tokens_wf(tokens: Seq<TokenRecordView>) -> bool {
    forall|i: int, j: int|
        0 <= i < j < tokens.len() ==> tokens[i].token_address != tokens[j].token_address
            && tokens[i].metadata_address != tokens[j].metadata_address
            && tokens[i].genesis_signature != tokens[j].genesis_signature
}

/// Dedup invariant of the metadata table: every token address and
/// entry address names at most one row.
pub open spec fn metadatas_wf(ms: Seq<MetadataRecordView>) -> bool {
    forall|i: int, j: int|
        0 <= i < j < ms.len() ==> ms[i].token_address != ms[j].token_address
            && ms[i].metadata_address != ms[j].metadata_address
}

/// Dedup invariant of the repair table.
pub open spec fn repairs_wf(rs: Seq<RepairDirectiveView>) -> bool {
    forall|i: int, j: int|
        0 <= i < j < rs.len() ==> rs[i].token_address != rs[j].token_address
            && rs[i].metadata_address != rs[j].metadata_address
}

impl StoreView {
    /// Well-formedness of the whole snapshot: the dedup invariants of
    /// all keyed tables.
    pub open spec fn wf(self) -> bool {
        tokens_wf(self.tokens) && metadatas_wf(self.metadatas) && repairs_wf(self.repairs)
    }
}

// ---------------------------------------------------------------------
// Operations.
// ---------------------------------------------------------------------

impl Store {
    /// The empty snapshot.
    pub fn new() -> (r: Store)
        ensures
            r@.tokens =~= Seq::<TokenRecordView>::empty(),
            r@.metadatas =~= Seq::<MetadataRecordView>::empty(),
            r@.creators =~= Seq::<CreatorShareView>::empty(),
            r@.repairs =~= Seq::<RepairDirectiveView>::empty(),
            r@.wf(),
    {
        Store { tokens: Vec::new(), metadatas: Vec::new(), creators: Vec::new(), repairs: Vec::new() }
    }

    /// Does some token row carry this entry address?  The discovery
    /// stage's dedup check.
    pub fn has_token_for_metadata(&self, m: &[u8]) -> (r: bool)
        ensures
            r == sp_tokens_have_metadata(self@.tokens, m@),
    {
        let n = self.tokens.len();
        let mut i: usize = 0;
        while i < n
            invariant
                n == self.tokens.len(),
                i <= n,
                forall|k: int| 0 <= k < i ==> self@.tokens[k].metadata_address != m@,
            decreases n - i,
        {
            if bytes_eq(self.tokens[i].metadata_address.as_slice(), m) {
                proof {
                    assert(self@.tokens[i as int].metadata_address == m@);
                }
                return true;
            }
            i = i + 1;
        }
        false
    }

    /// Does some metadata row carry this entry address?  The decode
    /// stage's dedup check.
    pub fn has_metadata_for(&self, m: &[u8]) -> (r: bool)
        ensures
            r == sp_metadatas_have_metadata(self@.metadatas, m@),
    {
        let n = self.metadatas.len();
        let mut i: usize = 0;
        while i < n
            invariant
                n == self.metadatas.len(),
                i <= n,
                forall|k: int| 0 <= k < i ==> self@.metadatas[k].metadata_address != m@,
            decreases n - i,
        {
            if bytes_eq(self.metadatas[i].metadata_address.as_slice(), m) {
                proof {
                    assert(self@.metadatas[i as int].metadata_address == m@);
                }
                return true;
            }
            i = i + 1;
        }
        false
    }

    fn token_conflicts(&self, rec: &TokenRecord) -> (r: bool)
        ensures
            r == sp_token_conflict(self@.tokens, rec@),
    {
        let n = self.tokens.len();
        let mut i: usize = 0;
        while i < n
            invariant
                n == self.tokens.len(),
                i <= n,
                forall|k: int|
                    0 <= k < i ==> self@.tokens[k].token_address != rec@.token_address
                        && self@.tokens[k].metadata_address != rec@.metadata_address
                        && self@.tokens[k].genesis_signature != rec@.genesis_signature,
            decreases n - i,
        {
            let row = &self.tokens[i];
            if bytes_eq(row.token_address.as_slice(), rec.token_address.as_slice()) || bytes_eq(
                row.metadata_address.as_slice(),
                rec.metadata_address.as_slice(),
            ) || bytes_eq(row.genesis_signature.as_slice(), rec.genesis_signature.as_slice()) {
                proof {
                    let vi = self@.tokens[i as int];
                    assert(vi == self.tokens@[i as int]@);
                    if vi.token_address == rec@.token_address {
                        assert(sp_tokens_have_token(self@.tokens, rec@.token_address));
                    } else if vi.metadata_address == rec@.metadata_address {
                        assert(sp_tokens_have_metadata(self@.tokens, rec@.metadata_address));
                    } else {
                        assert(sp_tokens_have_signature(self@.tokens, rec@.genesis_signature));
                    }
                }
                return true;
            }
            i = i + 1;
        }
        false
    }

    /// Insert a token row unless one of its unique keys (token address,
    /// entry address, genesis signature) is already taken; a collision
    /// is a non-fatal confirmation that the row exists.
    pub fn insert_token_if_absent(&mut self, rec: TokenRecord) -> (r: InsertOutcome)
        requires
            old(self)@.wf(),
        ensures
            final(self)@.wf(),
            r == InsertOutcome::Inserted <==> !sp_token_conflict(old(self)@.tokens, rec@),
            r == InsertOutcome::Inserted ==> final(self)@.tokens == old(self)@.tokens.push(rec@),
            r == InsertOutcome::AlreadyPresent ==> final(self)@.tokens == old(self)@.tokens,
            final(self)@.metadatas == old(self)@.metadatas,
            final(self)@.creators == old(self)@.creators,
            final(self)@.repairs == old(self)@.repairs,
    {
        if self.token_conflicts(&rec) {
            InsertOutcome::AlreadyPresent
        } else {
            let ghost old_tokens = self@.tokens;
            self.tokens.push(rec);
            proof {
                assert(self@.tokens =~= old_tokens.push(rec@));
                assert(tokens_wf(self@.tokens)) by {
                    assert(forall|i: int, j: int|
                        0 <= i < j < self@.tokens.len() ==> self@.tokens[i].token_address
                            != self@.tokens[j].token_address && self@.tokens[i].metadata_address
                            != self@.tokens[j].metadata_address
                            && self@.tokens[i].genesis_signature
                            != self@.tokens[j].genesis_signature) by {
                        assert forall|i: int, j: int| 0 <= i < j < self@.tokens.len() implies self@.tokens[i].token_address
                            != self@.tokens[j].token_address && self@.tokens[i].metadata_address
                            != self@.tokens[j].metadata_address
                            && self@.tokens[i].genesis_signature
                            != self@.tokens[j].genesis_signature by {
                            if j == old_tokens.len() {
                                assert(!sp_tokens_have_token(old_tokens, rec@.token_address));
                                assert(self@.tokens[i] == old_tokens[i]);
                            }
                        }
                    }
                }
            }
            InsertOutcome::Inserted
        }
    }

    /// Insert a metadata row and its creator rows as one logical unit,
    /// unless the row's token address or entry address is already
    /// taken.
    pub fn insert_metadata_if_absent(&mut self, rec: MetadataRecord, shares: Vec<CreatorShare>) -> (r:
        InsertOutcome)
        requires
            old(self)@.wf(),
        ensures
            final(self)@.wf(),
            r == InsertOutcome::Inserted <==> !sp_metadata_conflict(old(self)@.metadatas, rec@),
            r == InsertOutcome::Inserted ==> final(self)@.metadatas == old(self)@.metadatas.push(
                rec@,
            ) && final(self)@.creators == old(self)@.creators + shares@.map_values(
                |c: CreatorShare| c@,
            ),
            r == InsertOutcome::AlreadyPresent ==> final(self)@.metadatas == old(self)@.metadatas
                && final(self)@.creators == old(self)@.creators,
            final(self)@.tokens == old(self)@.tokens,
            final(self)@.repairs == old(self)@.repairs,
    {
        if self.metadata_conflicts(&rec) {
            InsertOutcome::AlreadyPresent
        } else {
            let ghost old_ms = self@.metadatas;
            let ghost old_cs = self@.creators;
            let ghost new_shares = shares@.map_values(|c: CreatorShare| c@);
            self.metadatas.push(rec);
            let mut shares = shares;
            let ghost n = shares@.len();
            let mut k: usize = 0;
            while k < shares.len()
                invariant
                    shares@.len() == n,
                    k <= n,
                    self@.metadatas == old_ms.push(rec@),
                    self@.tokens == old(self)@.tokens,
                    self@.repairs == old(self)@.repairs,
                    self@.creators =~= old_cs + new_shares.take(k as int),
                    new_shares == shares@.map_values(|c: CreatorShare| c@),
                decreases shares@.len() - k,
            {
                let ghost before = self@.creators;
                let share = clone_creator_share(&shares[k]);
                self.creators.push(share);
                proof {
                    assert(self@.creators =~= before.push(new_shares[k as int]));
                    assert(self@.creators =~= old_cs + new_shares.take(k + 1 as int));
                }
                k = k + 1;
            }
            proof {
                assert(new_shares.take(n as int) =~= new_shares);
                assert(metadatas_wf(self@.metadatas)) by {
                    assert forall|i: int, j: int| 0 <= i < j < self@.metadatas.len() implies self@.metadatas[i].token_address
                        != self@.metadatas[j].token_address && self@.metadatas[i].metadata_address
                        != self@.metadatas[j].metadata_address by {
                        if j == old_ms.len() {
                            assert(!sp_metadatas_have_token(old_ms, rec@.token_address));
                            assert(self@.metadatas[i] == old_ms[i]);
                        }
                    }
                }
            }
            InsertOutcome::Inserted
        }
    }

    fn metadata_conflicts(&self, rec: &MetadataRecord) -> (r: bool)
        ensures
            r == sp_metadata_conflict(self@.metadatas, rec@),
    {
        let n = self.metadatas.len();
        let mut i: usize = 0;
        while i < n
            invariant
                n == self.metadatas.len(),
                i <= n,
                forall|k: int|
                    0 <= k < i ==> self@.metadatas[k].token_address != rec@.token_address
                        && self@.metadatas[k].metadata_address != rec@.metadata_address,
            decreases n - i,
        {
            let row = &self.metadatas[i];
            if bytes_eq(row.token_address.as_slice(), rec.token_address.as_slice()) || bytes_eq(
                row.metadata_address.as_slice(),
                rec.metadata_address.as_slice(),
            ) {
                proof {
                    let vi = self@.metadatas[i as int];
                    assert(vi == self.metadatas@[i as int]@);
                    if vi.token_address == rec@.token_address {
                        assert(sp_metadatas_have_token(self@.metadatas, rec@.token_address));
                    } else {
                        assert(sp_metadatas_have_metadata(self@.metadatas, rec@.metadata_address));
                    }
                }
                return true;
            }
            i = i + 1;
        }
        false
    }

    /// Insert a curated repair directive unless its token address or
    /// entry address is already taken.
    pub fn add_repair_if_absent(&mut self, rec: RepairDirective) -> (r: InsertOutcome)
        requires
            old(self)@.wf(),
        ensures
            final(self)@.wf(),
            r == InsertOutcome::Inserted <==> !sp_repair_conflict(old(self)@.repairs, rec@),
            r == InsertOutcome::Inserted ==> final(self)@.repairs == old(self)@.repairs.push(rec@),
            r == InsertOutcome::AlreadyPresent ==> final(self)@.repairs == old(self)@.repairs,
            final(self)@.tokens == old(self)@.tokens,
            final(self)@.metadatas == old(self)@.metadatas,
            final(self)@.creators == old(self)@.creators,
    {
        if self.repair_conflicts(&rec) {
            InsertOutcome::AlreadyPresent
        } else {
            let ghost old_rs = self@.repairs;
            self.repairs.push(rec);
            proof {
                assert(self@.repairs =~= old_rs.push(rec@));
                assert(repairs_wf(self@.repairs)) by {
                    assert forall|i: int, j: int| 0 <= i < j < self@.repairs.len() implies self@.repairs[i].token_address
                        != self@.repairs[j].token_address && self@.repairs[i].metadata_address
                        != self@.repairs[j].metadata_address by {
                        if j == old_rs.len() {
                            assert(!sp_repairs_have_token(old_rs, rec@.token_address));
                            assert(self@.repairs[i] == old_rs[i]);
                        }
                    }
                }
            }
            InsertOutcome::Inserted
        }
    }

    fn repair_conflicts(&self, rec: &RepairDirective) -> (r: bool)
        ensures
            r == sp_repair_conflict(self@.repairs, rec@),
    {
        let n = self.repairs.len();
        let mut i: usize = 0;
        while i < n
            invariant
                n == self.repairs.len(),
                i <= n,
                forall|k: int|
                    0 <= k < i ==> self@.repairs[k].token_address != rec@.token_address
                        && self@.repairs[k].metadata_address != rec@.metadata_address,
            decreases n - i,
        {
            let row = &self.repairs[i];
            if bytes_eq(row.token_address.as_slice(), rec.token_address.as_slice()) || bytes_eq(
                row.metadata_address.as_slice(),
                rec.metadata_address.as_slice(),
            ) {
                proof {
                    let vi = self@.repairs[i as int];
                    assert(vi == self.repairs@[i as int]@);
                    if vi.token_address == rec@.token_address {
                        assert(sp_repairs_have_token(self@.repairs, rec@.token_address));
                    } else {
                        assert(sp_repairs_have_metadata(self@.repairs, rec@.metadata_address));
                    }
                }
                return true;
            }
            i = i + 1;
        }
        false
    }
}

/// Dedup: in a well-formed snapshot, any two token rows that carry the
/// same entry address are the same row — every entry address names at
/// most one token row.
pub proof fn lemma_token_metadata_address_unique(s: StoreView, i: int, j: int)
    requires
        s.wf(),
        0 <= i < s.tokens.len(),
        0 <= j < s.tokens.len(),
        s.tokens[i].metadata_address == s.tokens[j].metadata_address,
    ensures
        i == j,
{
}

/// Dedup: in a well-formed snapshot, every entry address names at most
/// one metadata row.
pub proof fn lemma_metadata_address_unique(s: StoreView, i: int, j: int)
    requires
        s.wf(),
        0 <= i < s.metadatas.len(),
        0 <= j < s.metadatas.len(),
        s.metadatas[i].metadata_address == s.metadatas[j].metadata_address,
    ensures
        i == j,
{
}

// ---------------------------------------------------------------------
// Deterministic processing orders.
// ---------------------------------------------------------------------

/// Decode-stage order on token rows: non-decreasing genesis block time,
/// ties broken by ascending token address.
pub open spec fn row_le(a: TokenRecordView, b: TokenRecordView) -> bool {
    a.genesis_block_time < b.genesis_block_time || (a.genesis_block_time == b.genesis_block_time
        && lex_le(a.token_address, b.token_address))
}

/// The token rows stand in decode-stage order.
pub open spec fn rows_sorted(s: Seq<TokenRecordView>) -> bool {
    forall|i: int, j: int| 0 <= i < j < s.len() ==> row_le(s[i], s[j])
}

/// Reconciliation order on repair rows: ascending token address.
pub open spec fn repair_le(a: RepairDirectiveView, b: RepairDirectiveView) -> bool {
    lex_le(a.token_address, b.token_address)
}

/// The repair rows stand in reconciliation order.
pub open spec fn repairs_sorted(s: Seq<RepairDirectiveView>) -> bool {
    forall|i: int, j: int| 0 <= i < j < s.len() ==> repair_le(s[i], s[j])
}

/// The decode-stage order is total.
pub proof fn lemma_row_le_total(a: TokenRecordView, b: TokenRecordView)
    ensures
        row_le(a, b) || row_le(b, a),
{
    lemma_lex_le_total(a.token_address, b.token_address);
}

/// The decode-stage order is transitive.
pub proof fn lemma_row_le_trans(a: TokenRecordView, b: TokenRecordView, c: TokenRecordView)
    requires
        row_le(a, b),
        row_le(b, c),
    ensures
        row_le(a, c),
{
    if a.genesis_block_time == b.genesis_block_time && b.genesis_block_time
        == c.genesis_block_time {
        lemma_lex_le_trans(a.token_address, b.token_address, c.token_address);
    }
}

fn row_le_exec(a: &TokenRecord, b: &TokenRecord) -> (r: bool)
    ensures
        r == row_le(a@, b@),
{
    if a.genesis_block_time < b.genesis_block_time {
        true
    } else if a.genesis_block_time == b.genesis_block_time {
        bytes_le(a.token_address.as_slice(), b.token_address.as_slice())
    } else {
        false
    }
}

fn repair_le_exec(a: &RepairDirective, b: &RepairDirective) -> (r: bool)
    ensures
        r == repair_le(a@, b@),
{
    bytes_le(a.token_address.as_slice(), b.token_address.as_slice())
}

impl Store {
    /// The token rows in the decode stage's deterministic processing
    /// order: the same rows, sorted by (genesis block time, token
    /// address).
    pub fn tokens_in_decode_order(&self) -> (r: Vec<TokenRecord>)
        ensures
            rows_sorted(views_of_tokens(r@)),
            views_of_tokens(r@).to_multiset() == self@.tokens.to_multiset(),
    {
        let ghost orig = self@.tokens;
        let n = self.tokens.len();
        let mut src: Vec<TokenRecord> = Vec::new();
        let mut i: usize = 0;
        while i < n
            invariant
                n == self.tokens.len(),
                i <= n,
                views_of_tokens(src@) =~= orig.take(i as int),
                orig == self@.tokens,
            decreases n - i,
        {
            let c = clone_token_record(&self.tokens[i]);
            proof {
                assert(orig[i as int] == self.tokens@[i as int]@);
            }
            let ghost src_old = src@;
            src.push(c);
            proof {
                assert(views_of_tokens(src@) =~= views_of_tokens(src_old).push(orig[i as int]));
                assert(views_of_tokens(src@) =~= orig.take(i + 1 as int));
            }
            i = i + 1;
        }
        proof {
            assert(orig.take(n as int) =~= orig);
        }
        let mut out: Vec<TokenRecord> = Vec::new();
        proof {
            assert(views_of_tokens(out@).to_multiset().add(views_of_tokens(src@).to_multiset())
                =~= orig.to_multiset());
        }
        while src.len() > 0
            invariant
                views_of_tokens(out@).to_multiset().add(views_of_tokens(src@).to_multiset())
                    == orig.to_multiset(),
                rows_sorted(views_of_tokens(out@)),
                forall|p: int, q: int|
                    0 <= p < out@.len() && 0 <= q < src@.len() ==> row_le(
                        #[trigger] views_of_tokens(out@)[p],
                        #[trigger] views_of_tokens(src@)[q],
                    ),
            decreases src.len(),
        {
            let ghost sv = views_of_tokens(src@);
            proof {
                lemma_row_le_total(sv[0], sv[0]);
            }
            let mut m: usize = 0;
            let mut k: usize = 1;
            while k < src.len()
                invariant
                    src.len() > 0,
                    sv == views_of_tokens(src@),
                    m < src.len(),
                    k <= src.len(),
                    forall|t: int| 0 <= t < k ==> row_le(sv[m as int], #[trigger] sv[t]),
                decreases src.len() - k,
            {
                if !row_le_exec(&src[m], &src[k]) {
                    proof {
                        lemma_row_le_total(sv[m as int], sv[k as int]);
                        assert forall|t: int| 0 <= t < k + 1 implies row_le(
                            sv[k as int],
                            #[trigger] sv[t],
                        ) by {
                            if t < k {
                                lemma_row_le_trans(sv[k as int], sv[m as int], sv[t]);
                            } else {
                                lemma_row_le_total(sv[k as int], sv[k as int]);
                            }
                        }
                    }
                    m = k;
                }
                k = k + 1;
            }
            proof {
                lemma_row_le_total(sv[m as int], sv[m as int]);
            }
            let ghost out_old = views_of_tokens(out@);
            let x = src.remove(m);
            out.push(x);
            proof {
                assert(x@ == sv[m as int]);
                assert(sv.contains(sv[m as int]));
                assert(sv.to_multiset().count(sv[m as int]) > 0);
                assert(views_of_tokens(src@) =~= sv.remove(m as int));
                assert(sv.remove(m as int).to_multiset() =~= sv.to_multiset().remove(
                    sv[m as int],
                ));
                assert(views_of_tokens(out@) =~= out_old.push(sv[m as int]));
                assert(out_old.push(sv[m as int]).to_multiset() =~= out_old.to_multiset().insert(
                    sv[m as int],
                ));
                assert(views_of_tokens(out@).to_multiset().add(
                    views_of_tokens(src@).to_multiset(),
                ) =~= orig.to_multiset());
                assert(rows_sorted(views_of_tokens(out@))) by {
                    assert forall|i2: int, j2: int|
                        0 <= i2 < j2 < views_of_tokens(out@).len() implies row_le(
                        views_of_tokens(out@)[i2],
                        views_of_tokens(out@)[j2],
                    ) by {
                        if j2 == out_old.len() {
                            assert(views_of_tokens(out@)[i2] == out_old[i2]);
                        }
                    }
                }
                assert forall|p: int, q: int|
                    0 <= p < out@.len() && 0 <= q < src@.len() implies row_le(
                    #[trigger] views_of_tokens(out@)[p],
                    #[trigger] views_of_tokens(src@)[q],
                ) by {
                    let sq = views_of_tokens(src@)[q];
                    assert(sq == if q < m { sv[q] } else { sv[q + 1] });
                    if p < out_old.len() {
                        assert(views_of_tokens(out@)[p] == out_old[p]);
                    } else {
                        assert(views_of_tokens(out@)[p] == sv[m as int]);
                    }
                }
            }
        }
        out
    }

    /// The repair rows in the reconciler's deterministic processing
    /// order: the same rows, sorted by token address.
    pub fn repairs_in_order(&self) -> (r: Vec<RepairDirective>)
        ensures
            repairs_sorted(views_of_repairs(r@)),
            views_of_repairs(r@).to_multiset() == self@.repairs.to_multiset(),
    {
        let ghost orig = self@.repairs;
        let n = self.repairs.len();
        let mut src: Vec<RepairDirective> = Vec::new();
        let mut i: usize = 0;
        while i < n
            invariant
                n == self.repairs.len(),
                i <= n,
                views_of_repairs(src@) =~= orig.take(i as int),
                orig == self@.repairs,
            decreases n - i,
        {
            let c = clone_repair_directive(&self.repairs[i]);
            proof {
                assert(orig[i as int] == self.repairs@[i as int]@);
            }
            let ghost src_old = src@;
            src.push(c);
            proof {
                assert(views_of_repairs(src@) =~= views_of_repairs(src_old).push(orig[i as int]));
                assert(views_of_repairs(src@) =~= orig.take(i + 1 as int));
            }
            i = i + 1;
        }
        proof {
            assert(orig.take(n as int) =~= orig);
        }
        let mut out: Vec<RepairDirective> = Vec::new();
        proof {
            assert(views_of_repairs(out@).to_multiset().add(views_of_repairs(src@).to_multiset())
                =~= orig.to_multiset());
        }
        while src.len() > 0
            invariant
                views_of_repairs(out@).to_multiset().add(views_of_repairs(src@).to_multiset())
                    == orig.to_multiset(),
                repairs_sorted(views_of_repairs(out@)),
                forall|p: int, q: int|
                    0 <= p < out@.len() && 0 <= q < src@.len() ==> repair_le(
                        #[trigger] views_of_repairs(out@)[p],
                        #[trigger] views_of_repairs(src@)[q],
                    ),
            decreases src.len(),
        {
            let ghost sv = views_of_repairs(src@);
            proof {
                lemma_lex_le_total(sv[0].token_address, sv[0].token_address);
            }
            let mut m: usize = 0;
            let mut k: usize = 1;
            while k < src.len()
                invariant
                    src.len() > 0,
                    sv == views_of_repairs(src@),
                    m < src.len(),
                    k <= src.len(),
                    forall|t: int| 0 <= t < k ==> repair_le(sv[m as int], #[trigger] sv[t]),
                decreases src.len() - k,
            {
                if !repair_le_exec(&src[m], &src[k]) {
                    proof {
                        lemma_lex_le_total(sv[m as int].token_address, sv[k as int].token_address);
                        assert forall|t: int| 0 <= t < k + 1 implies repair_le(
                            sv[k as int],
                            #[trigger] sv[t],
                        ) by {
                            if t < k {
                                lemma_lex_le_trans(
                                    sv[k as int].token_address,
                                    sv[m as int].token_address,
                                    sv[t].token_address,
                                );
                            } else {
                                lemma_lex_le_total(
                                    sv[k as int].token_address,
                                    sv[k as int].token_address,
                                );
                            }
                        }
                    }
                    m = k;
                }
                k = k + 1;
            }
            proof {
                lemma_lex_le_total(sv[m as int].token_address, sv[m as int].token_address);
            }
            let ghost out_old = views_of_repairs(out@);
            let x = src.remove(m);
            out.push(x);
            proof {
                assert(x@ == sv[m as int]);
                assert(sv.contains(sv[m as int]));
                assert(sv.to_multiset().count(sv[m as int]) > 0);
                assert(views_of_repairs(src@) =~= sv.remove(m as int));
                assert(sv.remove(m as int).to_multiset() =~= sv.to_multiset().remove(
                    sv[m as int],
                ));
                assert(views_of_repairs(out@) =~= out_old.push(sv[m as int]));
                assert(out_old.push(sv[m as int]).to_multiset() =~= out_old.to_multiset().insert(
                    sv[m as int],
                ));
                assert(views_of_repairs(out@).to_multiset().add(
                    views_of_repairs(src@).to_multiset(),
                ) =~= orig.to_multiset());
                assert(repairs_sorted(views_of_repairs(out@))) by {
                    assert forall|i2: int, j2: int|
                        0 <= i2 < j2 < views_of_repairs(out@).len() implies repair_le(
                        views_of_repairs(out@)[i2],
                        views_of_repairs(out@)[j2],
                    ) by {
                        if j2 == out_old.len() {
                            assert(views_of_repairs(out@)[i2] == out_old[i2]);
                        }
                    }
                }
                assert forall|p: int, q: int|
                    0 <= p < out@.len() && 0 <= q < src@.len() implies repair_le(
                    #[trigger] views_of_repairs(out@)[p],
                    #[trigger] views_of_repairs(src@)[q],
                ) by {
                    let sq = views_of_repairs(src@)[q];
                    assert(sq == if q < m { sv[q] } else { sv[q + 1] });
                    if p < out_old.len() {
                        assert(views_of_repairs(out@)[p] == out_old[p]);
                    } else {
                        assert(views_of_repairs(out@)[p] == sv[m as int]);
                    }
                }
            }
        }
        out
    }
}

/// Copy a token row.
pub fn clone_token_record(r: &TokenRecord) -> (c: TokenRecord)
    ensures
        c@ == r@,
{
    TokenRecord {
        token_address: slice_to_vec(r.token_address.as_slice()),
        metadata_address: slice_to_vec(r.metadata_address.as_slice()),
        genesis_signature: slice_to_vec(r.genesis_signature.as_slice()),
        genesis_block_time: r.genesis_block_time,
    }
}

/// Copy a creator row.
pub fn clone_creator_share(r: &CreatorShare) -> (c: CreatorShare)
    ensures
        c@ == r@,
{
    CreatorShare {
        metadata_address: slice_to_vec(r.metadata_address.as_slice()),
        address: slice_to_vec(r.address.as_slice()),
        share: r.share,
        idx: r.idx,
    }
}

/// Copy a repair row.
pub fn clone_repair_directive(r: &RepairDirective) -> (c: RepairDirective)
    ensures
        c@ == r@,
{
    RepairDirective {
        token_address: slice_to_vec(r.token_address.as_slice()),
        metadata_address: slice_to_vec(r.metadata_address.as_slice()),
        old_name: slice_to_vec(r.old_name.as_slice()),
        new_name: slice_to_vec(r.new_name.as_slice()),
        old_uri: slice_to_vec(r.old_uri.as_slice()),
        new_uri: slice_to_vec(r.new_uri.as_slice()),
    }
}

} // verus!
