//! Genesis resolution: deciding, from a registry entry's transaction
//! history, which transaction created it and which token identity it is
//! paired with.
//!
//! The gateway hands the surrounding application a signature history
//! (newest first) and, for the chosen signature, a decoded transaction.
//! Both arrive here as plain values; everything below is a pure
//! decision.  The creation transaction is the oldest entry of the
//! history, its instruction list must have exactly the five
//! instructions of the fixed creation flow, and the paired token is the
//! account at index 1 of its account-key list (index 0 is the
//! fee-payer).

use vstd::prelude::*;

use vstd::slice::slice_to_vec;

verus! {

/// One entry of an address's signature history, newest first.
#[derive(Clone, Debug)]
pub struct SignatureInfo {
    pub signature: Vec<u8>,
    pub block_time: Option<i64>,
}

/// Mathematical value of a signature-history entry.
pub struct SignatureInfoView {
    pub signature: Seq<u8>,
    pub block_time: Option<i64>,
}

impl View for SignatureInfo {
    type V = SignatureInfoView;

    open spec fn view(&self) -> SignatureInfoView {
        SignatureInfoView { signature: self.signature@, block_time: self.block_time }
    }
}

/// The shape of a decoded transaction: how many instructions it carries
/// and its account-key list.
#[derive(Clone, Debug)]
pub struct TxShape {
    pub instruction_count: usize,
    pub account_keys: Vec<Vec<u8>>,
}

/// Mathematical value of a transaction shape.
pub struct TxShapeView {
    pub instruction_count: int,
    pub account_keys: Seq<Seq<u8>>,
}

impl View for TxShape {
    type V = TxShapeView;

    open spec fn view(&self) -> TxShapeView {
        TxShapeView {
            instruction_count: self.instruction_count as int,
            account_keys: self.account_keys@.map_values(|k: Vec<u8>| k@),
        }
    }
}

/// The resolved creation event of a registry entry.
#[derive(Clone, Debug)]
pub struct GenesisRecord {
    pub token_address: Vec<u8>,
    pub genesis_signature: Vec<u8>,
    pub genesis_block_time: i64,
}

/// Mathematical value of a resolved creation event.
pub struct GenesisRecordView {
    pub token_address: Seq<u8>,
    pub genesis_signature: Seq<u8>,
    pub genesis_block_time: i64,
}

impl View for GenesisRecord {
    type V = GenesisRecordView;

    open spec fn view(&self) -> GenesisRecordView {
        GenesisRecordView {
            token_address: self.token_address@,
            genesis_signature: self.genesis_signature@,
            genesis_block_time: self.genesis_block_time,
        }
    }
}

/// Why a candidate entry was rejected instead of resolved.
#[derive(Clone, Copy, Debug, PartialEq, Eq, Structural)]
pub enum GenesisError {
    /// The history holds 1000 or more signatures: completeness and
    /// ordering can no longer be assumed at that volume.
    AmbiguousHistory,
    /// The history is empty.
    NoHistory,
    /// The oldest history entry carries no block time.
    MissingBlockTime,
    /// The creation transaction could not be fetched or decoded.
    UndecodableTransaction,
    /// The creation transaction does not have exactly five
    /// instructions, so this entry was not created by the expected
    /// flow.
    UnexpectedShape,
    /// The transaction's account-key list is too short to name the
    /// paired token.
    MissingTokenAddress,
}

/// Cap on the history length beyond which resolution refuses to guess.
pub open spec fn spec_history_cap() -> int {
    1000
}

/// The genesis-resolution decision, stated over the history (newest
/// first) and the decoded shape of the oldest entry's transaction
/// (`None` when it could not be fetched or decoded).
pub open spec fn sp_resolve_genesis(
    sigs: Seq<SignatureInfoView>,
    tx: Option<TxShapeView>,
) -> Result<GenesisRecordView, GenesisError> {
    if sigs.len() >= spec_history_cap() {
        Err(GenesisError::AmbiguousHistory)
    } else if sigs.len() == 0 {
        Err(GenesisError::NoHistory)
    } else if sigs.last().block_time is None {
        Err(GenesisError::MissingBlockTime)
    } else {
        match tx {
            None => Err(GenesisError::UndecodableTransaction),
            Some(t) => if t.instruction_count != 5 {
                Err(GenesisError::UnexpectedShape)
            } else if t.account_keys.len() < 2 {
                Err(GenesisError::MissingTokenAddress)
            } else {
                Ok(
                    GenesisRecordView {
                        token_address: t.account_keys[1],
                        genesis_signature: sigs.last().signature,
                        genesis_block_time: sigs.last().block_time.unwrap(),
                    },
                )
            },
        }
    }
}

/// The views of a signature history.
pub open spec fn views_of_sigs(sigs: Seq<SignatureInfo>) -> Seq<SignatureInfoView> {
    sigs.map_values(|x: SignatureInfo| x@)
}

/// The view of an optional transaction shape.
pub open spec fn view_of_tx(tx: Option<&TxShape>) -> Option<TxShapeView> {
    match tx {
        None => None,
        Some(t) => Some(t@),
    }
}

/// The listing decision: which token identity a registry entry is
/// paired with, stated over the history and the decoded shape of the
/// oldest entry's transaction.  Listing only names the token, so —
/// unlike `sp_resolve_genesis`, whose record stores the creation time —
/// it makes no demand on the oldest entry's block time.
pub open spec fn sp_identify_token(
    sigs: Seq<SignatureInfoView>,
    tx: Option<TxShapeView>,
) -> Result<Seq<u8>, GenesisError> {
    if sigs.len() >= spec_history_cap() {
        Err(GenesisError::AmbiguousHistory)
    } else if sigs.len() == 0 {
        Err(GenesisError::NoHistory)
    } else {
        match tx {
            None => Err(GenesisError::UndecodableTransaction),
            Some(t) => if t.instruction_count != 5 {
                Err(GenesisError::UnexpectedShape)
            } else if t.account_keys.len() < 2 {
                Err(GenesisError::MissingTokenAddress)
            } else {
                Ok(t.account_keys[1])
            },
        }
    }
}

/// Whenever full genesis resolution succeeds, listing identifies the
/// same token.
pub proof fn lemma_resolution_refines_listing(
    sigs: Seq<SignatureInfoView>,
    tx: Option<TxShapeView>,
)
    requires
        sp_resolve_genesis(sigs, tx) is Ok,
    ensures
        sp_identify_token(sigs, tx) == Ok::<Seq<u8>, GenesisError>(
            sp_resolve_genesis(sigs, tx)->Ok_0.token_address,
        ),
{
}

/// First phase of the listing flow, decided before any further gateway
/// call: pick the oldest history entry, or reject the candidate.  On
/// success the caller fetches that entry's transaction and finishes
/// with `identify_token`.  Unlike `select_genesis_signature`, an
/// absent block time does not reject the entry: listing never reads
/// it.
pub fn select_oldest_signature<'a>(sigs: &'a Vec<SignatureInfo>) -> (r: Result<
    &'a SignatureInfo,
    GenesisError,
>)
    ensures
        sigs@.len() >= spec_history_cap() ==> r == Err::<&'a SignatureInfo, GenesisError>(
            GenesisError::AmbiguousHistory,
        ),
        sigs@.len() == 0 ==> r == Err::<&'a SignatureInfo, GenesisError>(GenesisError::NoHistory),
        0 < sigs@.len() < spec_history_cap() ==> r is Ok && r->Ok_0@ == sigs@.last()@,
{
    if sigs.len() >= 1000 {
        return Err(GenesisError::AmbiguousHistory);
    }
    if sigs.len() == 0 {
        return Err(GenesisError::NoHistory);
    }
    Ok(&sigs[sigs.len() - 1])
}

/// Identify the token paired with a registry entry, for the listing
/// flow, from its signature history and the decoded shape of the
/// oldest entry's transaction (`None` when the transaction could not
/// be fetched or decoded).
///
/// Agrees with `sp_identify_token` on every input: the token address
/// (account key 1 of the oldest entry's transaction) is owed exactly
/// when the history is non-empty and below the cap, the transaction
/// decoded, it has exactly five instructions, and it names at least
/// two account keys — whether or not the oldest entry carries a block
/// time.
pub fn identify_token(sigs: &Vec<SignatureInfo>, tx: Option<&TxShape>) -> (r: Result<
    Vec<u8>,
    GenesisError,
>)
    ensures
        r is Ok <==> sp_identify_token(views_of_sigs(sigs@), view_of_tx(tx)) is Ok,
        r is Ok ==> sp_identify_token(views_of_sigs(sigs@), view_of_tx(tx))->Ok_0 == r->Ok_0@,
        r is Err ==> sp_identify_token(views_of_sigs(sigs@), view_of_tx(tx))->Err_0 == r->Err_0,
{
    if sigs.len() >= 1000 {
        return Err(GenesisError::AmbiguousHistory);
    }
    if sigs.len() == 0 {
        return Err(GenesisError::NoHistory);
    }
    let t = match tx {
        None => {
            return Err(GenesisError::UndecodableTransaction);
        },
        Some(t) => t,
    };
    if t.instruction_count != 5 {
        return Err(GenesisError::UnexpectedShape);
    }
    if t.account_keys.len() < 2 {
        return Err(GenesisError::MissingTokenAddress);
    }
    proof {
        assert(t@.account_keys[1] == t.account_keys@[1]@);
    }
    Ok(slice_to_vec(t.account_keys[1].as_slice()))
}

/// First phase of genesis resolution, decided before any further
/// gateway call: pick the oldest history entry, or reject the
/// candidate.  On success the caller fetches that entry's transaction
/// and finishes with `resolve_genesis`.  Discovery stores the creation
/// time, so an oldest entry without a block time is rejected here.
pub fn select_genesis_signature<'a>(sigs: &'a Vec<SignatureInfo>) -> (r: Result<
    &'a SignatureInfo,
    GenesisError,
>)
    ensures
        sigs@.len() >= spec_history_cap() ==> r == Err::<&'a SignatureInfo, GenesisError>(
            GenesisError::AmbiguousHistory,
        ),
        sigs@.len() == 0 ==> r == Err::<&'a SignatureInfo, GenesisError>(GenesisError::NoHistory),
        0 < sigs@.len() < spec_history_cap() && sigs@.last()@.block_time is None ==> r
            == Err::<&'a SignatureInfo, GenesisError>(GenesisError::MissingBlockTime),
        0 < sigs@.len() < spec_history_cap() && sigs@.last()@.block_time is Some ==> r is Ok
            && r->Ok_0@ == sigs@.last()@,
{
    if sigs.len() >= 1000 {
        return Err(GenesisError::AmbiguousHistory);
    }
    if sigs.len() == 0 {
        return Err(GenesisError::NoHistory);
    }
    let g = &sigs[sigs.len() - 1];
    match g.block_time {
        None => Err(GenesisError::MissingBlockTime),
        Some(_) => Ok(g),
    }
}

/// Resolve a registry entry's creation event from its signature history
/// and the decoded shape of the oldest entry's transaction (`None` when
/// the transaction could not be fetched or decoded).
///
/// Agrees with `sp_resolve_genesis` on every input: success is owed
/// exactly when the history is non-empty and below the cap, its oldest
/// entry carries a block time, the transaction decoded, it has exactly
/// five instructions, and it names at least two account keys.
pub fn resolve_genesis(sigs: &Vec<SignatureInfo>, tx: Option<&TxShape>) -> (r: Result<
    GenesisRecord,
    GenesisError,
>)
    ensures
        r is Ok <==> sp_resolve_genesis(views_of_sigs(sigs@), view_of_tx(tx)) is Ok,
        r is Ok ==> sp_resolve_genesis(views_of_sigs(sigs@), view_of_tx(tx))->Ok_0 == r->Ok_0@,
        r is Err ==> sp_resolve_genesis(views_of_sigs(sigs@), view_of_tx(tx))->Err_0 == r->Err_0,
{
    proof {
        if sigs@.len() > 0 {
            assert(views_of_sigs(sigs@).last() == sigs@.last()@);
        }
    }
    if sigs.len() >= 1000 {
        return Err(GenesisError::AmbiguousHistory);
    }
    if sigs.len() == 0 {
        return Err(GenesisError::NoHistory);
    }
    let g = &sigs[sigs.len() - 1];
    let bt = match g.block_time {
        None => {
            return Err(GenesisError::MissingBlockTime);
        },
        Some(bt) => bt,
    };
    let t = match tx {
        None => {
            return Err(GenesisError::UndecodableTransaction);
        },
        Some(t) => t,
    };
    if t.instruction_count != 5 {
        return Err(GenesisError::UnexpectedShape);
    }
    if t.account_keys.len() < 2 {
        return Err(GenesisError::MissingTokenAddress);
    }
    proof {
        assert(t@.account_keys[1] == t.account_keys@[1]@);
    }
    Ok(
        GenesisRecord {
            token_address: slice_to_vec(t.account_keys[1].as_slice()),
            genesis_signature: slice_to_vec(g.signature.as_slice()),
            genesis_block_time: bt,
        },
    )
}

} // verus!
