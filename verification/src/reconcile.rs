//! Reconciliation: comparing curated repair directives against live
//! decoded registry entries and planning corrective update
//! transactions.
//!
//! A plan is only ever `Submit` when drift is detected *and* the
//! supplied credential's public identity equals the live entry's
//! update authority: an unauthorized write is never attempted.  The
//! corrective payload carries the corrected name and uri and copies
//! symbol, fee and creators unchanged from the live record.  The
//! surrounding application signs and submits the planned payload; the
//! instruction data it wraps is produced here, byte for byte.

use vstd::prelude::*;

use vstd::slice::slice_to_vec;
use crate::bytes::bytes_eq;
use crate::codec::{CreatorEntry, CreatorView, DecodedEntry, EntryView};
use crate::store::RepairDirective;

verus! {

/// Drift: the desired name or uri differs from the live entry's
/// canonical (padding-stripped) value.
pub open spec fn sp_drift(d: crate::store::RepairDirectiveView, live: EntryView) -> bool {
    d.new_name != live.name || d.new_uri != live.uri
}

/// The corrective update planned for one directive: corrected name and
/// uri, everything else copied unchanged from the live record.
#[derive(Debug)]
pub struct UpdatePayload {
    pub metadata_address: Vec<u8>,
    pub update_authority: Vec<u8>,
    pub name: Vec<u8>,
    pub symbol: Vec<u8>,
    pub uri: Vec<u8>,
    pub seller_fee_basis_points: u16,
    pub creators: Option<Vec<CreatorEntry>>,
}

/// Mathematical value of a corrective update.
pub struct UpdatePayloadView {
    pub metadata_address: Seq<u8>,
    pub update_authority: Seq<u8>,
    pub name: Seq<u8>,
    pub symbol: Seq<u8>,
    pub uri: Seq<u8>,
    pub seller_fee_basis_points: u16,
    pub creators: Option<Seq<CreatorView>>,
}

impl View for UpdatePayload {
    type V = UpdatePayloadView;

    open spec fn view(&self) -> UpdatePayloadView {
        UpdatePayloadView {
            metadata_address: self.metadata_address@,
            update_authority: self.update_authority@,
            name: self.name@,
            symbol: self.symbol@,
            uri: self.uri@,
            seller_fee_basis_points: self.seller_fee_basis_points,
            creators: match self.creators {
                None => None,
                Some(cs) => Some(cs@.map_values(|c: CreatorEntry| c@)),
            },
        }
    }
}

/// The payload a directive resolves to when drift is found and the
/// credential is authorized.
pub open spec fn sp_repair_payload(
    d: crate::store::RepairDirectiveView,
    live: EntryView,
) -> UpdatePayloadView {
    UpdatePayloadView {
        metadata_address: d.metadata_address,
        update_authority: live.update_authority,
        name: d.new_name,
        symbol: live.symbol,
        uri: d.new_uri,
        seller_fee_basis_points: live.seller_fee_basis_points,
        creators: live.creators,
    }
}

/// What the reconciler decided for one directive.
#[derive(Debug)]
pub enum RepairDecision {
    /// The live entry already matches the desired values; nothing to
    /// do.
    MatchesDesired,
    /// Drift was found but the credential does not control the entry;
    /// reported, never submitted.
    Unauthorized,
    /// Drift was found and the credential is authorized: submit this
    /// corrective update.
    Submit(UpdatePayload),
}

/// Deep-copy a creator list.
fn clone_creators(cs: &Vec<CreatorEntry>) -> (r: Vec<CreatorEntry>)
    ensures
        r@.map_values(|c: CreatorEntry| c@) == cs@.map_values(|c: CreatorEntry| c@),
{
    let mut r: Vec<CreatorEntry> = Vec::new();
    let n = cs.len();
    let mut k: usize = 0;
    while k < n
        invariant
            n == cs@.len(),
            k <= n,
            r@.map_values(|c: CreatorEntry| c@) =~= cs@.map_values(|c: CreatorEntry| c@).take(
                k as int,
            ),
        decreases n - k,
    {
        let c = &cs[k];
        let item = CreatorEntry {
            address: slice_to_vec(c.address.as_slice()),
            verified: c.verified,
            share: c.share,
        };
        proof {
            let f = |c: CreatorEntry| c@;
            assert(cs@.map_values(f)[k as int] == cs@[k as int]@);
            assert(item@ == cs@.map_values(f)[k as int]);
        }
        let ghost r_old = r@;
        r.push(item);
        proof {
            let f = |c: CreatorEntry| c@;
            assert(r_old.map_values(f).len() == r_old.len());
            assert(r_old.len() == k);
            assert(r@ == r_old.push(item));
            assert(r@.len() == k + 1);
            assert forall|j: int| 0 <= j < k + 1 implies #[trigger] r@.map_values(f)[j]
                == cs@.map_values(f).take(k + 1 as int)[j] by {
                assert(r@.map_values(f)[j] == r@[j]@);
                if j < k {
                    assert(r@[j] == r_old[j]);
                    assert(r_old.map_values(f)[j] == r_old[j]@);
                } else {
                    assert(r@[j] == item);
                }
            }
            assert(r@.map_values(f) =~= cs@.map_values(f).take(k + 1 as int));
        }
        k = k + 1;
    }
    proof {
        let f = |c: CreatorEntry| c@;
        assert(cs@.map_values(f).take(n as int) =~= cs@.map_values(f));
    }
    r
}

/// Decide one repair directive against the live decoded entry and the
/// public identity of the supplied signing credential.
///
/// `Submit` is returned exactly when drift is found and the credential
/// matches the live update authority, and its payload then carries the
/// directive's corrected name and uri with symbol, fee and creators
/// copied unchanged from the live record.  A credential that does not
/// match never yields `Submit`, drift or not.
pub fn plan_repair(directive: &RepairDirective, live: &DecodedEntry, credential_identity: &[u8]) -> (r:
    RepairDecision)
    ensures
        r is MatchesDesired <==> !sp_drift(directive@, live@),
        r is Unauthorized <==> sp_drift(directive@, live@) && credential_identity@
            != live@.update_authority,
        r is Submit <==> sp_drift(directive@, live@) && credential_identity@
            == live@.update_authority,
        r is Submit ==> r->Submit_0@ == sp_repair_payload(directive@, live@),
{
    let name_matches = bytes_eq(directive.new_name.as_slice(), live.name.as_slice());
    let uri_matches = bytes_eq(directive.new_uri.as_slice(), live.uri.as_slice());
    if name_matches && uri_matches {
        return RepairDecision::MatchesDesired;
    }
    if !bytes_eq(credential_identity, live.update_authority.as_slice()) {
        return RepairDecision::Unauthorized;
    }
    let creators = match &live.creators {
        None => None,
        Some(cs) => Some(clone_creators(cs)),
    };
    RepairDecision::Submit(
        UpdatePayload {
            metadata_address: slice_to_vec(directive.metadata_address.as_slice()),
            update_authority: slice_to_vec(live.update_authority.as_slice()),
            name: slice_to_vec(directive.new_name.as_slice()),
            symbol: slice_to_vec(live.symbol.as_slice()),
            uri: slice_to_vec(directive.new_uri.as_slice()),
            seller_fee_basis_points: live.seller_fee_basis_points,
            creators,
        },
    )
}

/// The authority reassignment planned for one entry: only the update
/// authority changes, name and uri are untouched.
#[derive(Debug)]
pub struct ReassignPayload {
    pub metadata_address: Vec<u8>,
    pub update_authority: Vec<u8>,
    pub new_update_authority: Vec<u8>,
}

/// Mathematical value of an authority reassignment.
pub struct ReassignPayloadView {
    pub metadata_address: Seq<u8>,
    pub update_authority: Seq<u8>,
    pub new_update_authority: Seq<u8>,
}

impl View for ReassignPayload {
    type V = ReassignPayloadView;

    open spec fn view(&self) -> ReassignPayloadView {
        ReassignPayloadView {
            metadata_address: self.metadata_address@,
            update_authority: self.update_authority@,
            new_update_authority: self.new_update_authority@,
        }
    }
}

/// What the reconciler decided for one entry when reassigning
/// authority.
#[derive(Debug)]
pub enum ReassignDecision {
    /// The credential does not control the entry; skipped.
    Unauthorized,
    /// The credential is authorized: submit this reassignment.
    Reassign(ReassignPayload),
}

/// Decide an authority reassignment for one entry against its live
/// decoded record.  `Reassign` is returned exactly when the
/// credential's public identity equals the live update authority.
pub fn plan_reassign(
    metadata_address: &[u8],
    live: &DecodedEntry,
    credential_identity: &[u8],
    new_authority: &[u8],
) -> (r: ReassignDecision)
    ensures
        r is Reassign <==> credential_identity@ == live@.update_authority,
        r is Reassign ==> r->Reassign_0@ == (ReassignPayloadView {
            metadata_address: metadata_address@,
            update_authority: live@.update_authority,
            new_update_authority: new_authority@,
        }),
{
    if bytes_eq(credential_identity, live.update_authority.as_slice()) {
        ReassignDecision::Reassign(
            ReassignPayload {
                metadata_address: slice_to_vec(metadata_address),
                update_authority: slice_to_vec(live.update_authority.as_slice()),
                new_update_authority: slice_to_vec(new_authority),
            },
        )
    } else {
        ReassignDecision::Unauthorized
    }
}

// ---------------------------------------------------------------------
// Corrective-instruction data.
//
// The registry program's update instruction carries, in the same wire
// style as the account layouts: a leading instruction tag (the update
// instruction is tag 1), an optional field record (name, symbol, uri,
// fee, creators), an optional new update authority, and an optional
// primary-sale flag.  A repair sends only the field record; a
// reassignment sends only the new authority.
// ---------------------------------------------------------------------

/// Little-endian encoding of a `u16`.
pub open spec fn sp_enc_u16le(v: u16) -> Seq<u8> {
    seq![(v % 0x100) as u8, ((v / 0x100) % 0x100) as u8]
}

/// Little-endian encoding of a `u32`.
pub open spec fn sp_enc_u32le(v: u32) -> Seq<u8> {
    seq![
        (v % 0x100) as u8,
        ((v / 0x100) % 0x100) as u8,
        ((v / 0x1_0000) % 0x100) as u8,
        ((v / 0x100_0000) % 0x100) as u8,
    ]
}

/// A length-prefixed byte string.
pub open spec fn sp_enc_bytes(b: Seq<u8>) -> Seq<u8>
    recommends
        b.len() <= u32::MAX,
{
    sp_enc_u32le(b.len() as u32) + b
}

/// One creator record.
pub open spec fn sp_enc_creator(c: CreatorView) -> Seq<u8> {
    c.address + seq![
        if c.verified {
            1u8
        } else {
            0u8
        },
        c.share,
    ]
}

/// A creator list, in order.
pub open spec fn sp_enc_creator_list(cs: Seq<CreatorView>) -> Seq<u8>
    decreases cs.len(),
{
    if cs.len() == 0 {
        Seq::empty()
    } else {
        sp_enc_creator_list(cs.drop_last()) + sp_enc_creator(cs.last())
    }
}

/// An optional creator list: tag byte, then count and records.
pub open spec fn sp_enc_opt_creators(cs: Option<Seq<CreatorView>>) -> Seq<u8> {
    match cs {
        None => seq![0u8],
        Some(cs) => seq![1u8] + sp_enc_u32le(cs.len() as u32) + sp_enc_creator_list(cs),
    }
}

/// The instruction data of a corrective update: tag 1, the field
/// record present, authority and primary-sale flag absent.
pub open spec fn sp_update_instruction_data(p: UpdatePayloadView) -> Seq<u8> {
    seq![1u8, 1u8] + sp_enc_bytes(p.name) + sp_enc_bytes(p.symbol) + sp_enc_bytes(p.uri)
        + sp_enc_u16le(p.seller_fee_basis_points) + sp_enc_opt_creators(p.creators) + seq![
        0u8,
        0u8,
    ]
}

/// The instruction data of an authority reassignment: tag 1, no field
/// record, the new authority present, primary-sale flag absent.
pub open spec fn sp_reassign_instruction_data(new_authority: Seq<u8>) -> Seq<u8> {
    seq![1u8, 0u8, 1u8] + new_authority + seq![0u8]
}

/// Every length-prefixed field of the payload fits its `u32` prefix.
pub open spec fn sp_update_lengths_ok(p: UpdatePayloadView) -> bool {
    p.name.len() <= u32::MAX && p.symbol.len() <= u32::MAX && p.uri.len() <= u32::MAX && match p
        .creators {
        None => true,
        Some(cs) => cs.len() <= u32::MAX,
    }
}

fn push_bytes(out: &mut Vec<u8>, b: &[u8])
    ensures
        final(out)@ == old(out)@ + b@,
{
    let ghost base = out@;
    let n = b.len();
    let mut k: usize = 0;
    while k < n
        invariant
            n == b@.len(),
            k <= n,
            out@ =~= base + b@.take(k as int),
        decreases n - k,
    {
        out.push(b[k]);
        proof {
            assert(out@ =~= base + b@.take(k + 1 as int));
        }
        k = k + 1;
    }
    proof {
        assert(base + b@.take(n as int) =~= base + b@);
    }
}

fn push_u16le(out: &mut Vec<u8>, v: u16)
    ensures
        final(out)@ == old(out)@ + sp_enc_u16le(v),
{
    let ghost base = out@;
    out.push((v % 0x100) as u8);
    out.push(((v / 0x100) % 0x100) as u8);
    proof {
        assert(out@ =~= base + sp_enc_u16le(v));
    }
}

fn push_u32le(out: &mut Vec<u8>, v: u32)
    ensures
        final(out)@ == old(out)@ + sp_enc_u32le(v),
{
    let ghost base = out@;
    out.push((v % 0x100) as u8);
    out.push(((v / 0x100) % 0x100) as u8);
    out.push(((v / 0x1_0000) % 0x100) as u8);
    out.push(((v / 0x100_0000) % 0x100) as u8);
    proof {
        assert(out@ =~= base + sp_enc_u32le(v));
    }
}

fn push_len_bytes(out: &mut Vec<u8>, b: &[u8])
    requires
        b@.len() <= u32::MAX,
    ensures
        final(out)@ == old(out)@ + sp_enc_bytes(b@),
{
    let ghost base = out@;
    push_u32le(out, b.len() as u32);
    push_bytes(out, b);
    proof {
        assert(out@ =~= base + sp_enc_bytes(b@));
    }
}

fn push_creator_list(out: &mut Vec<u8>, cs: &Vec<CreatorEntry>)
    ensures
        final(out)@ == old(out)@ + sp_enc_creator_list(
            cs@.map_values(|c: CreatorEntry| c@),
        ),
{
    let ghost base = out@;
    let ghost cv = cs@.map_values(|c: CreatorEntry| c@);
    proof {
        assert(sp_enc_creator_list(cv.take(0)) =~= Seq::<u8>::empty());
        assert(out@ =~= base + sp_enc_creator_list(cv.take(0)));
    }
    let n = cs.len();
    let mut k: usize = 0;
    while k < n
        invariant
            n == cs@.len(),
            k <= n,
            cv == cs@.map_values(|c: CreatorEntry| c@),
            cv.len() == n,
            out@ =~= base + sp_enc_creator_list(cv.take(k as int)),
        decreases n - k,
    {
        let ghost step_base = out@;
        let c = &cs[k];
        push_bytes(out, c.address.as_slice());
        if c.verified {
            out.push(1);
        } else {
            out.push(0);
        }
        out.push(c.share);
        proof {
            assert(cv[k as int] == cs@[k as int]@);
            assert(out@ =~= step_base + sp_enc_creator(cv[k as int]));
            let t = cv.take(k + 1 as int);
            assert(t.drop_last() =~= cv.take(k as int));
            assert(t.last() == cv[k as int]);
            assert(sp_enc_creator_list(t) == sp_enc_creator_list(t.drop_last()) + sp_enc_creator(
                t.last(),
            ));
            assert(out@ =~= base + sp_enc_creator_list(t));
        }
        k = k + 1;
    }
    proof {
        assert(cv.take(n as int) =~= cv);
    }
}

impl UpdatePayload {
    /// The exact instruction data of this corrective update, or `None`
    /// when some field is too long for its length prefix.
    pub fn instruction_data(&self) -> (r: Option<Vec<u8>>)
        ensures
            r is Some <==> sp_update_lengths_ok(self@),
            r is Some ==> r.unwrap()@ == sp_update_instruction_data(self@),
    {
        if self.name.len() > u32::MAX as usize || self.symbol.len() > u32::MAX as usize
            || self.uri.len() > u32::MAX as usize {
            return None;
        }
        if let Some(cs) = &self.creators {
            if cs.len() > u32::MAX as usize {
                return None;
            }
        }
        let mut out: Vec<u8> = Vec::new();
        out.push(1);
        out.push(1);
        let ghost head = out@;
        proof {
            assert(head =~= seq![1u8, 1u8]);
        }
        push_len_bytes(&mut out, self.name.as_slice());
        push_len_bytes(&mut out, self.symbol.as_slice());
        push_len_bytes(&mut out, self.uri.as_slice());
        push_u16le(&mut out, self.seller_fee_basis_points);
        match &self.creators {
            None => {
                out.push(0);
                proof {
                    assert(seq![0u8] =~= sp_enc_opt_creators(self@.creators));
                }
            },
            Some(cs) => {
                let ghost pre = out@;
                out.push(1);
                push_u32le(&mut out, cs.len() as u32);
                push_creator_list(&mut out, cs);
                proof {
                    assert(out@ =~= pre + sp_enc_opt_creators(self@.creators));
                }
            },
        }
        out.push(0);
        out.push(0);
        proof {
            assert(out@ =~= sp_update_instruction_data(self@));
        }
        Some(out)
    }
}

impl ReassignPayload {
    /// The exact instruction data of this authority reassignment.
    pub fn instruction_data(&self) -> (r: Vec<u8>)
        ensures
            r@ == sp_reassign_instruction_data(self@.new_update_authority),
    {
        let mut out: Vec<u8> = Vec::new();
        out.push(1);
        out.push(0);
        out.push(1);
        push_bytes(&mut out, self.new_update_authority.as_slice());
        out.push(0);
        proof {
            assert(out@ =~= sp_reassign_instruction_data(self@.new_update_authority));
        }
        out
    }
}

} // verus!
