//! Pure decoding of the companion "collection launcher" accounts, a
//! read-only introspection feature.
//!
//! Both account shapes start with an 8-byte preamble (an account
//! discriminant written by the launcher program; its value is not
//! interpreted here), followed by fixed-width identity fields and a
//! record of plain scalars in the same wire style as the registry entry
//! layout.  Trailing bytes after the record are ignored.

use vstd::prelude::*;

use crate::codec::{
    sp_fixed, sp_u8, sp_u16le, sp_u32le, sp_u64le, sp_i64le, sp_bool, sp_len_bytes, sp_creators,
    rd_fixed, rd_u8, rd_u16le, rd_u32le, rd_u64le, rd_i64le, rd_bool, rd_len_bytes, rd_creators,
    CreatorEntry, CreatorView, DecodeError,
};

verus! {

/// Decoded launcher state account: who controls the launcher, where
/// proceeds go, and how far the launch has progressed.
#[derive(Clone, Debug)]
pub struct LauncherState {
    pub authority: Vec<u8>,
    pub wallet: Vec<u8>,
    pub token_mint: Option<Vec<u8>>,
    pub config: Vec<u8>,
    pub uuid: Vec<u8>,
    pub price: u64,
    pub items_available: u64,
    pub go_live_date: Option<i64>,
    pub items_redeemed: u64,
    pub bump: u8,
}

/// Mathematical value of a launcher state account.
pub struct LauncherStateView {
    pub authority: Seq<u8>,
    pub wallet: Seq<u8>,
    pub token_mint: Option<Seq<u8>>,
    pub config: Seq<u8>,
    pub uuid: Seq<u8>,
    pub price: u64,
    pub items_available: u64,
    pub go_live_date: Option<i64>,
    pub items_redeemed: u64,
    pub bump: u8,
}

impl View for LauncherState {
    type V = LauncherStateView;

    open spec fn view(&self) -> LauncherStateView {
        LauncherStateView {
            authority: self.authority@,
            wallet: self.wallet@,
            token_mint: match self.token_mint {
                None => None,
                Some(m) => Some(m@),
            },
            config: self.config@,
            uuid: self.uuid@,
            price: self.price,
            items_available: self.items_available,
            go_live_date: self.go_live_date,
            items_redeemed: self.items_redeemed,
            bump: self.bump,
        }
    }
}

/// Decoded launcher configuration account: the shared fields stamped
/// onto every item of a launch.
#[derive(Clone, Debug)]
pub struct LauncherConfig {
    pub authority: Vec<u8>,
    pub uuid: Vec<u8>,
    pub symbol: Vec<u8>,
    pub seller_fee_basis_points: u16,
    pub creators: Vec<CreatorEntry>,
    pub max_supply: u64,
    pub is_mutable: bool,
    pub retain_authority: bool,
    pub max_number_of_lines: u32,
}

/// Mathematical value of a launcher configuration account.
pub struct LauncherConfigView {
    pub authority: Seq<u8>,
    pub uuid: Seq<u8>,
    pub symbol: Seq<u8>,
    pub seller_fee_basis_points: u16,
    pub creators: Seq<CreatorView>,
    pub max_supply: u64,
    pub is_mutable: bool,
    pub retain_authority: bool,
    pub max_number_of_lines: u32,
}

impl View for LauncherConfig {
    type V = LauncherConfigView;

    open spec fn view(&self) -> LauncherConfigView {
        LauncherConfigView {
            authority: self.authority@,
            uuid: self.uuid@,
            symbol: self.symbol@,
            seller_fee_basis_points: self.seller_fee_basis_points,
            creators: self.creators@.map_values(|c: CreatorEntry| c@),
            max_supply: self.max_supply,
            is_mutable: self.is_mutable,
            retain_authority: self.retain_authority,
            max_number_of_lines: self.max_number_of_lines,
        }
    }
}

/// An optional 32-byte identity: tag byte 0 or 1, then 32 bytes if 1.
pub open spec fn sp_opt_key(s: Seq<u8>, i: int) -> Option<(Option<Seq<u8>>, int)> {
    match sp_u8(s, i) {
        None => None,
        Some((t, j)) => if t == 0 {
            Some((None, j))
        } else if t == 1 {
            match sp_fixed(s, j, 32) {
                None => None,
                Some((k, m)) => Some((Some(k), m)),
            }
        } else {
            None
        },
    }
}

/// An optional signed timestamp: tag byte 0 or 1, then 8 bytes if 1.
pub open spec fn sp_opt_i64(s: Seq<u8>, i: int) -> Option<(Option<i64>, int)> {
    match sp_u8(s, i) {
        None => None,
        Some((t, j)) => if t == 0 {
            Some((None, j))
        } else if t == 1 {
            match sp_i64le(s, j) {
                None => None,
                Some((v, k)) => Some((Some(v), k)),
            }
        } else {
            None
        },
    }
}

/// The launcher state account layout, read from offset 0.
pub open spec fn sp_launcher_state(s: Seq<u8>) -> Option<LauncherStateView> {
    match sp_fixed(s, 0, 8) {
        None => None,
        Some((_pre, i1)) => match sp_fixed(s, i1, 32) {
            None => None,
            Some((authority, i2)) => match sp_fixed(s, i2, 32) {
                None => None,
                Some((wallet, i3)) => match sp_opt_key(s, i3) {
                    None => None,
                    Some((token_mint, i4)) => match sp_fixed(s, i4, 32) {
                        None => None,
                        Some((config, i5)) => match sp_len_bytes(s, i5) {
                            None => None,
                            Some((uuid, i6)) => match sp_u64le(s, i6) {
                                None => None,
                                Some((price, i7)) => match sp_u64le(s, i7) {
                                    None => None,
                                    Some((items_available, i8)) => match sp_opt_i64(s, i8) {
                                        None => None,
                                        Some((go_live_date, i9)) => match sp_u64le(s, i9) {
                                            None => None,
                                            Some((items_redeemed, i10)) => match sp_u8(s, i10) {
                                                None => None,
                                                Some((bump, _i11)) => Some(
                                                    LauncherStateView {
                                                        authority,
                                                        wallet,
                                                        token_mint,
                                                        config,
                                                        uuid,
                                                        price,
                                                        items_available,
                                                        go_live_date,
                                                        items_redeemed,
                                                        bump,
                                                    },
                                                ),
                                            },
                                        },
                                    },
                                },
                            },
                        },
                    },
                },
            },
        },
    }
}

/// The launcher configuration account layout, read from offset 0.  The
/// creator list is a little-endian `u32` count followed by that many
/// creator records.
pub open spec fn sp_launcher_config(s: Seq<u8>) -> Option<LauncherConfigView> {
    match sp_fixed(s, 0, 8) {
        None => None,
        Some((_pre, i1)) => match sp_fixed(s, i1, 32) {
            None => None,
            Some((authority, i2)) => match sp_len_bytes(s, i2) {
                None => None,
                Some((uuid, i3)) => match sp_len_bytes(s, i3) {
                    None => None,
                    Some((symbol, i4)) => match sp_u16le(s, i4) {
                        None => None,
                        Some((fee, i5)) => match sp_u32le(s, i5) {
                            None => None,
                            Some((n, i6)) => match sp_creators(s, i6, n as nat) {
                                None => None,
                                Some((creators, i7)) => match sp_u64le(s, i7) {
                                    None => None,
                                    Some((max_supply, i8)) => match sp_bool(s, i8) {
                                        None => None,
                                        Some((is_mutable, i9)) => match sp_bool(s, i9) {
                                            None => None,
                                            Some((retain_authority, i10)) => match sp_u32le(
                                                s,
                                                i10,
                                            ) {
                                                None => None,
                                                Some((max_number_of_lines, _i11)) => Some(
                                                    LauncherConfigView {
                                                        authority,
                                                        uuid,
                                                        symbol,
                                                        seller_fee_basis_points: fee,
                                                        creators,
                                                        max_supply,
                                                        is_mutable,
                                                        retain_authority,
                                                        max_number_of_lines,
                                                    },
                                                ),
                                            },
                                        },
                                    },
                                },
                            },
                        },
                    },
                },
            },
        },
    }
}

fn rd_opt_key(s: &[u8], i: usize) -> (r: Option<(Option<Vec<u8>>, usize)>)
    ensures
        r is Some <==> sp_opt_key(s@, i as int) is Some,
        r is Some ==> sp_opt_key(s@, i as int).unwrap() == (
            match r.unwrap().0 {
                None => None::<Seq<u8>>,
                Some(k) => Some(k@),
            },
            r.unwrap().1 as int,
        ) && r.unwrap().1 <= s.len(),
{
    match rd_u8(s, i) {
        None => None,
        Some((t, j)) => if t == 0 {
            Some((None, j))
        } else if t == 1 {
            match rd_fixed(s, j, 32) {
                None => None,
                Some((k, m)) => Some((Some(k), m)),
            }
        } else {
            None
        },
    }
}

fn rd_opt_i64(s: &[u8], i: usize) -> (r: Option<(Option<i64>, usize)>)
    ensures
        r is Some <==> sp_opt_i64(s@, i as int) is Some,
        r is Some ==> sp_opt_i64(s@, i as int).unwrap() == (r.unwrap().0, r.unwrap().1 as int)
            && r.unwrap().1 <= s.len(),
{
    match rd_u8(s, i) {
        None => None,
        Some((t, j)) => if t == 0 {
            Some((None, j))
        } else if t == 1 {
            match rd_i64le(s, j) {
                None => None,
                Some((v, k)) => Some((Some(v), k)),
            }
        } else {
            None
        },
    }
}

/// Decode a launcher state account from raw account bytes.
///
/// Succeeds exactly on the inputs on which the layout spec
/// `sp_launcher_state` yields a record, and then returns that record.
pub fn decode_launcher_state(bytes: &[u8]) -> (r: Result<LauncherState, DecodeError>)
    ensures
        r is Ok <==> sp_launcher_state(bytes@) is Some,
        r is Ok ==> r->Ok_0@ == sp_launcher_state(bytes@).unwrap(),
        r is Err ==> r->Err_0 == DecodeError::Malformed,
{
    let (_pre, i1) = match rd_fixed(bytes, 0, 8) {
        None => {
            return Err(DecodeError::Malformed);
        },
        Some(t) => t,
    };
    let (authority, i2) = match rd_fixed(bytes, i1, 32) {
        None => {
            return Err(DecodeError::Malformed);
        },
        Some(t) => t,
    };
    let (wallet, i3) = match rd_fixed(bytes, i2, 32) {
        None => {
            return Err(DecodeError::Malformed);
        },
        Some(t) => t,
    };
    let (token_mint, i4) = match rd_opt_key(bytes, i3) {
        None => {
            return Err(DecodeError::Malformed);
        },
        Some(t) => t,
    };
    let (config, i5) = match rd_fixed(bytes, i4, 32) {
        None => {
            return Err(DecodeError::Malformed);
        },
        Some(t) => t,
    };
    let (uuid, i6) = match rd_len_bytes(bytes, i5) {
        None => {
            return Err(DecodeError::Malformed);
        },
        Some(t) => t,
    };
    let (price, i7) = match rd_u64le(bytes, i6) {
        None => {
            return Err(DecodeError::Malformed);
        },
        Some(t) => t,
    };
    let (items_available, i8) = match rd_u64le(bytes, i7) {
        None => {
            return Err(DecodeError::Malformed);
        },
        Some(t) => t,
    };
    let (go_live_date, i9) = match rd_opt_i64(bytes, i8) {
        None => {
            return Err(DecodeError::Malformed);
        },
        Some(t) => t,
    };
    let (items_redeemed, i10) = match rd_u64le(bytes, i9) {
        None => {
            return Err(DecodeError::Malformed);
        },
        Some(t) => t,
    };
    let (bump, _i11) = match rd_u8(bytes, i10) {
        None => {
            return Err(DecodeError::Malformed);
        },
        Some(t) => t,
    };
    Ok(
        LauncherState {
            authority,
            wallet,
            token_mint,
            config,
            uuid,
            price,
            items_available,
            go_live_date,
            items_redeemed,
            bump,
        },
    )
}

/// Decode a launcher configuration account from raw account bytes.
///
/// Succeeds exactly on the inputs on which the layout spec
/// `sp_launcher_config` yields a record, and then returns that record.
pub fn decode_launcher_config(bytes: &[u8]) -> (r: Result<LauncherConfig, DecodeError>)
    ensures
        r is Ok <==> sp_launcher_config(bytes@) is Some,
        r is Ok ==> r->Ok_0@ == sp_launcher_config(bytes@).unwrap(),
        r is Err ==> r->Err_0 == DecodeError::Malformed,
{
    let (_pre, i1) = match rd_fixed(bytes, 0, 8) {
        None => {
            return Err(DecodeError::Malformed);
        },
        Some(t) => t,
    };
    let (authority, i2) = match rd_fixed(bytes, i1, 32) {
        None => {
            return Err(DecodeError::Malformed);
        },
        Some(t) => t,
    };
    let (uuid, i3) = match rd_len_bytes(bytes, i2) {
        None => {
            return Err(DecodeError::Malformed);
        },
        Some(t) => t,
    };
    let (symbol, i4) = match rd_len_bytes(bytes, i3) {
        None => {
            return Err(DecodeError::Malformed);
        },
        Some(t) => t,
    };
    let (fee, i5) = match rd_u16le(bytes, i4) {
        None => {
            return Err(DecodeError::Malformed);
        },
        Some(t) => t,
    };
    let (n, i6) = match rd_u32le(bytes, i5) {
        None => {
            return Err(DecodeError::Malformed);
        },
        Some(t) => t,
    };
    let (creators, i7) = match rd_creators(bytes, i6, n) {
        None => {
            return Err(DecodeError::Malformed);
        },
        Some(t) => t,
    };
    let (max_supply, i8) = match rd_u64le(bytes, i7) {
        None => {
            return Err(DecodeError::Malformed);
        },
        Some(t) => t,
    };
    let (is_mutable, i9) = match rd_bool(bytes, i8) {
        None => {
            return Err(DecodeError::Malformed);
        },
        Some(t) => t,
    };
    let (retain_authority, i10) = match rd_bool(bytes, i9) {
        None => {
            return Err(DecodeError::Malformed);
        },
        Some(t) => t,
    };
    let (max_number_of_lines, _i11) = match rd_u32le(bytes, i10) {
        None => {
            return Err(DecodeError::Malformed);
        },
        Some(t) => t,
    };
    Ok(
        LauncherConfig {
            authority,
            uuid,
            symbol,
            seller_fee_basis_points: fee,
            creators,
            max_supply,
            is_mutable,
            retain_authority,
            max_number_of_lines,
        },
    )
}

} // verus!
