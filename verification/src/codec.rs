//! Pure decoding of the registry's binary account layouts.
//!
//! A registry entry account starts with a one-byte record-kind tag,
//! followed by two fixed 32-byte identity fields, three length-prefixed
//! byte-string fields (name, symbol, uri; little-endian `u32` length),
//! a little-endian `u16` fee, an optional list of creator shares, two
//! booleans and an optional edition nonce.  Multi-byte integers are
//! little-endian; an option is a tag byte 0 or 1; a boolean byte must be
//! 0 or 1.  Trailing bytes after the record are ignored.
//!
//! The spec functions in this module state the layout directly over
//! `Seq<u8>`; the executable decoders are proved to agree with them.
//! Name, symbol and uri are canonicalized by stripping trailing NUL
//! padding as soon as they are decoded.

use vstd::prelude::*;

use crate::bytes::{spec_strip, strip_trailing_nuls};

verus! {

/// Decoding failed: the input is not a well-formed record.
#[derive(Clone, Copy, Debug, PartialEq, Eq, Structural)]
pub enum DecodeError {
    Malformed,
}

/// One creator share inside a registry entry.
#[derive(Clone, Debug)]
pub struct CreatorEntry {
    pub address: Vec<u8>,
    pub verified: bool,
    pub share: u8,
}

/// Mathematical value of a creator share.
pub struct CreatorView {
    pub address: Seq<u8>,
    pub verified: bool,
    pub share: u8,
}

impl View for CreatorEntry {
    type V = CreatorView;

    open spec fn view(&self) -> CreatorView {
        CreatorView { address: self.address@, verified: self.verified, share: self.share }
    }
}

/// A decoded registry entry: the typed record held by a metadata
/// account.  `name`, `symbol` and `uri` are canonical (trailing NUL
/// padding already stripped).
#[derive(Clone, Debug)]
pub struct DecodedEntry {
    pub key: u8,
    pub update_authority: Vec<u8>,
    pub mint: Vec<u8>,
    pub name: Vec<u8>,
    pub symbol: Vec<u8>,
    pub uri: Vec<u8>,
    pub seller_fee_basis_points: u16,
    pub creators: Option<Vec<CreatorEntry>>,
    pub primary_sale_happened: bool,
    pub is_mutable: bool,
    pub edition_nonce: Option<u8>,
}

/// Mathematical value of a decoded registry entry.
pub struct EntryView {
    pub key: u8,
    pub update_authority: Seq<u8>,
    pub mint: Seq<u8>,
    pub name: Seq<u8>,
    pub symbol: Seq<u8>,
    pub uri: Seq<u8>,
    pub seller_fee_basis_points: u16,
    pub creators: Option<Seq<CreatorView>>,
    pub primary_sale_happened: bool,
    pub is_mutable: bool,
    pub edition_nonce: Option<u8>,
}

impl View for DecodedEntry {
    type V = EntryView;

    open spec fn view(&self) -> EntryView {
        EntryView {
            key: self.key,
            update_authority: self.update_authority@,
            mint: self.mint@,
            name: self.name@,
            symbol: self.symbol@,
            uri: self.uri@,
            seller_fee_basis_points: self.seller_fee_basis_points,
            creators: match self.creators {
                None => None,
                Some(cs) => Some(cs@.map_values(|c: CreatorEntry| c@)),
            },
            primary_sale_happened: self.primary_sale_happened,
            is_mutable: self.is_mutable,
            edition_nonce: self.edition_nonce,
        }
    }
}

/// Number of record-kind tags the registry defines; a key byte must be
/// below this bound.
pub open spec fn spec_key_tag_count() -> int {
    7
}

// ---------------------------------------------------------------------
// Layout spec: each reader yields the decoded value and the offset just
// past it, or `None` when the input is malformed at this position.
// ---------------------------------------------------------------------

pub open spec fn sp_u8(s: Seq<u8>, i: int) -> Option<(u8, int)> {
    if 0 <= i && i + 1 <= s.len() {
        Some((s[i], i + 1))
    } else {
        None
    }
}

pub open spec fn sp_fixed(s: Seq<u8>, i: int, n: int) -> Option<(Seq<u8>, int)> {
    if 0 <= i && 0 <= n && i + n <= s.len() {
        Some((s.subrange(i, i + n), i + n))
    } else {
        None
    }
}

pub open spec fn sp_u16le(s: Seq<u8>, i: int) -> Option<(u16, int)> {
    if 0 <= i && i + 2 <= s.len() {
        Some(((s[i] + s[i + 1] * 0x100) as u16, i + 2))
    } else {
        None
    }
}

pub open spec fn sp_u32le(s: Seq<u8>, i: int) -> Option<(u32, int)> {
    if 0 <= i && i + 4 <= s.len() {
        Some(
            (
                (s[i] + s[i + 1] * 0x100 + s[i + 2] * 0x1_0000 + s[i + 3] * 0x100_0000) as u32,
                i + 4,
            ),
        )
    } else {
        None
    }
}

/// The unsigned value of 8 little-endian bytes starting at `i`.
pub open spec fn sp_u64_val(s: Seq<u8>, i: int) -> int {
    s[i] + s[i + 1] * 0x100 + s[i + 2] * 0x1_0000 + s[i + 3] * 0x100_0000 + s[i + 4]
        * 0x1_0000_0000 + s[i + 5] * 0x100_0000_0000 + s[i + 6] * 0x1_0000_0000_0000 + s[i + 7]
        * 0x100_0000_0000_0000
}

pub open spec fn sp_u64le(s: Seq<u8>, i: int) -> Option<(u64, int)> {
    if 0 <= i && i + 8 <= s.len() {
        Some((sp_u64_val(s, i) as u64, i + 8))
    } else {
        None
    }
}

/// Signed 64-bit value: 8 little-endian bytes read in two's complement.
pub open spec fn sp_i64le(s: Seq<u8>, i: int) -> Option<(i64, int)> {
    if 0 <= i && i + 8 <= s.len() {
        Some(
            (
                if sp_u64_val(s, i) < 0x8000_0000_0000_0000 {
                    sp_u64_val(s, i) as i64
                } else {
                    (sp_u64_val(s, i) - 0x1_0000_0000_0000_0000) as i64
                },
                i + 8,
            ),
        )
    } else {
        None
    }
}

pub open spec fn sp_bool(s: Seq<u8>, i: int) -> Option<(bool, int)> {
    match sp_u8(s, i) {
        None => None,
        Some((b, j)) => if b == 0 {
            Some((false, j))
        } else if b == 1 {
            Some((true, j))
        } else {
            None
        },
    }
}

/// A length-prefixed byte string: little-endian `u32` length, then that
/// many bytes.
pub open spec fn sp_len_bytes(s: Seq<u8>, i: int) -> Option<(Seq<u8>, int)> {
    match sp_u32le(s, i) {
        None => None,
        Some((n, j)) => sp_fixed(s, j, n as int),
    }
}

/// An optional edition nonce: tag byte 0 or 1, then one byte if 1.
pub open spec fn sp_opt_u8(s: Seq<u8>, i: int) -> Option<(Option<u8>, int)> {
    match sp_u8(s, i) {
        None => None,
        Some((t, j)) => if t == 0 {
            Some((None, j))
        } else if t == 1 {
            match sp_u8(s, j) {
                None => None,
                Some((v, k)) => Some((Some(v), k)),
            }
        } else {
            None
        },
    }
}

// ---------------------------------------------------------------------
// Executable readers, each proved against its layout spec.
// ---------------------------------------------------------------------

pub(crate) fn rd_u8(s: &[u8], i: usize) -> (r: Option<(u8, usize)>)
    ensures
        r is Some <==> sp_u8(s@, i as int) is Some,
        r is Some ==> sp_u8(s@, i as int).unwrap() == (r.unwrap().0, r.unwrap().1 as int)
            && r.unwrap().1 <= s.len(),
{
    if i < s.len() {
        Some((s[i], i + 1))
    } else {
        None
    }
}

pub(crate) fn rd_fixed(s: &[u8], i: usize, n: usize) -> (r: Option<(Vec<u8>, usize)>)
    ensures
        r is Some <==> sp_fixed(s@, i as int, n as int) is Some,
        r is Some ==> sp_fixed(s@, i as int, n as int).unwrap() == (
            r.unwrap().0@,
            r.unwrap().1 as int,
        ) && r.unwrap().1 <= s.len(),
{
    if i <= s.len() && n <= s.len() - i {
        let mut v: Vec<u8> = Vec::new();
        let mut k: usize = 0;
        while k < n
            invariant
                i + n <= s@.len(),
                s@.len() <= usize::MAX,
                k <= n,
                v@ =~= s@.subrange(i as int, i + k as int),
            decreases n - k,
        {
            v.push(s[i + k]);
            proof {
                assert(v@ =~= s@.subrange(i as int, i + k + 1 as int));
            }
            k = k + 1;
        }
        Some((v, i + n))
    } else {
        None
    }
}

pub(crate) fn rd_u16le(s: &[u8], i: usize) -> (r: Option<(u16, usize)>)
    ensures
        r is Some <==> sp_u16le(s@, i as int) is Some,
        r is Some ==> sp_u16le(s@, i as int).unwrap() == (r.unwrap().0, r.unwrap().1 as int)
            && r.unwrap().1 <= s.len(),
{
    if i <= s.len() && 2 <= s.len() - i {
        let v: u16 = s[i] as u16 + s[i + 1] as u16 * 0x100;
        Some((v, i + 2))
    } else {
        None
    }
}

pub(crate) fn rd_u32le(s: &[u8], i: usize) -> (r: Option<(u32, usize)>)
    ensures
        r is Some <==> sp_u32le(s@, i as int) is Some,
        r is Some ==> sp_u32le(s@, i as int).unwrap() == (r.unwrap().0, r.unwrap().1 as int)
            && r.unwrap().1 <= s.len(),
{
    if i <= s.len() && 4 <= s.len() - i {
        let v: u32 = s[i] as u32 + s[i + 1] as u32 * 0x100 + s[i + 2] as u32 * 0x1_0000 + s[i
            + 3] as u32 * 0x100_0000;
        Some((v, i + 4))
    } else {
        None
    }
}

pub(crate) fn rd_u64le(s: &[u8], i: usize) -> (r: Option<(u64, usize)>)
    ensures
        r is Some <==> sp_u64le(s@, i as int) is Some,
        r is Some ==> sp_u64le(s@, i as int).unwrap() == (r.unwrap().0, r.unwrap().1 as int)
            && r.unwrap().1 <= s.len(),
{
    if i <= s.len() && 8 <= s.len() - i {
        let v: u64 = s[i] as u64 + s[i + 1] as u64 * 0x100 + s[i + 2] as u64 * 0x1_0000 + s[i
            + 3] as u64 * 0x100_0000 + s[i + 4] as u64 * 0x1_0000_0000 + s[i + 5] as u64
            * 0x100_0000_0000 + s[i + 6] as u64 * 0x1_0000_0000_0000 + s[i + 7] as u64
            * 0x100_0000_0000_0000;
        Some((v, i + 8))
    } else {
        None
    }
}

pub(crate) fn rd_i64le(s: &[u8], i: usize) -> (r: Option<(i64, usize)>)
    ensures
        r is Some <==> sp_i64le(s@, i as int) is Some,
        r is Some ==> sp_i64le(s@, i as int).unwrap() == (r.unwrap().0, r.unwrap().1 as int)
            && r.unwrap().1 <= s.len(),
{
    match rd_u64le(s, i) {
        None => None,
        Some((u, j)) => {
            let v: i64 = if u < 0x8000_0000_0000_0000 {
                u as i64
            } else {
                i64::MIN + (u - 0x8000_0000_0000_0000) as i64
            };
            Some((v, j))
        },
    }
}

pub(crate) fn rd_bool(s: &[u8], i: usize) -> (r: Option<(bool, usize)>)
    ensures
        r is Some <==> sp_bool(s@, i as int) is Some,
        r is Some ==> sp_bool(s@, i as int).unwrap() == (r.unwrap().0, r.unwrap().1 as int)
            && r.unwrap().1 <= s.len(),
{
    match rd_u8(s, i) {
        None => None,
        Some((b, j)) => if b == 0 {
            Some((false, j))
        } else if b == 1 {
            Some((true, j))
        } else {
            None
        },
    }
}

pub(crate) fn rd_len_bytes(s: &[u8], i: usize) -> (r: Option<(Vec<u8>, usize)>)
    ensures
        r is Some <==> sp_len_bytes(s@, i as int) is Some,
        r is Some ==> sp_len_bytes(s@, i as int).unwrap() == (
            r.unwrap().0@,
            r.unwrap().1 as int,
        ) && r.unwrap().1 <= s.len(),
{
    match rd_u32le(s, i) {
        None => None,
        Some((n, j)) => rd_fixed(s, j, n as usize),
    }
}

pub open spec fn sp_creator(s: Seq<u8>, i: int) -> Option<(CreatorView, int)> {
    match sp_fixed(s, i, 32) {
        None => None,
        Some((addr, j)) => match sp_bool(s, j) {
            None => None,
            Some((ver, k)) => match sp_u8(s, k) {
                None => None,
                Some((sh, m)) => Some(
                    (CreatorView { address: addr, verified: ver, share: sh }, m),
                ),
            },
        },
    }
}

pub open spec fn sp_creators(s: Seq<u8>, i: int, n: nat) -> Option<(Seq<CreatorView>, int)>
    decreases n,
{
    if n == 0 {
        Some((Seq::empty(), i))
    } else {
        match sp_creator(s, i) {
            None => None,
            Some((c, j)) => match sp_creators(s, j, (n - 1) as nat) {
                None => None,
                Some((cs, k)) => Some((seq![c] + cs, k)),
            },
        }
    }
}

/// The optional creator list: tag byte, then a little-endian `u32`
/// count followed by that many creator records when the tag is 1.
pub open spec fn sp_creators_opt(s: Seq<u8>, i: int) -> Option<(Option<Seq<CreatorView>>, int)> {
    match sp_u8(s, i) {
        None => None,
        Some((t, j)) => if t == 0 {
            Some((None, j))
        } else if t == 1 {
            match sp_u32le(s, j) {
                None => None,
                Some((n, k)) => match sp_creators(s, k, n as nat) {
                    None => None,
                    Some((cs, m)) => Some((Some(cs), m)),
                },
            }
        } else {
            None
        },
    }
}

/// The whole registry entry record, read from offset 0.  Name, symbol
/// and uri are canonicalized by stripping trailing NUL padding.  Bytes
/// after the record are ignored.
pub open spec fn sp_entry(s: Seq<u8>) -> Option<EntryView> {
    match sp_u8(s, 0) {
        None => None,
        Some((key, i1)) => if key >= spec_key_tag_count() {
            None
        } else {
            match sp_fixed(s, i1, 32) {
                None => None,
                Some((ua, i2)) => match sp_fixed(s, i2, 32) {
                    None => None,
                    Some((mint, i3)) => match sp_len_bytes(s, i3) {
                        None => None,
                        Some((name, i4)) => match sp_len_bytes(s, i4) {
                            None => None,
                            Some((symbol, i5)) => match sp_len_bytes(s, i5) {
                                None => None,
                                Some((uri, i6)) => match sp_u16le(s, i6) {
                                    None => None,
                                    Some((fee, i7)) => match sp_creators_opt(s, i7) {
                                        None => None,
                                        Some((creators, i8)) => match sp_bool(s, i8) {
                                            None => None,
                                            Some((primary, i9)) => match sp_bool(s, i9) {
                                                None => None,
                                                Some((mutable, i10)) => match sp_opt_u8(s, i10) {
                                                    None => None,
                                                    Some((nonce, _i11)) => Some(
                                                        EntryView {
                                                            key,
                                                            update_authority: ua,
                                                            mint,
                                                            name: spec_strip(name),
                                                            symbol: spec_strip(symbol),
                                                            uri: spec_strip(uri),
                                                            seller_fee_basis_points: fee,
                                                            creators,
                                                            primary_sale_happened: primary,
                                                            is_mutable: mutable,
                                                            edition_nonce: nonce,
                                                        },
                                                    ),
                                                },
                                            },
                                        },
                                    },
                                },
                            },
                        },
                    },
                },
            }
        },
    }
}

pub(crate) fn rd_opt_u8(s: &[u8], i: usize) -> (r: Option<(Option<u8>, usize)>)
    ensures
        r is Some <==> sp_opt_u8(s@, i as int) is Some,
        r is Some ==> sp_opt_u8(s@, i as int).unwrap() == (r.unwrap().0, r.unwrap().1 as int)
            && r.unwrap().1 <= s.len(),
{
    match rd_u8(s, i) {
        None => None,
        Some((t, j)) => if t == 0 {
            Some((None, j))
        } else if t == 1 {
            match rd_u8(s, j) {
                None => None,
                Some((v, k)) => Some((Some(v), k)),
            }
        } else {
            None
        },
    }
}

pub(crate) fn rd_creator(s: &[u8], i: usize) -> (r: Option<(CreatorEntry, usize)>)
    ensures
        r is Some <==> sp_creator(s@, i as int) is Some,
        r is Some ==> sp_creator(s@, i as int).unwrap() == (
            r.unwrap().0@,
            r.unwrap().1 as int,
        ) && r.unwrap().1 <= s.len(),
{
    match rd_fixed(s, i, 32) {
        None => None,
        Some((addr, j)) => match rd_bool(s, j) {
            None => None,
            Some((ver, k)) => match rd_u8(s, k) {
                None => None,
                Some((sh, m)) => Some(
                    (CreatorEntry { address: addr, verified: ver, share: sh }, m),
                ),
            },
        },
    }
}

pub(crate) fn rd_creators(s: &[u8], i: usize, n: u32) -> (r: Option<(Vec<CreatorEntry>, usize)>)
    requires
        i <= s.len(),
    ensures
        r is Some <==> sp_creators(s@, i as int, n as nat) is Some,
        r is Some ==> sp_creators(s@, i as int, n as nat).unwrap() == (
            r.unwrap().0@.map_values(|c: CreatorEntry| c@),
            r.unwrap().1 as int,
        ) && r.unwrap().1 <= s.len(),
{
    let ghost whole = sp_creators(s@, i as int, n as nat);
    let mut acc: Vec<CreatorEntry> = Vec::new();
    let mut cur: usize = i;
    let mut k: u32 = 0;
    proof {
        assert(acc@.map_values(|c: CreatorEntry| c@) =~= Seq::<CreatorView>::empty());
    }
    while k < n
        invariant
            cur <= s.len(),
            k <= n,
            whole == sp_creators(s@, i as int, n as nat),
            sp_creators(s@, cur as int, (n - k) as nat) is Some <==> whole is Some,
            sp_creators(s@, cur as int, (n - k) as nat) is Some ==> whole.unwrap().0
                == acc@.map_values(|c: CreatorEntry| c@) + sp_creators(
                s@,
                cur as int,
                (n - k) as nat,
            ).unwrap().0 && whole.unwrap().1 == sp_creators(
                s@,
                cur as int,
                (n - k) as nat,
            ).unwrap().1,
        decreases n - k,
    {
        let ghost rem = sp_creators(s@, cur as int, (n - k) as nat);
        match rd_creator(s, cur) {
            None => {
                proof {
                    assert(rem is None);
                }
                return None;
            },
            Some((c, j)) => {
                proof {
                    let f = |c: CreatorEntry| c@;
                    let rest = sp_creators(s@, j as int, (n - k - 1) as nat);
                    assert(rem == match rest {
                        None => None::<(Seq<CreatorView>, int)>,
                        Some((cs, m)) => Some((seq![c@] + cs, m)),
                    });
                    if rest is Some {
                        assert(acc@.push(c).map_values(f) =~= acc@.map_values(f).push(c@));
                        assert(acc@.map_values(f) + (seq![c@] + rest.unwrap().0) =~= acc@.push(
                            c,
                        ).map_values(f) + rest.unwrap().0);
                    }
                }
                acc.push(c);
                cur = j;
                k = k + 1;
            },
        }
    }
    proof {
        assert(sp_creators(s@, cur as int, 0) == Some((Seq::<CreatorView>::empty(), cur as int)));
        assert(acc@.map_values(|c: CreatorEntry| c@) + Seq::<CreatorView>::empty()
            =~= acc@.map_values(|c: CreatorEntry| c@));
    }
    Some((acc, cur))
}

pub(crate) fn rd_creators_opt(s: &[u8], i: usize) -> (r: Option<(Option<Vec<CreatorEntry>>, usize)>)
    ensures
        r is Some <==> sp_creators_opt(s@, i as int) is Some,
        r is Some ==> sp_creators_opt(s@, i as int).unwrap() == (
            match r.unwrap().0 {
                None => None::<Seq<CreatorView>>,
                Some(cs) => Some(cs@.map_values(|c: CreatorEntry| c@)),
            },
            r.unwrap().1 as int,
        ) && r.unwrap().1 <= s.len(),
{
    match rd_u8(s, i) {
        None => None,
        Some((t, j)) => if t == 0 {
            Some((None, j))
        } else if t == 1 {
            match rd_u32le(s, j) {
                None => None,
                Some((n, k)) => match rd_creators(s, k, n) {
                    None => None,
                    Some((cs, m)) => Some((Some(cs), m)),
                },
            }
        } else {
            None
        },
    }
}

/// Decode a registry entry record from raw account bytes.
///
/// Succeeds exactly on the inputs on which the layout spec `sp_entry`
/// yields a record, and then returns that record; any other input is
/// rejected as malformed, never a crash.
pub fn decode_entry(bytes: &[u8]) -> (r: Result<DecodedEntry, DecodeError>)
    ensures
        r is Ok <==> sp_entry(bytes@) is Some,
        r is Ok ==> r->Ok_0@ == sp_entry(bytes@).unwrap(),
        r is Err ==> r->Err_0 == DecodeError::Malformed,
{
    let key = match rd_u8(bytes, 0) {
        None => {
            return Err(DecodeError::Malformed);
        },
        Some((v, _)) => v,
    };
    if key >= 7 {
        return Err(DecodeError::Malformed);
    }
    let (ua, i2) = match rd_fixed(bytes, 1, 32) {
        None => {
            return Err(DecodeError::Malformed);
        },
        Some(t) => t,
    };
    let (mint, i3) = match rd_fixed(bytes, i2, 32) {
        None => {
            return Err(DecodeError::Malformed);
        },
        Some(t) => t,
    };
    let (name, i4) = match rd_len_bytes(bytes, i3) {
        None => {
            return Err(DecodeError::Malformed);
        },
        Some(t) => t,
    };
    let (symbol, i5) = match rd_len_bytes(bytes, i4) {
        None => {
            return Err(DecodeError::Malformed);
        },
        Some(t) => t,
    };
    let (uri, i6) = match rd_len_bytes(bytes, i5) {
        None => {
            return Err(DecodeError::Malformed);
        },
        Some(t) => t,
    };
    let (fee, i7) = match rd_u16le(bytes, i6) {
        None => {
            return Err(DecodeError::Malformed);
        },
        Some(t) => t,
    };
    let (creators, i8) = match rd_creators_opt(bytes, i7) {
        None => {
            return Err(DecodeError::Malformed);
        },
        Some(t) => t,
    };
    let (primary, i9) = match rd_bool(bytes, i8) {
        None => {
            return Err(DecodeError::Malformed);
        },
        Some(t) => t,
    };
    let (mutable, i10) = match rd_bool(bytes, i9) {
        None => {
            return Err(DecodeError::Malformed);
        },
        Some(t) => t,
    };
    let (nonce, _i11) = match rd_opt_u8(bytes, i10) {
        None => {
            return Err(DecodeError::Malformed);
        },
        Some(t) => t,
    };
    let entry = DecodedEntry {
        key,
        update_authority: ua,
        mint,
        name: strip_trailing_nuls(name.as_slice()),
        symbol: strip_trailing_nuls(symbol.as_slice()),
        uri: strip_trailing_nuls(uri.as_slice()),
        seller_fee_basis_points: fee,
        creators,
        primary_sale_happened: primary,
        is_mutable: mutable,
        edition_nonce: nonce,
    };
    Ok(entry)
}

} // verus!
