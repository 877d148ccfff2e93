//! CBOR items (RFC 8949) as decoded and encoded by `minicbor`, and the walk over the entries of
//! a map or the items of an array that the ACE and COSE structures are decoded from.
//!
//! A map's entries are keyed by integers; each entry is returned with the span of its value.
//! Values are delimited by skipping them, which is how entries with unknown keys are passed
//! over.

use vstd::prelude::*;

verus! {

/// The big-endian unsigned value of `b[start..start + n]`.
pub open spec fn be_value(b: Seq<u8>, start: int, n: nat) -> nat
    decreases n,
{
    if n == 0 {
        0
    } else {
        be_value(b, start, (n - 1) as nat) * 256 + b[start + n - 1] as nat
    }
}

/// The head of the data item starting at `pos`: its major type, its argument, and the position
/// after the head. The argument is the additional information itself (below 24), or the 1, 2,
/// 4 or 8 big-endian bytes that follow (additional information 24 to 27); other heads have no
/// argument.
pub open spec fn head_at(b: Seq<u8>, pos: int) -> Option<(u8, nat, int)> {
    if 0 <= pos < b.len() {
        let major = b[pos] / 32;
        let info = b[pos] % 32;
        if info < 24 {
            Some((major, info as nat, pos + 1))
        } else if info <= 27 {
            let n: nat = if info == 24 {
                1
            } else if info == 25 {
                2
            } else if info == 26 {
                4
            } else {
                8
            };
            if pos + 1 + n <= b.len() {
                Some((major, be_value(b, pos + 1, n), pos + 1 + n))
            } else {
                None
            }
        } else {
            None
        }
    } else {
        None
    }
}

/// A definite-length byte string at `pos`: its content and the position after it.
pub open spec fn bytes_at(b: Seq<u8>, pos: int) -> Option<(Seq<u8>, int)> {
    match head_at(b, pos) {
        Some((major, n, e)) => if major == 2 && e + n <= b.len() {
            Some((b.subrange(e, e + n), e + n))
        } else {
            None
        },
        None => None,
    }
}

/// An unsigned integer at `pos`.
pub open spec fn u64_at(b: Seq<u8>, pos: int) -> Option<(u64, int)> {
    match head_at(b, pos) {
        Some((major, n, e)) => if major == 0 {
            Some((n as u64, e))
        } else {
            None
        },
        None => None,
    }
}

/// An integer at `pos` that fits in an `i64`.
pub open spec fn i64_at(b: Seq<u8>, pos: int) -> Option<(i64, int)> {
    match head_at(b, pos) {
        Some((major, n, e)) => if major == 0 && n <= i64::MAX {
            Some((n as i64, e))
        } else if major == 1 && n <= i64::MAX {
            Some(((-1 - n) as i64, e))
        } else {
            None
        },
        None => None,
    }
}

/// An integer at `pos` that fits in an `i32`.
pub open spec fn i32_at(b: Seq<u8>, pos: int) -> Option<(i32, int)> {
    match head_at(b, pos) {
        Some((major, n, e)) => if major == 0 && n <= i32::MAX {
            Some((n as i32, e))
        } else if major == 1 && n <= i32::MAX {
            Some(((-1 - n) as i32, e))
        } else {
            None
        },
        None => None,
    }
}

/// A tag at `pos`: its number and the position of the tagged item.
pub open spec fn tag_at(b: Seq<u8>, pos: int) -> Option<(u64, int)> {
    match head_at(b, pos) {
        Some((major, n, e)) => if major == 6 {
            Some((n as u64, e))
        } else {
            None
        },
        None => None,
    }
}

/// The head of a map (major type 5) or an array (major type 4) at `pos`: its number of
/// entries (`None` for indefinite length) and the position of its first entry.
pub open spec fn container_at(b: Seq<u8>, pos: int, major: u8) -> Option<(Option<nat>, int)> {
    if 0 <= pos < b.len() && b[pos] / 32 == major {
        if b[pos] % 32 == 31 {
            Some((None, pos + 1))
        } else {
            match head_at(b, pos) {
                Some((_, n, e)) => Some((Some(n), e)),
                None => None,
            }
        }
    } else {
        None
    }
}

/// The position after the data item at `pos`, as `minicbor`'s `Decoder::skip` finds it, or
/// `None` where it fails.
pub uninterp spec fn cbor_skip_end(bytes: Seq<u8>, pos: int) -> Option<int>;

/// The text string at `pos` as `minicbor`'s `Decoder::str` decodes it (its UTF-8 bytes, and the
/// position after it), or `None` where it fails.
pub uninterp spec fn cbor_text_at(bytes: Seq<u8>, pos: int) -> Option<(Seq<u8>, int)>;

/// Decodes a byte string at `pos` with `minicbor`'s `Decoder::bytes`.
///
/// The contract states what that method does: it reads a head of major type 2 with a definite
/// length and hands back that many following bytes.
#[verifier::external_body]
pub(crate) fn decode_bytes(bytes: &[u8], pos: usize) -> (r: Option<(Vec<u8>, usize)>)
    ensures
        match r {
            Some((v, e)) => bytes_at(bytes@, pos as int) == Some((v@, e as int)),
            None => bytes_at(bytes@, pos as int) is None,
        },
{
    let mut d = minicbor::Decoder::new(bytes);
    d.set_position(pos);
    let v = d.bytes().ok()?;
    Some((v.to_vec(), d.position()))
}

/// Decodes a text string at `pos` with `minicbor`'s `Decoder::str`, handing back its bytes.
///
/// The result is named: it is what `minicbor` decodes (including its UTF-8 check).
#[verifier::external_body]
pub(crate) fn decode_text(bytes: &[u8], pos: usize) -> (r: Option<(Vec<u8>, usize)>)
    ensures
        match r {
            Some((v, e)) => cbor_text_at(bytes@, pos as int) == Some((v@, e as int)),
            None => cbor_text_at(bytes@, pos as int) is None,
        },
{
    let mut d = minicbor::Decoder::new(bytes);
    d.set_position(pos);
    let v = d.str().ok()?;
    Some((v.as_bytes().to_vec(), d.position()))
}

/// Decodes an unsigned integer at `pos` with `minicbor`'s `Decoder::u64`.
///
/// The contract states what that method does: it reads the argument of a head of major
/// type 0.
#[verifier::external_body]
pub(crate) fn decode_u64(bytes: &[u8], pos: usize) -> (r: Option<(u64, usize)>)
    ensures
        match r {
            Some((v, e)) => u64_at(bytes@, pos as int) == Some((v, e as int)),
            None => u64_at(bytes@, pos as int) is None,
        },
{
    let mut d = minicbor::Decoder::new(bytes);
    d.set_position(pos);
    let v = d.u64().ok()?;
    Some((v, d.position()))
}

/// Decodes an integer at `pos` with `minicbor`'s `Decoder::i64`.
///
/// The contract states what that method does: a head of major type 0 gives its argument, one
/// of major type 1 gives -1 minus its argument, where the argument fits in an `i64`.
#[verifier::external_body]
pub(crate) fn decode_i64(bytes: &[u8], pos: usize) -> (r: Option<(i64, usize)>)
    ensures
        match r {
            Some((v, e)) => i64_at(bytes@, pos as int) == Some((v, e as int)),
            None => i64_at(bytes@, pos as int) is None,
        },
{
    let mut d = minicbor::Decoder::new(bytes);
    d.set_position(pos);
    let v = d.i64().ok()?;
    Some((v, d.position()))
}

/// Decodes an integer at `pos` with `minicbor`'s `Decoder::i32`.
///
/// The contract states what that method does: as for `i64`, where the argument fits in an
/// `i32`.
#[verifier::external_body]
pub(crate) fn decode_i32(bytes: &[u8], pos: usize) -> (r: Option<(i32, usize)>)
    ensures
        match r {
            Some((v, e)) => i32_at(bytes@, pos as int) == Some((v, e as int)),
            None => i32_at(bytes@, pos as int) is None,
        },
{
    let mut d = minicbor::Decoder::new(bytes);
    d.set_position(pos);
    let v = d.i32().ok()?;
    Some((v, d.position()))
}

/// Decodes a tag at `pos` with `minicbor`'s `Decoder::tag`.
///
/// The contract states what that method does: it reads the argument of a head of major
/// type 6.
#[verifier::external_body]
pub(crate) fn decode_tag(bytes: &[u8], pos: usize) -> (r: Option<(u64, usize)>)
    ensures
        match r {
            Some((v, e)) => tag_at(bytes@, pos as int) == Some((v, e as int)),
            None => tag_at(bytes@, pos as int) is None,
        },
{
    let mut d = minicbor::Decoder::new(bytes);
    d.set_position(pos);
    let t = d.tag().ok()?;
    Some((t.as_u64(), d.position()))
}

/// Decodes the head of a map at `pos` with `minicbor`'s `Decoder::map`.
///
/// The contract states what that method does: additional information 31 means indefinite
/// length, otherwise the head's argument is the number of entries.
#[verifier::external_body]
pub(crate) fn decode_map_head(bytes: &[u8], pos: usize) -> (r: Option<(Option<u64>, usize)>)
    ensures
        match r {
            Some((n, e)) => container_at(bytes@, pos as int, 5) == Some(
                (
                    match n {
                        Some(k) => Some(k as nat),
                        None => None,
                    },
                    e as int,
                ),
            ),
            None => container_at(bytes@, pos as int, 5) is None,
        },
{
    let mut d = minicbor::Decoder::new(bytes);
    d.set_position(pos);
    let n = d.map().ok()?;
    Some((n, d.position()))
}

/// Decodes the head of an array at `pos` with `minicbor`'s `Decoder::array`.
///
/// The contract states what that method does, as for maps.
#[verifier::external_body]
pub(crate) fn decode_array_head(bytes: &[u8], pos: usize) -> (r: Option<(Option<u64>, usize)>)
    ensures
        match r {
            Some((n, e)) => container_at(bytes@, pos as int, 4) == Some(
                (
                    match n {
                        Some(k) => Some(k as nat),
                        None => None,
                    },
                    e as int,
                ),
            ),
            None => container_at(bytes@, pos as int, 4) is None,
        },
{
    let mut d = minicbor::Decoder::new(bytes);
    d.set_position(pos);
    let n = d.array().ok()?;
    Some((n, d.position()))
}

/// Skips the data item at `pos` with `minicbor`'s `Decoder::skip`, returning the position
/// after it.
///
/// The result is named; the contract adds that a skipped item is not empty and lies within the
/// input, which holds as every step of the skip consumes bytes of the input.
#[verifier::external_body]
pub(crate) fn skip_item(bytes: &[u8], pos: usize) -> (r: Option<usize>)
    ensures
        match r {
            Some(e) => cbor_skip_end(bytes@, pos as int) == Some(e as int) && pos < e <= bytes@.len(),
            None => cbor_skip_end(bytes@, pos as int) is None,
        },
{
    let mut d = minicbor::Decoder::new(bytes);
    d.set_position(pos);
    d.skip().ok()?;
    Some(d.position())
}

/// The "break" stop code that ends an item of indefinite length.
pub const BREAK: u8 = 0xff;

/// The simple value null.
pub const NULL: u8 = 0xf6;

/// The entries of a map from `pos` on, where `remaining` entries are left (`None`: up to the
/// break code): each key (an integer) with the span of its value, and the position after the
/// map.
pub open spec fn map_entries_from(b: Seq<u8>, pos: int, remaining: Option<nat>) -> Option<(Seq<(i64, int, int)>, int)>
    decreases b.len() - pos,
{
    if remaining == Some(0nat) {
        Some((Seq::empty(), pos))
    } else if !(0 <= pos < b.len()) {
        None
    } else if remaining is None && b[pos] == BREAK {
        Some((Seq::empty(), pos + 1))
    } else {
        match i64_at(b, pos) {
            None => None,
            Some((key, kend)) => match cbor_skip_end(b, kend) {
                None => None,
                Some(vend) => if pos < kend < vend <= b.len() {
                    let next = match remaining {
                        Some(k) => Some((k - 1) as nat),
                        None => None,
                    };
                    match map_entries_from(b, vend, next) {
                        None => None,
                        Some((rest, end)) => Some((seq![(key, kend, vend)] + rest, end)),
                    }
                } else {
                    None
                },
            },
        }
    }
}

/// The entries of the map at `pos`, and the position after it.
pub open spec fn map_at(b: Seq<u8>, pos: int) -> Option<(Seq<(i64, int, int)>, int)> {
    match container_at(b, pos, 5) {
        Some((n, start)) => map_entries_from(b, start, n),
        None => None,
    }
}

/// The spans of the items of an array from `pos` on, as for maps.
pub open spec fn array_items_from(b: Seq<u8>, pos: int, remaining: Option<nat>) -> Option<(Seq<(int, int)>, int)>
    decreases b.len() - pos,
{
    if remaining == Some(0nat) {
        Some((Seq::empty(), pos))
    } else if !(0 <= pos < b.len()) {
        None
    } else if remaining is None && b[pos] == BREAK {
        Some((Seq::empty(), pos + 1))
    } else {
        match cbor_skip_end(b, pos) {
            None => None,
            Some(end) => if pos < end <= b.len() {
                let next = match remaining {
                    Some(k) => Some((k - 1) as nat),
                    None => None,
                };
                match array_items_from(b, end, next) {
                    None => None,
                    Some((rest, after)) => Some((seq![(pos, end)] + rest, after)),
                }
            } else {
                None
            },
        }
    }
}

/// The item spans of the array at `pos`, and the position after it.
pub open spec fn array_at(b: Seq<u8>, pos: int) -> Option<(Seq<(int, int)>, int)> {
    match container_at(b, pos, 4) {
        Some((n, start)) => array_items_from(b, start, n),
        None => None,
    }
}

/// The entries with positions as integers.
pub open spec fn entries_view(v: Seq<(i64, usize, usize)>) -> Seq<(i64, int, int)> {
    v.map_values(|e: (i64, usize, usize)| (e.0, e.1 as int, e.2 as int))
}

/// The spans with positions as integers.
pub open spec fn spans_view(v: Seq<(usize, usize)>) -> Seq<(int, int)> {
    v.map_values(|e: (usize, usize)| (e.0 as int, e.1 as int))
}

/// Walks the map at `pos`: the key and value span of each entry, in order, and the position
/// after the map.
pub fn map_entries(bytes: &[u8], pos: usize) -> (r: Option<(Vec<(i64, usize, usize)>, usize)>)
    ensures
        match r {
            Some((es, end)) => map_at(bytes@, pos as int) == Some((entries_view(es@), end as int)),
            None => map_at(bytes@, pos as int) is None,
        },
{
    let ghost b = bytes@;
    let (count, start) = match decode_map_head(bytes, pos) {
        Some(h) => h,
        None => {
            return None;
        },
    };
    let ghost n0 = match count {
        Some(k) => Some(k as nat),
        None => None::<nat>,
    };
    let mut remaining = count;
    let mut p = start;
    let mut items: Vec<(i64, usize, usize)> = Vec::new();
    loop
        invariant
            b == bytes@,
            p <= bytes@.len() || remaining == Some(0u64),
            map_at(b, pos as int) == match map_entries_from(
                b,
                p as int,
                match remaining {
                    Some(k) => Some(k as nat),
                    None => None,
                },
            ) {
                Some((rest, end)) => Some((entries_view(items@) + rest, end)),
                None => None,
            },
        decreases bytes@.len() - p,
    {
        let ghost rem_nat = match remaining {
            Some(k) => Some(k as nat),
            None => None::<nat>,
        };
        if remaining == Some(0u64) {
            proof {
                assert(map_entries_from(b, p as int, rem_nat) == Some((Seq::<(i64, int, int)>::empty(), p as int)));
                assert(entries_view(items@) + Seq::<(i64, int, int)>::empty() =~= entries_view(items@));
            }
            return Some((items, p));
        }
        if p >= bytes.len() {
            return None;
        }
        if remaining.is_none() && bytes[p] == BREAK {
            proof {
                assert(entries_view(items@) + Seq::<(i64, int, int)>::empty() =~= entries_view(items@));
            }
            return Some((items, p + 1));
        }
        let (key, kend) = match decode_i64(bytes, p) {
            Some(k) => k,
            None => {
                return None;
            },
        };
        let vend = match skip_item(bytes, kend) {
            Some(e) => e,
            None => {
                return None;
            },
        };
        if !(p < kend && kend < vend) {
            return None;
        }
        let ghost old_items = items@;
        items.push((key, kend, vend));
        remaining = match remaining {
            Some(k) => Some(k - 1),
            None => None,
        };
        proof {
            assert(entries_view(items@) =~= entries_view(old_items).push((key, kend as int, vend as int)));
            let next = match remaining {
                Some(k) => Some(k as nat),
                None => None::<nat>,
            };
            match map_entries_from(b, vend as int, next) {
                Some((rest, end)) => {
                    assert(entries_view(old_items) + (seq![(key, kend as int, vend as int)] + rest)
                        =~= entries_view(items@) + rest);
                },
                None => {},
            }
        }
        p = vend;
    }
}

/// Walks the array at `pos`: the span of each item, in order, and the position after the array.
pub fn array_items(bytes: &[u8], pos: usize) -> (r: Option<(Vec<(usize, usize)>, usize)>)
    ensures
        match r {
            Some((items, end)) => array_at(bytes@, pos as int) == Some((spans_view(items@), end as int)),
            None => array_at(bytes@, pos as int) is None,
        },
{
    let ghost b = bytes@;
    let (count, start) = match decode_array_head(bytes, pos) {
        Some(h) => h,
        None => {
            return None;
        },
    };
    let mut remaining = count;
    let mut p = start;
    let mut items: Vec<(usize, usize)> = Vec::new();
    loop
        invariant
            b == bytes@,
            p <= bytes@.len() || remaining == Some(0u64),
            array_at(b, pos as int) == match array_items_from(
                b,
                p as int,
                match remaining {
                    Some(k) => Some(k as nat),
                    None => None,
                },
            ) {
                Some((rest, end)) => Some((spans_view(items@) + rest, end)),
                None => None,
            },
        decreases bytes@.len() - p,
    {
        let ghost rem_nat = match remaining {
            Some(k) => Some(k as nat),
            None => None::<nat>,
        };
        if remaining == Some(0u64) {
            proof {
                assert(array_items_from(b, p as int, rem_nat) == Some((Seq::<(int, int)>::empty(), p as int)));
                assert(spans_view(items@) + Seq::<(int, int)>::empty() =~= spans_view(items@));
            }
            return Some((items, p));
        }
        if p >= bytes.len() {
            return None;
        }
        if remaining.is_none() && bytes[p] == BREAK {
            proof {
                assert(spans_view(items@) + Seq::<(int, int)>::empty() =~= spans_view(items@));
            }
            return Some((items, p + 1));
        }
        let end = match skip_item(bytes, p) {
            Some(e) => e,
            None => {
                return None;
            },
        };
        let ghost old_items = items@;
        items.push((p, end));
        remaining = match remaining {
            Some(k) => Some(k - 1),
            None => None,
        };
        proof {
            assert(spans_view(items@) =~= spans_view(old_items).push((p as int, end as int)));
            let next = match remaining {
                Some(k) => Some(k as nat),
                None => None::<nat>,
            };
            match array_items_from(b, end as int, next) {
                Some((rest, after)) => {
                    assert(spans_view(old_items) + (seq![(p as int, end as int)] + rest)
                        =~= spans_view(items@) + rest);
                },
                None => {},
            }
        }
        p = end;
    }
}

/// The kinds of field values that structures decode from map entries; the `Opt` kinds also
/// accept null.
#[derive(Debug, Clone, Copy, PartialEq, Eq, Structural)]
pub enum FieldKind {
    Bytes,
    OptBytes,
    I32,
    OptI32,
    U64,
    OptText,
}

/// A decoded field value.
#[derive(Debug, Clone)]
pub enum FieldValue {
    Null,
    Bytes(Vec<u8>),
    I32(i32),
    U64(u64),
    Text(Vec<u8>),
}

/// The abstract form of a [`FieldValue`].
pub enum FieldValueView {
    Null,
    Bytes(Seq<u8>),
    I32(i32),
    U64(u64),
    Text(Seq<u8>),
}

impl FieldValue {
    /// The abstract form of this value.
    pub open spec fn view_value(&self) -> FieldValueView {
        match self {
            FieldValue::Null => FieldValueView::Null,
            FieldValue::Bytes(v) => FieldValueView::Bytes(v@),
            FieldValue::I32(v) => FieldValueView::I32(*v),
            FieldValue::U64(v) => FieldValueView::U64(*v),
            FieldValue::Text(v) => FieldValueView::Text(v@),
        }
    }
}

/// Whether the item at `pos` is null.
pub open spec fn null_at(b: Seq<u8>, pos: int) -> bool {
    0 <= pos < b.len() && b[pos] == NULL
}

/// The value of kind `kind` at `pos`, or `None` if it does not decode as one.
pub open spec fn field_at(b: Seq<u8>, pos: int, kind: FieldKind) -> Option<FieldValueView> {
    let nullable = kind == FieldKind::OptBytes || kind == FieldKind::OptI32 || kind == FieldKind::OptText;
    if nullable && null_at(b, pos) {
        Some(FieldValueView::Null)
    } else {
        match kind {
            FieldKind::Bytes | FieldKind::OptBytes => match bytes_at(b, pos) {
                Some((v, _)) => Some(FieldValueView::Bytes(v)),
                None => None,
            },
            FieldKind::I32 | FieldKind::OptI32 => match i32_at(b, pos) {
                Some((v, _)) => Some(FieldValueView::I32(v)),
                None => None,
            },
            FieldKind::U64 => match u64_at(b, pos) {
                Some((v, _)) => Some(FieldValueView::U64(v)),
                None => None,
            },
            FieldKind::OptText => match cbor_text_at(b, pos) {
                Some((v, _)) => Some(FieldValueView::Text(v)),
                None => None,
            },
        }
    }
}

/// Decodes the value of kind `kind` at `pos`.
pub fn decode_field(bytes: &[u8], pos: usize, kind: FieldKind) -> (r: Option<FieldValue>)
    ensures
        match r {
            Some(v) => field_at(bytes@, pos as int, kind) == Some(v.view_value()),
            None => field_at(bytes@, pos as int, kind) is None,
        },
{
    let nullable = kind == FieldKind::OptBytes || kind == FieldKind::OptI32 || kind == FieldKind::OptText;
    if nullable && pos < bytes.len() && bytes[pos] == NULL {
        return Some(FieldValue::Null);
    }
    match kind {
        FieldKind::Bytes | FieldKind::OptBytes => match decode_bytes(bytes, pos) {
            Some((v, _)) => Some(FieldValue::Bytes(v)),
            None => None,
        },
        FieldKind::I32 | FieldKind::OptI32 => match decode_i32(bytes, pos) {
            Some((v, _)) => Some(FieldValue::I32(v)),
            None => None,
        },
        FieldKind::U64 => match decode_u64(bytes, pos) {
            Some((v, _)) => Some(FieldValue::U64(v)),
            None => None,
        },
        FieldKind::OptText => match decode_text(bytes, pos) {
            Some((v, _)) => Some(FieldValue::Text(v)),
            None => None,
        },
    }
}

/// The field with key `key` of a map with entries `es`: every entry with that key must decode
/// as `kind`, and the last one gives the value (`Some(None)` if there is none; `None` if one
/// does not decode).
pub open spec fn collect_spec(b: Seq<u8>, es: Seq<(i64, int, int)>, key: i64, kind: FieldKind) -> Option<Option<FieldValueView>>
    decreases es.len(),
{
    if es.len() == 0 {
        Some(None)
    } else {
        match collect_spec(b, es.drop_last(), key, kind) {
            None => None,
            Some(prev) => if es.last().0 == key {
                match field_at(b, es.last().1, kind) {
                    Some(v) => Some(Some(v)),
                    None => None,
                }
            } else {
                Some(prev)
            },
        }
    }
}

/// Decodes the field with key `key` from the entries of a map (see [`collect_spec`]).
pub fn collect_field(bytes: &[u8], es: &Vec<(i64, usize, usize)>, key: i64, kind: FieldKind) -> (r: Option<Option<FieldValue>>)
    ensures
        match r {
            Some(Some(v)) => collect_spec(bytes@, entries_view(es@), key, kind) == Some(Some(v.view_value())),
            Some(None) => collect_spec(bytes@, entries_view(es@), key, kind) == Some(None::<FieldValueView>),
            None => collect_spec(bytes@, entries_view(es@), key, kind) is None,
        },
{
    let ghost ev = entries_view(es@);
    let mut found: Option<FieldValue> = None;
    let mut k: usize = 0;
    while k < es.len()
        invariant
            k <= es.len(),
            ev == entries_view(es@),
            ev.len() == es@.len(),
            collect_spec(bytes@, ev.take(k as int), key, kind) == match found {
                Some(v) => Some(Some(v.view_value())),
                None => Some(None::<FieldValueView>),
            },
        decreases es.len() - k,
    {
        let (ek, start, _end) = es[k];
        proof {
            assert(ev.take(k as int + 1).drop_last() =~= ev.take(k as int));
            assert(ev.take(k as int + 1).last() == ev[k as int]);
            assert(ev[k as int] == (ek, start as int, _end as int));
        }
        if ek == key {
            match decode_field(bytes, start, kind) {
                Some(v) => {
                    found = Some(v);
                },
                None => {
                    proof {
                        lemma_collect_error_persists(bytes@, ev, key, kind, k as int + 1);
                    }
                    return None;
                },
            }
        }
        k = k + 1;
    }
    assert(ev.take(k as int) =~= ev);
    Some(found)
}

/// Once an entry fails to decode, the field fails to decode from any longer list of entries.
proof fn lemma_collect_error_persists(b: Seq<u8>, es: Seq<(i64, int, int)>, key: i64, kind: FieldKind, n: int)
    requires
        0 <= n <= es.len(),
        collect_spec(b, es.take(n), key, kind) is None,
    ensures
        collect_spec(b, es, key, kind) is None,
    decreases es.len() - n,
{
    if n < es.len() {
        assert(es.take(n + 1).drop_last() =~= es.take(n));
        lemma_collect_error_persists(b, es, key, kind, n + 1);
    } else {
        assert(es.take(n) =~= es);
    }
}

/// The values of a map's entries lie after their keys and within the input.
pub proof fn lemma_entries_in_bounds(b: Seq<u8>, pos: int)
    ensures
        map_at(b, pos) matches Some((es, _)) ==> forall|i: int|
            0 <= i < es.len() ==> (#[trigger] es[i]).1 < es[i].2 <= b.len(),
{
    match container_at(b, pos, 5) {
        Some((n, start)) => lemma_entries_from_in_bounds(b, start, n),
        None => {},
    }
}

proof fn lemma_entries_from_in_bounds(b: Seq<u8>, pos: int, remaining: Option<nat>)
    ensures
        map_entries_from(b, pos, remaining) matches Some((es, _)) ==> forall|i: int|
            0 <= i < es.len() ==> (#[trigger] es[i]).1 < es[i].2 <= b.len(),
    decreases b.len() - pos,
{
    if remaining == Some(0nat) || !(0 <= pos < b.len()) || (remaining is None && b[pos] == BREAK) {
    } else {
        match i64_at(b, pos) {
            None => {},
            Some((key, kend)) => match cbor_skip_end(b, kend) {
                None => {},
                Some(vend) => if pos < kend < vend <= b.len() {
                    let next = match remaining {
                        Some(k) => Some((k - 1) as nat),
                        None => None,
                    };
                    lemma_entries_from_in_bounds(b, vend, next);
                    match map_entries_from(b, vend, next) {
                        None => {},
                        Some((rest, end)) => {
                            let es = seq![(key, kend, vend)] + rest;
                            assert forall|i: int| 0 <= i < es.len() implies (#[trigger] es[i]).1 < es[i].2 <= b.len() by {
                                if i > 0 {
                                    assert(es[i] == rest[i - 1]);
                                }
                            }
                        },
                    }
                },
            },
        }
    }
}

/// The big-endian encoding of `x` in `n` bytes.
pub open spec fn be_bytes(x: nat, n: nat) -> Seq<u8>
    decreases n,
{
    if n == 0 {
        Seq::empty()
    } else {
        be_bytes(x / 256, (n - 1) as nat).push((x % 256) as u8)
    }
}

/// The shortest head of major type `major` with argument `x` (RFC 8949, Section 3), as
/// `minicbor`'s encoder writes it.
pub open spec fn head_bytes(major: u8, x: nat) -> Seq<u8> {
    let ib = (major * 32) as int;
    if x < 24 {
        seq![(ib + x) as u8]
    } else if x < 0x100 {
        seq![(ib + 24) as u8, x as u8]
    } else if x < 0x1_0000 {
        seq![(ib + 25) as u8] + be_bytes(x, 2)
    } else if x < 0x1_0000_0000 {
        seq![(ib + 26) as u8] + be_bytes(x, 4)
    } else {
        seq![(ib + 27) as u8] + be_bytes(x, 8)
    }
}

/// The head of a byte string of length `len`, as written by `minicbor`'s `Encoder::bytes_len`.
///
/// The contract states what that method writes: the shortest head of major type 2.
#[verifier::external_body]
pub(crate) fn encode_bytes_head(len: u64) -> (r: Vec<u8>)
    ensures
        r@ == head_bytes(2, len as nat),
{
    let mut e = minicbor::Encoder::new(minicbor::encode::write::Cursor::new([0u8; 9]));
    match e.bytes_len(len) {
        Ok(_) => {
            let c = e.into_writer();
            c.get_ref()[..c.position()].to_vec()
        },
        Err(_) => Vec::new(),
    }
}

/// The head of a text string of length `len`, as written by `minicbor`'s `Encoder::str_len`.
///
/// The contract states what that method writes: the shortest head of major type 3.
#[verifier::external_body]
pub(crate) fn encode_text_head(len: u64) -> (r: Vec<u8>)
    ensures
        r@ == head_bytes(3, len as nat),
{
    let mut e = minicbor::Encoder::new(minicbor::encode::write::Cursor::new([0u8; 9]));
    match e.str_len(len) {
        Ok(_) => {
            let c = e.into_writer();
            c.get_ref()[..c.position()].to_vec()
        },
        Err(_) => Vec::new(),
    }
}

/// The head of an array of `len` items, as written by `minicbor`'s `Encoder::array`.
///
/// The contract states what that method writes: the shortest head of major type 4.
#[verifier::external_body]
pub(crate) fn encode_array_head(len: u64) -> (r: Vec<u8>)
    ensures
        r@ == head_bytes(4, len as nat),
{
    let mut e = minicbor::Encoder::new(minicbor::encode::write::Cursor::new([0u8; 9]));
    match e.array(len) {
        Ok(_) => {
            let c = e.into_writer();
            c.get_ref()[..c.position()].to_vec()
        },
        Err(_) => Vec::new(),
    }
}

/// The head of a map of `len` entries, as written by `minicbor`'s `Encoder::map`.
///
/// The contract states what that method writes: the shortest head of major type 5.
#[verifier::external_body]
pub(crate) fn encode_map_head(len: u64) -> (r: Vec<u8>)
    ensures
        r@ == head_bytes(5, len as nat),
{
    let mut e = minicbor::Encoder::new(minicbor::encode::write::Cursor::new([0u8; 9]));
    match e.map(len) {
        Ok(_) => {
            let c = e.into_writer();
            c.get_ref()[..c.position()].to_vec()
        },
        Err(_) => Vec::new(),
    }
}

/// An unsigned integer, as written by `minicbor`'s `Encoder::u64`.
///
/// The contract states what that method writes: the shortest head of major type 0.
#[verifier::external_body]
pub(crate) fn encode_u64(x: u64) -> (r: Vec<u8>)
    ensures
        r@ == head_bytes(0, x as nat),
{
    let mut e = minicbor::Encoder::new(minicbor::encode::write::Cursor::new([0u8; 9]));
    match e.u64(x) {
        Ok(_) => {
            let c = e.into_writer();
            c.get_ref()[..c.position()].to_vec()
        },
        Err(_) => Vec::new(),
    }
}

/// Appends `tail` to `out`.
pub fn append(out: &mut Vec<u8>, tail: &[u8])
    ensures
        final(out)@ == old(out)@ + tail@,
{
    let ghost start = out@;
    let mut i: usize = 0;
    while i < tail.len()
        invariant
            i <= tail@.len(),
            out@ == start + tail@.take(i as int),
        decreases tail.len() - i,
    {
        out.push(tail[i]);
        i = i + 1;
        assert(out@ =~= start + tail@.take(i as int));
    }
    assert(tail@.take(i as int) =~= tail@);
}

/// A byte string: its head and content.
pub open spec fn bstr(v: Seq<u8>) -> Seq<u8> {
    head_bytes(2, v.len()) + v
}

/// Appends the byte string `v` to `out`.
pub fn append_bstr(out: &mut Vec<u8>, v: &[u8])
    ensures
        final(out)@ == old(out)@ + bstr(v@),
{
    let head = encode_bytes_head(v.len() as u64);
    append(out, head.as_slice());
    append(out, v);
    assert(old(out)@ + head@ + v@ =~= old(out)@ + bstr(v@));
}

} // verus!
