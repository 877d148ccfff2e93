//! ACE, COSE and CWT structures: their decoding from CBOR, and the processing of ACE tokens
//! posted to the `/authz-info` resource (RFC 9200 with the OSCORE profile of RFC 9203).

use vstd::prelude::*;
use crate::coapcore::cbor::{
    append, append_bstr, array_at, array_items, bstr, bytes_at, collect_field, collect_spec,
    decode_bytes, decode_tag, encode_array_head, encode_map_head, encode_text_head, encode_u64,
    entries_view, head_bytes, lemma_entries_in_bounds, map_at, map_entries, null_at, tag_at,
    FieldKind, FieldValue, FieldValueView, NULL,
};
use crate::coapcore::edhoc::{Credential, CredentialKey, CredentialType};
use crate::coapcore::error::{CredentialError, CredentialErrorDetail};
use crate::coapcore::scope::{same_scope, UnionScope};
use crate::coapcore::seccfg::{
    asymmetric_token_spec, cred_err, scope_of_aif, symmetric_token_spec, ConfigBuilder,
};
use crate::coapcore::time::{ClaimsTimes, TimeConstraint};

verus! {

/// The value of a header after merging: the latter's if present, the former's otherwise.
pub open spec fn prefer_latter<T>(former: Option<T>, latter: Option<T>) -> Option<T> {
    if latter is Some {
        latter
    } else {
        former
    }
}

/// Merging header values: an absent value changes nothing, a present latter value wins, and
/// merging is associative.
pub proof fn lemma_prefer_latter<T>(a: Option<T>, b: Option<T>, c: Option<T>)
    ensures
        prefer_latter(a, None::<T>) == a,
        prefer_latter(None::<T>, b) == b,
        b is Some ==> prefer_latter(a, b) == b,
        prefer_latter(prefer_latter(a, b), c) == prefer_latter(a, prefer_latter(b, c)),
{
}

/// A COSE header map: the algorithm and initialization vector, where present.
#[derive(Debug, Clone)]
pub struct HeaderMap {
    /// Algorithm (label 1).
    pub alg: Option<i32>,
    /// Initialization vector (label 5).
    pub iv: Option<Vec<u8>>,
}

impl HeaderMap {
    /// Merges two header maps, using the latter's value in case of conflict.
    pub fn updated_with(&self, other: &Self) -> (r: Self)
        ensures
            r.alg == prefer_latter(self.alg, other.alg),
            r.iv.deep_view() == prefer_latter(self.iv.deep_view(), other.iv.deep_view()),
    {
        let alg = match other.alg {
            Some(a) => Some(a),
            None => self.alg,
        };
        let iv = match &other.iv {
            Some(v) => Some(v.clone()),
            None => match &self.iv {
                Some(v) => Some(v.clone()),
                None => None,
            },
        };
        HeaderMap { alg, iv }
    }
}


/// The abstract form of a header map: algorithm and initialization vector.
pub open spec fn header_view(h: HeaderMap) -> (Option<i32>, Option<Seq<u8>>) {
    (h.alg, h.iv.deep_view())
}

/// An optional field of bytes: absent or null is `None`.
pub open spec fn opt_bytes_field(c: Option<Option<FieldValueView>>) -> Option<Option<Seq<u8>>> {
    match c {
        Some(Some(FieldValueView::Bytes(v))) => Some(Some(v)),
        Some(Some(FieldValueView::Null)) => Some(None),
        Some(None) => Some(None),
        _ => None,
    }
}

/// An optional integer field: absent or null is `None`.
pub open spec fn opt_i32_field(c: Option<Option<FieldValueView>>) -> Option<Option<i32>> {
    match c {
        Some(Some(FieldValueView::I32(v))) => Some(Some(v)),
        Some(Some(FieldValueView::Null)) => Some(None),
        Some(None) => Some(None),
        _ => None,
    }
}

/// An optional text field: absent or null is `None`.
pub open spec fn opt_text_field(c: Option<Option<FieldValueView>>) -> Option<Option<Seq<u8>>> {
    match c {
        Some(Some(FieldValueView::Text(v))) => Some(Some(v)),
        Some(Some(FieldValueView::Null)) => Some(None),
        Some(None) => Some(None),
        _ => None,
    }
}

/// A required field of bytes: absent is an error.
pub open spec fn req_bytes_field(c: Option<Option<FieldValueView>>) -> Option<Seq<u8>> {
    match c {
        Some(Some(FieldValueView::Bytes(v))) => Some(v),
        _ => None,
    }
}

/// A required integer field: absent is an error.
pub open spec fn req_i32_field(c: Option<Option<FieldValueView>>) -> Option<i32> {
    match c {
        Some(Some(FieldValueView::I32(v))) => Some(v),
        _ => None,
    }
}

/// A required unsigned field: absent is an error.
pub open spec fn req_u64_field(c: Option<Option<FieldValueView>>) -> Option<u64> {
    match c {
        Some(Some(FieldValueView::U64(v))) => Some(v),
        _ => None,
    }
}

/// An optional field of bytes from a collected field value.
fn opt_bytes_of(c: Option<Option<FieldValue>>) -> (r: Option<Option<Vec<u8>>>)
    ensures
        opt_bytes_field(match c {
            Some(Some(v)) => Some(Some(v.view_value())),
            Some(None) => Some(None),
            None => None,
        }) == match r {
            Some(Some(v)) => Some(Some(v@)),
            Some(None) => Some(None::<Seq<u8>>),
            None => None,
        },
{
    match c {
        Some(Some(FieldValue::Bytes(v))) => Some(Some(v)),
        Some(Some(FieldValue::Null)) => Some(None),
        Some(None) => Some(None),
        _ => None,
    }
}

/// The header map at `pos`: label 1 is the algorithm, label 5 the initialization vector; both
/// may be absent or null.
pub open spec fn header_map_at(b: Seq<u8>, pos: int) -> Option<(Option<i32>, Option<Seq<u8>>)> {
    match map_at(b, pos) {
        None => None,
        Some((es, _)) => match (
            opt_i32_field(collect_spec(b, es, 1, FieldKind::OptI32)),
            opt_bytes_field(collect_spec(b, es, 5, FieldKind::OptBytes)),
        ) {
            (Some(alg), Some(iv)) => Some((alg, iv)),
            _ => None,
        },
    }
}

/// Decodes the header map at `pos`.
pub fn decode_header_map(bytes: &[u8], pos: usize) -> (r: Option<HeaderMap>)
    ensures
        match r {
            Some(h) => header_map_at(bytes@, pos as int) == Some(header_view(h)),
            None => header_map_at(bytes@, pos as int) is None,
        },
{
    let (es, _end) = match map_entries(bytes, pos) {
        Some(m) => m,
        None => {
            return None;
        },
    };
    let alg = match collect_field(bytes, &es, 1, FieldKind::OptI32) {
        Some(Some(FieldValue::I32(a))) => Some(a),
        Some(Some(FieldValue::Null)) => None,
        Some(None) => None,
        _ => {
            return None;
        },
    };
    let iv = match opt_bytes_of(collect_field(bytes, &es, 5, FieldKind::OptBytes)) {
        Some(v) => v,
        None => {
            return None;
        },
    };
    Some(HeaderMap { alg, iv })
}

/// The view of a collected field value.
pub open spec fn collected_view(c: Option<Option<FieldValue>>) -> Option<Option<FieldValueView>> {
    match c {
        Some(Some(v)) => Some(Some(v.view_value())),
        Some(None) => Some(None),
        None => None,
    }
}

/// An optional integer field from a collected field value.
fn opt_i32_of(c: Option<Option<FieldValue>>) -> (r: Option<Option<i32>>)
    ensures
        opt_i32_field(collected_view(c)) == r,
{
    match c {
        Some(Some(FieldValue::I32(v))) => Some(Some(v)),
        Some(Some(FieldValue::Null)) => Some(None),
        Some(None) => Some(None),
        _ => None,
    }
}

/// An optional text field from a collected field value.
fn opt_text_of(c: Option<Option<FieldValue>>) -> (r: Option<Option<Vec<u8>>>)
    ensures
        opt_text_field(collected_view(c)) == match r {
            Some(Some(v)) => Some(Some(v@)),
            Some(None) => Some(None::<Seq<u8>>),
            None => None,
        },
{
    match c {
        Some(Some(FieldValue::Text(v))) => Some(Some(v)),
        Some(Some(FieldValue::Null)) => Some(None),
        Some(None) => Some(None),
        _ => None,
    }
}

/// A required field of bytes from a collected field value.
fn req_bytes_of(c: Option<Option<FieldValue>>) -> (r: Option<Vec<u8>>)
    ensures
        req_bytes_field(collected_view(c)) == match r {
            Some(v) => Some(v@),
            None => None::<Seq<u8>>,
        },
{
    match c {
        Some(Some(FieldValue::Bytes(v))) => Some(v),
        _ => None,
    }
}

/// A required integer field from a collected field value.
fn req_i32_of(c: Option<Option<FieldValue>>) -> (r: Option<i32>)
    ensures
        req_i32_field(collected_view(c)) == r,
{
    match c {
        Some(Some(FieldValue::I32(v))) => Some(v),
        _ => None,
    }
}

/// A required unsigned field from a collected field value.
fn req_u64_of(c: Option<Option<FieldValue>>) -> (r: Option<u64>)
    ensures
        req_u64_field(collected_view(c)) == r,
{
    match c {
        Some(Some(FieldValue::U64(v))) => Some(v),
        _ => None,
    }
}

/// The content of an `application/ace+cbor` message: the fields used by the ACE-OSCORE
/// profile, each optional.
#[derive(Debug, Clone)]
pub struct AceCbor {
    /// Access token (label 1).
    pub access_token: Option<Vec<u8>>,
    /// Client nonce (label 40).
    pub nonce1: Option<Vec<u8>>,
    /// Server nonce (label 42).
    pub nonce2: Option<Vec<u8>>,
    /// The client's OSCORE recipient ID (label 43).
    pub ace_client_recipientid: Option<Vec<u8>>,
    /// The server's OSCORE recipient ID (label 44).
    pub ace_server_recipientid: Option<Vec<u8>>,
}

/// The abstract form of an [`AceCbor`].
pub struct AceCborView {
    pub access_token: Option<Seq<u8>>,
    pub nonce1: Option<Seq<u8>>,
    pub nonce2: Option<Seq<u8>>,
    pub ace_client_recipientid: Option<Seq<u8>>,
    pub ace_server_recipientid: Option<Seq<u8>>,
}

impl AceCbor {
    /// The abstract form of this message.
    pub open spec fn view_ace(&self) -> AceCborView {
        AceCborView {
            access_token: self.access_token.deep_view(),
            nonce1: self.nonce1.deep_view(),
            nonce2: self.nonce2.deep_view(),
            ace_client_recipientid: self.ace_client_recipientid.deep_view(),
            ace_server_recipientid: self.ace_server_recipientid.deep_view(),
        }
    }
}

/// The `application/ace+cbor` message at the start of `b`: a map whose labels 1, 40, 42, 43 and
/// 44 hold byte strings (or null); other labels are ignored.
pub open spec fn ace_cbor_at(b: Seq<u8>) -> Option<AceCborView> {
    match map_at(b, 0) {
        None => None,
        Some((es, _)) => match (
            opt_bytes_field(collect_spec(b, es, 1, FieldKind::OptBytes)),
            opt_bytes_field(collect_spec(b, es, 40, FieldKind::OptBytes)),
            opt_bytes_field(collect_spec(b, es, 42, FieldKind::OptBytes)),
            opt_bytes_field(collect_spec(b, es, 43, FieldKind::OptBytes)),
            opt_bytes_field(collect_spec(b, es, 44, FieldKind::OptBytes)),
        ) {
            (Some(t), Some(n1), Some(n2), Some(c), Some(s)) => Some(
                AceCborView {
                    access_token: t,
                    nonce1: n1,
                    nonce2: n2,
                    ace_client_recipientid: c,
                    ace_server_recipientid: s,
                },
            ),
            _ => None,
        },
    }
}

/// Decodes an `application/ace+cbor` message.
pub fn decode_ace_cbor(bytes: &[u8]) -> (r: Option<AceCbor>)
    ensures
        match r {
            Some(m) => ace_cbor_at(bytes@) == Some(m.view_ace()),
            None => ace_cbor_at(bytes@) is None,
        },
{
    let (es, _end) = match map_entries(bytes, 0) {
        Some(m) => m,
        None => {
            return None;
        },
    };
    let access_token = match opt_bytes_of(collect_field(bytes, &es, 1, FieldKind::OptBytes)) {
        Some(v) => v,
        None => {
            return None;
        },
    };
    let nonce1 = match opt_bytes_of(collect_field(bytes, &es, 40, FieldKind::OptBytes)) {
        Some(v) => v,
        None => {
            return None;
        },
    };
    let nonce2 = match opt_bytes_of(collect_field(bytes, &es, 42, FieldKind::OptBytes)) {
        Some(v) => v,
        None => {
            return None;
        },
    };
    let ace_client_recipientid = match opt_bytes_of(collect_field(bytes, &es, 43, FieldKind::OptBytes)) {
        Some(v) => v,
        None => {
            return None;
        },
    };
    let ace_server_recipientid = match opt_bytes_of(collect_field(bytes, &es, 44, FieldKind::OptBytes)) {
        Some(v) => v,
        None => {
            return None;
        },
    };
    let m = AceCbor { access_token, nonce1, nonce2, ace_client_recipientid, ace_server_recipientid };
    proof {
        let b = bytes@;
        let ev = entries_view(es@);
        assert(opt_bytes_field(collect_spec(b, ev, 1, FieldKind::OptBytes)) == Some(m.access_token.deep_view()));
        assert(opt_bytes_field(collect_spec(b, ev, 40, FieldKind::OptBytes)) == Some(m.nonce1.deep_view()));
        assert(opt_bytes_field(collect_spec(b, ev, 42, FieldKind::OptBytes)) == Some(m.nonce2.deep_view()));
        assert(opt_bytes_field(collect_spec(b, ev, 43, FieldKind::OptBytes)) == Some(m.ace_client_recipientid.deep_view()));
        assert(opt_bytes_field(collect_spec(b, ev, 44, FieldKind::OptBytes)) == Some(m.ace_server_recipientid.deep_view()));
    }
    Some(m)
}

/// A `COSE_Encrypt0` structure.
#[derive(Debug, Clone)]
pub struct CoseEncrypt0 {
    /// The encoded protected header map.
    pub protected: Vec<u8>,
    /// The unprotected header map.
    pub unprotected: HeaderMap,
    /// The ciphertext, with the authentication tag at its end.
    pub encrypted: Vec<u8>,
}

/// The `COSE_Encrypt0` structure at the start of `b`: tag 16 on an array whose items 0, 1 and
/// 2 are the protected header (a byte string), the unprotected header map, and the ciphertext
/// (a byte string); further items are ignored.
pub open spec fn encrypt0_at(b: Seq<u8>) -> Option<(Seq<u8>, (Option<i32>, Option<Seq<u8>>), Seq<u8>)> {
    match tag_at(b, 0) {
        Some((t, start)) => if t == 16 {
            match array_at(b, start) {
                Some((items, _)) => if items.len() >= 3 {
                    match (
                        bytes_at(b, items[0].0),
                        header_map_at(b, items[1].0),
                        bytes_at(b, items[2].0),
                    ) {
                        (Some((p, _)), Some(h), Some((c, _))) => Some((p, h, c)),
                        _ => None,
                    }
                } else {
                    None
                },
                None => None,
            }
        } else {
            None
        },
        None => None,
    }
}

/// Decodes a `COSE_Encrypt0` structure.
pub fn decode_encrypt0(bytes: &[u8]) -> (r: Option<CoseEncrypt0>)
    ensures
        match r {
            Some(m) => encrypt0_at(bytes@) == Some((m.protected@, header_view(m.unprotected), m.encrypted@)),
            None => encrypt0_at(bytes@) is None,
        },
{
    let (t, start) = match decode_tag(bytes, 0) {
        Some(t) => t,
        None => {
            return None;
        },
    };
    if t != 16 {
        return None;
    }
    let (items, _end) = match array_items(bytes, start) {
        Some(a) => a,
        None => {
            return None;
        },
    };
    if items.len() < 3 {
        return None;
    }
    let (protected, _) = match decode_bytes(bytes, items[0].0) {
        Some(v) => v,
        None => {
            return None;
        },
    };
    let unprotected = match decode_header_map(bytes, items[1].0) {
        Some(h) => h,
        None => {
            return None;
        },
    };
    let (encrypted, _) = match decode_bytes(bytes, items[2].0) {
        Some(v) => v,
        None => {
            return None;
        },
    };
    Some(CoseEncrypt0 { protected, unprotected, encrypted })
}

/// A nested field with key `key`: every entry with that key must decode with `dec` (given the
/// span of its value), and the last one gives the value (`Some(None)` if there is none).
pub open spec fn collect_nested<T>(es: Seq<(i64, int, int)>, key: i64, dec: spec_fn(int, int) -> Option<T>) -> Option<Option<T>>
    decreases es.len(),
{
    if es.len() == 0 {
        Some(None)
    } else {
        match collect_nested(es.drop_last(), key, dec) {
            None => None,
            Some(prev) => if es.last().0 == key {
                match dec(es.last().1, es.last().2) {
                    Some(v) => Some(Some(v)),
                    None => None,
                }
            } else {
                Some(prev)
            },
        }
    }
}

/// Once an entry fails to decode, the nested field fails to decode from any longer list of
/// entries.
proof fn lemma_nested_error_persists<T>(es: Seq<(i64, int, int)>, key: i64, dec: spec_fn(int, int) -> Option<T>, n: int)
    requires
        0 <= n <= es.len(),
        collect_nested(es.take(n), key, dec) is None,
    ensures
        collect_nested(es, key, dec) is None,
    decreases es.len() - n,
{
    if n < es.len() {
        assert(es.take(n + 1).drop_last() =~= es.take(n));
        lemma_nested_error_persists(es, key, dec, n + 1);
    } else {
        assert(es.take(n) =~= es);
    }
}

/// `OSCORE_Input_Material` (RFC 9203): the OSCORE input material identifier and the master
/// secret.
#[derive(Debug, Clone)]
pub struct OscoreInputMaterial {
    /// Identifier (label 0).
    pub id: Vec<u8>,
    /// Master secret (label 2).
    pub ms: Vec<u8>,
}

/// The OSCORE input material at `pos`: a map whose labels 0 and 2 hold byte strings; both are
/// required.
pub open spec fn osc_at(b: Seq<u8>, pos: int) -> Option<(Seq<u8>, Seq<u8>)> {
    match map_at(b, pos) {
        None => None,
        Some((es, _)) => match (
            req_bytes_field(collect_spec(b, es, 0, FieldKind::Bytes)),
            req_bytes_field(collect_spec(b, es, 2, FieldKind::Bytes)),
        ) {
            (Some(id), Some(ms)) => Some((id, ms)),
            _ => None,
        },
    }
}

/// Decodes OSCORE input material at `pos`.
pub fn decode_osc(bytes: &[u8], pos: usize) -> (r: Option<OscoreInputMaterial>)
    ensures
        match r {
            Some(m) => osc_at(bytes@, pos as int) == Some((m.id@, m.ms@)),
            None => osc_at(bytes@, pos as int) is None,
        },
{
    let (es, _end) = match map_entries(bytes, pos) {
        Some(m) => m,
        None => {
            return None;
        },
    };
    let id = match req_bytes_of(collect_field(bytes, &es, 0, FieldKind::Bytes)) {
        Some(v) => v,
        None => {
            return None;
        },
    };
    let ms = match req_bytes_of(collect_field(bytes, &es, 2, FieldKind::Bytes)) {
        Some(v) => v,
        None => {
            return None;
        },
    };
    Some(OscoreInputMaterial { id, ms })
}

/// A `COSE_Key` (RFC 9052, Section 7) with the parameters of key types 1 (OKP) and 2 (EC2).
#[derive(Debug, Clone)]
pub struct CoseKey {
    /// Key type (label 1), required.
    pub kty: i32,
    /// Key identifier (label 2).
    pub kid: Option<Vec<u8>>,
    /// Algorithm (label 3).
    pub alg: Option<i32>,
    /// Curve (label -1).
    pub crv: Option<i32>,
    /// x coordinate (label -2).
    pub x: Option<Vec<u8>>,
    /// y coordinate (label -3).
    pub y: Option<Vec<u8>>,
}

/// The abstract form of a [`CoseKey`].
pub struct CoseKeyView {
    pub kty: i32,
    pub kid: Option<Seq<u8>>,
    pub alg: Option<i32>,
    pub crv: Option<i32>,
    pub x: Option<Seq<u8>>,
    pub y: Option<Seq<u8>>,
}

impl CoseKey {
    /// The abstract form of this key.
    pub open spec fn view_key(&self) -> CoseKeyView {
        CoseKeyView {
            kty: self.kty,
            kid: self.kid.deep_view(),
            alg: self.alg,
            crv: self.crv,
            x: self.x.deep_view(),
            y: self.y.deep_view(),
        }
    }
}

/// The `COSE_Key` at `pos`.
pub open spec fn cose_key_at(b: Seq<u8>, pos: int) -> Option<CoseKeyView> {
    match map_at(b, pos) {
        None => None,
        Some((es, _)) => match (
            req_i32_field(collect_spec(b, es, 1, FieldKind::I32)),
            opt_bytes_field(collect_spec(b, es, 2, FieldKind::OptBytes)),
            opt_i32_field(collect_spec(b, es, 3, FieldKind::OptI32)),
            opt_i32_field(collect_spec(b, es, -1i64, FieldKind::OptI32)),
            opt_bytes_field(collect_spec(b, es, -2i64, FieldKind::OptBytes)),
            opt_bytes_field(collect_spec(b, es, -3i64, FieldKind::OptBytes)),
        ) {
            (Some(kty), Some(kid), Some(alg), Some(crv), Some(x), Some(y)) => Some(
                CoseKeyView { kty, kid, alg, crv, x, y },
            ),
            _ => None,
        },
    }
}

/// Decodes a `COSE_Key` at `pos`.
pub fn decode_cose_key(bytes: &[u8], pos: usize) -> (r: Option<CoseKey>)
    ensures
        match r {
            Some(k) => cose_key_at(bytes@, pos as int) == Some(k.view_key()),
            None => cose_key_at(bytes@, pos as int) is None,
        },
{
    let (es, _end) = match map_entries(bytes, pos) {
        Some(m) => m,
        None => {
            return None;
        },
    };
    let kty = match req_i32_of(collect_field(bytes, &es, 1, FieldKind::I32)) {
        Some(v) => v,
        None => {
            return None;
        },
    };
    let kid = match opt_bytes_of(collect_field(bytes, &es, 2, FieldKind::OptBytes)) {
        Some(v) => v,
        None => {
            return None;
        },
    };
    let alg = match opt_i32_of(collect_field(bytes, &es, 3, FieldKind::OptI32)) {
        Some(v) => v,
        None => {
            return None;
        },
    };
    let crv = match opt_i32_of(collect_field(bytes, &es, -1, FieldKind::OptI32)) {
        Some(v) => v,
        None => {
            return None;
        },
    };
    let x = match opt_bytes_of(collect_field(bytes, &es, -2, FieldKind::OptBytes)) {
        Some(v) => v,
        None => {
            return None;
        },
    };
    let y = match opt_bytes_of(collect_field(bytes, &es, -3, FieldKind::OptBytes)) {
        Some(v) => v,
        None => {
            return None;
        },
    };
    let k = CoseKey { kty, kid, alg, crv, x, y };
    proof {
        let b = bytes@;
        let ev = entries_view(es@);
        assert(opt_bytes_field(collect_spec(b, ev, 2, FieldKind::OptBytes)) == Some(k.kid.deep_view()));
        assert(opt_bytes_field(collect_spec(b, ev, -2i64, FieldKind::OptBytes)) == Some(k.x.deep_view()));
        assert(opt_bytes_field(collect_spec(b, ev, -3i64, FieldKind::OptBytes)) == Some(k.y.deep_view()));
    }
    Some(k)
}

/// OSCORE input material at `start`, or null.
pub open spec fn osc_or_null(b: Seq<u8>, start: int) -> Option<Option<(Seq<u8>, Seq<u8>)>> {
    if null_at(b, start) {
        Some(None)
    } else {
        match osc_at(b, start) {
            Some(m) => Some(Some(m)),
            None => None,
        }
    }
}

/// A `COSE_Key` in `start..end` with its encoded bytes, or null.
pub open spec fn key_or_null(b: Seq<u8>, start: int, end: int) -> Option<Option<(CoseKeyView, Seq<u8>)>> {
    if null_at(b, start) {
        Some(None)
    } else {
        match cose_key_at(b, start) {
            Some(k) => Some(Some((k, b.subrange(start, end)))),
            None => None,
        }
    }
}

/// The confirmation claim of a token (RFC 8747): OSCORE input material (label 4) and a
/// `COSE_Key` (label 1), each optional.
#[derive(Debug, Clone)]
pub struct Cnf {
    /// OSCORE input material.
    pub osc: Option<OscoreInputMaterial>,
    /// A `COSE_Key`, with its encoded bytes.
    pub cose_key: Option<(CoseKey, Vec<u8>)>,
}

/// The abstract form of a [`Cnf`].
pub struct CnfView {
    pub osc: Option<(Seq<u8>, Seq<u8>)>,
    pub cose_key: Option<(CoseKeyView, Seq<u8>)>,
}

impl Cnf {
    /// The abstract form of this claim.
    pub open spec fn view_cnf(&self) -> CnfView {
        CnfView {
            osc: match self.osc {
                Some(m) => Some((m.id@, m.ms@)),
                None => None,
            },
            cose_key: match self.cose_key {
                Some((k, raw)) => Some((k.view_key(), raw@)),
                None => None,
            },
        }
    }
}

/// The confirmation claim at `pos`.
pub open spec fn cnf_at(b: Seq<u8>, pos: int) -> Option<CnfView> {
    match map_at(b, pos) {
        None => None,
        Some((es, _)) => match (
            collect_nested(es, 4, |s: int, e: int| osc_or_null(b, s)),
            collect_nested(es, 1, |s: int, e: int| key_or_null(b, s, e)),
        ) {
            (Some(o), Some(k)) => Some(
                CnfView {
                    osc: match o {
                        Some(Some(m)) => Some(m),
                        _ => None,
                    },
                    cose_key: match k {
                        Some(Some(c)) => Some(c),
                        _ => None,
                    },
                },
            ),
            _ => None,
        },
    }
}

/// Decodes the OSCORE input material of a confirmation claim (label 4).
fn collect_osc(bytes: &[u8], es: &Vec<(i64, usize, usize)>) -> (r: Option<Option<OscoreInputMaterial>>)
    ensures
        match r {
            Some(o) => collect_nested(entries_view(es@), 4, |s: int, e: int| osc_or_null(bytes@, s)) matches Some(c)
                && match o {
                    Some(m) => c == Some(Some((m.id@, m.ms@))),
                    None => c is None || c == Some(None::<(Seq<u8>, Seq<u8>)>),
                },
            None => collect_nested(entries_view(es@), 4, |s: int, e: int| osc_or_null(bytes@, s)) is None,
        },
{
    let ghost ev = entries_view(es@);
    let ghost dec = |s: int, e: int| osc_or_null(bytes@, s);
    let mut found: Option<Option<OscoreInputMaterial>> = None;
    let mut k: usize = 0;
    while k < es.len()
        invariant
            k <= es.len(),
            ev == entries_view(es@),
            ev.len() == es@.len(),
            dec == (|s: int, e: int| osc_or_null(bytes@, s)),
            collect_nested(ev.take(k as int), 4, dec) == match found {
                Some(Some(m)) => Some(Some(Some((m.id@, m.ms@)))),
                Some(None) => Some(Some(None::<(Seq<u8>, Seq<u8>)>)),
                None => Some(None::<Option<(Seq<u8>, Seq<u8>)>>),
            },
        decreases es.len() - k,
    {
        let (ek, start, end) = es[k];
        proof {
            assert(ev.take(k as int + 1).drop_last() =~= ev.take(k as int));
            assert(ev.take(k as int + 1).last() == ev[k as int]);
            assert(ev[k as int] == (ek, start as int, end as int));
        }
        if ek == 4 {
            if start < bytes.len() && bytes[start] == NULL {
                found = Some(None);
            } else {
                match decode_osc(bytes, start) {
                    Some(m) => {
                        found = Some(Some(m));
                    },
                    None => {
                        proof {
                            lemma_nested_error_persists(ev, 4, dec, k as int + 1);
                        }
                        return None;
                    },
                }
            }
        }
        k = k + 1;
    }
    assert(ev.take(k as int) =~= ev);
    match found {
        Some(o) => Some(o),
        None => Some(None),
    }
}

/// Decodes the `COSE_Key` of a confirmation claim (label 1), with its encoded bytes.
fn collect_cose_key(bytes: &[u8], es: &Vec<(i64, usize, usize)>) -> (r: Option<Option<(CoseKey, Vec<u8>)>>)
    requires
        forall|i: int| 0 <= i < es@.len() ==> (#[trigger] es@[i]).1 <= es@[i].2 <= bytes@.len(),
    ensures
        match r {
            Some(o) => collect_nested(entries_view(es@), 1, |s: int, e: int| key_or_null(bytes@, s, e)) matches Some(c)
                && match o {
                    Some((k, raw)) => c == Some(Some((k.view_key(), raw@))),
                    None => c is None || c == Some(None::<(CoseKeyView, Seq<u8>)>),
                },
            None => collect_nested(entries_view(es@), 1, |s: int, e: int| key_or_null(bytes@, s, e)) is None,
        },
{
    let ghost ev = entries_view(es@);
    let ghost dec = |s: int, e: int| key_or_null(bytes@, s, e);
    let mut found: Option<Option<(CoseKey, Vec<u8>)>> = None;
    let mut k: usize = 0;
    while k < es.len()
        invariant
            k <= es.len(),
            ev == entries_view(es@),
            ev.len() == es@.len(),
            dec == (|s: int, e: int| key_or_null(bytes@, s, e)),
            forall|i: int| 0 <= i < es@.len() ==> (#[trigger] es@[i]).1 <= es@[i].2 <= bytes@.len(),
            collect_nested(ev.take(k as int), 1, dec) == match found {
                Some(Some((key, raw))) => Some(Some(Some((key.view_key(), raw@)))),
                Some(None) => Some(Some(None::<(CoseKeyView, Seq<u8>)>)),
                None => Some(None::<Option<(CoseKeyView, Seq<u8>)>>),
            },
        decreases es.len() - k,
    {
        let (ek, start, end) = es[k];
        proof {
            assert(ev.take(k as int + 1).drop_last() =~= ev.take(k as int));
            assert(ev.take(k as int + 1).last() == ev[k as int]);
            assert(ev[k as int] == (ek, start as int, end as int));
            assert(es@[k as int] == (ek, start, end));
        }
        if ek == 1 {
            if start < bytes.len() && bytes[start] == NULL {
                found = Some(None);
            } else {
                match decode_cose_key(bytes, start) {
                    Some(key) => {
                        let raw = bytes_range(bytes, start, end);
                        found = Some(Some((key, raw)));
                    },
                    None => {
                        proof {
                            lemma_nested_error_persists(ev, 1, dec, k as int + 1);
                        }
                        return None;
                    },
                }
            }
        }
        k = k + 1;
    }
    assert(ev.take(k as int) =~= ev);
    match found {
        Some(o) => Some(o),
        None => Some(None),
    }
}

/// A copy of `bytes[start..end]`.
pub fn bytes_range(bytes: &[u8], start: usize, end: usize) -> (r: Vec<u8>)
    requires
        start <= end <= bytes@.len(),
    ensures
        r@ == bytes@.subrange(start as int, end as int),
{
    let mut out: Vec<u8> = Vec::new();
    let mut i: usize = start;
    while i < end
        invariant
            start <= i <= end,
            end <= bytes@.len(),
            out@ == bytes@.subrange(start as int, i as int),
        decreases end - i,
    {
        out.push(bytes[i]);
        i = i + 1;
        assert(out@ =~= bytes@.subrange(start as int, i as int));
    }
    out
}

/// Decodes the confirmation claim at `pos`.
pub fn decode_cnf(bytes: &[u8], pos: usize) -> (r: Option<Cnf>)
    ensures
        match r {
            Some(c) => cnf_at(bytes@, pos as int) == Some(c.view_cnf()),
            None => cnf_at(bytes@, pos as int) is None,
        },
{
    let (es, _end) = match map_entries(bytes, pos) {
        Some(m) => m,
        None => {
            return None;
        },
    };
    proof {
        lemma_entries_in_bounds(bytes@, pos as int);
        assert forall|i: int| 0 <= i < es@.len() implies (#[trigger] es@[i]).1 <= es@[i].2 <= bytes@.len() by {
            assert(entries_view(es@)[i] == (es@[i].0, es@[i].1 as int, es@[i].2 as int));
        }
    }
    let osc = match collect_osc(bytes, &es) {
        Some(o) => o,
        None => {
            return None;
        },
    };
    let cose_key = match collect_cose_key(bytes, &es) {
        Some(k) => k,
        None => {
            return None;
        },
    };
    Some(Cnf { osc, cose_key })
}

/// A confirmation claim at `start`.
pub open spec fn cnf_in(b: Seq<u8>, start: int) -> Option<CnfView> {
    cnf_at(b, start)
}

/// A CWT Claims Set (RFC 8392) as far as it is used here.
#[derive(Debug, Clone)]
pub struct CwtClaims {
    /// Audience (label 3), as UTF-8 bytes.
    pub aud: Option<Vec<u8>>,
    /// Expiration time (label 4).
    pub exp: u64,
    /// Issued-at time (label 6).
    pub iat: u64,
    /// Confirmation (label 8).
    pub cnf: Cnf,
    /// Scope (label 9), an encoded AIF value.
    pub scope: Vec<u8>,
}

/// The abstract form of a [`CwtClaims`].
pub struct CwtClaimsView {
    pub aud: Option<Seq<u8>>,
    pub exp: u64,
    pub iat: u64,
    pub cnf: CnfView,
    pub scope: Seq<u8>,
}

impl CwtClaims {
    /// The abstract form of these claims.
    pub open spec fn view_claims(&self) -> CwtClaimsView {
        CwtClaimsView {
            aud: self.aud.deep_view(),
            exp: self.exp,
            iat: self.iat,
            cnf: self.cnf.view_cnf(),
            scope: self.scope@,
        }
    }
}

/// The claims set at the start of `b`: label 3 (text, optional), 4 and 6 (unsigned integers),
/// 8 (a confirmation claim) and 9 (a byte string) are decoded; all but the audience are
/// required.
pub open spec fn claims_at(b: Seq<u8>) -> Option<CwtClaimsView> {
    match map_at(b, 0) {
        None => None,
        Some((es, _)) => match (
            opt_text_field(collect_spec(b, es, 3, FieldKind::OptText)),
            req_u64_field(collect_spec(b, es, 4, FieldKind::U64)),
            req_u64_field(collect_spec(b, es, 6, FieldKind::U64)),
            collect_nested(es, 8, |s: int, e: int| cnf_in(b, s)),
            req_bytes_field(collect_spec(b, es, 9, FieldKind::Bytes)),
        ) {
            (Some(aud), Some(exp), Some(iat), Some(Some(cnf)), Some(scope)) => Some(
                CwtClaimsView { aud, exp, iat, cnf, scope },
            ),
            _ => None,
        },
    }
}

/// Decodes the confirmation claim of a claims set (label 8), which is required.
fn collect_cnf(bytes: &[u8], es: &Vec<(i64, usize, usize)>) -> (r: Option<Cnf>)
    ensures
        match r {
            Some(c) => collect_nested(entries_view(es@), 8, |s: int, e: int| cnf_in(bytes@, s)) == Some(
                Some(c.view_cnf()),
            ),
            None => !(collect_nested(entries_view(es@), 8, |s: int, e: int| cnf_in(bytes@, s)) matches Some(
                Some(_),
            )),
        },
{
    let ghost ev = entries_view(es@);
    let ghost dec = |s: int, e: int| cnf_in(bytes@, s);
    let mut found: Option<Cnf> = None;
    let mut k: usize = 0;
    while k < es.len()
        invariant
            k <= es.len(),
            ev == entries_view(es@),
            ev.len() == es@.len(),
            dec == (|s: int, e: int| cnf_in(bytes@, s)),
            collect_nested(ev.take(k as int), 8, dec) == match found {
                Some(c) => Some(Some(c.view_cnf())),
                None => Some(None::<CnfView>),
            },
        decreases es.len() - k,
    {
        let (ek, start, end) = es[k];
        proof {
            assert(ev.take(k as int + 1).drop_last() =~= ev.take(k as int));
            assert(ev.take(k as int + 1).last() == ev[k as int]);
            assert(ev[k as int] == (ek, start as int, end as int));
        }
        if ek == 8 {
            match decode_cnf(bytes, start) {
                Some(c) => {
                    found = Some(c);
                },
                None => {
                    proof {
                        lemma_nested_error_persists(ev, 8, dec, k as int + 1);
                    }
                    return None;
                },
            }
        }
        k = k + 1;
    }
    assert(ev.take(k as int) =~= ev);
    found
}

/// Decodes a CWT claims set.
pub fn decode_claims(bytes: &[u8]) -> (r: Option<CwtClaims>)
    ensures
        match r {
            Some(c) => claims_at(bytes@) == Some(c.view_claims()),
            None => claims_at(bytes@) is None,
        },
{
    let (es, _end) = match map_entries(bytes, 0) {
        Some(m) => m,
        None => {
            return None;
        },
    };
    let aud = match opt_text_of(collect_field(bytes, &es, 3, FieldKind::OptText)) {
        Some(v) => v,
        None => {
            return None;
        },
    };
    let exp = match req_u64_of(collect_field(bytes, &es, 4, FieldKind::U64)) {
        Some(v) => v,
        None => {
            return None;
        },
    };
    let iat = match req_u64_of(collect_field(bytes, &es, 6, FieldKind::U64)) {
        Some(v) => v,
        None => {
            return None;
        },
    };
    let cnf = match collect_cnf(bytes, &es) {
        Some(c) => c,
        None => {
            return None;
        },
    };
    let scope = match req_bytes_of(collect_field(bytes, &es, 9, FieldKind::Bytes)) {
        Some(v) => v,
        None => {
            return None;
        },
    };
    let c = CwtClaims { aud, exp, iat, cnf, scope };
    proof {
        let b = bytes@;
        let ev = entries_view(es@);
        assert(opt_text_field(collect_spec(b, ev, 3, FieldKind::OptText)) == Some(c.aud.deep_view()));
    }
    Some(c)
}

/// Length of the nonce that this server contributes to ACE-OSCORE.
pub const OWN_NONCE_LEN: usize = 8;

/// Maximum length of a peer's ACE-OSCORE nonce for which the salt buffer is sized.
pub const MAX_SUPPORTED_PEER_NONCE_LEN: usize = 16;

/// Maximum length of the ciphertext of a token that is processed.
pub const MAX_SUPPORTED_ACCESSTOKEN_LEN: usize = 256;

/// Maximum length of the protected header of a `COSE_Encrypt0` for which the AAD buffer is
/// sized.
pub const MAX_SUPPORTED_ENCRYPT_PROTECTED_LEN: usize = 32;

/// Capacity of the buffer for the encoded `Encrypt0` AAD structure.
pub const AADSIZE: usize = 44;

/// Capacity of the buffer for the ACE-OSCORE salt.
pub const SALT_CAPACITY: usize = 29;

/// The response code 2.04 Changed.
pub const CODE_CHANGED: u8 = 0x44;

/// The COSE algorithm AES-CCM-16-128-256.
pub const COSE_ALG_AES_CCM_16_128_256: i32 = 31;

/// The COSE algorithm HKDF SHA-256, used for OSCORE key derivation.
pub const COSE_ALG_HKDF_SHA_256: i32 = 5;

/// The COSE algorithm AES-CCM-16-64-128, used by OSCORE contexts.
pub const COSE_ALG_AES_CCM_16_64_128: i32 = 10;

/// The text `Encrypt0`.
pub open spec fn encrypt0_context() -> Seq<u8> {
    seq![0x45u8, 0x6e, 0x63, 0x72, 0x79, 0x70, 0x74, 0x30]
}

/// The encoded `Enc_structure` of a `COSE_Encrypt0` with this protected header and no external
/// additional data (RFC 9052, Section 5.3): `["Encrypt0", protected, h'']`.
pub open spec fn encrypt0_aad(protected: Seq<u8>) -> Seq<u8> {
    head_bytes(4, 3) + head_bytes(3, 8) + encrypt0_context() + bstr(protected) + bstr(Seq::empty())
}

/// Encodes the AAD of a `COSE_Encrypt0` with this protected header.
pub fn encrypt0_aad_bytes(protected: &[u8]) -> (r: Vec<u8>)
    ensures
        r@ == encrypt0_aad(protected@),
{
    let mut out = encode_array_head(3);
    let text_head = encode_text_head(8);
    append(&mut out, text_head.as_slice());
    let context: [u8; 8] = [0x45, 0x6e, 0x63, 0x72, 0x79, 0x70, 0x74, 0x30];
    proof {
        assert(context@ =~= encrypt0_context());
    }
    append(&mut out, &context);
    append_bstr(&mut out, protected);
    let empty: [u8; 0] = [];
    append_bstr(&mut out, &empty);
    proof {
        assert(empty@ =~= Seq::<u8>::empty());
    }
    out
}

/// The result of preparing the decryption of a `COSE_Encrypt0`: the merged headers (the
/// protected header's values win), the AAD, and the ciphertext; or the error.
pub open spec fn prepared_spec(
    protected: Seq<u8>,
    unprotected: (Option<i32>, Option<Seq<u8>>),
    encrypted: Seq<u8>,
) -> Result<((Option<i32>, Option<Seq<u8>>), Seq<u8>), CredentialError> {
    match header_map_at(protected, 0) {
        None => Err(cred_err(CredentialErrorDetail::UnsupportedExtension)),
        Some(p) => if encrypt0_aad(protected).len() > AADSIZE || encrypted.len() > MAX_SUPPORTED_ACCESSTOKEN_LEN {
            Err(cred_err(CredentialErrorDetail::ConstraintExceeded))
        } else {
            Ok(((prefer_latter(unprotected.0, p.0), prefer_latter(unprotected.1, p.1)), encrypt0_aad(protected)))
        },
    }
}

impl CoseEncrypt0 {
    /// Processes the headers and builds the AAD for decrypting this structure: the protected
    /// header must decode, the AAD must fit its buffer, and the ciphertext the token buffer.
    /// Returns the merged headers, the AAD and a copy of the ciphertext.
    pub fn prepare_decryption(&self) -> (r: Result<(HeaderMap, Vec<u8>, Vec<u8>), CredentialError>)
        ensures
            match r {
                Ok((h, aad, buffer)) => {
                    &&& prepared_spec(self.protected@, header_view(self.unprotected), self.encrypted@)
                        == Ok::<((Option<i32>, Option<Seq<u8>>), Seq<u8>), CredentialError>((header_view(h), aad@))
                    &&& buffer@ == self.encrypted@
                },
                Err(e) => prepared_spec(self.protected@, header_view(self.unprotected), self.encrypted@) == Err::<
                    ((Option<i32>, Option<Seq<u8>>), Seq<u8>),
                    CredentialError,
                >(e),
            },
    {
        let protected = match decode_header_map(self.protected.as_slice(), 0) {
            Some(h) => h,
            None => {
                return Err(CredentialError::from_detail(CredentialErrorDetail::UnsupportedExtension));
            },
        };
        let headers = self.unprotected.updated_with(&protected);
        let aad = encrypt0_aad_bytes(self.protected.as_slice());
        if aad.len() > AADSIZE || self.encrypted.len() > MAX_SUPPORTED_ACCESSTOKEN_LEN {
            return Err(CredentialError::from_detail(CredentialErrorDetail::ConstraintExceeded));
        }
        let buffer = bytes_range(self.encrypted.as_slice(), 0, self.encrypted.len());
        proof {
            assert(self.encrypted@.subrange(0, self.encrypted@.len() as int) =~= self.encrypted@);
        }
        Ok((headers, aad, buffer))
    }
}

/// What an accepted token yields before an OSCORE context is set up: its claims, the scope
/// they grant, the client's nonce and recipient ID, and the master secret.
pub struct TokenAcceptedView {
    pub claims: CwtClaimsView,
    pub nonce1: Seq<u8>,
    pub client_recipient_id: Seq<u8>,
    pub master_secret: Seq<u8>,
}

/// The outcome of checking an `application/ace+cbor` payload posted to `/authz-info` against a
/// configuration with symmetric key `key`: the payload must decode and carry an access token,
/// a nonce and the client's recipient ID (else a protocol violation); the token must be a
/// `COSE_Encrypt0` whose headers name algorithm 31 and that decrypts to claims with a valid
/// AIF scope; the confirmation must be OSCORE input material without a key.
pub open spec fn token_accepted_spec(payload: Seq<u8>, key: Option<Seq<u8>>) -> Result<TokenAcceptedView, CredentialError> {
    match ace_cbor_at(payload) {
        None => Err(cred_err(CredentialErrorDetail::UnsupportedExtension)),
        Some(m) => if m.access_token is None || m.nonce1 is None || m.ace_client_recipientid is None {
            Err(cred_err(CredentialErrorDetail::ProtocolViolation))
        } else {
            match encrypt0_at(m.access_token->0) {
                None => Err(cred_err(CredentialErrorDetail::UnsupportedExtension)),
                Some((protected, unprotected, encrypted)) => match prepared_spec(protected, unprotected, encrypted) {
                    Err(e) => Err(e),
                    Ok((headers, aad)) => if headers.0 != Some(COSE_ALG_AES_CCM_16_128_256) {
                        Err(cred_err(CredentialErrorDetail::UnsupportedAlgorithm))
                    } else {
                        match symmetric_token_spec(key, headers.1, aad, encrypted) {
                            Err(e) => Err(e),
                            Ok(claims) => match claims.cnf.osc {
                                Some(osc) => if claims.cnf.cose_key is None {
                                    Ok(
                                        TokenAcceptedView {
                                            claims,
                                            nonce1: m.nonce1->0,
                                            client_recipient_id: m.ace_client_recipientid->0,
                                            master_secret: osc.1,
                                        },
                                    )
                                } else {
                                    Err(cred_err(CredentialErrorDetail::InconsistentDetails))
                                },
                                None => Err(cred_err(CredentialErrorDetail::InconsistentDetails)),
                            },
                        }
                    },
                },
            }
        },
    }
}

/// An accepted token (see [`TokenAcceptedView`]).
pub struct TokenAccepted {
    /// The token's claims.
    pub claims: CwtClaims,
    /// The scope they grant.
    pub scope: UnionScope,
    /// The client's nonce.
    pub nonce1: Vec<u8>,
    /// The client's recipient ID (the server's sender ID).
    pub client_recipient_id: Vec<u8>,
    /// The OSCORE master secret.
    pub master_secret: Vec<u8>,
}

impl TokenAccepted {
    /// The abstract form, without the scope.
    pub open spec fn view_accepted(&self) -> TokenAcceptedView {
        TokenAcceptedView {
            claims: self.claims.view_claims(),
            nonce1: self.nonce1@,
            client_recipient_id: self.client_recipient_id@,
            master_secret: self.master_secret@,
        }
    }
}

/// Checks an `application/ace+cbor` payload posted to `/authz-info` (see
/// [`token_accepted_spec`]).
pub fn accept_token(payload: &[u8], authorities: &ConfigBuilder) -> (r: Result<TokenAccepted, CredentialError>)
    ensures
        match r {
            Ok(t) => {
                &&& token_accepted_spec(payload@, authorities.as_key_view()) == Ok::<TokenAcceptedView, CredentialError>(
                    t.view_accepted(),
                )
                &&& scope_of_aif(t.scope, t.claims.scope@)
            },
            Err(e) => token_accepted_spec(payload@, authorities.as_key_view()) == Err::<TokenAcceptedView, CredentialError>(
                e,
            ),
        },
{
    let decoded = match decode_ace_cbor(payload) {
        Some(m) => m,
        None => {
            return Err(CredentialError::from_detail(CredentialErrorDetail::UnsupportedExtension));
        },
    };
    let (access_token, nonce1, client_recipient_id) = match (
        decoded.access_token,
        decoded.nonce1,
        decoded.ace_client_recipientid,
    ) {
        (Some(t), Some(n), Some(c)) => (t, n, c),
        _ => {
            return Err(CredentialError::from_detail(CredentialErrorDetail::ProtocolViolation));
        },
    };
    proof {
        assert(access_token.deep_view() =~= access_token@);
        assert(nonce1.deep_view() =~= nonce1@);
        assert(client_recipient_id.deep_view() =~= client_recipient_id@);
    }
    let encrypt0 = match decode_encrypt0(access_token.as_slice()) {
        Some(e) => e,
        None => {
            return Err(CredentialError::from_detail(CredentialErrorDetail::UnsupportedExtension));
        },
    };
    let (headers, aad, buffer) = encrypt0.prepare_decryption()?;
    if headers.alg != Some(COSE_ALG_AES_CCM_16_128_256) {
        return Err(CredentialError::from_detail(CredentialErrorDetail::UnsupportedAlgorithm));
    }
    let (scope, claims) = authorities.decrypt_symmetric_token(&headers, aad.as_slice(), buffer.as_slice())?;
    let master_secret = match (&claims.cnf.osc, &claims.cnf.cose_key) {
        (Some(osc), None) => bytes_range(osc.ms.as_slice(), 0, osc.ms.len()),
        _ => {
            return Err(CredentialError::from_detail(CredentialErrorDetail::InconsistentDetails));
        },
    };
    proof {
        let osc = claims.cnf.osc->0;
        assert(osc.ms@.subrange(0, osc.ms@.len() as int) =~= osc.ms@);
    }
    Ok(TokenAccepted { claims, scope, nonce1, client_recipient_id, master_secret })
}

/// The salt of ACE-OSCORE key derivation (RFC 9203, Section 4.3): the byte strings of an empty
/// salt, the client's nonce and the server's nonce, one after the other.
pub open spec fn combined_salt(nonce1: Seq<u8>, nonce2: Seq<u8>) -> Seq<u8> {
    bstr(Seq::empty()) + bstr(nonce1) + bstr(nonce2)
}

/// Builds the ACE-OSCORE salt; it must fit its buffer.
pub fn combined_salt_bytes(nonce1: &[u8], nonce2: &[u8]) -> (r: Result<Vec<u8>, CredentialError>)
    ensures
        match r {
            Ok(v) => v@ == combined_salt(nonce1@, nonce2@) && v@.len() <= SALT_CAPACITY,
            Err(e) => e == cred_err(CredentialErrorDetail::ConstraintExceeded) && combined_salt(nonce1@, nonce2@).len()
                > SALT_CAPACITY,
        },
{
    let mut out: Vec<u8> = Vec::new();
    let empty: [u8; 0] = [];
    append_bstr(&mut out, &empty);
    append_bstr(&mut out, nonce1);
    append_bstr(&mut out, nonce2);
    proof {
        assert(empty@ =~= Seq::<u8>::empty());
        assert(out@ =~= combined_salt(nonce1@, nonce2@));
    }
    if out.len() > SALT_CAPACITY {
        return Err(CredentialError::from_detail(CredentialErrorDetail::ConstraintExceeded));
    }
    Ok(out)
}

/// The inputs of deriving the OSCORE security context of ACE-OSCORE: HKDF SHA-256 and
/// AES-CCM-16-64-128, the master secret, the salt, and the sender and recipient IDs.
#[derive(Debug, Clone)]
pub struct OscoreDerivation {
    pub hkdf_alg: i32,
    pub aead_alg: i32,
    pub master_secret: Vec<u8>,
    pub salt: Vec<u8>,
    pub sender_id: Vec<u8>,
    pub recipient_id: Vec<u8>,
}

/// The response to a successful token post: the server's nonce and recipient ID.
#[derive(Debug, Clone)]
pub struct AceCborAuthzInfoResponse {
    nonce2: [u8; 8],
    ace_server_recipientid: Vec<u8>,
}

/// The payload of the response: a map of the server's nonce (label 42) and recipient ID
/// (label 44).
pub open spec fn authz_info_response_payload(nonce2: Seq<u8>, server_id: Seq<u8>) -> Seq<u8> {
    head_bytes(5, 2) + head_bytes(0, 42) + bstr(nonce2) + head_bytes(0, 44) + bstr(server_id)
}

impl AceCborAuthzInfoResponse {
    /// The server's nonce.
    pub closed spec fn nonce2_view(&self) -> Seq<u8> {
        self.nonce2@
    }

    /// The server's recipient ID.
    pub closed spec fn server_id_view(&self) -> Seq<u8> {
        self.ace_server_recipientid@
    }

    /// The response: code 2.04 Changed, with the `application/ace+cbor` payload.
    pub fn render(&self) -> (r: (u8, Vec<u8>))
        ensures
            r.0 == CODE_CHANGED,
            r.1@ == authz_info_response_payload(self.nonce2_view(), self.server_id_view()),
    {
        let mut out = encode_map_head(2);
        let k42 = encode_u64(42);
        append(&mut out, k42.as_slice());
        append_bstr(&mut out, &self.nonce2);
        let k44 = encode_u64(44);
        append(&mut out, k44.as_slice());
        append_bstr(&mut out, self.ace_server_recipientid.as_slice());
        proof {
            assert(out@ =~= authz_info_response_payload(self.nonce2_view(), self.server_id_view()));
        }
        (CODE_CHANGED, out)
    }
}

/// Processes an `application/ace+cbor` payload posted to `/authz-info`.
///
/// The token is checked (see [`token_accepted_spec`]); then `server_recipient_id` picks the
/// server's recipient ID given the client's, and the salt is built from the client's nonce and
/// `nonce2`. Returns the response, the inputs of the OSCORE context derivation (the client's
/// recipient ID is the server's sender ID), and the granted scope with its time constraint.
pub fn process_acecbor_authz_info<F: FnOnce(&[u8]) -> Vec<u8>>(
    payload: &[u8],
    authorities: &ConfigBuilder,
    nonce2: [u8; 8],
    server_recipient_id: F,
) -> (r: Result<(AceCborAuthzInfoResponse, OscoreDerivation, (UnionScope, TimeConstraint)), CredentialError>)
    requires
        forall|id: &[u8]| server_recipient_id.requires((id,)),
    ensures
        match token_accepted_spec(payload@, authorities.as_key_view()) {
            Err(e) => r == Err::<(AceCborAuthzInfoResponse, OscoreDerivation, (UnionScope, TimeConstraint)), CredentialError>(e),
            Ok(t) => if combined_salt(t.nonce1, nonce2@).len() > SALT_CAPACITY {
                r == Err::<(AceCborAuthzInfoResponse, OscoreDerivation, (UnionScope, TimeConstraint)), CredentialError>(
                    cred_err(CredentialErrorDetail::ConstraintExceeded),
                )
            } else {
                r matches Ok((response, derivation, (scope, time))) && {
                    &&& exists|id: &[u8]| id@ == t.client_recipient_id && server_recipient_id.ensures((id,), derivation.recipient_id)
                    &&& response.nonce2_view() == nonce2@
                    &&& response.server_id_view() == derivation.recipient_id@
                    &&& derivation.hkdf_alg == COSE_ALG_HKDF_SHA_256
                    &&& derivation.aead_alg == COSE_ALG_AES_CCM_16_64_128
                    &&& derivation.master_secret@ == t.master_secret
                    &&& derivation.salt@ == combined_salt(t.nonce1, nonce2@)
                    &&& derivation.sender_id@ == t.client_recipient_id
                    &&& scope_of_aif(scope, t.claims.scope)
                    &&& time.exp == Some(t.claims.exp)
                }
            },
        },
{
    let accepted = accept_token(payload, authorities)?;
    let recipient_id = server_recipient_id(accepted.client_recipient_id.as_slice());
    let salt = combined_salt_bytes(accepted.nonce1.as_slice(), &nonce2)?;
    let response = AceCborAuthzInfoResponse {
        nonce2,
        ace_server_recipientid: bytes_range(recipient_id.as_slice(), 0, recipient_id.len()),
    };
    proof {
        assert(recipient_id@.subrange(0, recipient_id@.len() as int) =~= recipient_id@);
    }
    let time = TimeConstraint::from_claims_set(&ClaimsTimes { exp: accepted.claims.exp, iat: accepted.claims.iat });
    let derivation = OscoreDerivation {
        hkdf_alg: COSE_ALG_HKDF_SHA_256,
        aead_alg: COSE_ALG_AES_CCM_16_64_128,
        master_secret: accepted.master_secret,
        salt,
        sender_id: accepted.client_recipient_id,
        recipient_id,
    };
    Ok((response, derivation, (accepted.scope, time)))
}

/// A `COSE_Sign1` structure with an attached payload.
#[derive(Debug, Clone)]
pub struct CoseSign1 {
    /// The encoded protected header map.
    pub protected: Vec<u8>,
    /// The unprotected header map.
    pub unprotected: HeaderMap,
    /// The signed payload.
    pub payload: Vec<u8>,
    /// The signature.
    pub signature: Vec<u8>,
}

/// The `COSE_Sign1` structure at the start of `b`: tag 18 on an array whose items 0 to 3 are
/// the protected header (a byte string), the unprotected header map, the payload and the
/// signature (byte strings); further items are ignored.
pub open spec fn sign1_at(b: Seq<u8>) -> Option<(Seq<u8>, (Option<i32>, Option<Seq<u8>>), Seq<u8>, Seq<u8>)> {
    match tag_at(b, 0) {
        Some((t, start)) => if t == 18 {
            match array_at(b, start) {
                Some((items, _)) => if items.len() >= 4 {
                    match (
                        bytes_at(b, items[0].0),
                        header_map_at(b, items[1].0),
                        bytes_at(b, items[2].0),
                        bytes_at(b, items[3].0),
                    ) {
                        (Some((p, _)), Some(h), Some((m, _)), Some((sig, _))) => Some((p, h, m, sig)),
                        _ => None,
                    }
                } else {
                    None
                },
                None => None,
            }
        } else {
            None
        },
        None => None,
    }
}

/// Decodes a `COSE_Sign1` structure.
pub fn decode_sign1(bytes: &[u8]) -> (r: Option<CoseSign1>)
    ensures
        match r {
            Some(m) => sign1_at(bytes@) == Some(
                (m.protected@, header_view(m.unprotected), m.payload@, m.signature@),
            ),
            None => sign1_at(bytes@) is None,
        },
{
    let (t, start) = match decode_tag(bytes, 0) {
        Some(t) => t,
        None => {
            return None;
        },
    };
    if t != 18 {
        return None;
    }
    let (items, _end) = match array_items(bytes, start) {
        Some(a) => a,
        None => {
            return None;
        },
    };
    if items.len() < 4 {
        return None;
    }
    let (protected, _) = match decode_bytes(bytes, items[0].0) {
        Some(v) => v,
        None => {
            return None;
        },
    };
    let unprotected = match decode_header_map(bytes, items[1].0) {
        Some(h) => h,
        None => {
            return None;
        },
    };
    let (payload, _) = match decode_bytes(bytes, items[2].0) {
        Some(v) => v,
        None => {
            return None;
        },
    };
    let (signature, _) = match decode_bytes(bytes, items[3].0) {
        Some(v) => v,
        None => {
            return None;
        },
    };
    Some(CoseSign1 { protected, unprotected, payload, signature })
}

/// The text `Signature1`.
pub open spec fn signature1_context() -> Seq<u8> {
    seq![0x53u8, 0x69, 0x67, 0x6e, 0x61, 0x74, 0x75, 0x72, 0x65, 0x31]
}

/// The encoded `Sig_structure` of a `COSE_Sign1` with this protected header and payload and no
/// external additional data (RFC 9052, Section 4.4): `["Signature1", protected, h'', payload]`.
pub open spec fn signature1_structure(protected: Seq<u8>, payload: Seq<u8>) -> Seq<u8> {
    head_bytes(4, 4) + head_bytes(3, 10) + signature1_context() + bstr(protected) + bstr(Seq::empty())
        + bstr(payload)
}

/// Encodes the data signed by a `COSE_Sign1` with this protected header and payload.
pub fn signature1_bytes(protected: &[u8], payload: &[u8]) -> (r: Vec<u8>)
    ensures
        r@ == signature1_structure(protected@, payload@),
{
    let mut out = encode_array_head(4);
    let text_head = encode_text_head(10);
    append(&mut out, text_head.as_slice());
    let context: [u8; 10] = [0x53, 0x69, 0x67, 0x6e, 0x61, 0x74, 0x75, 0x72, 0x65, 0x31];
    proof {
        assert(context@ =~= signature1_context());
    }
    append(&mut out, &context);
    append_bstr(&mut out, protected);
    let empty: [u8; 0] = [];
    append_bstr(&mut out, &empty);
    append_bstr(&mut out, payload);
    proof {
        assert(empty@ =~= Seq::<u8>::empty());
    }
    out
}

/// Capacity of a credential's encoded bytes.
pub const MAX_CRED_LEN: usize = 192;

/// The prefix of a naked `COSE_Key` made into a CCS credential (RFC 9528, Section 3.5.2):
/// a map whose `cnf` claim (8) holds a map whose `COSE_Key` (1) follows.
pub open spec fn ccs_prefix() -> Seq<u8> {
    seq![0xa1u8, 0x08, 0xa1, 0x01]
}

/// The outcome of verifying the claims of a token carried in EDHOC's EAD 3: an encrypted token
/// if it decodes as a `COSE_Encrypt0`, else a signed one if it decodes as a `COSE_Sign1` (whose
/// signed data must fit the token buffer), else an error.
pub open spec fn edhoc_token_claims_spec(
    ead3: Seq<u8>,
    sym_key: Option<Seq<u8>>,
    es256: Option<(Seq<u8>, Seq<u8>, Seq<u8>)>,
) -> Result<CwtClaimsView, CredentialError> {
    match encrypt0_at(ead3) {
        Some((protected, unprotected, encrypted)) => match prepared_spec(protected, unprotected, encrypted) {
            Err(e) => Err(e),
            Ok((headers, aad)) => symmetric_token_spec(sym_key, headers.1, aad, encrypted),
        },
        None => match sign1_at(ead3) {
            Some((protected, unprotected, payload, signature)) => match header_map_at(protected, 0) {
                None => Err(cred_err(CredentialErrorDetail::UnsupportedExtension)),
                Some(p) => if signature1_structure(protected, payload).len() > MAX_SUPPORTED_ACCESSTOKEN_LEN {
                    Err(cred_err(CredentialErrorDetail::ConstraintExceeded))
                } else {
                    asymmetric_token_spec(
                        es256,
                        prefer_latter(unprotected.0, p.0),
                        signature1_structure(protected, payload),
                        signature,
                        payload,
                    )
                },
            },
            None => Err(cred_err(CredentialErrorDetail::UnsupportedExtension)),
        },
    }
}

/// The credential of a token's claims: the confirmation must be a `COSE_Key` without OSCORE
/// input material; its encoding, after the CCS prefix, must fit a credential, and its x
/// coordinate must be 32 bytes.
pub open spec fn edhoc_credential_spec(claims: CwtClaimsView) -> Result<(Seq<u8>, Seq<u8>), CredentialError> {
    match claims.cnf.cose_key {
        Some((key, raw)) => if claims.cnf.osc is Some {
            Err(cred_err(CredentialErrorDetail::InconsistentDetails))
        } else if ccs_prefix().len() + raw.len() > MAX_CRED_LEN {
            Err(cred_err(CredentialErrorDetail::ConstraintExceeded))
        } else {
            match key.x {
                Some(x) => if x.len() == 32 {
                    Ok((ccs_prefix() + raw, x))
                } else {
                    Err(cred_err(CredentialErrorDetail::InconsistentDetails))
                },
                None => Err(cred_err(CredentialErrorDetail::InconsistentDetails)),
            }
        },
        None => Err(cred_err(CredentialErrorDetail::InconsistentDetails)),
    }
}

/// Verifies the claims of a token carried in EDHOC's EAD 3 (see [`edhoc_token_claims_spec`]).
fn edhoc_token_claims(ead3: &[u8], authorities: &ConfigBuilder) -> (r: Result<(UnionScope, CwtClaims), CredentialError>)
    ensures
        match r {
            Ok((scope, claims)) => {
                &&& edhoc_token_claims_spec(ead3@, authorities.as_key_view(), authorities.es256_view()) == Ok::<
                    CwtClaimsView,
                    CredentialError,
                >(claims.view_claims())
                &&& scope_of_aif(scope, claims.scope@)
            },
            Err(e) => edhoc_token_claims_spec(ead3@, authorities.as_key_view(), authorities.es256_view()) == Err::<
                CwtClaimsView,
                CredentialError,
            >(e),
        },
{
    match decode_encrypt0(ead3) {
        Some(encrypt0) => {
            let (headers, aad, buffer) = encrypt0.prepare_decryption()?;
            return authorities.decrypt_symmetric_token(&headers, aad.as_slice(), buffer.as_slice());
        },
        None => {},
    }
    let sign1 = match decode_sign1(ead3) {
        Some(s) => s,
        None => {
            return Err(CredentialError::from_detail(CredentialErrorDetail::UnsupportedExtension));
        },
    };
    let protected = match decode_header_map(sign1.protected.as_slice(), 0) {
        Some(h) => h,
        None => {
            return Err(CredentialError::from_detail(CredentialErrorDetail::UnsupportedExtension));
        },
    };
    let headers = sign1.unprotected.updated_with(&protected);
    let signed_data = signature1_bytes(sign1.protected.as_slice(), sign1.payload.as_slice());
    if signed_data.len() > MAX_SUPPORTED_ACCESSTOKEN_LEN {
        return Err(CredentialError::from_detail(CredentialErrorDetail::ConstraintExceeded));
    }
    authorities.verify_asymmetric_token(
        &headers,
        signed_data.as_slice(),
        sign1.signature.as_slice(),
        sign1.payload.as_slice(),
    )
}

/// Verifies an ACE token sent in EDHOC's EAD 3 by the rules of `authorities`, and produces the
/// peer's CCS credential from the `COSE_Key` it confirms, along with the granted scope and its
/// time constraint.
pub fn process_edhoc_token(ead3: &[u8], authorities: &ConfigBuilder) -> (r: Result<
    (Credential, (UnionScope, TimeConstraint)),
    CredentialError,
>)
    ensures
        match edhoc_token_claims_spec(ead3@, authorities.as_key_view(), authorities.es256_view()) {
            Err(e) => r == Err::<(Credential, (UnionScope, TimeConstraint)), CredentialError>(e),
            Ok(claims) => match edhoc_credential_spec(claims) {
                Err(e) => r == Err::<(Credential, (UnionScope, TimeConstraint)), CredentialError>(e),
                Ok((bytes, x)) => r matches Ok((cred, (scope, time))) && {
                    &&& cred.bytes@ == bytes
                    &&& cred.key matches CredentialKey::EC2Compact(k) && k@ == x
                    &&& cred.kid is None
                    &&& cred.cred_type == CredentialType::Ccs
                    &&& scope_of_aif(scope, claims.scope)
                    &&& time.exp == Some(claims.exp)
                },
            },
        },
{
    let (scope, claims) = edhoc_token_claims(ead3, authorities)?;
    let (cose_key, raw) = match (&claims.cnf.osc, &claims.cnf.cose_key) {
        (None, Some((k, raw))) => (k, raw),
        _ => {
            return Err(CredentialError::from_detail(CredentialErrorDetail::InconsistentDetails));
        },
    };
    if raw.len() > MAX_CRED_LEN - 4 {
        return Err(CredentialError::from_detail(CredentialErrorDetail::ConstraintExceeded));
    }
    let mut bytes: Vec<u8> = Vec::new();
    let prefix: [u8; 4] = [0xa1, 0x08, 0xa1, 0x01];
    append(&mut bytes, &prefix);
    append(&mut bytes, raw.as_slice());
    proof {
        assert(prefix@ =~= ccs_prefix());
        assert(cose_key.x.deep_view() == cose_key.view_key().x);
    }
    let public_key: [u8; 32] = match &cose_key.x {
        Some(x) => {
            proof {
                assert(x.deep_view() =~= x@);
            }
            if x.len() != 32 {
                return Err(CredentialError::from_detail(CredentialErrorDetail::InconsistentDetails));
            }
            let mut key = [0u8; 32];
            let mut i: usize = 0;
            while i < 32
                invariant
                    i <= 32,
                    x@.len() == 32,
                    forall|j: int| 0 <= j < i ==> key@[j] == x@[j],
                decreases 32 - i,
            {
                key.set(i, x[i]);
                i = i + 1;
            }
            assert(key@ =~= x@);
            key
        },
        None => {
            return Err(CredentialError::from_detail(CredentialErrorDetail::InconsistentDetails));
        },
    };
    let time = TimeConstraint::from_claims_set(&ClaimsTimes { exp: claims.exp, iat: claims.iat });
    Ok((Credential::new_ccs(bytes, public_key), (scope, time)))
}

/// A configuration without keys accepts no token: every token posted to `/authz-info` and every
/// token carried in EDHOC is refused, whatever its content.
pub proof fn lemma_keyless_config_refuses_tokens(payload: Seq<u8>, ead3: Seq<u8>)
    ensures
        token_accepted_spec(payload, None) is Err,
        edhoc_token_claims_spec(ead3, None, None) is Err,
{
}

} // verus!
