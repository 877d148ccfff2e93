//! EDHOC credentials and the identifiers (`ID_CRED_x`) by which a peer names them.
//!
//! A credential is held as plain values: its CBOR encoding, its key, its key identifier and its
//! type. An identifier is held in its full form, the encoding of a one-entry CBOR map: either a
//! key identifier (`{4: kid}`) or a credential by value (`{14: ccs}`).

use vstd::prelude::*;
use crate::coapcore::ace::MAX_CRED_LEN;
use crate::coapcore::ace::bytes_range;
use crate::coapcore::cbor::append;

verus! {

/// Label of a key identifier in an `ID_CRED_x` map.
pub const KID_LABEL: u8 = 4;

/// Label of a CCS credential by value in an `ID_CRED_x` map.
pub const KCCS_LABEL: u8 = 14;

/// Maximum length of a key identifier.
pub const MAX_KID_LEN: usize = 16;

/// The key of a credential.
#[derive(Debug, Clone, Copy)]
pub enum CredentialKey {
    /// A pre-shared AES-128 key.
    Symmetric([u8; 16]),
    /// The x coordinate of a P-256 public key.
    EC2Compact([u8; 32]),
}

/// The kind of a credential.
#[derive(Debug, Clone, Copy, PartialEq, Eq, Structural)]
pub enum CredentialType {
    /// A CWT Claims Set (CCS) with a public key.
    Ccs,
    /// A CCS with a pre-shared key.
    CcsPsk,
}

/// Why a credential can not be referred to in the requested way.
#[derive(Debug, Clone, Copy, PartialEq, Eq, Structural)]
pub enum CredentialRefError {
    /// The credential has no key identifier.
    MissingIdentity,
    /// Credentials with pre-shared keys are never sent by value.
    UnexpectedCredential,
}

/// A credential for use in EDHOC.
#[derive(Debug, Clone)]
pub struct Credential {
    /// The CBOR encoding of the credential.
    pub bytes: Vec<u8>,
    /// Its key.
    pub key: CredentialKey,
    /// Its key identifier, if it has one.
    pub kid: Option<Vec<u8>>,
    /// Its kind.
    pub cred_type: CredentialType,
}

/// The abstract form of a [`Credential`].
pub struct CredentialView {
    pub bytes: Seq<u8>,
    pub key: CredentialKey,
    pub kid: Option<Seq<u8>>,
    pub cred_type: CredentialType,
}

impl View for Credential {
    type V = CredentialView;

    open spec fn view(&self) -> CredentialView {
        CredentialView {
            bytes: self.bytes@,
            key: self.key,
            kid: match self.kid {
                Some(k) => Some(k@),
                None => None,
            },
            cred_type: self.cred_type,
        }
    }
}

/// A credential fits the buffers of EDHOC: its encoding at most [`MAX_CRED_LEN`] bytes, its key
/// identifier at most [`MAX_KID_LEN`].
pub open spec fn credential_fits(c: CredentialView) -> bool {
    &&& c.bytes.len() <= MAX_CRED_LEN
    &&& c.kid matches Some(k) ==> k.len() <= MAX_KID_LEN
}

/// The identifier of a credential by reference: `{4: kid}`, with the key identifier as a byte
/// string, if the credential has one.
pub open spec fn by_kid_spec(c: CredentialView) -> Result<Seq<u8>, CredentialRefError> {
    match c.kid {
        Some(k) => Ok(seq![0xa1u8, KID_LABEL, (0x40 + k.len()) as u8] + k),
        None => Err(CredentialRefError::MissingIdentity),
    }
}

/// The identifier of a credential by value: `{14: ccs}`, for credentials of type CCS.
pub open spec fn by_value_spec(c: CredentialView) -> Result<Seq<u8>, CredentialRefError> {
    match c.cred_type {
        CredentialType::Ccs => Ok(seq![0xa1u8, KCCS_LABEL] + c.bytes),
        CredentialType::CcsPsk => Err(CredentialRefError::UnexpectedCredential),
    }
}

/// What `lakers::Credential::parse_ccs` makes of an encoded CCS (`None` where it fails).
pub uninterp spec fn lakers_ccs(value: Seq<u8>) -> Option<CredentialView>;

/// Parses an encoded CCS into a credential, with `lakers::Credential::parse_ccs`.
///
/// Trusted: the credential is the one that lakers parses (named [`lakers_ccs`]). As its source
/// shows, a parsed credential keeps `value` as its encoding (which must therefore fit the
/// credential buffer), has a P-256 key and type CCS, and a key identifier of at most 16 bytes.
/// Inputs on which lakers panics (see [`lakers_ccs_panics`]) are left out.
#[verifier::external_body]
fn parse_ccs(value: &[u8]) -> (r: Option<Credential>)
    requires
        !lakers_ccs_panics(value@),
    ensures
        match r {
            Some(c) => {
                &&& lakers_ccs(value@) == Some(c@)
                &&& c.bytes@ == value@
                &&& c.key is EC2Compact
                &&& c.cred_type == CredentialType::Ccs
                &&& credential_fits(c@)
            },
            None => lakers_ccs(value@) is None,
        },
{
    let c = lakers::Credential::parse_ccs(value).ok()?;
    let key = match c.key {
        lakers::CredentialKey::Symmetric(k) => CredentialKey::Symmetric(k),
        lakers::CredentialKey::EC2Compact(k) => CredentialKey::EC2Compact(k),
    };
    let cred_type = match c.cred_type {
        lakers::CredentialType::CCS => CredentialType::Ccs,
        lakers::CredentialType::CCS_PSK => CredentialType::CcsPsk,
    };
    let kid = c.kid.map(|k| k.as_slice().to_vec());
    Some(Credential { bytes: c.bytes.as_slice().to_vec(), key, kid, cred_type })
}

/// A copy of `v`.
fn copy_vec(v: &Vec<u8>) -> (r: Vec<u8>)
    ensures
        r@ == v@,
{
    let mut out: Vec<u8> = Vec::new();
    append(&mut out, v.as_slice());
    assert(out@ =~= v@);
    out
}

impl Credential {
    /// A copy of the credential.
    pub fn clone_credential(&self) -> (r: Self)
        ensures
            r@ == self@,
    {
        let kid = match &self.kid {
            Some(k) => Some(copy_vec(k)),
            None => None,
        };
        Credential { bytes: copy_vec(&self.bytes), key: self.key, kid, cred_type: self.cred_type }
    }

    /// A CCS credential with the given encoding and public key, without key identifier.
    pub fn new_ccs(bytes: Vec<u8>, public_key: [u8; 32]) -> (r: Self)
        ensures
            r.bytes@ == bytes@,
            r.key == CredentialKey::EC2Compact(public_key),
            r.kid is None,
            r.cred_type == CredentialType::Ccs,
    {
        Credential { bytes, key: CredentialKey::EC2Compact(public_key), kid: None, cred_type: CredentialType::Ccs }
    }

    /// The credential with the given key identifier.
    pub fn with_kid(self, kid: Vec<u8>) -> (r: Self)
        ensures
            r@ == (CredentialView { kid: Some(kid@), ..self@ }),
    {
        Credential { kid: Some(kid), ..self }
    }

    /// The public key, if the credential has one.
    pub fn public_key(&self) -> (r: Option<[u8; 32]>)
        ensures
            r == match self.key {
                CredentialKey::EC2Compact(k) => Some(k),
                CredentialKey::Symmetric(_) => None,
            },
    {
        match self.key {
            CredentialKey::EC2Compact(k) => Some(k),
            CredentialKey::Symmetric(_) => None,
        }
    }

    /// The identifier of this credential by value (see [`by_value_spec`]); the identifier must
    /// fit the credential buffer.
    pub fn by_value(&self) -> (r: Result<IdCred, CredentialRefError>)
        requires
            self.cred_type == CredentialType::Ccs ==> self.bytes@.len() + 2 <= MAX_CRED_LEN,
        ensures
            match r {
                Ok(id) => by_value_spec(self@) == Ok::<Seq<u8>, CredentialRefError>(id.bytes@),
                Err(e) => by_value_spec(self@) == Err::<Seq<u8>, CredentialRefError>(e),
            },
    {
        match self.cred_type {
            CredentialType::Ccs => {
                let mut bytes: Vec<u8> = Vec::new();
                bytes.push(0xa1u8);
                bytes.push(KCCS_LABEL);
                append(&mut bytes, self.bytes.as_slice());
                assert(bytes@ =~= seq![0xa1u8, KCCS_LABEL] + self.bytes@);
                Ok(IdCred { bytes })
            },
            CredentialType::CcsPsk => Err(CredentialRefError::UnexpectedCredential),
        }
    }

    /// The identifier of this credential by reference (see [`by_kid_spec`]).
    pub fn by_kid(&self) -> (r: Result<IdCred, CredentialRefError>)
        requires
            credential_fits(self@),
        ensures
            match r {
                Ok(id) => by_kid_spec(self@) == Ok::<Seq<u8>, CredentialRefError>(id.bytes@),
                Err(e) => by_kid_spec(self@) == Err::<Seq<u8>, CredentialRefError>(e),
            },
    {
        match &self.kid {
            Some(kid) => {
                let mut bytes: Vec<u8> = Vec::new();
                bytes.push(0xa1u8);
                bytes.push(KID_LABEL);
                bytes.push(0x40u8 + kid.len() as u8);
                append(&mut bytes, kid.as_slice());
                assert(bytes@ =~= seq![0xa1u8, KID_LABEL, (0x40 + kid@.len()) as u8] + kid@);
                Ok(IdCred { bytes })
            },
            None => Err(CredentialRefError::MissingIdentity),
        }
    }
}

/// A credential identifier `ID_CRED_x`, in its full form (a one-entry CBOR map). Identifiers
/// compare by these bytes; the EDHOC implementation zero-fills the unused part of its identifier
/// buffers, so that comparing its identifiers amounts to the same.
#[derive(Debug, Clone)]
pub struct IdCred {
    /// The encoded map.
    pub bytes: Vec<u8>,
}

impl IdCred {
    /// The identifier is a key identifier or a credential by value: its map label is 4 or 14.
    pub open spec fn wf(&self) -> bool {
        &&& self.bytes@.len() >= 2
        &&& (self.bytes@[1] == KID_LABEL || self.bytes@[1] == KCCS_LABEL)
    }

    /// The full form of the identifier.
    pub fn as_full_value(&self) -> (r: &[u8])
        ensures
            r@ == self.bytes@,
    {
        self.bytes.as_slice()
    }

    /// Whether the identifier only refers to a credential (a key identifier).
    pub fn reference_only(&self) -> (r: bool)
        requires
            self.wf(),
        ensures
            r == (self.bytes@[1] == KID_LABEL),
    {
        self.bytes[1] == KID_LABEL
    }

    /// The credential that the identifier carries by value, if it is one that parses as a CCS.
    /// A value on which the CCS parser would panic is refused (`None`).
    pub fn get_ccs(&self) -> (r: Option<Credential>)
        requires
            self.wf(),
        ensures
            match r {
                Some(c) => get_ccs_spec(self.bytes@) == Some(c@) && credential_fits(c@)
                    && c.cred_type == CredentialType::Ccs,
                None => get_ccs_spec(self.bytes@) is None,
            },
    {
        if self.bytes[1] == KCCS_LABEL {
            let ccs = bytes_range(self.bytes.as_slice(), 2, self.bytes.len());
            assert(ccs@ =~= self.bytes@.skip(2));
            if ccs_parse_panics(ccs.as_slice()) {
                None
            } else {
                parse_ccs(ccs.as_slice())
            }
        } else {
            None
        }
    }
}

/// The credential that an identifier carries by value (see [`IdCred::get_ccs`]).
pub open spec fn get_ccs_spec(id: Seq<u8>) -> Option<CredentialView> {
    if id[1] == KCCS_LABEL && !lakers_ccs_panics(id.skip(2)) {
        lakers_ccs(id.skip(2))
    } else {
        None
    }
}

/// An item of External Authorization Data received in EDHOC.
#[derive(Debug, Clone)]
pub struct EadItem {
    /// The EAD label.
    pub label: u16,
    /// Whether the item must be understood.
    pub is_critical: bool,
    /// Its value, if any.
    pub value: Option<Vec<u8>>,
}

/// The byte at `p`, if there is one.
pub open spec fn byte_at(b: Seq<u8>, p: int) -> Option<u8> {
    if 0 <= p < b.len() {
        Some(b[p])
    } else {
        None
    }
}

/// An unsigned integer as lakers' CBOR decoder reads it (`u8`): the value and the position
/// after it.
pub open spec fn lk_u8(b: Seq<u8>, p: int) -> Option<(u8, int)> {
    match byte_at(b, p) {
        None => None,
        Some(n) => if n <= 0x17 {
            Some((n, p + 1))
        } else if n == 0x18 {
            match byte_at(b, p + 1) {
                Some(v) => Some((v, p + 2)),
                None => None,
            }
        } else {
            None
        },
    }
}

/// A map head as lakers' CBOR decoder reads it (only short maps): the number of entries and
/// the position of the first.
pub open spec fn lk_map(b: Seq<u8>, p: int) -> Option<(int, int)> {
    match byte_at(b, p) {
        Some(h) => if h & 0xe0u8 == 0xa0u8 && h & 0x1fu8 < 24 {
            Some(((h & 0x1fu8) as int, p + 1))
        } else {
            None
        },
        None => None,
    }
}

/// A byte string (`major` 0x40) or text string (`major` 0x60) as lakers' CBOR decoder reads
/// it: its length and the position after it.
pub open spec fn lk_string(b: Seq<u8>, p: int, major: u8) -> Option<(int, int)> {
    match byte_at(b, p) {
        Some(h) => if h & 0xe0u8 == major && h & 0x1fu8 <= 0x17 {
            let n = (h & 0x1fu8) as int;
            if p + 1 + n <= b.len() {
                Some((n, p + 1 + n))
            } else {
                None
            }
        } else if h & 0xe0u8 == major && h & 0x1fu8 == 0x18 {
            match byte_at(b, p + 1) {
                Some(n) => if p + 2 + n <= b.len() {
                    Some((n as int, p + 2 + n))
                } else {
                    None
                },
                None => None,
            }
        } else {
            None
        },
        None => None,
    }
}

/// What lakers' CBOR decoder makes of a COSE key label (`i8`): it panics on the head 0x38
/// followed by a byte below 0x20 (its subtraction underflows).
pub enum LabelRead {
    /// The decoder panics.
    Panic,
    /// The decoder reports an error.
    Fail,
    /// The label and the position after it.
    Label(int, int),
}

/// A label read by lakers' `i8` (see [`LabelRead`]).
pub open spec fn lk_label(b: Seq<u8>, p: int) -> LabelRead {
    match byte_at(b, p) {
        None => LabelRead::Fail,
        Some(n) => if n <= 0x17 {
            LabelRead::Label(n as int, p + 1)
        } else if 0x20 <= n <= 0x37 {
            LabelRead::Label(-1 - (n - 0x20), p + 1)
        } else if n == 0x18 {
            match byte_at(b, p + 1) {
                Some(v) => LabelRead::Label(if v < 128 { v as int } else { v - 256 }, p + 2),
                None => LabelRead::Fail,
            }
        } else if n == 0x38 {
            match byte_at(b, p + 1) {
                Some(v) => if v < 0x20 {
                    LabelRead::Panic
                } else {
                    LabelRead::Label(-1 - (if v - 0x20 < 128 { v - 0x20 } else { v - 0x20 - 256 }), p + 2)
                },
                None => LabelRead::Fail,
            }
        } else {
            LabelRead::Fail
        },
    }
}

/// The outcome of lakers' walk over part of a CCS.
pub enum CcsWalk {
    /// The parser panics.
    Panic,
    /// The parser reports an error.
    Fail,
    /// The part is parsed; the position after it.
    Done(int),
}

/// lakers' walk over the `items` remaining entries of a COSE key at `p` (`has_x`: the x
/// coordinate was seen): kty 2, a key identifier of at most 16 bytes, crv 1, a 32-byte x and a
/// y; any other label fails, as does a key without x.
pub open spec fn lk_cosekey(b: Seq<u8>, p: int, items: nat, has_x: bool) -> CcsWalk
    decreases items,
{
    if items == 0 {
        if has_x {
            CcsWalk::Done(p)
        } else {
            CcsWalk::Fail
        }
    } else {
        match lk_label(b, p) {
            LabelRead::Panic => CcsWalk::Panic,
            LabelRead::Fail => CcsWalk::Fail,
            LabelRead::Label(l, q) => if l == 1 || l == -1 {
                match lk_u8(b, q) {
                    Some((v, e)) => if v == (if l == 1 { 2u8 } else { 1u8 }) {
                        lk_cosekey(b, e, (items - 1) as nat, has_x)
                    } else {
                        CcsWalk::Fail
                    },
                    None => CcsWalk::Fail,
                }
            } else if l == 2 || l == -2 || l == -3 {
                match lk_string(b, q, 0x40) {
                    Some((n, e)) => if l == 2 && n > 16 {
                        CcsWalk::Fail
                    } else if l == -2 && n != 32 {
                        CcsWalk::Fail
                    } else {
                        lk_cosekey(b, e, (items - 1) as nat, has_x || l == -2)
                    },
                    None => CcsWalk::Fail,
                }
            } else {
                CcsWalk::Fail
            },
        }
    }
}

/// Whether lakers' walk over the `entries` remaining entries of a CCS at `p` panics: a subject
/// (key 2, a text string) or a confirmation (key 8: a map `{1: COSE key}`); any other key fails.
pub open spec fn lk_ccs_entries(b: Seq<u8>, p: int, entries: nat) -> bool
    decreases entries,
{
    if entries == 0 {
        false
    } else {
        match lk_u8(b, p) {
            None => false,
            Some((k, q)) => if k == 2 {
                match lk_string(b, q, 0x60) {
                    Some((_, e)) => lk_ccs_entries(b, e, (entries - 1) as nat),
                    None => false,
                }
            } else if k == 8 {
                match lk_map(b, q) {
                    Some((m, q2)) => if m != 1 {
                        false
                    } else {
                        match lk_u8(b, q2) {
                            Some((one, q3)) => if one != 1 {
                                false
                            } else {
                                match lk_map(b, q3) {
                                    Some((items, q4)) => match lk_cosekey(b, q4, items as nat, false) {
                                        CcsWalk::Panic => true,
                                        CcsWalk::Fail => false,
                                        CcsWalk::Done(e) => lk_ccs_entries(b, e, (entries - 1) as nat),
                                    },
                                    None => false,
                                }
                            },
                            None => false,
                        }
                    },
                    None => false,
                }
            } else {
                false
            },
        }
    }
}

/// Whether `lakers::Credential::parse_ccs` panics on `value`: its walk reaches a COSE key label
/// encoded as 0x38 followed by a byte below 0x20.
pub open spec fn lakers_ccs_panics(value: Seq<u8>) -> bool {
    match lk_map(value, 0) {
        Some((n, p)) => lk_ccs_entries(value, p, n as nat),
        None => false,
    }
}

fn ex_byte_at(b: &[u8], p: usize) -> (r: Option<u8>)
    ensures
        r == byte_at(b@, p as int),
        r is Some ==> p < b@.len() && p < usize::MAX,
{
    if p < b.len() {
        Some(b[p])
    } else {
        None
    }
}

fn ex_u8(b: &[u8], p: usize) -> (r: Option<(u8, usize)>)
    requires
        p <= b@.len(),
    ensures
        match r {
            Some((v, e)) => lk_u8(b@, p as int) == Some((v, e as int)) && e <= b@.len(),
            None => lk_u8(b@, p as int) is None,
        },
{
    match ex_byte_at(b, p) {
        None => None,
        Some(n) => if n <= 0x17 {
            Some((n, p + 1))
        } else if n == 0x18 {
            match ex_byte_at(b, p + 1) {
                Some(v) => Some((v, p + 2)),
                None => None,
            }
        } else {
            None
        },
    }
}

fn ex_map(b: &[u8], p: usize) -> (r: Option<(usize, usize)>)
    requires
        p <= b@.len(),
    ensures
        match r {
            Some((n, e)) => lk_map(b@, p as int) == Some((n as int, e as int)) && e <= b@.len(),
            None => lk_map(b@, p as int) is None,
        },
{
    match ex_byte_at(b, p) {
        Some(h) => if h & 0xe0u8 == 0xa0u8 && h & 0x1fu8 < 24 {
            Some(((h & 0x1fu8) as usize, p + 1))
        } else {
            None
        },
        None => None,
    }
}

fn ex_string(b: &[u8], p: usize, major: u8) -> (r: Option<(usize, usize)>)
    requires
        p <= b@.len(),
    ensures
        match r {
            Some((n, e)) => lk_string(b@, p as int, major) == Some((n as int, e as int)) && e <= b@.len(),
            None => lk_string(b@, p as int, major) is None,
        },
{
    match ex_byte_at(b, p) {
        Some(h) => if h & 0xe0u8 == major && h & 0x1fu8 <= 0x17 {
            let n = (h & 0x1fu8) as usize;
            if n <= b.len() - (p + 1) {
                Some((n, p + 1 + n))
            } else {
                None
            }
        } else if h & 0xe0u8 == major && h & 0x1fu8 == 0x18 {
            match ex_byte_at(b, p + 1) {
                Some(n) => if (n as usize) <= b.len() - (p + 2) {
                    Some((n as usize, p + 2 + n as usize))
                } else {
                    None
                },
                None => None,
            }
        } else {
            None
        },
        None => None,
    }
}

/// The label read at `p`: `Err(true)` if lakers panics, `Err(false)` if it fails.
fn ex_label(b: &[u8], p: usize) -> (r: Result<(i16, usize), bool>)
    requires
        p <= b@.len(),
    ensures
        match r {
            Ok((l, e)) => lk_label(b@, p as int) == LabelRead::Label(l as int, e as int) && e <= b@.len(),
            Err(true) => lk_label(b@, p as int) is Panic,
            Err(false) => lk_label(b@, p as int) is Fail,
        },
{
    match ex_byte_at(b, p) {
        None => Err(false),
        Some(n) => if n <= 0x17 {
            Ok((n as i16, p + 1))
        } else if 0x20 <= n && n <= 0x37 {
            Ok((-1 - (n as i16 - 0x20), p + 1))
        } else if n == 0x18 {
            match ex_byte_at(b, p + 1) {
                Some(v) => Ok((if v < 128 { v as i16 } else { v as i16 - 256 }, p + 2)),
                None => Err(false),
            }
        } else if n == 0x38 {
            match ex_byte_at(b, p + 1) {
                Some(v) => if v < 0x20 {
                    Err(true)
                } else {
                    let d = v as i16 - 0x20;
                    Ok((-1 - (if d < 128 { d } else { d - 256 }), p + 2))
                },
                None => Err(false),
            }
        } else {
            Err(false)
        },
    }
}

/// lakers' walk over a COSE key: `Ok(end)`, or `Err(true)` on a panic, `Err(false)` on an error.
fn ex_cosekey(b: &[u8], p: usize, items: usize, has_x: bool) -> (r: Result<usize, bool>)
    requires
        p <= b@.len(),
    ensures
        match r {
            Ok(e) => lk_cosekey(b@, p as int, items as nat, has_x) == CcsWalk::Done(e as int) && e <= b@.len(),
            Err(true) => lk_cosekey(b@, p as int, items as nat, has_x) is Panic,
            Err(false) => lk_cosekey(b@, p as int, items as nat, has_x) is Fail,
        },
    decreases items,
{
    if items == 0 {
        return if has_x {
            Ok(p)
        } else {
            Err(false)
        };
    }
    let (l, q) = match ex_label(b, p) {
        Ok(x) => x,
        Err(panics) => {
            return Err(panics);
        },
    };
    if l == 1 || l == -1 {
        match ex_u8(b, q) {
            Some((v, e)) => if v == (if l == 1 { 2u8 } else { 1u8 }) {
                ex_cosekey(b, e, items - 1, has_x)
            } else {
                Err(false)
            },
            None => Err(false),
        }
    } else if l == 2 || l == -2 || l == -3 {
        match ex_string(b, q, 0x40) {
            Some((n, e)) => if l == 2 && n > 16 {
                Err(false)
            } else if l == -2 && n != 32 {
                Err(false)
            } else {
                ex_cosekey(b, e, items - 1, has_x || l == -2)
            },
            None => Err(false),
        }
    } else {
        Err(false)
    }
}

fn ex_ccs_entries(b: &[u8], p: usize, entries: usize) -> (r: bool)
    requires
        p <= b@.len(),
    ensures
        r == lk_ccs_entries(b@, p as int, entries as nat),
    decreases entries,
{
    if entries == 0 {
        return false;
    }
    let (k, q) = match ex_u8(b, p) {
        Some(x) => x,
        None => {
            return false;
        },
    };
    if k == 2 {
        match ex_string(b, q, 0x60) {
            Some((_, e)) => ex_ccs_entries(b, e, entries - 1),
            None => false,
        }
    } else if k == 8 {
        let (m, q2) = match ex_map(b, q) {
            Some(x) => x,
            None => {
                return false;
            },
        };
        if m != 1 {
            return false;
        }
        let (one, q3) = match ex_u8(b, q2) {
            Some(x) => x,
            None => {
                return false;
            },
        };
        if one != 1 {
            return false;
        }
        let (items, q4) = match ex_map(b, q3) {
            Some(x) => x,
            None => {
                return false;
            },
        };
        match ex_cosekey(b, q4, items, false) {
            Err(panics) => panics,
            Ok(e) => ex_ccs_entries(b, e, entries - 1),
        }
    } else {
        false
    }
}

/// Whether `lakers::Credential::parse_ccs` would panic on `value` (see [`lakers_ccs_panics`]).
pub fn ccs_parse_panics(value: &[u8]) -> (r: bool)
    ensures
        r == lakers_ccs_panics(value@),
{
    match ex_map(value, 0) {
        Some((n, p)) => ex_ccs_entries(value, p, n),
        None => false,
    }
}

} // verus!
