//! Expressions for access policy as evaluated for a particular security context.
//!
//! An AIF value (RFC 9237, REST-specific model) is a CBOR array of `[path, permissions]`
//! records: a request is allowed if some record grants its method (bit `code - 1` of the
//! permissions) on exactly its Uri-Path.

use vstd::prelude::*;

verus! {

/// Maximum encoded length of an AIF value.
pub const AIF_SCOPE_MAX_LEN: usize = 64;

/// The ASCII code of `/`.
pub const SLASH: u8 = 0x2f;

/// The records `(path bytes, permission bits)` that minicbor decodes from `bytes` as a CBOR
/// array of `(text, u32)` pairs, or `None` where it fails.
pub uninterp spec fn cbor_aif_records(bytes: Seq<u8>) -> Option<Seq<(Seq<u8>, u32)>>;

/// Decodes the CBOR array of `(text, u32)` pairs at the start of `bytes` with minicbor's
/// `Decoder::array_iter`; each path is handed back as its UTF-8 bytes.
///
/// The contract only names the result: it is whatever minicbor decodes (`None` on any decoding
/// error), a function of the bytes alone.
#[verifier::external_body]
fn decode_aif_records(bytes: &[u8]) -> (r: Option<Vec<(Vec<u8>, u32)>>)
    ensures
        r.deep_view() == cbor_aif_records(bytes@),
{
    let mut decoder = minicbor::Decoder::new(bytes);
    let items = decoder.array_iter::<(&str, u32)>().ok()?;
    items.map(|item| item.map(|(path, mask)| (path.as_bytes().to_vec(), mask))).collect::<Result<
        Vec<_>,
        _,
    >>().ok()
}

/// Error type indicating that a scope could not be created from the given token scope.
#[derive(Debug, Clone, Copy)]
pub struct InvalidScope;

/// A scope expression that allows all requests.
#[derive(Debug)]
pub struct AllowAll;

/// A scope expression that denies all requests.
#[derive(Debug)]
pub struct DenyAll;

impl AllowAll {
    /// Every request is allowed.
    pub fn request_is_allowed(&self, code: u8, uri_path: &Vec<Vec<u8>>) -> (r: bool)
        ensures
            r,
    {
        true
    }

    /// Not an administrative scope.
    pub fn is_admin(&self) -> (r: bool)
        ensures
            !r,
    {
        false
    }
}

impl DenyAll {
    /// No request is allowed.
    pub fn request_is_allowed(&self, code: u8, uri_path: &Vec<Vec<u8>>) -> (r: bool)
        ensures
            !r,
    {
        false
    }

    /// Not an administrative scope.
    pub fn is_admin(&self) -> (r: bool)
        ensures
            !r,
    {
        false
    }
}

/// Position of the first `/` in `s`, or its length if there is none.
pub open spec fn slash_pos(s: Seq<u8>) -> nat
    decreases s.len(),
{
    if s.len() == 0 {
        0
    } else if s[0] == SLASH {
        0
    } else {
        1 + slash_pos(s.drop_first())
    }
}

/// The segments of a path remainder, split at each `/`: repeatedly the part before the next
/// `/` (or the whole rest), until nothing remains. A trailing `/` adds no empty segment.
pub open spec fn path_segments(s: Seq<u8>) -> Seq<Seq<u8>>
    decreases s.len(),
{
    if s.len() == 0 {
        Seq::empty()
    } else {
        let i = slash_pos(s);
        if i < s.len() {
            seq![s.take(i as int)] + path_segments(s.skip((i + 1) as int))
        } else {
            seq![s]
        }
    }
}

/// An AIF path (starting with `/`) names exactly the request's Uri-Path options.
pub open spec fn path_matches(path: Seq<u8>, uri_path: Seq<Seq<u8>>) -> bool {
    path_segments(path.drop_first()) == uri_path
}

/// The permission bit of a request code (bit `code - 1`), if it fits in 32 bits.
pub open spec fn code_bit(code: u8) -> Option<u32> {
    if code >= 1 && code - 1 < 32 {
        Some((1u32 << ((code - 1) as u32)) as u32)
    } else {
        None
    }
}

/// The request `code` on `uri_path` is granted by some record.
pub open spec fn aif_allows(records: Seq<(Seq<u8>, u32)>, code: u8, uri_path: Seq<Seq<u8>>) -> bool {
    match code_bit(code) {
        Some(bit) => exists|i: int|
            0 <= i < records.len() && #[trigger] records[i].1 & bit != 0 && path_matches(
                records[i].0,
                uri_path,
            ),
        None => false,
    }
}

/// Granting is monotone: a request granted by some records is granted by any records that
/// include them. Requests whose code has no permission bit (0, or above 32) are never granted.
pub proof fn lemma_aif_allows_monotone(
    records: Seq<(Seq<u8>, u32)>,
    more: Seq<(Seq<u8>, u32)>,
    code: u8,
    uri_path: Seq<Seq<u8>>,
)
    requires
        forall|i: int| 0 <= i < records.len() ==> more.contains(#[trigger] records[i]),
    ensures
        aif_allows(records, code, uri_path) ==> aif_allows(more, code, uri_path),
        code == 0 || code > 32 ==> !aif_allows(records, code, uri_path),
{
    if aif_allows(records, code, uri_path) {
        let bit = code_bit(code)->0;
        let i = choose|i: int|
            0 <= i < records.len() && #[trigger] records[i].1 & bit != 0 && path_matches(
                records[i].0,
                uri_path,
            );
        assert(more.contains(records[i]));
        let j = choose|j: int| 0 <= j < more.len() && more[j] == records[i];
        assert(more[j].1 & bit != 0);
    }
}

/// The root path `/` names exactly the requests without Uri-Path options; a path `/s` (with no
/// further `/`) names exactly the requests with the single Uri-Path option `s`.
pub proof fn lemma_root_and_single_segment(seg: Seq<u8>)
    requires
        seg.len() > 0,
        forall|k: int| 0 <= k < seg.len() ==> seg[k] != SLASH,
    ensures
        path_segments(Seq::<u8>::empty()) == Seq::<Seq<u8>>::empty(),
        path_segments(seg) == seq![seg],
{
    assert(slash_pos(seg) == seg.len()) by {
        lemma_slash_pos(seg, seg.len() as int);
    }
}

/// A representation of an RFC 9237 AIF value using the REST-specific model, limited to
/// `AIF_SCOPE_MAX_LEN` encoded bytes.
#[derive(Debug, Clone)]
pub struct AifValue {
    encoded: Vec<u8>,
    records: Vec<(Vec<u8>, u32)>,
}

/// Every record path starts with `/`.
pub open spec fn all_paths_absolute(records: Seq<(Seq<u8>, u32)>) -> bool {
    forall|i: int| 0 <= i < records.len() ==> (#[trigger] records[i]).0.len() > 0 && records[i].0[0] == SLASH
}

/// `bytes` padded with zeros to `AIF_SCOPE_MAX_LEN`.
pub open spec fn padded(bytes: Seq<u8>) -> Seq<u8> {
    bytes + Seq::new((AIF_SCOPE_MAX_LEN - bytes.len()) as nat, |i: int| 0u8)
}

impl AifValue {
    /// The encoded value, padded with zeros to `AIF_SCOPE_MAX_LEN` bytes.
    pub closed spec fn bytes_view(&self) -> Seq<u8> {
        padded(self.encoded@)
    }

    /// The decoded records.
    pub closed spec fn records_view(&self) -> Seq<(Seq<u8>, u32)> {
        self.records.deep_view()
    }

    /// Well-formedness: the records are what the encoded value decodes to, and all paths are
    /// absolute.
    pub closed spec fn wf(&self) -> bool {
        &&& self.encoded@.len() <= AIF_SCOPE_MAX_LEN
        &&& cbor_aif_records(self.encoded@) == Some(self.records.deep_view())
        &&& all_paths_absolute(self.records.deep_view())
    }

    /// Parses an AIF value: it must fit in `AIF_SCOPE_MAX_LEN` bytes, decode as a CBOR array
    /// of `(text, u32)` pairs, and every path must start with `/`.
    pub fn parse(bytes: &[u8]) -> (r: Result<AifValue, InvalidScope>)
        ensures
            r is Ok <==> (bytes@.len() <= AIF_SCOPE_MAX_LEN && cbor_aif_records(bytes@) is Some
                && all_paths_absolute(cbor_aif_records(bytes@)->0)),
            r matches Ok(v) ==> v.wf() && v.records_view() == cbor_aif_records(bytes@)->0
                && v.bytes_view() == padded(bytes@),
    {
        if bytes.len() > AIF_SCOPE_MAX_LEN {
            return Err(InvalidScope);
        }
        let decoded = decode_aif_records(bytes);
        let records = match decoded {
            Some(records) => records,
            None => {
                return Err(InvalidScope);
            },
        };
        assert(cbor_aif_records(bytes@) == Some(records.deep_view()));
        let mut k: usize = 0;
        while k < records.len()
            invariant
                k <= records.len(),
                cbor_aif_records(bytes@) == Some(records.deep_view()),
                forall|j: int| 0 <= j < k ==> (#[trigger] records.deep_view()[j]).0.len() > 0
                    && records.deep_view()[j].0[0] == SLASH,
            decreases records.len() - k,
        {
            let path = &records[k].0;
            proof {
                assert(records.deep_view()[k as int].0 == path@);
            }
            if path.len() == 0 || path[0] != SLASH {
                proof {
                    let rv = records.deep_view();
                    assert(!(rv[k as int].0.len() > 0 && rv[k as int].0[0] == SLASH));
                    assert(!all_paths_absolute(rv));
                }
                return Err(InvalidScope);
            }
            k = k + 1;
        }
        let mut encoded: Vec<u8> = Vec::new();
        let mut i: usize = 0;
        while i < bytes.len()
            invariant
                i <= bytes.len(),
                encoded@ == bytes@.take(i as int),
            decreases bytes.len() - i,
        {
            encoded.push(bytes[i]);
            i = i + 1;
            assert(encoded@ =~= bytes@.take(i as int));
        }
        assert(encoded@ =~= bytes@);
        Ok(AifValue { encoded, records })
    }

    /// Returns true if a request with `code` on `uri_path` (the values of its Uri-Path options,
    /// in order) is allowed: some record has the permission bit `code - 1` set and its path
    /// names exactly these segments.
    pub fn request_is_allowed(&self, code: u8, uri_path: &Vec<Vec<u8>>) -> (r: bool)
        requires
            self.wf(),
            code != 0,
        ensures
            r == aif_allows(self.records_view(), code, uri_path.deep_view()),
    {
        let c: u8 = code - 1;
        if c >= 32 {
            return false;
        }
        let codebit: u32 = 1u32 << (c as u32);
        let mut idx: usize = 0;
        while idx < self.records.len()
            invariant
                self.wf(),
                code_bit(code) == Some(codebit),
                idx <= self.records.len(),
                forall|j: int|
                    0 <= j < idx ==> !(#[trigger] self.records_view()[j].1 & codebit != 0 && path_matches(
                        self.records_view()[j].0,
                        uri_path.deep_view(),
                    )),
            decreases self.records.len() - idx,
        {
            let perms = self.records[idx].1;
            proof {
                assert(self.records_view()[idx as int].1 == perms);
                assert(self.records_view()[idx as int].0 == self.records[idx as int].0@);
                assert(all_paths_absolute(self.records_view()));
            }
            if perms & codebit != 0 {
                if segments_match(&self.records[idx].0, uri_path) {
                    return true;
                }
            }
            idx = idx + 1;
        }
        false
    }

    /// An AIF value whose array has at least three records (first byte at least `0x83`) is an
    /// administrative scope.
    pub fn is_admin(&self) -> (r: bool)
        requires
            self.wf(),
        ensures
            r == (self.bytes_view()[0] >= 0x83),
    {
        if self.encoded.len() > 0 {
            self.encoded[0] >= 0x83
        } else {
            false
        }
    }
}

/// `slash_pos` finds the first `/`.
proof fn lemma_slash_pos(s: Seq<u8>, j: int)
    requires
        0 <= j <= s.len(),
        forall|k: int| 0 <= k < j ==> s[k] != SLASH,
        j < s.len() ==> s[j] == SLASH,
    ensures
        slash_pos(s) == j,
    decreases j,
{
    if j > 0 {
        assert(s[0] != SLASH);
        let t = s.drop_first();
        assert forall|k: int| 0 <= k < j - 1 implies t[k] != SLASH by {
            assert(t[k] == s[k + 1]);
        }
        if j < s.len() {
            assert(t[j - 1] == s[j]);
        }
        lemma_slash_pos(t, j - 1);
    }
}

/// Whether `a` equals `b[start..end]`.
fn bytes_eq_range(a: &Vec<u8>, b: &Vec<u8>, start: usize, end: usize) -> (r: bool)
    requires
        start <= end <= b@.len(),
    ensures
        r == (a@ == b@.subrange(start as int, end as int)),
{
    if a.len() != end - start {
        return false;
    }
    let mut k: usize = 0;
    while k < a.len()
        invariant
            a@.len() == end - start,
            start <= end <= b@.len(),
            k <= a.len(),
            forall|m: int| 0 <= m < k ==> a@[m] == b@[start + m],
        decreases a.len() - k,
    {
        if a[k] != b[start + k] {
            proof {
                assert(b@.subrange(start as int, end as int)[k as int] == b@[start + k]);
            }
            return false;
        }
        k = k + 1;
    }
    assert(a@ =~= b@.subrange(start as int, end as int));
    true
}

/// Compares the remainder `path[pos..]` split at each `/` with the Uri-Path options.
fn segments_match(path: &Vec<u8>, uri_path: &Vec<Vec<u8>>) -> (r: bool)
    requires
        path@.len() > 0,
        path@[0] == SLASH,
    ensures
        r == path_matches(path@, uri_path.deep_view()),
{
    let ghost opts = uri_path.deep_view();
    let ghost full = path@.drop_first();
    let mut pos: usize = 1;
    let mut opt_i: usize = 0;
    assert(full =~= path@.skip(1));
    assert(opts.take(0) =~= Seq::<Seq<u8>>::empty());
    assert(path_segments(full) =~= opts.take(0) + path_segments(path@.skip(1)));
    while pos < path.len()
        invariant
            1 <= pos <= path@.len(),
            opt_i <= uri_path@.len(),
            opts == uri_path.deep_view(),
            opts.len() == uri_path@.len(),
            full == path@.drop_first(),
            path_segments(full) == opts.take(opt_i as int) + path_segments(path@.skip(pos as int)),
        decreases path@.len() - pos,
    {
        let mut j: usize = pos;
        while j < path.len() && path[j] != SLASH
            invariant
                pos <= j <= path@.len(),
                forall|k: int| pos <= k < j ==> path@[k] != SLASH,
            decreases path@.len() - j,
        {
            j = j + 1;
        }
        let ghost t = path@.skip(pos as int);
        let ghost seg = path@.subrange(pos as int, j as int);
        let ghost rest = if j < path.len() {
            path_segments(path@.skip((j + 1) as int))
        } else {
            Seq::<Seq<u8>>::empty()
        };
        proof {
            assert forall|k: int| 0 <= k < j - pos implies t[k] != SLASH by {
                assert(t[k] == path@[pos + k]);
            }
            if j < path.len() {
                assert(t[j - pos] == path@[j as int]);
            }
            lemma_slash_pos(t, j - pos);
            assert(t.take(j - pos) =~= seg);
            if j < path.len() {
                assert(t.skip(j - pos + 1) =~= path@.skip((j + 1) as int));
                assert(path_segments(t) == seq![seg] + rest);
            } else {
                assert(t =~= seg);
                assert(path_segments(t) == seq![seg]);
                assert(seq![seg] + rest =~= seq![seg]);
            }
        }
        if opt_i >= uri_path.len() {
            proof {
                assert(path_segments(full).len() > opts.len());
            }
            return false;
        }
        let same = bytes_eq_range(&uri_path[opt_i], path, pos, j);
        proof {
            assert(opts[opt_i as int] == uri_path@[opt_i as int]@);
            assert(path_segments(full)[opt_i as int] == seg);
        }
        if !same {
            return false;
        }
        proof {
            assert(opts.take(opt_i as int + 1) =~= opts.take(opt_i as int) + seq![seg]);
        }
        opt_i = opt_i + 1;
        if j < path.len() {
            pos = j + 1;
            proof {
                assert(path_segments(full) =~= opts.take(opt_i as int) + path_segments(path@.skip(pos as int)));
            }
        } else {
            pos = j;
            proof {
                assert(path@.skip(pos as int) =~= Seq::<u8>::empty());
                assert(path_segments(full) =~= opts.take(opt_i as int) + path_segments(path@.skip(pos as int)));
            }
        }
    }
    proof {
        assert(path@.skip(pos as int) =~= Seq::<u8>::empty());
        assert(path_segments(full) =~= opts.take(opt_i as int));
        if opt_i == uri_path.len() {
            assert(opts.take(opt_i as int) =~= opts);
        }
    }
    opt_i == uri_path.len()
}

/// A scope that can use multiple backends, erasing its type.
#[derive(Debug, Clone)]
pub enum UnionScope {
    /// An AIF value.
    AifValue(AifValue),
    /// Allows all requests.
    AllowAll,
    /// Denies all requests.
    DenyAll,
}

impl UnionScope {
    /// Well-formedness of the contained AIF value.
    pub open spec fn wf(&self) -> bool {
        match self {
            UnionScope::AifValue(v) => v.wf(),
            _ => true,
        }
    }

    /// Whether the request is allowed, as decided by the contained scope.
    pub open spec fn allows(&self, code: u8, uri_path: Seq<Seq<u8>>) -> bool {
        match self {
            UnionScope::AifValue(v) => aif_allows(v.records_view(), code, uri_path),
            UnionScope::AllowAll => true,
            UnionScope::DenyAll => false,
        }
    }

    /// Returns true if the request with `code` on `uri_path` is allowed by the contained scope.
    pub fn request_is_allowed(&self, code: u8, uri_path: &Vec<Vec<u8>>) -> (r: bool)
        requires
            self.wf(),
            code == 0 ==> !(self is AifValue),
        ensures
            r == self.allows(code, uri_path.deep_view()),
    {
        match self {
            UnionScope::AifValue(v) => v.request_is_allowed(code, uri_path),
            UnionScope::AllowAll => AllowAll.request_is_allowed(code, uri_path),
            UnionScope::DenyAll => DenyAll.request_is_allowed(code, uri_path),
        }
    }

    /// Whether the contained scope is administrative.
    pub fn is_admin(&self) -> (r: bool)
        requires
            self.wf(),
        ensures
            r == match self {
                UnionScope::AifValue(v) => v.bytes_view()[0] >= 0x83,
                _ => false,
            },
    {
        match self {
            UnionScope::AifValue(v) => v.is_admin(),
            UnionScope::AllowAll => AllowAll.is_admin(),
            UnionScope::DenyAll => DenyAll.is_admin(),
        }
    }

    /// Wraps an AIF value.
    pub fn from_aif_value(value: AifValue) -> (r: Self)
        ensures
            r == UnionScope::AifValue(value),
    {
        UnionScope::AifValue(value)
    }

    /// The scope allowing everything.
    pub fn from_allow_all(value: AllowAll) -> (r: Self)
        ensures
            r == UnionScope::AllowAll,
    {
        UnionScope::AllowAll
    }

    /// The scope denying everything.
    pub fn from_deny_all(value: DenyAll) -> (r: Self)
        ensures
            r == UnionScope::DenyAll,
    {
        UnionScope::DenyAll
    }
}

/// Two scopes of the same kind, with the same encoded value and records where they are AIF
/// values.
pub open spec fn same_scope(a: UnionScope, b: UnionScope) -> bool {
    match (a, b) {
        (UnionScope::AifValue(x), UnionScope::AifValue(y)) => x.bytes_view() == y.bytes_view()
            && x.records_view() == y.records_view(),
        (UnionScope::AllowAll, UnionScope::AllowAll) => true,
        (UnionScope::DenyAll, UnionScope::DenyAll) => true,
        _ => false,
    }
}

/// A copy of `v`.
fn copy_bytes(v: &Vec<u8>) -> (r: Vec<u8>)
    ensures
        r@ == v@,
{
    let mut out: Vec<u8> = Vec::new();
    let mut i: usize = 0;
    while i < v.len()
        invariant
            i <= v@.len(),
            out@ == v@.take(i as int),
        decreases v.len() - i,
    {
        out.push(v[i]);
        i = i + 1;
        assert(out@ =~= v@.take(i as int));
    }
    assert(v@.take(i as int) =~= v@);
    out
}

impl AifValue {
    /// A copy of this value.
    pub fn clone_value(&self) -> (r: Self)
        ensures
            r.bytes_view() == self.bytes_view(),
            r.records_view() == self.records_view(),
            r.wf() == self.wf(),
    {
        let encoded = copy_bytes(&self.encoded);
        let mut records: Vec<(Vec<u8>, u32)> = Vec::new();
        let mut i: usize = 0;
        while i < self.records.len()
            invariant
                i <= self.records@.len(),
                records.deep_view() == self.records.deep_view().take(i as int),
            decreases self.records.len() - i,
        {
            let path = copy_bytes(&self.records[i].0);
            let perms = self.records[i].1;
            let ghost before = records.deep_view();
            records.push((path, perms));
            proof {
                assert(self.records.deep_view()[i as int] == (self.records@[i as int].0@, perms));
                assert(records.deep_view() =~= before.push((path@, perms)));
                assert(self.records.deep_view().take(i as int + 1) =~= self.records.deep_view().take(
                    i as int,
                ).push(self.records.deep_view()[i as int]));
            }
            i = i + 1;
        }
        assert(self.records.deep_view().take(i as int) =~= self.records.deep_view());
        AifValue { encoded, records }
    }
}

impl UnionScope {
    /// A copy of this scope.
    pub fn clone_scope(&self) -> (r: Self)
        ensures
            same_scope(r, *self),
            r.wf() == self.wf(),
    {
        match self {
            UnionScope::AifValue(v) => UnionScope::AifValue(v.clone_value()),
            UnionScope::AllowAll => UnionScope::AllowAll,
            UnionScope::DenyAll => UnionScope::DenyAll,
        }
    }
}

/// Scopes that are the same allow the same requests.
pub proof fn lemma_same_scope_allows(a: UnionScope, b: UnionScope, code: u8, uri_path: Seq<Seq<u8>>)
    requires
        same_scope(a, b),
    ensures
        a.allows(code, uri_path) == b.allows(code, uri_path),
{
}

} // verus!
