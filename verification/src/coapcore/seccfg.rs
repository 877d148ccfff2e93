//! The trust anchors of the resource server: the Authorization Server keys by which tokens are
//! authenticated, the scope of unauthenticated access, and the response to requests that are
//! not allowed.

use vstd::prelude::*;
use ccm::aead::{AeadInOut, KeyInit};
use p256::ecdsa::signature::Verifier;
use crate::coapcore::ace::{claims_at, decode_claims, CwtClaims, CwtClaimsView, HeaderMap};
use crate::coapcore::edhoc::{
    by_kid_spec, by_value_spec, credential_fits, get_ccs_spec, Credential, CredentialRefError, CredentialType,
    CredentialView, IdCred, KID_LABEL,
};
use crate::coapcore::ace::MAX_CRED_LEN;
use crate::coapcore::time::TimeConstraint;
use crate::coapcore::error::{CredentialError, CredentialErrorDetail};
use crate::coapcore::scope::{
    all_paths_absolute, cbor_aif_records, padded, same_scope, AifValue, UnionScope, AIF_SCOPE_MAX_LEN,
};

verus! {

/// Maximum length of the audience of this resource server.
pub const MAX_AUD_SIZE: usize = 8;

/// Length of the authentication tag of AES-CCM-16-128-256 (COSE algorithm 31).
pub const TAG_SIZE: usize = 16;

/// Length of the nonce of AES-CCM-16-128-256.
pub const NONCE_SIZE: usize = 13;

/// The response code 4.01 Unauthorized.
pub const CODE_UNAUTHORIZED: u8 = 0x81;

/// Failure to express a "not allowed" response in a message.
#[derive(Debug, Clone, Copy)]
pub struct NotAllowedRenderingFailed;

/// A security configuration that denies all access.
#[derive(Debug, Clone, Copy)]
pub struct DenyAll;

/// A security configuration that allows all access, including unencrypted access.
#[derive(Debug, Clone, Copy)]
pub struct AllowAll;

impl DenyAll {
    /// No unauthenticated access.
    pub fn nosec_authorization(&self) -> (r: Option<UnionScope>)
        ensures
            r is None,
    {
        None
    }
}

impl AllowAll {
    /// Unauthenticated access to everything.
    pub fn nosec_authorization(&self) -> (r: Option<UnionScope>)
        ensures
            r == Some(UnionScope::AllowAll),
    {
        Some(UnionScope::AllowAll)
    }
}

/// The plaintext of AES-CCM-16-128-256 (COSE algorithm 31) decryption, or `None` where the tag
/// does not authenticate the ciphertext.
pub uninterp spec fn aes_ccm_16_128_256_open(
    key: Seq<u8>,
    nonce: Seq<u8>,
    aad: Seq<u8>,
    ciphertext: Seq<u8>,
    tag: Seq<u8>,
) -> Option<Seq<u8>>;

/// Decrypts with AES-256 in CCM mode, 16-byte tag and 13-byte nonce, with `ccm`'s
/// `AeadInOut::decrypt_inout_detached`.
///
/// The contract names the result: the plaintext is a function of the key, nonce, additional
/// data, ciphertext and tag, and is refused where the tag does not match.
#[verifier::external_body]
fn aes_ccm_decrypt(key: &[u8; 32], nonce: &[u8], aad: &[u8], ciphertext: &[u8], tag: &[u8]) -> (r: Option<Vec<u8>>)
    requires
        nonce@.len() == NONCE_SIZE,
        tag@.len() == TAG_SIZE,
    ensures
        r.deep_view() == aes_ccm_16_128_256_open(key@, nonce@, aad@, ciphertext@, tag@),
{
    let cipher = ccm::Ccm::<aes::Aes256, ccm::consts::U16, ccm::consts::U13>::new(key.into());
    let nonce = <&ccm::Nonce<ccm::consts::U13>>::try_from(nonce).ok()?;
    let tag = <&ccm::Tag<ccm::consts::U16>>::try_from(tag).ok()?;
    let mut buffer = ciphertext.to_vec();
    cipher.decrypt_inout_detached(nonce, aad, buffer.as_mut_slice().into(), tag).ok()?;
    Some(buffer)
}

/// The outcome of checking an ES256 signature.
#[derive(Debug, Clone, Copy, PartialEq, Eq, Structural)]
pub enum SignatureCheck {
    /// The coordinates are not a point of the curve P-256.
    InvalidKey,
    /// The signature is not 64 bytes of two scalars in range.
    InvalidSignature,
    /// The signature does not verify.
    Mismatch,
    /// The signature verifies.
    Valid,
}

/// The outcome of checking the ES256 signature `signature` over `data` with the key of affine
/// coordinates `x` and `y`.
pub uninterp spec fn es256_check_result(x: Seq<u8>, y: Seq<u8>, data: Seq<u8>, signature: Seq<u8>) -> SignatureCheck;

/// Checks an ES256 signature with `p256`: the key is built from the uncompressed SEC1 point of
/// its coordinates (`VerifyingKey::from_sec1_point`), the signature from its 64 bytes
/// (`Signature::from_slice`), and it is verified over `data` (`Verifier::verify`).
///
/// The contract names the outcome, a function of the coordinates, data and signature.
#[verifier::external_body]
fn es256_check(x: &[u8; 32], y: &[u8; 32], data: &[u8], signature: &[u8]) -> (r: SignatureCheck)
    ensures
        r == es256_check_result(x@, y@, data@, signature@),
{
    let point = p256::Sec1Point::from_affine_coordinates(x.into(), y.into(), false);
    let Ok(key) = p256::ecdsa::VerifyingKey::from_sec1_point(&point) else {
        return SignatureCheck::InvalidKey;
    };
    let Ok(signature) = p256::ecdsa::Signature::from_slice(signature) else {
        return SignatureCheck::InvalidSignature;
    };
    match key.verify(data, &signature) {
        Ok(()) => SignatureCheck::Valid,
        Err(_) => SignatureCheck::Mismatch,
    }
}

/// Authenticates and decrypts the ciphertext of a token with `key`: the headers must carry a
/// 13-byte IV, and the buffer must hold at least the 16-byte tag, which ends it.
fn open_token(key: &[u8; 32], headers: &HeaderMap, aad: &[u8], ciphertext_buffer: &[u8]) -> (r: Result<
    Vec<u8>,
    CredentialError,
>)
    ensures
        match r {
            Ok(p) => plaintext_spec(key@, headers.iv.deep_view(), aad@, ciphertext_buffer@) == Ok::<
                Seq<u8>,
                CredentialError,
            >(p@),
            Err(e) => plaintext_spec(key@, headers.iv.deep_view(), aad@, ciphertext_buffer@) == Err::<
                Seq<u8>,
                CredentialError,
            >(e),
        },
{
    let nonce = match &headers.iv {
        Some(iv) => iv,
        None => {
            return Err(CredentialError::from_detail(CredentialErrorDetail::InconsistentDetails));
        },
    };
    proof {
        assert(nonce.deep_view() =~= nonce@);
        assert(headers.iv.deep_view() == Some(nonce@));
    }
    if nonce.len() != NONCE_SIZE || ciphertext_buffer.len() < TAG_SIZE {
        return Err(CredentialError::from_detail(CredentialErrorDetail::InconsistentDetails));
    }
    let ciphertext_len = ciphertext_buffer.len() - TAG_SIZE;
    let ciphertext = crate::coapcore::ace::bytes_range(ciphertext_buffer, 0, ciphertext_len);
    let tag = crate::coapcore::ace::bytes_range(ciphertext_buffer, ciphertext_len, ciphertext_buffer.len());
    proof {
        assert(ciphertext@ =~= ciphertext_buffer@.take(ciphertext_len as int));
        assert(tag@ =~= ciphertext_buffer@.skip(ciphertext_len as int));
    }
    match aes_ccm_decrypt(key, nonce.as_slice(), aad, ciphertext.as_slice(), tag.as_slice()) {
        Some(p) => {
            assert(p.deep_view() =~= p@);
            Ok(p)
        },
        None => Err(CredentialError::from_detail(CredentialErrorDetail::VerifyFailed)),
    }
}

/// A server security configuration built step by step: the Authorization Server key for
/// symmetrically encrypted tokens, the scope of unauthenticated access, and the payload of
/// "Unauthorized" responses.
#[derive(Debug, Clone)]
pub struct ConfigBuilder {
    as_key_31: Option<[u8; 32]>,
    as_key_neg7: Option<([u8; 32], [u8; 32], Vec<u8>)>,
    unauthenticated_scope: Option<UnionScope>,
    own_edhoc_credential: Option<(Credential, [u8; 32])>,
    known_edhoc_clients: Option<(Credential, UnionScope)>,
    request_creation_hints: Vec<u8>,
}

impl ConfigBuilder {
    /// The key for tokens encrypted with AES-CCM-16-128-256, if one is set.
    pub closed spec fn as_key_view(&self) -> Option<Seq<u8>> {
        match self.as_key_31 {
            Some(k) => Some(k@),
            None => None,
        }
    }

    /// The signing key (coordinates x and y) and audience for tokens signed with ES256, if set.
    pub closed spec fn es256_view(&self) -> Option<(Seq<u8>, Seq<u8>, Seq<u8>)> {
        match self.as_key_neg7 {
            Some((x, y, aud)) => Some((x@, y@, aud@)),
            None => None,
        }
    }

    /// The scope of unauthenticated access, if any.
    pub closed spec fn unauthenticated_view(&self) -> Option<UnionScope> {
        self.unauthenticated_scope
    }

    /// The payload of "Unauthorized" responses.
    pub closed spec fn hints_view(&self) -> Seq<u8> {
        self.request_creation_hints@
    }

    /// The EDHOC credential of this server and its private key, if set.
    pub closed spec fn own_credential_view(&self) -> Option<(CredentialView, Seq<u8>)> {
        match self.own_edhoc_credential {
            Some((c, k)) => Some((c@, k@)),
            None => None,
        }
    }

    /// The credential of the known EDHOC client and the scope it is granted, if set.
    pub closed spec fn known_client_view(&self) -> Option<(CredentialView, UnionScope)> {
        match self.known_edhoc_clients {
            Some((c, s)) => Some((c@, s)),
            None => None,
        }
    }

    /// The configured scopes are well-formed, and the credentials fit the buffers of EDHOC.
    pub closed spec fn wf(&self) -> bool {
        &&& match self.unauthenticated_scope {
            Some(s) => s.wf(),
            None => true,
        }
        &&& match self.known_edhoc_clients {
            Some((c, s)) => s.wf() && credential_fits(c@),
            None => true,
        }
        &&& match self.own_edhoc_credential {
            Some((c, _)) => credential_fits(c@),
            None => true,
        }
    }

    /// An empty configuration: no keys, no unauthenticated access, empty hints. It denies all
    /// access.
    pub fn new() -> (r: Self)
        ensures
            r.as_key_view() is None,
            r.es256_view() is None,
            r.unauthenticated_view() is None,
            r.hints_view() == Seq::<u8>::empty(),
            r.own_credential_view() is None,
            r.known_client_view() is None,
            r.wf(),
    {
        ConfigBuilder {
            as_key_31: None,
            as_key_neg7: None,
            unauthenticated_scope: None,
            own_edhoc_credential: None,
            known_edhoc_clients: None,
            request_creation_hints: Vec::new(),
        }
    }

    /// Sets the single Authorization Server, recognized by a shared AES-CCM-16-128-256 key
    /// (replacing any earlier one).
    pub fn with_aif_symmetric_as_aesccm256(self, key: [u8; 32]) -> (r: Self)
        ensures
            r.as_key_view() == Some(key@),
            r.es256_view() == self.es256_view(),
            r.unauthenticated_view() == self.unauthenticated_view(),
            r.hints_view() == self.hints_view(),
            r.own_credential_view() == self.own_credential_view(),
            r.known_client_view() == self.known_client_view(),
            self.wf() ==> r.wf(),
    {
        ConfigBuilder { as_key_31: Some(key), ..self }
    }

    /// Sets the single Authorization Server, recognized by its ES256 signing key (coordinates
    /// `x` and `y`), along with the audience that signed tokens must name (replacing any earlier
    /// one).
    pub fn with_aif_asymmetric_es256(self, x: [u8; 32], y: [u8; 32], audience: Vec<u8>) -> (r: Self)
        requires
            audience@.len() <= MAX_AUD_SIZE,
        ensures
            r.es256_view() == Some((x@, y@, audience@)),
            r.as_key_view() == self.as_key_view(),
            r.unauthenticated_view() == self.unauthenticated_view(),
            r.hints_view() == self.hints_view(),
            r.own_credential_view() == self.own_credential_view(),
            r.known_client_view() == self.known_client_view(),
            self.wf() ==> r.wf(),
    {
        ConfigBuilder { as_key_neg7: Some((x, y, audience)), ..self }
    }

    /// Allows unauthenticated clients within `scope`.
    pub fn allow_unauthenticated(self, scope: UnionScope) -> (r: Self)
        requires
            self.unauthenticated_view() is None,
        ensures
            r.unauthenticated_view() == Some(scope),
            r.as_key_view() == self.as_key_view(),
            r.es256_view() == self.es256_view(),
            r.hints_view() == self.hints_view(),
            r.own_credential_view() == self.own_credential_view(),
            r.known_client_view() == self.known_client_view(),
            self.wf() && scope.wf() ==> r.wf(),
    {
        ConfigBuilder { unauthenticated_scope: Some(scope), ..self }
    }

    /// Sets the payload of "Unauthorized" responses (the request creation hints). They are set
    /// once, before any unauthenticated access is allowed.
    pub fn with_request_creation_hints(self, request_creation_hints: Vec<u8>) -> (r: Self)
        requires
            self.hints_view().len() == 0,
            self.unauthenticated_view() is None,
        ensures
            r.hints_view() == request_creation_hints@,
            r.as_key_view() == self.as_key_view(),
            r.es256_view() == self.es256_view(),
            r.unauthenticated_view() == self.unauthenticated_view(),
            r.own_credential_view() == self.own_credential_view(),
            r.known_client_view() == self.known_client_view(),
            self.wf() ==> r.wf(),
    {
        ConfigBuilder { request_creation_hints, ..self }
    }

    /// Lets EDHOC clients that present `credential` use the server within `scope`, without
    /// limit in time (replacing any earlier known client).
    pub fn with_known_edhoc_credential(self, credential: Credential, scope: UnionScope) -> (r: Self)
        requires
            credential_fits(credential@),
        ensures
            r.known_client_view() == Some((credential@, scope)),
            r.own_credential_view() == self.own_credential_view(),
            r.as_key_view() == self.as_key_view(),
            r.es256_view() == self.es256_view(),
            r.unauthenticated_view() == self.unauthenticated_view(),
            r.hints_view() == self.hints_view(),
            self.wf() && scope.wf() ==> r.wf(),
    {
        ConfigBuilder { known_edhoc_clients: Some((credential, scope)), ..self }
    }

    /// Sets the EDHOC credential that this server presents, and its private key.
    pub fn with_own_edhoc_credential(self, credential: Credential, key: [u8; 32]) -> (r: Self)
        requires
            self.own_credential_view() is None,
            credential_fits(credential@),
        ensures
            r.own_credential_view() == Some((credential@, key@)),
            r.known_client_view() == self.known_client_view(),
            r.as_key_view() == self.as_key_view(),
            r.es256_view() == self.es256_view(),
            r.unauthenticated_view() == self.unauthenticated_view(),
            r.hints_view() == self.hints_view(),
            self.wf() ==> r.wf(),
    {
        ConfigBuilder { own_edhoc_credential: Some((credential, key)), ..self }
    }

    /// The EDHOC credential of this server and its private key.
    pub fn own_edhoc_credential(&self) -> (r: Option<(Credential, [u8; 32])>)
        ensures
            match r {
                Some((c, k)) => self.own_credential_view() == Some((c@, k@)),
                None => self.own_credential_view() is None,
            },
    {
        match &self.own_edhoc_credential {
            Some((c, k)) => Some((c.clone_credential(), *k)),
            None => None,
        }
    }

    /// Resolves a peer's credential identifier into its credential and authorization (see
    /// [`expand_id_cred_spec`]).
    ///
    /// Without a known client nothing is resolved. A key identifier is matched against the known
    /// client's credential by reference, anything else by value; on a match the known client's
    /// scope is granted without limit in time. Failing that, where unauthenticated access is
    /// allowed, a credential presented by value that parses as a CCS is accepted with the
    /// unauthenticated scope.
    pub fn expand_id_cred_x(&self, id_cred_x: &IdCred) -> (r: Option<(Credential, UnionScope, TimeConstraint)>)
        requires
            self.wf(),
            id_cred_x.wf(),
            self.known_client_view() matches Some((c, _)) ==> (id_cred_x.bytes@[1] != KID_LABEL
                && c.cred_type == CredentialType::Ccs ==> c.bytes.len() + 2 <= MAX_CRED_LEN),
        ensures
            match expand_id_cred_spec(
                self.known_client_view(),
                self.unauthenticated_view(),
                id_cred_x.bytes@,
                get_ccs_spec(id_cred_x.bytes@),
            ) {
                Some((c, s)) => r matches Some((rc, rs, t)) && rc@ == c && same_scope(rs, s) && t.exp is None,
                None => r is None,
            },
    {
        let (credential, scope) = match &self.known_edhoc_clients {
            Some(k) => k,
            None => {
                return None;
            },
        };
        let reference = if id_cred_x.reference_only() {
            credential.by_kid()
        } else {
            credential.by_value()
        };
        let matched = match &reference {
            Ok(id) => crate::coapcore::recognition::slice_eq(id.bytes.as_slice(), id_cred_x.bytes.as_slice()),
            Err(_) => false,
        };
        if matched {
            return Some((credential.clone_credential(), scope.clone_scope(), TimeConstraint::unbounded()));
        }
        if self.unauthenticated_scope.is_none() {
            return None;
        }
        self.accept_unauthenticated(id_cred_x.get_ccs())
    }

    /// Accepts the credential that an unauthenticated client presented by value (if any), with
    /// the scope of unauthenticated access (if allowed) and without limit in time.
    pub fn accept_unauthenticated(&self, credential: Option<Credential>) -> (r: Option<(Credential, UnionScope, TimeConstraint)>)
        ensures
            match (self.unauthenticated_view(), credential) {
                (Some(s), Some(c)) => r matches Some((rc, rs, t)) && rc@ == c@ && same_scope(rs, s) && t.exp is None,
                _ => r is None,
            },
    {
        match (&self.unauthenticated_scope, credential) {
            (Some(s), Some(c)) => Some((c, s.clone_scope(), TimeConstraint::unbounded())),
            _ => None,
        }
    }

    /// The scope of unauthenticated access.
    pub fn nosec_authorization(&self) -> (r: Option<UnionScope>)
        ensures
            r is Some == self.unauthenticated_view() is Some,
            r matches Some(a) ==> same_scope(a, self.unauthenticated_view()->0) && (self.wf() ==> a.wf()),
    {
        match &self.unauthenticated_scope {
            Some(s) => Some(s.clone_scope()),
            None => None,
        }
    }

    /// The "not allowed" response: code 4.01 Unauthorized with the request creation hints as
    /// payload.
    pub fn render_not_allowed(&self) -> (r: (u8, Vec<u8>))
        ensures
            r.0 == CODE_UNAUTHORIZED,
            r.1@ == self.hints_view(),
    {
        let mut payload: Vec<u8> = Vec::new();
        crate::coapcore::cbor::append(&mut payload, self.request_creation_hints.as_slice());
        (CODE_UNAUTHORIZED, payload)
    }

    /// Decrypts a symmetrically encrypted token with the configured key, and processes its
    /// claims and scope.
    ///
    /// The key must be set, the headers must carry a 13-byte IV, the buffer must hold at least
    /// the 16-byte tag (which ends it), the tag must authenticate the ciphertext under `aad`,
    /// the plaintext must decode as a claims set, and its scope as an AIF value.
    pub fn decrypt_symmetric_token(&self, headers: &HeaderMap, aad: &[u8], ciphertext_buffer: &[u8]) -> (r: Result<
        (UnionScope, CwtClaims),
        CredentialError,
    >)
        ensures
            match r {
                Ok((scope, claims)) => {
                    &&& symmetric_token_spec(self.as_key_view(), headers.iv.deep_view(), aad@, ciphertext_buffer@)
                        == Ok::<CwtClaimsView, CredentialError>(claims.view_claims())
                    &&& scope_of_aif(scope, claims.scope@)
                },
                Err(e) => symmetric_token_spec(self.as_key_view(), headers.iv.deep_view(), aad@, ciphertext_buffer@)
                    == Err::<CwtClaimsView, CredentialError>(e),
            },
    {
        let plaintext = match &self.as_key_31 {
            Some(key) => open_token(key, headers, aad, ciphertext_buffer)?,
            None => {
                return Err(CredentialError::from_detail(CredentialErrorDetail::KeyNotPresent));
            },
        };
        let claims = match decode_claims(plaintext.as_slice()) {
            Some(c) => c,
            None => {
                return Err(CredentialError::from_detail(CredentialErrorDetail::UnsupportedExtension));
            },
        };
        let scope = match AifValue::parse(claims.scope.as_slice()) {
            Ok(v) => v,
            Err(_) => {
                return Err(CredentialError::from_detail(CredentialErrorDetail::UnsupportedExtension));
            },
        };
        Ok((UnionScope::from_aif_value(scope), claims))
    }

    /// Verifies the signature on a token signed with ES256 by the configured key, and processes
    /// its claims and scope.
    ///
    /// The headers must name algorithm -7 (ES256) and the key must be set; the key and the
    /// signature must be well-formed and the signature must verify over `signed_data`; then
    /// `signed_payload` must decode as a claims set whose audience is the configured one, and its
    /// scope as an AIF value.
    pub fn verify_asymmetric_token(
        &self,
        headers: &HeaderMap,
        signed_data: &[u8],
        signature: &[u8],
        signed_payload: &[u8],
    ) -> (r: Result<(UnionScope, CwtClaims), CredentialError>)
        ensures
            match r {
                Ok((scope, claims)) => {
                    &&& asymmetric_token_spec(self.es256_view(), headers.alg, signed_data@, signature@, signed_payload@)
                        == Ok::<CwtClaimsView, CredentialError>(claims.view_claims())
                    &&& scope_of_aif(scope, claims.scope@)
                },
                Err(e) => asymmetric_token_spec(self.es256_view(), headers.alg, signed_data@, signature@, signed_payload@)
                    == Err::<CwtClaimsView, CredentialError>(e),
            },
    {
        if headers.alg != Some(-7i32) {
            return Err(CredentialError::from_detail(CredentialErrorDetail::UnsupportedAlgorithm));
        }
        let (x, y, rs_audience) = match &self.as_key_neg7 {
            Some(k) => k,
            None => {
                return Err(CredentialError::from_detail(CredentialErrorDetail::KeyNotPresent));
            },
        };
        match es256_check(x, y, signed_data, signature) {
            SignatureCheck::InvalidKey | SignatureCheck::InvalidSignature => {
                return Err(CredentialError::from_detail(CredentialErrorDetail::InconsistentDetails));
            },
            SignatureCheck::Mismatch => {
                return Err(CredentialError::from_detail(CredentialErrorDetail::VerifyFailed));
            },
            SignatureCheck::Valid => {},
        }
        let claims = match decode_claims(signed_payload) {
            Some(c) => c,
            None => {
                return Err(CredentialError::from_detail(CredentialErrorDetail::UnsupportedExtension));
            },
        };
        let audience_matches = match &claims.aud {
            Some(aud) => crate::coapcore::recognition::slice_eq(aud.as_slice(), rs_audience.as_slice()),
            None => false,
        };
        proof {
            if claims.aud is Some {
                assert(claims.aud->0.deep_view() =~= claims.aud->0@);
            }
        }
        if !audience_matches {
            return Err(CredentialError::from_detail(CredentialErrorDetail::VerifyFailed));
        }
        let scope = match AifValue::parse(claims.scope.as_slice()) {
            Ok(v) => v,
            Err(_) => {
                return Err(CredentialError::from_detail(CredentialErrorDetail::UnsupportedExtension));
            },
        };
        Ok((UnionScope::from_aif_value(scope), claims))
    }
}

/// An error of the given kind, at no particular position.
pub open spec fn cred_err(detail: CredentialErrorDetail) -> CredentialError {
    CredentialError { detail, position: None }
}

/// `scope` holds the AIF value parsed from `bytes`.
pub open spec fn scope_of_aif(scope: UnionScope, bytes: Seq<u8>) -> bool {
    &&& scope matches UnionScope::AifValue(v)
    &&& scope.wf()
    &&& scope->AifValue_0.records_view() == cbor_aif_records(bytes)->0
    &&& scope->AifValue_0.bytes_view() == padded(bytes)
}

/// Whether `bytes` parses as an AIF value.
pub open spec fn aif_parses(bytes: Seq<u8>) -> bool {
    bytes.len() <= AIF_SCOPE_MAX_LEN && cbor_aif_records(bytes) is Some && all_paths_absolute(
        cbor_aif_records(bytes)->0,
    )
}

/// The plaintext of a token's ciphertext under `key` (see `open_token`).
pub open spec fn plaintext_spec(key: Seq<u8>, iv: Option<Seq<u8>>, aad: Seq<u8>, buffer: Seq<u8>) -> Result<
    Seq<u8>,
    CredentialError,
> {
    match iv {
        None => Err(cred_err(CredentialErrorDetail::InconsistentDetails)),
        Some(nonce) => if nonce.len() != NONCE_SIZE || buffer.len() < TAG_SIZE {
            Err(cred_err(CredentialErrorDetail::InconsistentDetails))
        } else {
            let split = buffer.len() - TAG_SIZE;
            match aes_ccm_16_128_256_open(key, nonce, aad, buffer.take(split), buffer.skip(split)) {
                None => Err(cred_err(CredentialErrorDetail::VerifyFailed)),
                Some(plaintext) => Ok(plaintext),
            }
        },
    }
}

/// The outcome of decrypting a symmetrically encrypted token (see
/// [`ConfigBuilder::decrypt_symmetric_token`]), with `key` the configured key and `iv` the IV of
/// the headers: the claims, whose scope then parses as an AIF value.
pub open spec fn symmetric_token_spec(
    key: Option<Seq<u8>>,
    iv: Option<Seq<u8>>,
    aad: Seq<u8>,
    buffer: Seq<u8>,
) -> Result<CwtClaimsView, CredentialError> {
    match key {
        None => Err(cred_err(CredentialErrorDetail::KeyNotPresent)),
        Some(k) => match plaintext_spec(k, iv, aad, buffer) {
            Err(e) => Err(e),
            Ok(plaintext) => match claims_at(plaintext) {
                None => Err(cred_err(CredentialErrorDetail::UnsupportedExtension)),
                Some(claims) => if aif_parses(claims.scope) {
                    Ok(claims)
                } else {
                    Err(cred_err(CredentialErrorDetail::UnsupportedExtension))
                },
            },
        },
    }
}

/// The outcome of verifying a token signed with ES256 (see
/// [`ConfigBuilder::verify_asymmetric_token`]), with `key` the configured key and audience and
/// `alg` the algorithm of the headers: the claims, whose audience is the configured one and
/// whose scope parses as an AIF value.
pub open spec fn asymmetric_token_spec(
    key: Option<(Seq<u8>, Seq<u8>, Seq<u8>)>,
    alg: Option<i32>,
    signed_data: Seq<u8>,
    signature: Seq<u8>,
    payload: Seq<u8>,
) -> Result<CwtClaimsView, CredentialError> {
    if alg != Some(-7i32) {
        Err(cred_err(CredentialErrorDetail::UnsupportedAlgorithm))
    } else {
        match key {
            None => Err(cred_err(CredentialErrorDetail::KeyNotPresent)),
            Some((x, y, audience)) => match es256_check_result(x, y, signed_data, signature) {
                SignatureCheck::InvalidKey | SignatureCheck::InvalidSignature => Err(
                    cred_err(CredentialErrorDetail::InconsistentDetails),
                ),
                SignatureCheck::Mismatch => Err(cred_err(CredentialErrorDetail::VerifyFailed)),
                SignatureCheck::Valid => match claims_at(payload) {
                    None => Err(cred_err(CredentialErrorDetail::UnsupportedExtension)),
                    Some(claims) => if claims.aud != Some(audience) {
                        Err(cred_err(CredentialErrorDetail::VerifyFailed))
                    } else if aif_parses(claims.scope) {
                        Ok(claims)
                    } else {
                        Err(cred_err(CredentialErrorDetail::UnsupportedExtension))
                    },
                },
            },
        }
    }
}

/// The credential and scope into which [`ConfigBuilder::expand_id_cred_x`] resolves the
/// identifier `id`, given the known client, the scope of unauthenticated access and the
/// credential that `id` carries by value (`ccs`).
pub open spec fn expand_id_cred_spec(
    known: Option<(CredentialView, UnionScope)>,
    unauthenticated: Option<UnionScope>,
    id: Seq<u8>,
    ccs: Option<CredentialView>,
) -> Option<(CredentialView, UnionScope)> {
    match known {
        None => None,
        Some((cred, scope)) => {
            let reference = if id[1] == KID_LABEL {
                by_kid_spec(cred)
            } else {
                by_value_spec(cred)
            };
            if reference == Ok::<Seq<u8>, CredentialRefError>(id) {
                Some((cred, scope))
            } else {
                match (unauthenticated, ccs) {
                    (Some(s), Some(c)) => Some((c, s)),
                    _ => None,
                }
            }
        },
    }
}

/// A client that presents the known credential, by reference to its key identifier or by
/// value, is granted the known client's scope, whatever else is configured.
pub proof fn lemma_known_credential_grants_scope(
    cred: CredentialView,
    scope: UnionScope,
    unauthenticated: Option<UnionScope>,
    ccs: Option<CredentialView>,
)
    ensures
        cred.kid is Some ==> expand_id_cred_spec(
            Some((cred, scope)),
            unauthenticated,
            by_kid_spec(cred)->Ok_0,
            ccs,
        ) == Some((cred, scope)),
        cred.cred_type == CredentialType::Ccs ==> expand_id_cred_spec(
            Some((cred, scope)),
            unauthenticated,
            by_value_spec(cred)->Ok_0,
            ccs,
        ) == Some((cred, scope)),
{
}

/// An empty configuration is equivalent to denying all access: it allows no unauthenticated
/// access and refuses every token for lack of a key.
pub proof fn lemma_empty_config_denies_all(
    c: ConfigBuilder,
    iv: Option<Seq<u8>>,
    aad: Seq<u8>,
    buffer: Seq<u8>,
    alg: Option<i32>,
    signed_data: Seq<u8>,
    signature: Seq<u8>,
    payload: Seq<u8>,
)
    requires
        c.as_key_view() is None,
        c.es256_view() is None,
        c.unauthenticated_view() is None,
    ensures
        symmetric_token_spec(c.as_key_view(), iv, aad, buffer) is Err,
        asymmetric_token_spec(c.es256_view(), alg, signed_data, signature, payload) is Err,
{
}

} // verus!
