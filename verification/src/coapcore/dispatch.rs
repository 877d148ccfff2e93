//! Dispatch of incoming requests: which part of the security layer handles a request, judged
//! from its options and code, and whether unauthenticated access is allowed for the requests
//! passed to the application unprotected.

use vstd::prelude::*;
use crate::coapcore::cbor::{bytes_at, decode_bytes};
use crate::coapcore::recognition::{update_spec, Recognition, RecognitionView, OPTION_EDHOC, OPTION_URI_PATH};
use crate::coapcore::ace::{edhoc_credential_spec, edhoc_token_claims_spec, process_edhoc_token, MAX_CRED_LEN};
use crate::coapcore::edhoc::{get_ccs_spec, Credential, CredentialKey, CredentialType, EadItem, IdCred, KID_LABEL};
use crate::coapcore::scope::{same_scope, UnionScope};
use crate::coapcore::seccfg::{expand_id_cred_spec, ConfigBuilder};
use crate::coapcore::seccontext::{SecContextStage, SecContextState};
use crate::coapcore::time::{TimeConstraint, TimeProvider};

verus! {

/// The request code POST.
pub const CODE_POST: u8 = 2;

/// An option is critical when the lowest bit of its number is set (RFC 7252, Section 5.4.6).
pub open spec fn is_critical(number: u16) -> bool {
    number & 1u16 == 1u16
}

/// Whether option `number` is critical, as classified by `coap_numbers::option::get_criticality`.
///
/// The contract states what that function computes: the lowest bit of the number.
#[verifier::external_body]
fn option_is_critical(number: u16) -> (r: bool)
    ensures
        r == is_critical(number),
{
    coap_numbers::option::get_criticality(number) == coap_numbers::option::Criticality::Critical
}

/// Recognition over the options from index `k` on, starting in `state`, as the request handler
/// runs it: each option that recognition leaves over is examined for criticality as it comes,
/// and the scan stops at the first critical one. Returns the state reached and the number of
/// that critical option, if there is one.
pub open spec fn scan_spec(
    has_edhoc: bool,
    parses_tokens: bool,
    options: Seq<(u16, Seq<u8>)>,
    k: nat,
    state: RecognitionView,
) -> (RecognitionView, Option<u16>)
    decreases options.len() - k,
{
    if k >= options.len() {
        (state, None)
    } else {
        let step = update_spec(state, has_edhoc, parses_tokens, options[k as int].0, options[k as int].1);
        if step.1 && is_critical(options[k as int].0) {
            (step.0, Some(options[k as int].0))
        } else {
            scan_spec(has_edhoc, parses_tokens, options, k + 1, step.0)
        }
    }
}

/// Runs recognition over the options of a request (in order) until the first option that is
/// left over and critical. Returns the state reached and the number of that option, if any.
pub fn scan_options(has_edhoc: bool, parses_tokens: bool, options: &Vec<(u16, Vec<u8>)>) -> (r: (
    Recognition,
    Option<u16>,
))
    ensures
        (r.0.view_rec(), r.1) == scan_spec(
            has_edhoc,
            parses_tokens,
            options.deep_view(),
            0,
            RecognitionView::Start,
        ),
{
    let ghost opts = options.deep_view();
    let mut state = Recognition::Start;
    let mut k: usize = 0;
    while k < options.len()
        invariant
            k <= options.len(),
            opts == options.deep_view(),
            opts.len() == options.len(),
            scan_spec(has_edhoc, parses_tokens, opts, 0, RecognitionView::Start) == scan_spec(
                has_edhoc,
                parses_tokens,
                opts,
                k as nat,
                state.view_rec(),
            ),
        decreases options.len() - k,
    {
        let number = options[k].0;
        proof {
            assert(opts[k as int] == (number, options[k as int].1@));
        }
        let (next, keep) = state.update(has_edhoc, parses_tokens, number, options[k].1.as_slice());
        if keep && option_is_critical(number) {
            return (next, Some(number));
        }
        state = next;
        k = k + 1;
    }
    (state, None)
}

/// The part of the security layer that handles a request.
#[derive(Debug, Clone)]
pub enum RequestKind {
    /// Passed on unprotected to the application (subject to unauthenticated access).
    Application,
    /// An EDHOC message 1 posted to `/.well-known/edhoc`.
    Edhoc,
    /// An ACE token posted to `/authz-info`.
    Token,
    /// An OSCORE request with the OSCORE option's value; `with_edhoc` when an EDHOC message 3
    /// precedes its payload.
    Oscore { oscore: Vec<u8>, with_edhoc: bool },
}

/// The abstract form of a [`RequestKind`].
pub enum RequestKindView {
    Application,
    Edhoc,
    Token,
    Oscore(Seq<u8>, bool),
}

impl RequestKind {
    /// The abstract form of this kind.
    pub open spec fn view_kind(&self) -> RequestKindView {
        match self {
            RequestKind::Application => RequestKindView::Application,
            RequestKind::Edhoc => RequestKindView::Edhoc,
            RequestKind::Token => RequestKindView::Token,
            RequestKind::Oscore { oscore, with_edhoc } => RequestKindView::Oscore(oscore@, *with_edhoc),
        }
    }
}

/// Errors with which a request is refused before it is processed.
#[derive(Debug, Clone, Copy, PartialEq, Eq, Structural)]
pub enum DispatchError {
    /// 4.02 Bad Option, for the critical option with this number that nobody processes.
    BadOption(u16),
    /// 4.05 Method Not Allowed: the security layer's own resources only take POST.
    MethodNotAllowed,
}

/// Whether the requests of a recognition state are only handled by the security layer.
pub open spec fn errors_handled_spec(state: RecognitionView) -> bool {
    state is WellKnownEdhoc || state is AuthzInfo
}

/// The dispatch decision for a request with these options and this code.
///
/// Requests for the security layer's own resources are refused if a critical option is left
/// unprocessed, and must be POST requests.
pub open spec fn classify_spec(
    has_edhoc: bool,
    parses_tokens: bool,
    options: Seq<(u16, Seq<u8>)>,
    code: u8,
) -> Result<RequestKindView, DispatchError> {
    let (state, critical) = scan_spec(has_edhoc, parses_tokens, options, 0, RecognitionView::Start);
    if errors_handled_spec(state) && critical is Some {
        Err(DispatchError::BadOption(critical->0))
    } else {
        match state {
            RecognitionView::WellKnownEdhoc => if code == CODE_POST {
                Ok(RequestKindView::Edhoc)
            } else {
                Err(DispatchError::MethodNotAllowed)
            },
            RecognitionView::AuthzInfo => if code == CODE_POST {
                Ok(RequestKindView::Token)
            } else {
                Err(DispatchError::MethodNotAllowed)
            },
            RecognitionView::Edhoc(o) => Ok(RequestKindView::Oscore(o, true)),
            RecognitionView::Oscore(o) => Ok(RequestKindView::Oscore(o, false)),
            _ => Ok(RequestKindView::Application),
        }
    }
}

/// Decides which part of the security layer handles a request, given its options (in order)
/// and its code.
pub fn classify_request(
    has_edhoc: bool,
    parses_tokens: bool,
    options: &Vec<(u16, Vec<u8>)>,
    code: u8,
) -> (r: Result<RequestKind, DispatchError>)
    ensures
        match r {
            Ok(kind) => classify_spec(has_edhoc, parses_tokens, options.deep_view(), code) == Ok::<
                RequestKindView,
                DispatchError,
            >(kind.view_kind()),
            Err(e) => classify_spec(has_edhoc, parses_tokens, options.deep_view(), code) == Err::<
                RequestKindView,
                DispatchError,
            >(e),
        },
{
    let (state, critical) = scan_options(has_edhoc, parses_tokens, options);
    if state.errors_handled_here() {
        match critical {
            Some(number) => {
                return Err(DispatchError::BadOption(number));
            },
            None => {},
        }
    }
    match state {
        Recognition::WellKnownEdhoc => {
            if code == CODE_POST {
                Ok(RequestKind::Edhoc)
            } else {
                Err(DispatchError::MethodNotAllowed)
            }
        },
        Recognition::AuthzInfo => {
            if code == CODE_POST {
                Ok(RequestKind::Token)
            } else {
                Err(DispatchError::MethodNotAllowed)
            }
        },
        Recognition::Edhoc { oscore } => Ok(RequestKind::Oscore { oscore, with_edhoc: true }),
        Recognition::Oscore { oscore } => Ok(RequestKind::Oscore { oscore, with_edhoc: false }),
        _ => Ok(RequestKind::Application),
    }
}

/// The values of the Uri-Path options among `options`, in order.
pub open spec fn uri_path_spec(options: Seq<(u16, Seq<u8>)>) -> Seq<Seq<u8>>
    decreases options.len(),
{
    if options.len() == 0 {
        Seq::empty()
    } else {
        let rest = uri_path_spec(options.drop_last());
        if options.last().0 == OPTION_URI_PATH {
            rest.push(options.last().1)
        } else {
            rest
        }
    }
}

/// Collects the values of the Uri-Path options of a request, in order.
pub fn uri_path_of(options: &Vec<(u16, Vec<u8>)>) -> (r: Vec<Vec<u8>>)
    ensures
        r.deep_view() == uri_path_spec(options.deep_view()),
{
    let ghost opts = options.deep_view();
    let mut path: Vec<Vec<u8>> = Vec::new();
    let mut k: usize = 0;
    while k < options.len()
        invariant
            k <= options.len(),
            opts == options.deep_view(),
            path.deep_view() == uri_path_spec(opts.take(k as int)),
        decreases options.len() - k,
    {
        proof {
            assert(opts.take(k as int + 1).drop_last() =~= opts.take(k as int));
            assert(opts.take(k as int + 1).last() == opts[k as int]);
            assert(opts[k as int] == (options[k as int].0, options[k as int].1@));
        }
        if options[k].0 == OPTION_URI_PATH {
            let value = options[k].1.clone();
            path.push(value);
            proof {
                assert(path.deep_view() =~= uri_path_spec(opts.take(k as int)).push(options[k as int].1@));
            }
        }
        k = k + 1;
    }
    assert(opts.take(k as int) =~= opts);
    path
}

/// Whether unauthenticated access allows a request passed on unprotected: there must be a
/// scope for unauthenticated access, it must allow the request, and its time constraint must
/// hold by the time provider's clock (which is only asked if the scope allows the request).
pub fn unauthenticated_allowed<T: TimeProvider>(
    nosec: &Option<(UnionScope, TimeConstraint)>,
    code: u8,
    options: &Vec<(u16, Vec<u8>)>,
    time: &mut T,
) -> (r: bool)
    requires
        match nosec {
            Some((scope, _)) => scope.wf() && (code == 0 ==> !(scope is AifValue)),
            None => true,
        },
    ensures
        match nosec {
            None => !r,
            Some((scope, constraint)) => r == (scope.allows(code, uri_path_spec(options.deep_view()))
                && constraint.is_valid_spec(old(time).lower_bound())),
        },
{
    match nosec {
        None => false,
        Some((scope, constraint)) => {
            let path = uri_path_of(options);
            scope.request_is_allowed(code, &path) && constraint.is_valid_with(time)
        },
    }
}

/// The outcome of the authorization check of a request passed on to the application.
#[derive(Debug, Clone, Copy)]
pub enum AuthorizationChecked<I> {
    /// The checks passed; the application's extracted request data.
    Allowed(I),
    /// The checks failed: the request gets a 4.01 Unauthorized response.
    NotAllowed,
}

/// Either a value of the security layer's own (`Own`) or of the wrapped application (`Inner`).
#[derive(Debug, Clone, Copy)]
pub enum OrInner<O, I> {
    Own(O),
    Inner(I),
}

impl<O, I> OrInner<O, I> {
    /// Wraps a value of the security layer's own.
    pub fn from_own(own: O) -> (r: Self)
        ensures
            r == OrInner::<O, I>::Own(own),
    {
        OrInner::Own(own)
    }
}

/// CoAP error responses of the EDHOC resource.
#[derive(Debug, Clone, Copy, PartialEq, Eq, Structural)]
pub enum EdhocRequestError {
    /// 4.04 Not Found: this server has no EDHOC credential of its own.
    NotFound,
    /// 4.00 Bad Request.
    BadRequest,
}

/// The EDHOC message 1 of a request to `/.well-known/edhoc`, along with this server's own
/// credential and private key with which to answer it: the server must have a credential of its
/// own, and the payload must be `true` (0xf5) followed by the message. Empty payloads (the
/// reverse flow) and anything else (a message 3) are not supported.
pub fn edhoc_message_1(authorities: &ConfigBuilder, payload: &[u8]) -> (r: Result<
    (Vec<u8>, (Credential, [u8; 32])),
    EdhocRequestError,
>)
    ensures
        authorities.own_credential_view() is None ==> (r matches Err(e) && e == EdhocRequestError::NotFound),
        authorities.own_credential_view() matches Some((c, k)) ==> match r {
            Ok((m, (rc, rk))) => {
                &&& payload@.len() > 0
                &&& payload@[0] == 0xf5
                &&& m@ == payload@.skip(1)
                &&& rc@ == c
                &&& rk@ == k
            },
            Err(e) => e == EdhocRequestError::BadRequest && !(payload@.len() > 0 && payload@[0] == 0xf5),
        },
{
    let own = match authorities.own_edhoc_credential() {
        Some(own) => own,
        None => {
            return Err(EdhocRequestError::NotFound);
        },
    };
    if payload.len() == 0 || payload[0] != 0xf5 {
        return Err(EdhocRequestError::BadRequest);
    }
    let m = crate::coapcore::ace::bytes_range(payload, 1, payload.len());
    assert(m@ =~= payload@.skip(1));
    Ok((m, own))
}

/// The length of the EDHOC message 3 at the start of the payload of an OSCORE request that
/// carries the EDHOC option: it must be a CBOR byte string, which ends the message.
pub fn edhoc_message_3_len(payload: &[u8]) -> (r: Option<usize>)
    ensures
        match r {
            Some(n) => bytes_at(payload@, 0) matches Some((_, e)) && e == n,
            None => bytes_at(payload@, 0) is None,
        },
{
    match decode_bytes(payload, 0) {
        Some((_, end)) => Some(end),
        None => None,
    }
}

/// The options of a request without the EDHOC option, in order.
pub open spec fn without_edhoc(options: Seq<(u16, Seq<u8>)>) -> Seq<(u16, Seq<u8>)>
    decreases options.len(),
{
    if options.len() == 0 {
        Seq::empty()
    } else {
        let rest = without_edhoc(options.drop_last());
        if options.last().0 == OPTION_EDHOC {
            rest
        } else {
            rest.push(options.last())
        }
    }
}

/// The options that the OSCORE layer sees of a request that carried EDHOC: all but the EDHOC
/// option.
pub fn strip_edhoc_option(options: &Vec<(u16, Vec<u8>)>) -> (r: Vec<(u16, Vec<u8>)>)
    ensures
        r.deep_view() == without_edhoc(options.deep_view()),
{
    let ghost opts = options.deep_view();
    let mut out: Vec<(u16, Vec<u8>)> = Vec::new();
    let mut k: usize = 0;
    while k < options.len()
        invariant
            k <= options.len(),
            opts == options.deep_view(),
            out.deep_view() == without_edhoc(opts.take(k as int)),
        decreases options.len() - k,
    {
        proof {
            assert(opts.take(k as int + 1).drop_last() =~= opts.take(k as int));
            assert(opts.take(k as int + 1).last() == opts[k as int]);
            assert(opts[k as int] == (options[k as int].0, options[k as int].1@));
        }
        if options[k].0 != OPTION_EDHOC {
            let value = options[k].1.clone();
            let ghost before = out.deep_view();
            out.push((options[k].0, value));
            proof {
                assert(out.deep_view() =~= before.push((options[k as int].0, options[k as int].1@)));
            }
        }
        k = k + 1;
    }
    assert(opts.take(k as int) =~= opts);
    out
}

/// The EAD label of an ACE access token.
pub const EAD_ACETOKEN: u16 = 20;

/// The token that EDHOC's EAD 3 carries, if its item has the ACE token label and a value.
pub open spec fn ead_token(ead_3: Option<EadItem>) -> Option<Seq<u8>> {
    match ead_3 {
        Some(item) => if item.label == EAD_ACETOKEN && item.value is Some {
            Some(item.value->0@)
        } else {
            None
        },
        None => None,
    }
}

/// Whether EAD 3 holds an item other than an ACE token that is marked critical: the server does
/// not understand it and must abort the exchange.
pub open spec fn ead_critical_unprocessed(ead_3: Option<EadItem>) -> bool {
    match ead_3 {
        Some(item) => ead_token(ead_3) is None && item.is_critical,
        None => false,
    }
}

/// Whether the token of EAD 3 verifies under `authorities` and confirms a usable credential.
pub open spec fn ead_token_accepted(ead_3: Option<EadItem>, authorities: ConfigBuilder) -> bool {
    match ead_token(ead_3) {
        Some(v) => match edhoc_token_claims_spec(v, authorities.as_key_view(), authorities.es256_view()) {
            Ok(claims) => edhoc_credential_spec(claims) is Ok,
            Err(_) => false,
        },
        None => false,
    }
}

/// Whether the peer of EDHOC message 3 (with EAD 3 item `ead_3` and identifier `id`) resolves
/// to a credential: by an accepted token, or else, without a critical item that is not
/// understood, by the configuration (see [`peer_credential`]).
pub open spec fn peer_resolves(ead_3: Option<EadItem>, authorities: ConfigBuilder, id: Seq<u8>) -> bool {
    ||| ead_token_accepted(ead_3, authorities)
    ||| !ead_critical_unprocessed(ead_3) && expand_id_cred_spec(
        authorities.known_client_view(),
        authorities.unauthenticated_view(),
        id,
        get_ccs_spec(id),
    ) is Some
}

/// `cred` and `authorization` are what the peer of EDHOC message 3 resolves to (see
/// [`peer_credential`]): the credential that an accepted token confirms, with the token's scope
/// and expiry; or else the configuration's resolution of `id`, without limit in time.
pub open spec fn peer_grant(
    ead_3: Option<EadItem>,
    authorities: ConfigBuilder,
    id: Seq<u8>,
    cred: Credential,
    authorization: (UnionScope, TimeConstraint),
) -> bool {
    if ead_token_accepted(ead_3, authorities) {
        let claims = edhoc_token_claims_spec(
            ead_token(ead_3)->0,
            authorities.as_key_view(),
            authorities.es256_view(),
        )->Ok_0;
        let (bytes, x) = edhoc_credential_spec(claims)->Ok_0;
        &&& cred.bytes@ == bytes
        &&& cred.key matches CredentialKey::EC2Compact(k) && k@ == x
        &&& cred.kid is None
        &&& cred.cred_type == CredentialType::Ccs
        &&& crate::coapcore::seccfg::scope_of_aif(authorization.0, claims.scope)
        &&& authorization.1.exp == Some(claims.exp)
    } else if ead_critical_unprocessed(ead_3) {
        false
    } else {
        match expand_id_cred_spec(
            authorities.known_client_view(),
            authorities.unauthenticated_view(),
            id,
            get_ccs_spec(id),
        ) {
            Some((c, s)) => cred@ == c && same_scope(authorization.0, s) && authorization.1.exp is None,
            None => false,
        }
    }
}

/// The credential and authorization of the peer after EDHOC message 3, or `None` if it can not
/// be resolved (the request then gets 4.00 Bad Request).
///
/// An ACE token carried in EAD 3 comes first: if it verifies, the credential it confirms is used
/// with the scope and expiry of its claims. A token that does not verify is dropped. Otherwise
/// the peer's `ID_CRED_I` is resolved by the configuration. Any other EAD 3 item is not
/// understood: a critical one aborts the exchange (`None`), an elective one is ignored.
pub fn peer_credential(ead_3: Option<EadItem>, id_cred_i: &IdCred, authorities: &ConfigBuilder) -> (r: Option<
    (Credential, (UnionScope, TimeConstraint)),
>)
    requires
        authorities.wf(),
        id_cred_i.wf(),
        authorities.known_client_view() matches Some((c, _)) ==> (id_cred_i.bytes@[1] != KID_LABEL
            && c.cred_type == CredentialType::Ccs ==> c.bytes.len() + 2 <= MAX_CRED_LEN),
    ensures
        ead_token_accepted(ead_3, *authorities) ==> {
            let claims = edhoc_token_claims_spec(
                ead_token(ead_3)->0,
                authorities.as_key_view(),
                authorities.es256_view(),
            )->Ok_0;
            let (bytes, x) = edhoc_credential_spec(claims)->Ok_0;
            r matches Some((cred, (scope, time))) && {
                &&& cred.bytes@ == bytes
                &&& cred.key matches CredentialKey::EC2Compact(k) && k@ == x
                &&& cred.kid is None
                &&& cred.cred_type == CredentialType::Ccs
                &&& crate::coapcore::seccfg::scope_of_aif(scope, claims.scope)
                &&& time.exp == Some(claims.exp)
            }
        },
        ead_critical_unprocessed(ead_3) ==> r is None,
        (r is Some) == peer_resolves(ead_3, *authorities, id_cred_i.bytes@),
        r matches Some((c, a)) ==> peer_grant(ead_3, *authorities, id_cred_i.bytes@, c, a),
        !ead_token_accepted(ead_3, *authorities) && !ead_critical_unprocessed(ead_3) ==> match expand_id_cred_spec(
            authorities.known_client_view(),
            authorities.unauthenticated_view(),
            id_cred_i.bytes@,
            get_ccs_spec(id_cred_i.bytes@),
        ) {
            Some((c, s)) => r matches Some((rc, (rs, t))) && rc@ == c && same_scope(rs, s) && t.exp is None,
            None => r is None,
        },
{
    let (token, critical_other) = match ead_3 {
        Some(item) => if item.label == EAD_ACETOKEN && item.value.is_some() {
            (item.value, false)
        } else {
            (None, item.is_critical)
        },
        None => (None, false),
    };
    match token {
        Some(value) => match process_edhoc_token(value.as_slice(), authorities) {
            Ok(granted) => {
                return Some(granted);
            },
            Err(_) => {},
        },
        None => {},
    }
    let resolved = match authorities.expand_id_cred_x(id_cred_i) {
        Some((cred, scope, time)) => Some((cred, (scope, time))),
        None => None,
    };
    if critical_other {
        return None;
    }
    resolved
}

/// Processes the EDHOC message 3 at the start of the payload of an OSCORE request that carries
/// the EDHOC option, for the security context `state` that the request names. Returns the
/// context to continue with and the length of the message.
///
/// The payload must start with a CBOR byte string, which ends the message. A context that does
/// not wait for message 3 is returned as it is. For one that does, the message must parse
/// (`message_3`: the peer's `ID_CRED_I` and EAD 3 item, `None` if it does not parse), the peer
/// must resolve to a credential (see [`peer_credential`]), and the message must verify under
/// that credential (`verify_message_3`); the context then becomes an OSCORE context carrying the
/// resolved authorization in place of its earlier one. Anything else is answered with 4.00 Bad
/// Request.
pub fn process_edhoc_in_payload<F: FnOnce(Credential) -> bool>(
    payload: &[u8],
    state: SecContextState,
    message_3: Option<(IdCred, Option<EadItem>)>,
    authorities: &ConfigBuilder,
    verify_message_3: F,
) -> (r: Result<(SecContextState, usize), EdhocRequestError>)
    requires
        authorities.wf(),
        message_3 matches Some((id, _)) ==> {
            &&& id.wf()
            &&& authorities.known_client_view() matches Some((c, _)) ==> (id.bytes@[1] != KID_LABEL
                && c.cred_type == CredentialType::Ccs ==> c.bytes.len() + 2 <= MAX_CRED_LEN)
        },
        forall|c: Credential| call_requires(verify_message_3, (c,)),
    ensures
        bytes_at(payload@, 0) is None ==> r == Err::<(SecContextState, usize), EdhocRequestError>(
            EdhocRequestError::BadRequest,
        ),
        bytes_at(payload@, 0) matches Some((_, cutoff)) ==> {
            if state.stage != SecContextStage::EdhocResponderSentM2 {
                r == Ok::<(SecContextState, usize), EdhocRequestError>((state, cutoff as usize))
            } else {
                match message_3 {
                    None => r == Err::<(SecContextState, usize), EdhocRequestError>(EdhocRequestError::BadRequest),
                    Some((id, ead)) => {
                        &&& !peer_resolves(ead, *authorities, id.bytes@) ==> r == Err::<
                            (SecContextState, usize),
                            EdhocRequestError,
                        >(EdhocRequestError::BadRequest)
                        &&& r matches Ok((s, n)) ==> {
                            &&& n == cutoff
                            &&& s.stage == SecContextStage::Oscore
                            &&& s.authorization is Some
                            &&& exists|c: Credential|
                                #[trigger] peer_grant(ead, *authorities, id.bytes@, c, s.authorization->0)
                                    && call_ensures(verify_message_3, (c,), true)
                        }
                        &&& r matches Err(e) ==> {
                            &&& e == EdhocRequestError::BadRequest
                            &&& peer_resolves(ead, *authorities, id.bytes@) ==> exists|c: Credential, a: (UnionScope, TimeConstraint)|
                                #[trigger] peer_grant(ead, *authorities, id.bytes@, c, a)
                                    && call_ensures(verify_message_3, (c,), false)
                        }
                    },
                }
            }
        },
{
    let cutoff = match edhoc_message_3_len(payload) {
        Some(n) => n,
        None => {
            return Err(EdhocRequestError::BadRequest);
        },
    };
    if state.stage != SecContextStage::EdhocResponderSentM2 {
        return Ok((state, cutoff));
    }
    let (id_cred_i, ead_3) = match message_3 {
        Some(m) => m,
        None => {
            return Err(EdhocRequestError::BadRequest);
        },
    };
    let ghost ead = ead_3;
    let (cred, authorization) = match peer_credential(ead_3, &id_cred_i, authorities) {
        Some(g) => g,
        None => {
            return Err(EdhocRequestError::BadRequest);
        },
    };
    let ghost g = cred;
    let ghost a = authorization;
    let verified = verify_message_3(cred);
    if !verified {
        proof {
            assert(call_ensures(verify_message_3, (g,), false));
            assert(peer_grant(ead, *authorities, id_cred_i.bytes@, g, a));
        }
        return Err(EdhocRequestError::BadRequest);
    }
    let next = SecContextState { stage: SecContextStage::Oscore, authorization: Some(authorization) };
    proof {
        assert(call_ensures(verify_message_3, (g,), true));
        assert(peer_grant(ead, *authorities, id_cred_i.bytes@, g, next.authorization->0));
    }
    Ok((next, cutoff))
}

/// Only Uri-Path options make up the request path: an option of any other number (such as a
/// Uri-Query) added to a request leaves its path as it is, and a Uri-Path option adds its value
/// as the last segment.
pub proof fn lemma_uri_path_only_from_uri_path(options: Seq<(u16, Seq<u8>)>, number: u16, value: Seq<u8>)
    ensures
        number != 11u16 ==> uri_path_spec(options.push((number, value))) == uri_path_spec(options),
        number == 11u16 ==> uri_path_spec(options.push((number, value))) == uri_path_spec(options).push(value),
{
    assert(options.push((number, value)).drop_last() =~= options);
}

/// Every segment of the request path is the value of one of its Uri-Path options, there are
/// no more segments than options, and removing an option that is not a Uri-Path option leaves
/// the path as it is.
pub proof fn lemma_uri_path_segments(options: Seq<(u16, Seq<u8>)>)
    ensures
        uri_path_spec(options).len() <= options.len(),
        forall|i: int|
            #![trigger uri_path_spec(options)[i]]
            0 <= i < uri_path_spec(options).len() ==> exists|j: int|
                #![trigger options[j]]
                0 <= j < options.len() && options[j].0 == 11u16 && uri_path_spec(options)[i] == options[j].1,
        forall|j: int| 0 <= j < options.len() && options[j].0 != 11u16 ==> uri_path_spec(options)
            == #[trigger] uri_path_spec(options.remove(j)),
    decreases options.len(),
{
    if options.len() > 0 {
        let init = options.drop_last();
        lemma_uri_path_segments(init);
        let p = uri_path_spec(options);
        let q = uri_path_spec(init);
        if options.last().0 == OPTION_URI_PATH {
            assert(p == q.push(options.last().1));
        } else {
            assert(p == q);
        }
        assert forall|i: int| #![trigger p[i]] 0 <= i < p.len() implies exists|j: int|
            #![trigger options[j]]
            0 <= j < options.len() && options[j].0 == 11u16 && p[i] == options[j].1 by {
            if i < q.len() {
                assert(p[i] == q[i]);
                let j = choose|j: int| #![trigger init[j]] 0 <= j < init.len() && init[j].0 == 11u16 && q[i] == init[j].1;
                assert(options[j] == init[j]);
            } else {
                let j = options.len() - 1;
                assert(options[j] == options.last());
                assert(options[j].0 == 11u16 && p[i] == options[j].1);
            }
        }
        assert forall|j: int| 0 <= j < options.len() && options[j].0 != 11u16 implies uri_path_spec(options)
            == #[trigger] uri_path_spec(options.remove(j)) by {
            if j == options.len() - 1 {
                assert(options.remove(j) =~= init);
            } else {
                assert(options.remove(j).drop_last() =~= init.remove(j));
                assert(options.remove(j).last() == options.last());
                assert(init[j] == options[j]);
                assert(uri_path_spec(init) == uri_path_spec(init.remove(j)));
            }
        }
    }
}

} // verus!
