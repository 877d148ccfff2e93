use ariel_os::coapcore::ace::HeaderMap;
use ariel_os::coapcore::edhoc::Credential;
use ariel_os::coapcore::seccfg::ConfigBuilder;
use ariel_os::coapcore::error::{CredentialError, CredentialErrorDetail};
use ariel_os::coapcore::recognition::{
    recognize, slice_eq, Recognition, CONTENT_FORMAT_ACE_CBOR, OPTION_ACCEPT,
    OPTION_CONTENT_FORMAT, OPTION_EDHOC, OPTION_OSCORE, OPTION_URI_PATH,
};
use ariel_os::coapcore::scope::{AifValue, AllowAll, DenyAll, UnionScope, AIF_SCOPE_MAX_LEN};
use ariel_os::coapcore::seccontext::{
    level, oscore_request_context, SecContextStage, LEVEL_ADMIN, LEVEL_AUTHENTICATED, LEVEL_EMPTY, LEVEL_ONGOING,
};
use ariel_os::coapcore::time::{ClaimsTimes, TimeConstraint, TimeProvider, TimeUnknown};

fn path(segments: &[&str]) -> Vec<Vec<u8>> {
    segments.iter().map(|s| s.as_bytes().to_vec()).collect()
}

/// `[["/a", 1]]`: GET on `/a`.
const GET_A: [u8; 6] = [0x81, 0x82, 0x62, b'/', b'a', 0x01];

#[test]
fn aif_grants_method_on_exact_path() {
    let v = AifValue::parse(&GET_A).unwrap();
    assert!(v.request_is_allowed(coap_numbers::code::GET, &path(&["a"])));
    assert!(!v.request_is_allowed(coap_numbers::code::POST, &path(&["a"])));
    assert!(!v.request_is_allowed(coap_numbers::code::GET, &path(&[])));
    assert!(!v.request_is_allowed(coap_numbers::code::GET, &path(&["b"])));
    assert!(!v.request_is_allowed(coap_numbers::code::GET, &path(&["a", "b"])));
    assert!(!v.is_admin());
}

#[test]
fn aif_root_path_matches_no_options() {
    // `[["/", 5]]`: GET and PUT on the root.
    let v = AifValue::parse(&[0x81, 0x82, 0x61, b'/', 0x05]).unwrap();
    assert!(v.request_is_allowed(coap_numbers::code::GET, &path(&[])));
    assert!(v.request_is_allowed(coap_numbers::code::PUT, &path(&[])));
    assert!(!v.request_is_allowed(coap_numbers::code::POST, &path(&[])));
    assert!(!v.request_is_allowed(coap_numbers::code::GET, &path(&[""])));
}

#[test]
fn aif_multi_segment_and_trailing_slash() {
    // `[["/a/b", 3], ["/c/", 2]]`
    let bytes = [
        0x82, 0x82, 0x64, b'/', b'a', b'/', b'b', 0x03, 0x82, 0x63, b'/', b'c', b'/', 0x02,
    ];
    let v = AifValue::parse(&bytes).unwrap();
    assert!(v.request_is_allowed(coap_numbers::code::GET, &path(&["a", "b"])));
    assert!(v.request_is_allowed(coap_numbers::code::POST, &path(&["a", "b"])));
    assert!(!v.request_is_allowed(coap_numbers::code::GET, &path(&["a"])));
    assert!(v.request_is_allowed(coap_numbers::code::POST, &path(&["c"])));
    assert!(!v.request_is_allowed(coap_numbers::code::GET, &path(&["c"])));
    assert!(!v.request_is_allowed(coap_numbers::code::POST, &path(&["c", ""])));
}

#[test]
fn aif_empty_segment() {
    // `[["//a", 1]]`: an empty first segment, then `a`.
    let v = AifValue::parse(&[0x81, 0x82, 0x63, b'/', b'/', b'a', 0x01]).unwrap();
    assert!(v.request_is_allowed(coap_numbers::code::GET, &path(&["", "a"])));
    assert!(!v.request_is_allowed(coap_numbers::code::GET, &path(&["a"])));
}

#[test]
fn aif_codes_beyond_permission_bits() {
    // `[["/", 0x80000000]]`: only code 32.
    let v = AifValue::parse(&[0x81, 0x82, 0x61, b'/', 0x1a, 0x80, 0x00, 0x00, 0x00]).unwrap();
    assert!(v.request_is_allowed(32, &path(&[])));
    assert!(!v.request_is_allowed(31, &path(&[])));
    assert!(!v.request_is_allowed(33, &path(&[])));
    assert!(!v.request_is_allowed(0x45, &path(&[])));
}

#[test]
fn aif_parse_rejects_invalid_values() {
    // A relative path.
    assert!(AifValue::parse(&[0x81, 0x82, 0x61, b'a', 0x01]).is_err());
    // An empty path.
    assert!(AifValue::parse(&[0x81, 0x82, 0x60, 0x01]).is_err());
    // Not CBOR of the right shape.
    assert!(AifValue::parse(&[0xff]).is_err());
    assert!(AifValue::parse(&[0x81, 0x82, 0x01, 0x01]).is_err());
    assert!(AifValue::parse(&[]).is_err());
    // Too long, though it would decode.
    let mut long = vec![0x81, 0x82, 0x78, 60, b'/'];
    long.extend(std::iter::repeat(b'x').take(59));
    long.push(0x01);
    assert_eq!(long.len(), AIF_SCOPE_MAX_LEN + 1);
    assert!(AifValue::parse(&long).is_err());
    // An empty array is fine.
    let empty = AifValue::parse(&[0x80]).unwrap();
    assert!(!empty.request_is_allowed(coap_numbers::code::GET, &path(&[])));
}

#[test]
fn aif_admin_scope_has_three_records() {
    let bytes = [
        0x83, 0x82, 0x61, b'/', 0x01, 0x82, 0x62, b'/', b'a', 0x01, 0x82, 0x62, b'/', b'b', 0x01,
    ];
    let v = AifValue::parse(&bytes).unwrap();
    assert!(v.is_admin());
    assert!(UnionScope::from_aif_value(v).is_admin());
}

#[test]
fn union_scope_dispatches() {
    let aif = UnionScope::from_aif_value(AifValue::parse(&GET_A).unwrap());
    assert!(aif.request_is_allowed(coap_numbers::code::GET, &path(&["a"])));
    assert!(!aif.request_is_allowed(coap_numbers::code::DELETE, &path(&["a"])));
    let all = UnionScope::from_allow_all(AllowAll);
    assert!(all.request_is_allowed(coap_numbers::code::DELETE, &path(&["x"])));
    assert!(!all.is_admin());
    let none = UnionScope::from_deny_all(DenyAll);
    assert!(!none.request_is_allowed(coap_numbers::code::GET, &path(&[])));
    assert!(!none.is_admin());
    assert!(AllowAll.request_is_allowed(1, &path(&[])));
    assert!(!DenyAll.request_is_allowed(1, &path(&[])));
    assert!(!AllowAll.is_admin());
    assert!(!DenyAll.is_admin());
}

#[test]
fn option_numbers_match_registry() {
    assert_eq!(OPTION_OSCORE, coap_numbers::option::OSCORE);
    assert_eq!(OPTION_URI_PATH, coap_numbers::option::URI_PATH);
    assert_eq!(OPTION_CONTENT_FORMAT, coap_numbers::option::CONTENT_FORMAT);
    assert_eq!(OPTION_ACCEPT, coap_numbers::option::ACCEPT);
    assert_eq!(OPTION_EDHOC, coap_numbers::option::EDHOC);
    assert_eq!(CONTENT_FORMAT_ACE_CBOR, 19);
}

fn opts(list: &[(u16, &[u8])]) -> Vec<(u16, Vec<u8>)> {
    list.iter().map(|(n, v)| (*n, v.to_vec())).collect()
}

#[test]
fn recognizes_oscore_and_edhoc() {
    let (state, left) = recognize(true, true, &opts(&[(OPTION_OSCORE, &[0x09, 0x01])]));
    assert!(matches!(state, Recognition::Oscore { ref oscore } if oscore == &vec![0x09, 0x01]));
    assert!(left.is_empty());

    let (state, left) = recognize(
        true,
        false,
        &opts(&[(OPTION_OSCORE, &[]), (OPTION_URI_PATH, b"x"), (OPTION_EDHOC, &[])]),
    );
    assert!(matches!(state, Recognition::Edhoc { .. }));
    assert_eq!(left, vec![OPTION_URI_PATH, OPTION_EDHOC]);

    // Without EDHOC, the EDHOC option is not recognized.
    let (state, _) = recognize(false, true, &opts(&[(OPTION_OSCORE, &[]), (OPTION_EDHOC, &[])]));
    assert!(matches!(state, Recognition::Oscore { .. }));

    // Neither EDHOC nor tokens: OSCORE is not handled.
    let (state, left) = recognize(false, false, &opts(&[(OPTION_OSCORE, &[])]));
    assert!(matches!(state, Recognition::Start));
    assert_eq!(left, vec![OPTION_OSCORE]);

    // An over-long OSCORE option is left alone.
    let (state, _) = recognize(true, true, &opts(&[(OPTION_OSCORE, &[0u8; 17])]));
    assert!(matches!(state, Recognition::Start));
}

#[test]
fn recognizes_well_known_edhoc() {
    let (state, left) = recognize(
        true,
        true,
        &opts(&[(OPTION_URI_PATH, b".well-known"), (OPTION_URI_PATH, b"edhoc")]),
    );
    assert!(matches!(state, Recognition::WellKnownEdhoc));
    assert!(state.errors_handled_here());
    assert!(left.is_empty());

    let (state, left) = recognize(
        true,
        true,
        &opts(&[(OPTION_URI_PATH, b".well-known"), (OPTION_URI_PATH, b"core")]),
    );
    assert!(matches!(state, Recognition::WellKnown));
    assert!(!state.errors_handled_here());
    assert_eq!(left, vec![OPTION_URI_PATH]);

    let (state, _) = recognize(false, true, &opts(&[(OPTION_URI_PATH, b".well-known")]));
    assert!(matches!(state, Recognition::Unencrypted));
}

#[test]
fn recognizes_authz_info() {
    let (state, left) = recognize(
        false,
        true,
        &opts(&[
            (OPTION_URI_PATH, b"authz-info"),
            (OPTION_CONTENT_FORMAT, &[CONTENT_FORMAT_ACE_CBOR]),
            (OPTION_ACCEPT, &[CONTENT_FORMAT_ACE_CBOR]),
            (OPTION_ACCEPT, &[0]),
        ]),
    );
    assert!(matches!(state, Recognition::AuthzInfo));
    assert!(state.errors_handled_here());
    assert_eq!(left, vec![OPTION_ACCEPT]);

    let (state, _) = recognize(true, false, &opts(&[(OPTION_URI_PATH, b"authz-info")]));
    assert!(matches!(state, Recognition::Unencrypted));
}

#[test]
fn unrelated_options_stay_in_start() {
    let (state, left) = recognize(true, true, &opts(&[(60, &[1]), (OPTION_URI_PATH, b"temp")]));
    assert!(matches!(state, Recognition::Unencrypted));
    assert_eq!(left, vec![60, OPTION_URI_PATH]);
    let (state, left) = recognize(true, true, &opts(&[]));
    assert!(matches!(state, Recognition::Start));
    assert!(left.is_empty());
    let (next, keep) = Recognition::Unencrypted.update(true, true, OPTION_OSCORE, &[]);
    assert!(matches!(next, Recognition::Unencrypted));
    assert!(keep);
}

#[test]
fn slice_eq_compares_contents() {
    assert!(slice_eq(b"abc", b"abc"));
    assert!(!slice_eq(b"abc", b"abd"));
    assert!(!slice_eq(b"ab", b"abc"));
    assert!(slice_eq(b"", b""));
}

#[test]
fn security_context_levels() {
    assert_eq!(level(SecContextStage::Empty, None), LEVEL_EMPTY);
    assert_eq!(level(SecContextStage::EdhocResponderProcessedM1, None), LEVEL_ONGOING);
    assert_eq!(level(SecContextStage::EdhocResponderSentM2, Some(true)), LEVEL_ONGOING);
    assert_eq!(level(SecContextStage::Oscore, Some(true)), LEVEL_ADMIN);
    assert_eq!(level(SecContextStage::Oscore, Some(false)), LEVEL_AUTHENTICATED);
    assert_eq!(level(SecContextStage::Oscore, None), LEVEL_AUTHENTICATED);
}

#[test]
fn credential_error_conversions() {
    let e = CredentialError::from_detail(CredentialErrorDetail::KeyNotPresent);
    assert_eq!(e.detail, CredentialErrorDetail::KeyNotPresent);
    assert_eq!(e.position, None);
    let e = CredentialError::from_decode_error(minicbor::decode::Error::end_of_input());
    assert_eq!(e.detail, CredentialErrorDetail::UnsupportedExtension);
    assert_eq!(e.position, None);
    let e = CredentialError::from_encode_out_of_space();
    assert_eq!(e.detail, CredentialErrorDetail::ConstraintExceeded);
}

#[test]
fn header_map_prefers_latter() {
    let a = HeaderMap { alg: Some(-7), iv: Some(vec![1, 2]) };
    let b = HeaderMap { alg: Some(10), iv: None };
    let m = a.updated_with(&b);
    assert_eq!(m.alg, Some(10));
    assert_eq!(m.iv, Some(vec![1, 2]));
    let m = b.updated_with(&a);
    assert_eq!(m.alg, Some(-7));
    assert_eq!(m.iv, Some(vec![1, 2]));
    let empty = HeaderMap { alg: None, iv: None };
    let m = empty.updated_with(&empty);
    assert_eq!(m.alg, None);
    assert_eq!(m.iv, None);
}

struct FixedClock(u64);

impl TimeProvider for FixedClock {
    fn lower_bound(&self) -> u64 {
        self.0
    }

    fn now(&mut self) -> (u64, Option<u64>) {
        (self.0, Some(self.0 + 10))
    }
}

#[test]
fn time_constraints() {
    let unbounded = TimeConstraint::unbounded();
    assert!(unbounded.is_valid_at(u64::MAX));
    assert!(unbounded.is_valid_with(&mut TimeUnknown));
    let c = TimeConstraint::from_claims_set(&ClaimsTimes { exp: 1000, iat: 10 });
    assert_eq!(c.exp, Some(1000));
    assert!(c.is_valid_at(999));
    assert!(!c.is_valid_at(1000));
    assert!(c.is_valid_with(&mut FixedClock(500)));
    assert!(!c.is_valid_with(&mut FixedClock(2000)));
    // With no knowledge of time, a token is still accepted.
    assert!(c.is_valid_with(&mut TimeUnknown));
    let mut t = TimeUnknown;
    assert_eq!(t.now(), (0, None));
}

struct UncertainClock;

impl TimeProvider for UncertainClock {
    fn lower_bound(&self) -> u64 {
        99
    }

    fn now(&mut self) -> (u64, Option<u64>) {
        (99, Some(1000))
    }
}

#[test]
fn clock_uncertainty_counts_for_the_client() {
    let c = TimeConstraint { exp: Some(100) };
    assert!(c.is_valid_with(&mut UncertainClock));
    let c = TimeConstraint { exp: Some(99) };
    assert!(!c.is_valid_with(&mut UncertainClock));
}

use ariel_os::coapcore::dispatch::{
    classify_request, scan_options, unauthenticated_allowed, uri_path_of, DispatchError,
    RequestKind, CODE_POST,
};
use ariel_os::coapcore::time::TimeConstraint as Constraint;

#[test]
fn post_code_matches_registry() {
    assert_eq!(CODE_POST, coap_numbers::code::POST);
}

#[test]
fn classifies_own_resources() {
    let edhoc = opts(&[(OPTION_URI_PATH, b".well-known"), (OPTION_URI_PATH, b"edhoc")]);
    assert!(matches!(classify_request(true, true, &edhoc, coap_numbers::code::POST), Ok(RequestKind::Edhoc)));
    assert_eq!(
        classify_request(true, true, &edhoc, coap_numbers::code::GET).unwrap_err(),
        DispatchError::MethodNotAllowed
    );
    let token = opts(&[(OPTION_URI_PATH, b"authz-info"), (OPTION_CONTENT_FORMAT, &[19])]);
    assert!(matches!(classify_request(false, true, &token, coap_numbers::code::POST), Ok(RequestKind::Token)));
    // An unprocessed critical option (Uri-Query, 15) on the security layer's own resource.
    let with_query = opts(&[(OPTION_URI_PATH, b"authz-info"), (15, b"x=1")]);
    assert_eq!(
        classify_request(false, true, &with_query, coap_numbers::code::POST).unwrap_err(),
        DispatchError::BadOption(15)
    );
    // Accept (17, critical) with another format is not processed.
    let with_accept = opts(&[(OPTION_URI_PATH, b"authz-info"), (OPTION_ACCEPT, &[0])]);
    assert_eq!(
        classify_request(false, true, &with_accept, coap_numbers::code::POST).unwrap_err(),
        DispatchError::BadOption(OPTION_ACCEPT)
    );
    // An elective option (Size1, 60) is fine.
    let with_size = opts(&[(OPTION_URI_PATH, b"authz-info"), (60, &[1])]);
    assert!(matches!(classify_request(false, true, &with_size, coap_numbers::code::POST), Ok(RequestKind::Token)));
}

#[test]
fn classifies_oscore_and_application_requests() {
    let oscore = opts(&[(OPTION_OSCORE, &[0x09, 0x00]), (OPTION_EDHOC, &[])]);
    match classify_request(true, true, &oscore, coap_numbers::code::POST) {
        Ok(RequestKind::Oscore { oscore, with_edhoc }) => {
            assert_eq!(oscore, vec![0x09, 0x00]);
            assert!(with_edhoc);
        }
        other => panic!("unexpected {:?}", other),
    }
    let plain = opts(&[(OPTION_URI_PATH, b"temp")]);
    assert!(matches!(classify_request(true, true, &plain, coap_numbers::code::GET), Ok(RequestKind::Application)));
    // Critical options of application requests are left to the application.
    let plain = opts(&[(3, b"host"), (OPTION_URI_PATH, b"temp")]);
    assert!(matches!(classify_request(true, true, &plain, coap_numbers::code::GET), Ok(RequestKind::Application)));
}

#[test]
fn scan_stops_at_first_critical_leftover() {
    // Uri-Host (3) is critical and left over: recognition stops before the OSCORE option.
    let (state, critical) = scan_options(true, true, &opts(&[(3, b"h"), (OPTION_OSCORE, &[])]));
    assert!(matches!(state, Recognition::Start));
    assert_eq!(critical, Some(3));
    // An elective leftover (Max-Age, 14) does not stop it.
    let (state, critical) = scan_options(true, true, &opts(&[(OPTION_OSCORE, &[]), (14, &[1])]));
    assert!(matches!(state, Recognition::Oscore { .. }));
    assert_eq!(critical, None);
    // The EDHOC option (21) is left over and critical: it stops the scan once recognized.
    let (state, critical) = scan_options(true, true, &opts(&[(OPTION_OSCORE, &[]), (OPTION_EDHOC, &[]), (60, &[])]));
    assert!(matches!(state, Recognition::Edhoc { .. }));
    assert_eq!(critical, Some(OPTION_EDHOC));
}

#[test]
fn uri_path_collects_in_order() {
    let o = opts(&[(3, b"h"), (OPTION_URI_PATH, b"a"), (12, &[0]), (OPTION_URI_PATH, b"b")]);
    assert_eq!(uri_path_of(&o), vec![b"a".to_vec(), b"b".to_vec()]);
}

#[test]
fn unauthenticated_access() {
    let o = opts(&[(OPTION_URI_PATH, b"a")]);
    assert!(!unauthenticated_allowed(&None, 1, &o, &mut TimeUnknown));
    let scope = UnionScope::from_aif_value(AifValue::parse(&GET_A).unwrap());
    let nosec = Some((scope, Constraint::unbounded()));
    assert!(unauthenticated_allowed(&nosec, coap_numbers::code::GET, &o, &mut TimeUnknown));
    assert!(!unauthenticated_allowed(&nosec, coap_numbers::code::PUT, &o, &mut TimeUnknown));
    let expired = Some((UnionScope::from_allow_all(AllowAll), Constraint::from_claims_set(&ClaimsTimes { exp: 10, iat: 0 })));
    assert!(!unauthenticated_allowed(&expired, coap_numbers::code::GET, &o, &mut FixedClock(20)));
    assert!(unauthenticated_allowed(&expired, coap_numbers::code::GET, &o, &mut FixedClock(5)));
}

use ariel_os::coapcore::dispatch::{
    edhoc_message_1, edhoc_message_3_len, strip_edhoc_option, AuthorizationChecked, EdhocRequestError,
    OrInner,
};

#[test]
fn edhoc_resource_payloads() {
    let none = ConfigBuilder::new();
    assert_eq!(edhoc_message_1(&none, &[0xf5, 1]).unwrap_err(), EdhocRequestError::NotFound);
    let own = Credential::new_ccs(vec![0xa0], [2; 32]);
    let cfg = ConfigBuilder::new().with_own_edhoc_credential(own, [3; 32]);
    assert_eq!(edhoc_message_1(&cfg, &[]).unwrap_err(), EdhocRequestError::BadRequest);
    assert_eq!(edhoc_message_1(&cfg, &[0x58, 1]).unwrap_err(), EdhocRequestError::BadRequest);
    let (m, (cred, key)) = edhoc_message_1(&cfg, &[0xf5, 3, 4]).unwrap();
    assert_eq!(m, vec![3, 4]);
    assert_eq!(cred.bytes, vec![0xa0]);
    assert_eq!(key, [3; 32]);
    assert_eq!(edhoc_message_1(&cfg, &[0xf5]).unwrap().0, Vec::<u8>::new());
}
fn edhoc_message_3_prefix() {
    assert_eq!(edhoc_message_3_len(&[0x42, 1, 2, 0xff, 0xee]), Some(3));
    assert_eq!(edhoc_message_3_len(&[0x42, 1]), None);
    assert_eq!(edhoc_message_3_len(&[0x01]), None);
    assert_eq!(edhoc_message_3_len(&[]), None);
}

#[test]
fn edhoc_option_is_stripped() {
    let o = opts(&[(OPTION_OSCORE, &[1]), (OPTION_URI_PATH, b"x"), (OPTION_EDHOC, &[]), (60, &[2])]);
    let stripped = strip_edhoc_option(&o);
    assert_eq!(stripped, opts(&[(OPTION_OSCORE, &[1]), (OPTION_URI_PATH, b"x"), (60, &[2])]));
}

#[test]
fn either_wrappers() {
    let own: OrInner<u8, AuthorizationChecked<u16>> = OrInner::from_own(3);
    assert!(matches!(own, OrInner::Own(3)));
    let inner: OrInner<u8, AuthorizationChecked<u16>> = OrInner::Inner(AuthorizationChecked::NotAllowed);
    assert!(matches!(inner, OrInner::Inner(AuthorizationChecked::NotAllowed)));
}

#[test]
fn fixed_security_configurations() {
    assert!(ariel_os::coapcore::seccfg::DenyAll.nosec_authorization().is_none());
    assert!(matches!(ariel_os::coapcore::seccfg::AllowAll.nosec_authorization(), Some(UnionScope::AllowAll)));
}

#[test]
fn oscore_request_security_context() {
    // An established context with a valid authorization proceeds and is kept.
    assert_eq!(oscore_request_context(SecContextStage::Oscore, false, false, Some(true)), (true, SecContextStage::Oscore));
    // An expired or missing authorization drops the context.
    assert_eq!(oscore_request_context(SecContextStage::Oscore, false, false, Some(false)), (false, SecContextStage::Empty));
    assert_eq!(oscore_request_context(SecContextStage::Oscore, false, false, None), (false, SecContextStage::Empty));
    // Message 3 completes a context that waited for it.
    assert_eq!(oscore_request_context(SecContextStage::EdhocResponderSentM2, true, true, Some(true)), (true, SecContextStage::Oscore));
    assert_eq!(oscore_request_context(SecContextStage::EdhocResponderSentM2, true, false, Some(true)), (false, SecContextStage::Empty));
    // Without message 3, a context still in the exchange is no OSCORE context.
    assert_eq!(oscore_request_context(SecContextStage::EdhocResponderSentM2, false, true, Some(true)), (false, SecContextStage::Empty));
    // A context that already completed ignores a repeated message 3.
    assert_eq!(oscore_request_context(SecContextStage::Oscore, true, true, Some(true)), (true, SecContextStage::Oscore));
}
