use ariel_os::coapcore::edhoc::ccs_parse_panics;
use ariel_os::coapcore::dispatch::{process_edhoc_in_payload, EdhocRequestError};
use ariel_os::coapcore::seccontext::{SecContextStage, SecContextState};
use ariel_os::coapcore::ace::{
    decode_ace_cbor, decode_claims, decode_encrypt0, decode_header_map, encrypt0_aad_bytes,
    process_acecbor_authz_info, CoseEncrypt0, HeaderMap, CODE_CHANGED,
};
use ariel_os::coapcore::error::CredentialErrorDetail;
use ariel_os::coapcore::scope::UnionScope;
use ariel_os::coapcore::seccfg::{ConfigBuilder, CODE_UNAUTHORIZED};
use ccm::aead::{AeadInOut, KeyInit};

const KEY: [u8; 32] = [7u8; 32];
const IV: [u8; 13] = [3u8; 13];

fn head(major: u8, n: usize) -> Vec<u8> {
    let ib = major << 5;
    if n < 24 {
        vec![ib | n as u8]
    } else if n < 256 {
        vec![ib | 24, n as u8]
    } else {
        vec![ib | 25, (n >> 8) as u8, n as u8]
    }
}

fn bstr(v: &[u8]) -> Vec<u8> {
    let mut out = head(2, v.len());
    out.extend_from_slice(v);
    out
}

fn uint(n: usize) -> Vec<u8> {
    head(0, n)
}

/// `{ key: value, ... }` from encoded keys and values.
fn map(entries: &[(Vec<u8>, Vec<u8>)]) -> Vec<u8> {
    let mut out = head(5, entries.len());
    for (k, v) in entries {
        out.extend_from_slice(k);
        out.extend_from_slice(v);
    }
    out
}

/// `[["/a", 1]]`: GET on `/a`.
fn scope_get_a() -> Vec<u8> {
    vec![0x81, 0x82, 0x62, b'/', b'a', 0x01]
}

fn claims(scope: &[u8], cnf: Vec<u8>) -> Vec<u8> {
    map(&[
        (uint(3), vec![0x62, b'r', b's']),
        (uint(4), uint(5000)),
        (uint(6), uint(1000)),
        (uint(8), cnf),
        (uint(9), bstr(scope)),
    ])
}

fn osc_cnf(ms: &[u8]) -> Vec<u8> {
    map(&[(uint(4), map(&[(uint(0), bstr(b"id")), (uint(2), bstr(ms))]))])
}

fn encrypt(key: &[u8; 32], iv: &[u8; 13], aad: &[u8], plaintext: &[u8]) -> Vec<u8> {
    let cipher = ccm::Ccm::<aes::Aes256, ccm::consts::U16, ccm::consts::U13>::new(key.into());
    let mut buffer = plaintext.to_vec();
    let nonce = <&ccm::Nonce<ccm::consts::U13>>::try_from(&iv[..]).unwrap();
    let tag = cipher.encrypt_inout_detached(nonce, aad, buffer.as_mut_slice().into()).unwrap();
    buffer.extend_from_slice(tag.as_slice());
    buffer
}

/// A `COSE_Encrypt0` token with the given protected and unprotected header maps.
fn token(protected: &[u8], unprotected: Vec<u8>, plaintext: &[u8], key: &[u8; 32]) -> Vec<u8> {
    let aad = encrypt0_aad_bytes(protected);
    let ciphertext = encrypt(key, &IV, &aad, plaintext);
    let mut out = vec![0xd0, 0x83];
    out.extend(bstr(protected));
    out.extend(unprotected);
    out.extend(bstr(&ciphertext));
    out
}

fn standard_token(plaintext: &[u8], key: &[u8; 32]) -> Vec<u8> {
    let protected = map(&[(uint(1), uint(31))]);
    token(&protected, map(&[(uint(5), bstr(&IV))]), plaintext, key)
}

fn payload(token: &[u8], nonce1: &[u8], client_id: &[u8]) -> Vec<u8> {
    map(&[(uint(1), bstr(token)), (vec![0x18, 40], bstr(nonce1)), (vec![0x18, 43], bstr(client_id))])
}

fn config() -> ConfigBuilder {
    ConfigBuilder::new().with_aif_symmetric_as_aesccm256(KEY)
}

fn detail_of(p: &[u8], cfg: &ConfigBuilder) -> CredentialErrorDetail {
    match process_acecbor_authz_info(p, cfg, [9u8; 8], |_id: &[u8]| vec![0x01]) {
        Ok(_) => panic!("token accepted"),
        Err(e) => {
            assert_eq!(e.position, None);
            e.detail
        }
    }
}

#[test]
fn encrypt0_aad_layout() {
    let aad = encrypt0_aad_bytes(&[0xa1, 0x01, 0x18, 0x1f]);
    let mut expected = vec![0x83, 0x68];
    expected.extend_from_slice(b"Encrypt0");
    expected.extend_from_slice(&[0x44, 0xa1, 0x01, 0x18, 0x1f, 0x40]);
    assert_eq!(aad, expected);
}

#[test]
fn accepts_valid_token() {
    let plaintext = claims(&scope_get_a(), osc_cnf(b"master-secret"));
    let p = payload(&standard_token(&plaintext, &KEY), b"nonce-1", &[0x10]);
    let (response, derivation, (scope, time)) =
        process_acecbor_authz_info(&p, &config(), [9u8; 8], |id: &[u8]| {
            assert_eq!(id, &[0x10]);
            vec![0x02]
        })
        .unwrap();
    let (code, body) = response.render();
    assert_eq!(code, CODE_CHANGED);
    let mut expected = vec![0xa2, 0x18, 42, 0x48];
    expected.extend_from_slice(&[9u8; 8]);
    expected.extend_from_slice(&[0x18, 44, 0x41, 0x02]);
    assert_eq!(body, expected);
    assert_eq!(derivation.hkdf_alg, 5);
    assert_eq!(derivation.aead_alg, 10);
    assert_eq!(derivation.master_secret, b"master-secret".to_vec());
    assert_eq!(derivation.sender_id, vec![0x10]);
    assert_eq!(derivation.recipient_id, vec![0x02]);
    let mut salt = vec![0x40, 0x47];
    salt.extend_from_slice(b"nonce-1");
    salt.push(0x48);
    salt.extend_from_slice(&[9u8; 8]);
    assert_eq!(derivation.salt, salt);
    assert_eq!(time.exp, Some(5000));
    assert!(matches!(scope, UnionScope::AifValue(_)));
    assert!(scope.request_is_allowed(1, &vec![b"a".to_vec()]));
    assert!(!scope.request_is_allowed(2, &vec![b"a".to_vec()]));
}

#[test]
fn refuses_tokens_with_errors() {
    let good = claims(&scope_get_a(), osc_cnf(b"ms"));
    // Wrong key: the tag does not verify.
    let p = payload(&standard_token(&good, &[8u8; 32]), b"n", &[0x10]);
    assert_eq!(detail_of(&p, &config()), CredentialErrorDetail::VerifyFailed);
    // No key configured.
    let p = payload(&standard_token(&good, &KEY), b"n", &[0x10]);
    assert_eq!(detail_of(&p, &ConfigBuilder::new()), CredentialErrorDetail::KeyNotPresent);
    // Missing nonce.
    let p = map(&[(uint(1), bstr(&standard_token(&good, &KEY))), (vec![0x18, 43], bstr(&[1]))]);
    assert_eq!(detail_of(&p, &config()), CredentialErrorDetail::ProtocolViolation);
    // Not a map.
    assert_eq!(detail_of(&[0x80], &config()), CredentialErrorDetail::UnsupportedExtension);
    // The token is not a COSE_Encrypt0.
    let p = payload(&[0x80], b"n", &[0x10]);
    assert_eq!(detail_of(&p, &config()), CredentialErrorDetail::UnsupportedExtension);
    // Another algorithm.
    let protected = map(&[(uint(1), uint(10))]);
    let p = payload(&token(&protected, map(&[(uint(5), bstr(&IV))]), &good, &KEY), b"n", &[0x10]);
    assert_eq!(detail_of(&p, &config()), CredentialErrorDetail::UnsupportedAlgorithm);
    // No IV.
    let protected = map(&[(uint(1), uint(31))]);
    let p = payload(&token(&protected, map(&[]), &good, &KEY), b"n", &[0x10]);
    assert_eq!(detail_of(&p, &config()), CredentialErrorDetail::InconsistentDetails);
    // A key instead of OSCORE input material.
    let with_key = claims(&scope_get_a(), map(&[(uint(1), map(&[(uint(1), uint(2))]))]));
    let p = payload(&standard_token(&with_key, &KEY), b"n", &[0x10]);
    assert_eq!(detail_of(&p, &config()), CredentialErrorDetail::InconsistentDetails);
    // A scope that is not a valid AIF value.
    let bad_scope = claims(&[0x81, 0x82, 0x61, b'a', 0x01], osc_cnf(b"ms"));
    let p = payload(&standard_token(&bad_scope, &KEY), b"n", &[0x10]);
    assert_eq!(detail_of(&p, &config()), CredentialErrorDetail::UnsupportedExtension);
    // Claims missing the expiry.
    let no_exp = map(&[(uint(6), uint(1)), (uint(8), osc_cnf(b"ms")), (uint(9), bstr(&scope_get_a()))]);
    let p = payload(&standard_token(&no_exp, &KEY), b"n", &[0x10]);
    assert_eq!(detail_of(&p, &config()), CredentialErrorDetail::UnsupportedExtension);
    // A client nonce too long for the salt buffer.
    let p = payload(&standard_token(&good, &KEY), &[1u8; 19], &[0x10]);
    assert_eq!(detail_of(&p, &config()), CredentialErrorDetail::ConstraintExceeded);
    let p = payload(&standard_token(&good, &KEY), &[1u8; 18], &[0x10]);
    assert!(process_acecbor_authz_info(&p, &config(), [9u8; 8], |_: &[u8]| vec![1]).is_ok());
}

#[test]
fn protected_header_wins_over_unprotected() {
    let good = claims(&scope_get_a(), osc_cnf(b"ms"));
    let protected = map(&[(uint(1), uint(31))]);
    let unprotected = map(&[(uint(1), uint(10)), (uint(5), bstr(&IV))]);
    let p = payload(&token(&protected, unprotected, &good, &KEY), b"n", &[0x10]);
    assert!(process_acecbor_authz_info(&p, &config(), [9u8; 8], |_: &[u8]| vec![1]).is_ok());
}

#[test]
fn ace_cbor_decoding_rules() {
    // Indefinite-length map, an unknown label, a null value and a repeated label.
    let bytes = [0xbf, 0x01, 0x41, 0xaa, 0x18, 0x63, 0x63, b'x', b'y', b'z', 0x18, 40, 0xf6, 0x01, 0x41, 0xbb, 0xff];
    let m = decode_ace_cbor(&bytes).unwrap();
    assert_eq!(m.access_token, Some(vec![0xbb]));
    assert_eq!(m.nonce1, None);
    assert_eq!(m.nonce2, None);
    // A value of the wrong type under a known label.
    assert!(decode_ace_cbor(&[0xa1, 0x01, 0x01]).is_none());
    // A text key.
    assert!(decode_ace_cbor(&[0xa1, 0x61, b'a', 0x01]).is_none());
    // Truncated.
    assert!(decode_ace_cbor(&[0xa2, 0x01, 0x41, 0xaa]).is_none());
    // Trailing bytes after the map are ignored.
    assert!(decode_ace_cbor(&[0xa0, 0x00]).is_some());
}

#[test]
fn header_maps_and_merging() {
    let h = decode_header_map(&[0xa2, 0x01, 0x26, 0x05, 0x42, 0x01, 0x02], 0).unwrap();
    assert_eq!(h.alg, Some(-7));
    assert_eq!(h.iv, Some(vec![1, 2]));
    let empty = decode_header_map(&[0xa0], 0).unwrap();
    assert_eq!(empty.alg, None);
    let merged = h.updated_with(&HeaderMap { alg: Some(31), iv: None });
    assert_eq!(merged.alg, Some(31));
    assert_eq!(merged.iv, Some(vec![1, 2]));
}

#[test]
fn encrypt0_requires_tag_and_three_items() {
    assert!(decode_encrypt0(&[0x83, 0x40, 0xa0, 0x40]).is_none());
    assert!(decode_encrypt0(&[0xd0, 0x82, 0x40, 0xa0]).is_none());
    let e: CoseEncrypt0 = decode_encrypt0(&[0xd0, 0x84, 0x41, 0x01, 0xa0, 0x42, 0x02, 0x03, 0x00]).unwrap();
    assert_eq!(e.protected, vec![0x01]);
    assert_eq!(e.encrypted, vec![0x02, 0x03]);
    assert!(matches!(e.prepare_decryption(), Err(err) if err.detail == CredentialErrorDetail::UnsupportedExtension));
    let e = decode_encrypt0(&[0xd0, 0x83, 0x41, 0xa0, 0xa0, 0x42, 0x02, 0x03]).unwrap();
    let (headers, aad, buffer) = e.prepare_decryption().unwrap();
    assert_eq!(headers.alg, None);
    assert_eq!(aad, encrypt0_aad_bytes(&[0xa0]));
    assert_eq!(buffer, vec![0x02, 0x03]);
}

#[test]
fn claims_decoding() {
    let c = decode_claims(&claims(&scope_get_a(), osc_cnf(b"ms"))).unwrap();
    assert_eq!(c.aud, Some(b"rs".to_vec()));
    assert_eq!((c.exp, c.iat), (5000, 1000));
    assert_eq!(c.scope, scope_get_a());
    let osc = c.cnf.osc.unwrap();
    assert_eq!(osc.id, b"id".to_vec());
    assert_eq!(osc.ms, b"ms".to_vec());
    assert!(c.cnf.cose_key.is_none());
    // A COSE key is kept with its encoded bytes.
    let key = map(&[(uint(1), uint(2)), (vec![0x21], bstr(&[5u8; 32]))]);
    let c = decode_claims(&claims(&scope_get_a(), map(&[(uint(1), key.clone())]))).unwrap();
    let (k, raw) = c.cnf.cose_key.unwrap();
    assert_eq!(k.kty, 2);
    assert_eq!(k.x, Some(vec![5u8; 32]));
    assert_eq!(raw, key);
    // Invalid UTF-8 in the audience.
    let bad = map(&[(uint(3), vec![0x61, 0xff]), (uint(4), uint(1)), (uint(6), uint(1)), (uint(8), osc_cnf(b"m")), (uint(9), bstr(&[0x80]))]);
    assert!(decode_claims(&bad).is_none());
}

#[test]
fn config_builder() {
    let cfg = ConfigBuilder::new();
    assert!(cfg.nosec_authorization().is_none());
    let cfg = cfg.with_request_creation_hints(vec![0xa1, 0x01, 0x60]);
    assert_eq!(cfg.render_not_allowed(), (CODE_UNAUTHORIZED, vec![0xa1, 0x01, 0x60]));
    let cfg = cfg.allow_unauthenticated(UnionScope::AllowAll);
    assert!(matches!(cfg.nosec_authorization(), Some(UnionScope::AllowAll)));
}

use ariel_os::coapcore::ace::{decode_sign1, process_edhoc_token, signature1_bytes};
use p256::ecdsa::signature::Signer;

fn cose_key_cnf(x: &[u8]) -> (Vec<u8>, Vec<u8>) {
    let key = map(&[(uint(1), uint(2)), (vec![0x20], uint(1)), (vec![0x21], bstr(x))]);
    (map(&[(uint(1), key.clone())]), key)
}

#[test]
fn edhoc_token_encrypted() {
    let (cnf, key) = cose_key_cnf(&[5u8; 32]);
    let plaintext = claims(&scope_get_a(), cnf);
    let ead3 = standard_token(&plaintext, &KEY);
    let (cred, (scope, time)) = process_edhoc_token(&ead3, &config()).unwrap();
    let mut expected = vec![0xa1, 0x08, 0xa1, 0x01];
    expected.extend_from_slice(&key);
    assert_eq!(cred.bytes, expected);
    assert_eq!(cred.public_key(), Some([5u8; 32]));
    assert!(cred.kid.is_none());
    assert_eq!(time.exp, Some(5000));
    assert!(scope.request_is_allowed(1, &vec![b"a".to_vec()]));
    // OSCORE input material is not a credential.
    let ead3 = standard_token(&claims(&scope_get_a(), osc_cnf(b"ms")), &KEY);
    assert_eq!(process_edhoc_token(&ead3, &config()).err().unwrap().detail, CredentialErrorDetail::InconsistentDetails);
    // A short x coordinate.
    let (cnf, _) = cose_key_cnf(&[5u8; 31]);
    let ead3 = standard_token(&claims(&scope_get_a(), cnf), &KEY);
    assert_eq!(process_edhoc_token(&ead3, &config()).err().unwrap().detail, CredentialErrorDetail::InconsistentDetails);
    // Neither encrypted nor signed.
    assert_eq!(process_edhoc_token(&[0xa0], &config()).err().unwrap().detail, CredentialErrorDetail::UnsupportedExtension);
}

fn signed_token(signing: &p256::ecdsa::SigningKey, protected: &[u8], payload: &[u8]) -> Vec<u8> {
    let data = signature1_bytes(protected, payload);
    let signature: p256::ecdsa::Signature = signing.sign(&data);
    let mut out = vec![0xd2, 0x84];
    out.extend(bstr(protected));
    out.push(0xa0);
    out.extend(bstr(payload));
    out.extend(bstr(signature.to_bytes().as_slice()));
    out
}

#[test]
fn edhoc_token_signed() {
    let signing = p256::ecdsa::SigningKey::from_slice(&[0x11u8; 32]).unwrap();
    let point = signing.verifying_key().to_sec1_point(false);
    let mut x = [0u8; 32];
    let mut y = [0u8; 32];
    x.copy_from_slice(point.x().unwrap().as_slice());
    y.copy_from_slice(point.y().unwrap().as_slice());
    let cfg = ConfigBuilder::new().with_aif_asymmetric_es256(x, y, b"rs".to_vec());
    let (cnf, _) = cose_key_cnf(&[6u8; 32]);
    let payload = claims(&scope_get_a(), cnf);
    let protected = map(&[(uint(1), vec![0x26])]);
    let ead3 = signed_token(&signing, &protected, &payload);
    let s = decode_sign1(&ead3).unwrap();
    assert_eq!(s.payload, payload);
    let (cred, _) = process_edhoc_token(&ead3, &cfg).unwrap();
    assert_eq!(cred.public_key(), Some([6u8; 32]));
    // Another audience.
    let other = ConfigBuilder::new().with_aif_asymmetric_es256(x, y, b"other".to_vec());
    assert_eq!(process_edhoc_token(&ead3, &other).err().unwrap().detail, CredentialErrorDetail::VerifyFailed);
    // A tampered payload.
    let mut tampered = ead3.clone();
    let last = tampered.len() - 70;
    tampered[last] ^= 1;
    assert!(process_edhoc_token(&tampered, &cfg).is_err());
    // Another algorithm.
    let protected = map(&[(uint(1), uint(31))]);
    let ead3 = signed_token(&signing, &protected, &payload);
    assert_eq!(process_edhoc_token(&ead3, &cfg).err().unwrap().detail, CredentialErrorDetail::UnsupportedAlgorithm);
    // No signing key configured.
    let protected = map(&[(uint(1), vec![0x26])]);
    let ead3 = signed_token(&signing, &protected, &payload);
    assert_eq!(process_edhoc_token(&ead3, &config()).err().unwrap().detail, CredentialErrorDetail::KeyNotPresent);
    // A malformed signature.
    let mut bad = vec![0xd2, 0x84];
    bad.extend(bstr(&protected));
    bad.push(0xa0);
    bad.extend(bstr(&payload));
    bad.extend(bstr(&[1u8; 10]));
    assert_eq!(process_edhoc_token(&bad, &cfg).err().unwrap().detail, CredentialErrorDetail::InconsistentDetails);
}

use ariel_os::coapcore::dispatch::{peer_credential, EAD_ACETOKEN};
use ariel_os::coapcore::edhoc::{Credential, CredentialKey, CredentialRefError, CredentialType, EadItem, IdCred};

fn hex(s: &str) -> Vec<u8> {
    (0..s.len()).step_by(2).map(|i| u8::from_str_radix(&s[i..i + 2], 16).unwrap()).collect()
}

const CRED_TV: &str = "a2026b6578616d706c652e65647508a101a501020241322001215820bbc34960526ea4d32e940cad2a234148ddc21791a12afbcbac93622046dd44f02258204519e257236b2a0ce2023f0931f1f386ca7afda64fcde0108c224c51eabf6072";
const G_A_TV: &str = "bbc34960526ea4d32e940cad2a234148ddc21791a12afbcbac93622046dd44f0";

fn g_a() -> [u8; 32] {
    hex(G_A_TV).try_into().unwrap()
}

fn known_credential() -> Credential {
    Credential::new_ccs(hex(CRED_TV), g_a()).with_kid(vec![0x32])
}

#[test]
fn credential_identifiers() {
    let cred = known_credential();
    let by_value = cred.by_value().unwrap();
    let mut expected = vec![0xa1, 0x0e];
    expected.extend(hex(CRED_TV));
    assert_eq!(by_value.as_full_value(), expected.as_slice());
    assert!(!by_value.reference_only());
    let by_kid = cred.by_kid().unwrap();
    assert_eq!(by_kid.bytes, vec![0xa1, 0x04, 0x41, 0x32]);
    assert!(by_kid.reference_only());
    // Without key identifier there is no reference.
    let no_kid = Credential::new_ccs(hex(CRED_TV), g_a());
    assert_eq!(no_kid.by_kid().err(), Some(CredentialRefError::MissingIdentity));
    // Pre-shared keys are never sent by value.
    let psk = Credential { bytes: vec![0xa0], key: CredentialKey::Symmetric([1; 16]), kid: None, cred_type: CredentialType::CcsPsk };
    assert_eq!(psk.by_value().err(), Some(CredentialRefError::UnexpectedCredential));
    assert_eq!(psk.public_key(), None);
}

#[test]
fn credential_by_value_parses() {
    let mut id = vec![0xa1, 0x0e];
    id.extend(hex(CRED_TV));
    let cred = IdCred { bytes: id }.get_ccs().unwrap();
    assert_eq!(cred.bytes, hex(CRED_TV));
    assert_eq!(cred.public_key(), Some(g_a()));
    assert_eq!(cred.kid, Some(vec![0x32]));
    assert_eq!(cred.cred_type, CredentialType::Ccs);
    // A key identifier carries no credential.
    assert!(IdCred { bytes: vec![0xa1, 0x04, 0x41, 0x32] }.get_ccs().is_none());
    // Nor does a value that is no CCS.
    assert!(IdCred { bytes: vec![0xa1, 0x0e, 0x01] }.get_ccs().is_none());
}

fn by_value_of_tv() -> IdCred {
    let mut id = vec![0xa1, 0x0e];
    id.extend(hex(CRED_TV));
    IdCred { bytes: id }
}

#[test]
fn expand_known_client() {
    let cfg = ConfigBuilder::new().with_known_edhoc_credential(known_credential(), UnionScope::AllowAll);
    // By reference.
    let (cred, scope, time) = cfg.expand_id_cred_x(&IdCred { bytes: vec![0xa1, 0x04, 0x41, 0x32] }).unwrap();
    assert_eq!(cred.bytes, hex(CRED_TV));
    assert!(matches!(scope, UnionScope::AllowAll));
    assert_eq!(time.exp, None);
    // By value.
    assert!(cfg.expand_id_cred_x(&by_value_of_tv()).is_some());
    // Another key identifier, and no unauthenticated access.
    assert!(cfg.expand_id_cred_x(&IdCred { bytes: vec![0xa1, 0x04, 0x41, 0x33] }).is_none());
}

#[test]
fn expand_unauthenticated_by_value() {
    let other = Credential::new_ccs(vec![0xa0], [9; 32]).with_kid(vec![0x07]);
    let cfg = ConfigBuilder::new()
        .with_known_edhoc_credential(other, UnionScope::AllowAll)
        .allow_unauthenticated(UnionScope::DenyAll);
    let (cred, scope, _) = cfg.expand_id_cred_x(&by_value_of_tv()).unwrap();
    assert_eq!(cred.kid, Some(vec![0x32]));
    assert!(matches!(scope, UnionScope::DenyAll));
    // A key identifier can not be accepted without a credential.
    assert!(cfg.expand_id_cred_x(&IdCred { bytes: vec![0xa1, 0x04, 0x41, 0x32] }).is_none());
    // Without a known client nothing is resolved, not even for unauthenticated access.
    let cfg = ConfigBuilder::new().allow_unauthenticated(UnionScope::DenyAll);
    assert!(cfg.expand_id_cred_x(&by_value_of_tv()).is_none());
}

#[test]
fn own_credential() {
    let cfg = ConfigBuilder::new();
    assert!(cfg.own_edhoc_credential().is_none());
    let cfg = cfg.with_own_edhoc_credential(known_credential(), [4; 32]);
    let (cred, key) = cfg.own_edhoc_credential().unwrap();
    assert_eq!(cred.kid, Some(vec![0x32]));
    assert_eq!(key, [4; 32]);
}

#[test]
fn peer_credential_from_token_or_identifier() {
    let cfg = config().with_known_edhoc_credential(known_credential(), UnionScope::AllowAll);
    let kid = IdCred { bytes: vec![0xa1, 0x04, 0x41, 0x32] };
    // A valid token takes precedence over the identifier.
    let (cnf, _) = cose_key_cnf(&[5u8; 32]);
    let token = standard_token(&claims(&scope_get_a(), cnf), &KEY);
    let ead = EadItem { label: EAD_ACETOKEN, is_critical: false, value: Some(token.clone()) };
    let (cred, (_, time)) = peer_credential(Some(ead), &kid, &cfg).unwrap();
    assert_eq!(cred.public_key(), Some([5u8; 32]));
    assert_eq!(time.exp, Some(5000));
    // An invalid token is dropped, and the identifier is resolved.
    let ead = EadItem { label: EAD_ACETOKEN, is_critical: true, value: Some(vec![0xa0]) };
    let (cred, (_, time)) = peer_credential(Some(ead), &kid, &cfg).unwrap();
    assert_eq!(cred.public_key(), Some(g_a()));
    assert_eq!(time.exp, None);
    // Other elective items are ignored.
    let ead = EadItem { label: 5, is_critical: false, value: Some(token.clone()) };
    let (cred, _) = peer_credential(Some(ead), &kid, &cfg).unwrap();
    assert_eq!(cred.kid, Some(vec![0x32]));
    // A critical item that is not understood aborts the exchange.
    let ead = EadItem { label: 5, is_critical: true, value: Some(token) };
    assert!(peer_credential(Some(ead), &kid, &cfg).is_none());
    let ead = EadItem { label: EAD_ACETOKEN, is_critical: true, value: None };
    assert!(peer_credential(Some(ead), &kid, &cfg).is_none());
    // An unknown identifier without token.
    assert!(peer_credential(None, &IdCred { bytes: vec![0xa1, 0x04, 0x41, 0x01] }, &cfg).is_none());
}

#[test]
fn credential_parser_panics_are_refused() {
    let bad = vec![0xa1, 0x08, 0xa1, 0x01, 0xa1, 0x38, 0x05];
    assert!(ccs_parse_panics(&bad));
    assert!(!ccs_parse_panics(&hex(CRED_TV)));
    let mut id = vec![0xa1, 0x0e];
    id.extend(&bad);
    assert!(IdCred { bytes: id.clone() }.get_ccs().is_none());
    // A peer presenting it is refused, not a crash.
    let cfg = ConfigBuilder::new()
        .with_known_edhoc_credential(known_credential(), UnionScope::AllowAll)
        .allow_unauthenticated(UnionScope::DenyAll);
    assert!(cfg.expand_id_cred_x(&IdCred { bytes: id }).is_none());
    // 0x38 with a byte of at least 0x20 is a regular (negative) label.
    assert!(!ccs_parse_panics(&[0xa1, 0x08, 0xa1, 0x01, 0xa1, 0x38, 0x20, 0x01]));
}

#[test]
fn edhoc_message_3_in_payload() {
    let cfg = ConfigBuilder::new().with_known_edhoc_credential(known_credential(), UnionScope::AllowAll);
    let kid = IdCred { bytes: vec![0xa1, 0x04, 0x41, 0x32] };
    let payload = [0x42, 1, 2, 0xff];
    let waiting = || SecContextState { stage: SecContextStage::EdhocResponderSentM2, authorization: None };
    // Message 3 verifies: the context becomes an OSCORE context with the resolved authorization.
    let (s, n) = process_edhoc_in_payload(&payload, waiting(), Some((kid.clone(), None)), &cfg, |c: Credential| {
        c.kid == Some(vec![0x32])
    })
    .unwrap();
    assert_eq!(n, 3);
    assert_eq!(s.stage, SecContextStage::Oscore);
    let (scope, time) = s.authorization.unwrap();
    assert!(matches!(scope, UnionScope::AllowAll));
    assert_eq!(time.exp, None);
    // It does not verify.
    let r = process_edhoc_in_payload(&payload, waiting(), Some((kid.clone(), None)), &cfg, |_c: Credential| false);
    assert_eq!(r.err(), Some(EdhocRequestError::BadRequest));
    // The peer is unknown: the message is not even verified.
    let unknown = IdCred { bytes: vec![0xa1, 0x04, 0x41, 0x01] };
    let r = process_edhoc_in_payload(&payload, waiting(), Some((unknown, None)), &cfg, |_c: Credential| -> bool {
        panic!("not to be verified")
    });
    assert_eq!(r.err(), Some(EdhocRequestError::BadRequest));
    // It does not parse.
    let r = process_edhoc_in_payload(&payload, waiting(), None, &cfg, |_c: Credential| true);
    assert_eq!(r.err(), Some(EdhocRequestError::BadRequest));
    // A context that already completed is left as it is.
    let done = SecContextState { stage: SecContextStage::Oscore, authorization: None };
    let (s, n) = process_edhoc_in_payload(&payload, done, None, &cfg, |_c: Credential| true).unwrap();
    assert_eq!((s.stage, n), (SecContextStage::Oscore, 3));
    // The payload must start with a byte string.
    let r = process_edhoc_in_payload(&[0x01], waiting(), Some((kid, None)), &cfg, |_c: Credential| true);
    assert_eq!(r.err(), Some(EdhocRequestError::BadRequest));
}
