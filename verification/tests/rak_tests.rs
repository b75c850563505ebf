use ed25519_dalek::{Signer, Verifier};
use sha2::Digest;

use enclave_rpc::{AuthenticatedAvr, RakError, RAK};

#[test]
fn init_binds_the_public_key_into_report_data() {
    let mut rak = RAK::new();
    let report_data = rak.init_with_key(vec![3u8; 32]);
    assert_eq!(report_data.len(), 64);
    let pk = rak.public_key().expect("the key was configured");
    // Cross-check the binding hash against an independent digest.
    let mut message = b"EkNodReg".to_vec();
    message.extend_from_slice(&pk);
    let expected: Vec<u8> = sha2::Sha512_256::digest(&message).to_vec();
    assert_eq!(&report_data[..32], &expected[..]);
    assert_eq!(&report_data[32..], &[0u8; 32]);
}

#[test]
fn public_key_matches_the_signing_key() {
    let mut rak = RAK::new();
    rak.init_with_key(vec![7u8; 32]);
    let pk = rak.public_key().unwrap();
    let expected = ed25519_dalek::SigningKey::from_bytes(&[7u8; 32])
        .verifying_key()
        .to_bytes()
        .to_vec();
    assert_eq!(pk, expected);
}

#[test]
fn binding_verifies_and_rejects_a_mutated_byte() {
    let mut rak = RAK::new();
    let report_data = rak.init_with_key(vec![5u8; 32]);
    let pk = rak.public_key().unwrap();
    let avr = AuthenticatedAvr {
        report_data: report_data.clone(),
    };
    assert!(RAK::verify_binding(&avr, &pk).is_ok());
    let mut mutated = report_data;
    mutated[0] ^= 1;
    let bad = AuthenticatedAvr {
        report_data: mutated,
    };
    assert!(matches!(
        RAK::verify_binding(&bad, &pk),
        Err(RakError::BindingMismatch)
    ));
}

#[test]
fn short_report_data_is_malformed() {
    let avr = AuthenticatedAvr {
        report_data: vec![1u8; 31],
    };
    assert!(matches!(
        RAK::verify_binding(&avr, &vec![0u8; 32]),
        Err(RakError::MalformedReportData)
    ));
}

#[test]
fn sign_produces_a_verifiable_signature_over_context_and_message() {
    let mut rak = RAK::new();
    rak.init_with_key(vec![11u8; 32]);
    let context = b"EkNodReg".to_vec();
    let message = b"hello".to_vec();
    let sig = rak.sign(&context, &message).unwrap();
    let pk = rak.public_key().unwrap();
    let vk =
        ed25519_dalek::VerifyingKey::from_bytes(&pk.as_slice().try_into().unwrap()).unwrap();
    let mut signed = context.clone();
    signed.extend_from_slice(&message);
    let signature = ed25519_dalek::Signature::from_bytes(&sig.as_slice().try_into().unwrap());
    assert!(vk.verify(&signed, &signature).is_ok());
    // The signature also matches direct signing of the same bytes.
    let direct = ed25519_dalek::SigningKey::from_bytes(&[11u8; 32])
        .sign(&signed)
        .to_bytes()
        .to_vec();
    assert_eq!(sig, direct);
}

#[test]
fn sign_requires_a_configured_key() {
    let rak = RAK::new();
    assert!(matches!(
        rak.sign(&b"EkNodReg".to_vec(), &b"x".to_vec()),
        Err(RakError::NotConfigured)
    ));
}

#[test]
fn set_avr_checks_configuration_and_binding() {
    let mut rak = RAK::new();
    let unconfigured = rak.set_avr(AuthenticatedAvr {
        report_data: vec![0u8; 64],
    });
    assert!(matches!(unconfigured, Err(RakError::NotConfigured)));
    let report_data = rak.init_with_key(vec![2u8; 32]);
    let bad = rak.set_avr(AuthenticatedAvr {
        report_data: vec![0u8; 64],
    });
    assert!(matches!(bad, Err(RakError::BindingMismatch)));
    assert!(rak.avr().is_none());
    let good = rak.set_avr(AuthenticatedAvr { report_data });
    assert!(good.is_ok());
    assert!(rak.avr().is_some());
}
