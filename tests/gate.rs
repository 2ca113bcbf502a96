use boot_auth::gate::{check, validate_pin, validate_token, GateVerdict, HashFailure};
use boot_auth::host::{attempt_attest, attest_target, AttestStep};

fn digest() -> Vec<u8> {
    (0u8..32).map(|i| i.wrapping_mul(37).wrapping_add(0xa5)).collect()
}

fn hex_of(b: &[u8]) -> Vec<u8> {
    b.iter().map(|x| format!("{:02x}", x)).collect::<String>().into_bytes()
}

#[test]
fn matching_digest_is_accepted() {
    let d = digest();
    let reference = hex_of(&d);
    assert_eq!(reference.len(), 64);
    assert_eq!(check(&Ok(d), &reference), GateVerdict::Accepted);
}

#[test]
fn rendering_is_lowercase_hex() {
    let d = vec![0x01, 0xab, 0xff, 0x00];
    assert_eq!(check(&Ok(d.clone()), b"01abff00"), GateVerdict::Accepted);
    assert_eq!(check(&Ok(d.clone()), b"01ABFF00"), GateVerdict::Rejected);
    // the raw bytes themselves are not the rendered form
    assert_eq!(check(&Ok(d.clone()), &d), GateVerdict::Rejected);
}

#[test]
fn one_byte_different_is_rejected() {
    let d = digest();
    let mut reference = hex_of(&d);
    reference[63] = if reference[63] == b'0' { b'1' } else { b'0' };
    assert_eq!(check(&Ok(d), &reference), GateVerdict::Rejected);
}

#[test]
fn length_difference_is_rejected() {
    let d = digest();
    let reference = hex_of(&d);
    assert_eq!(check(&Ok(d.clone()), &reference[..63]), GateVerdict::Rejected);
    let mut longer = reference.clone();
    longer.push(b'0');
    assert_eq!(check(&Ok(d), &longer), GateVerdict::Rejected);
}

#[test]
fn hash_failure_is_reported() {
    let reference = hex_of(&digest());
    assert_eq!(check(&Err(HashFailure), &reference), GateVerdict::HashFailure);
    assert_eq!(validate_token(&Err(HashFailure), &reference), GateVerdict::HashFailure);
}

#[test]
fn pin_and_token_gates() {
    let d = digest();
    let reference = hex_of(&d);
    assert_eq!(validate_pin(&Ok(d.clone()), &reference), GateVerdict::Accepted);
    assert_eq!(validate_token(&Ok(d.clone()), &reference), GateVerdict::Accepted);
    assert_eq!(validate_token(&Ok(vec![0u8; 32]), &reference), GateVerdict::Rejected);
}

#[test]
fn wrong_pin_refuses_attestation_prompt() {
    let reference = hex_of(&digest());
    let verdict = validate_pin(&Ok(vec![0x11; 32]), &reference);
    assert_eq!(verdict, GateVerdict::Rejected);
    assert_eq!(attempt_attest(verdict), AttestStep::Refuse(GateVerdict::Rejected));
    assert_eq!(
        attempt_attest(GateVerdict::HashFailure),
        AttestStep::Refuse(GateVerdict::HashFailure)
    );
}

#[test]
fn right_pin_leads_to_prompt() {
    let d = digest();
    let reference = hex_of(&d);
    assert_eq!(attempt_attest(validate_pin(&Ok(d), &reference)), AttestStep::PromptForComponent);
}

#[test]
fn attest_target_reads_big_endian() {
    assert_eq!(attest_target(&[0x11, 0x22, 0x33, 0x44, 0x55]), Some(0x1122_3344));
    assert_eq!(attest_target(&[0x00, 0x00, 0x00]), None);
}
