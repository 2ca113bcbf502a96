use boot_auth::host::{
    attempt_boot, scan_components, BootFailure, BootStep, ScanStep, TransportError,
};
use boot_auth::peripheral::{component_process_cmd, Peripheral, PeripheralAction, SecretPolicy};
use boot_auth::wire::{flash_entry, validate_message};

fn registry(ids: &[u32]) -> flash_entry {
    let mut table = ids.to_vec();
    table.resize(32, 0);
    flash_entry { flash_magic: 0x7a3c_91e2, component_cnt: ids.len() as u32, component_ids: table }
}

fn addr_of(id: u32) -> u8 {
    (id & 0x7f) as u8
}

/// Runs a whole boot attempt against `peers`; `tamper` may rewrite a reply
/// before the host sees it. Returns the step that ended the attempt, the
/// frames sent as (address, opcode, bytes) and how often TriggerBoot came.
fn run_boot(
    peers: &mut Vec<Peripheral>,
    tamper: &dyn Fn(u8, u8, Vec<u8>) -> Result<Vec<u8>, TransportError>,
) -> (BootStep, Vec<(u8, u8, Vec<u8>)>, usize) {
    let ids: Vec<u32> = peers.iter().map(|p| p.component_id).collect();
    let addrs: Vec<u8> = ids.iter().map(|&i| addr_of(i)).collect();
    let reg = registry(&ids);
    let mut attempt = attempt_boot(&reg, addrs);
    let mut sent = Vec::new();
    let mut triggers = 0;
    let mut counter: u64 = 0x1000;
    loop {
        counter += 1;
        match attempt.next_step(counter * 0x9e37_79b9) {
            BootStep::Exchange { addr, frame } => {
                sent.push((addr, frame[0], frame.clone()));
                let peer = peers.iter_mut().find(|p| addr_of(p.component_id) == addr).unwrap();
                let reply = match component_process_cmd(peer, &frame, counter * 31 + 7) {
                    PeripheralAction::Reply(b) => Ok(b),
                    PeripheralAction::Boot => Ok(b"booted".to_vec()),
                    _ => Err(TransportError),
                };
                let reply = match reply {
                    Ok(b) => tamper(addr, frame[0], b),
                    Err(e) => Err(e),
                };
                attempt.take_reply(reply);
            }
            BootStep::TriggerBoot => {
                triggers += 1;
            }
            other => return (other, sent, triggers),
        }
    }
}

fn honest(_a: u8, _op: u8, b: Vec<u8>) -> Result<Vec<u8>, TransportError> {
    Ok(b)
}

#[test]
fn boot_succeeds_when_all_peripherals_answer() {
    let mut peers = vec![
        Peripheral::new(0xAA, SecretPolicy::SingleUse),
        Peripheral::new(0xBB, SecretPolicy::SingleUse),
    ];
    let (end, sent, triggers) = run_boot(&mut peers, &honest);
    assert_eq!(end, BootStep::Finished);
    assert_eq!(triggers, 1);
    let boots: Vec<u8> = sent.iter().filter(|s| s.1 == 3).map(|s| s.0).collect();
    assert_eq!(boots, vec![addr_of(0xAA), addr_of(0xBB)]);
    let validates = sent.iter().filter(|s| s.1 == 2).count();
    assert_eq!(validates, 2);
    // each validate came before every boot frame
    let first_boot = sent.iter().position(|s| s.1 == 3).unwrap();
    assert!(sent[..first_boot].iter().all(|s| s.1 == 2));
    // the peripherals consumed their secrets
    assert!(peers.iter().all(|p| p.session_secret.is_none()));
}

#[test]
fn boot_frame_carries_the_secret_from_validate() {
    let mut peers = vec![
        Peripheral::new(0xAA, SecretPolicy::Retained),
        Peripheral::new(0xBB, SecretPolicy::Retained),
    ];
    let (_, sent, _) = run_boot(&mut peers, &honest);
    for p in &peers {
        let secret = p.session_secret.unwrap();
        let frame = sent.iter().find(|s| s.1 == 3 && s.0 == addr_of(p.component_id)).unwrap();
        assert_eq!(&frame.2[1..9], &secret.to_be_bytes());
        assert_eq!(frame.2.len(), 256);
    }
}

#[test]
fn wrong_nonce_on_validate_aborts_before_any_boot_frame() {
    let mut peers = vec![
        Peripheral::new(0xAA, SecretPolicy::SingleUse),
        Peripheral::new(0xBB, SecretPolicy::SingleUse),
    ];
    let tamper = |a: u8, op: u8, mut b: Vec<u8>| {
        if a == addr_of(0xBB) && op == 2 {
            b[15] ^= 1;
        }
        Ok(b)
    };
    let (end, sent, triggers) = run_boot(&mut peers, &tamper);
    assert_eq!(end, BootStep::Abort(BootFailure::ProtocolMismatch(1)));
    assert_eq!(triggers, 0);
    assert!(sent.iter().all(|s| s.1 != 3));
}

#[test]
fn wrong_identifier_on_validate_aborts() {
    let mut peers = vec![
        Peripheral::new(0xAA, SecretPolicy::SingleUse),
        Peripheral::new(0xBB, SecretPolicy::SingleUse),
    ];
    let tamper = |a: u8, op: u8, mut b: Vec<u8>| {
        if a == addr_of(0xAA) && op == 2 {
            b[3] = 0xCC;
        }
        Ok(b)
    };
    let (end, sent, triggers) = run_boot(&mut peers, &tamper);
    assert_eq!(end, BootStep::Abort(BootFailure::ProtocolMismatch(0)));
    assert_eq!(triggers, 0);
    assert_eq!(sent.len(), 1);
}

#[test]
fn transport_failure_on_validate_aborts() {
    let mut peers = vec![
        Peripheral::new(0xAA, SecretPolicy::SingleUse),
        Peripheral::new(0xBB, SecretPolicy::SingleUse),
    ];
    let tamper = |a: u8, op: u8, b: Vec<u8>| {
        if a == addr_of(0xBB) && op == 2 {
            Err(TransportError)
        } else {
            Ok(b)
        }
    };
    let (end, _, triggers) = run_boot(&mut peers, &tamper);
    assert_eq!(end, BootStep::Abort(BootFailure::TransportFailure(1)));
    assert_eq!(triggers, 0);
}

#[test]
fn short_validate_reply_aborts() {
    let mut peers = vec![Peripheral::new(0xAA, SecretPolicy::SingleUse)];
    let tamper = |_a: u8, _op: u8, b: Vec<u8>| Ok(b[..23].to_vec());
    let (end, _, triggers) = run_boot(&mut peers, &tamper);
    assert_eq!(end, BootStep::Abort(BootFailure::ProtocolMismatch(0)));
    assert_eq!(triggers, 0);
}

#[test]
fn boot_pass_tolerates_transport_failure() {
    let mut peers = vec![
        Peripheral::new(0xAA, SecretPolicy::SingleUse),
        Peripheral::new(0xBB, SecretPolicy::SingleUse),
    ];
    let tamper = |a: u8, op: u8, b: Vec<u8>| {
        if a == addr_of(0xAA) && op == 3 {
            Err(TransportError)
        } else {
            Ok(b)
        }
    };
    let (end, sent, triggers) = run_boot(&mut peers, &tamper);
    assert_eq!(end, BootStep::Finished);
    assert_eq!(triggers, 1);
    assert_eq!(sent.iter().filter(|s| s.1 == 3).count(), 2);
}

#[test]
fn empty_registry_boots_at_once() {
    let mut peers: Vec<Peripheral> = Vec::new();
    let (end, sent, triggers) = run_boot(&mut peers, &honest);
    assert_eq!(end, BootStep::Finished);
    assert!(sent.is_empty());
    assert_eq!(triggers, 1);
}

/// Runs a Scan pass; `fail` names an address whose exchange fails.
fn run_scan(peers: &mut Vec<Peripheral>, addrs: Vec<u8>, fail: Option<u8>, seed: u64) -> (bool, Vec<u8>) {
    let ids: Vec<u32> = peers.iter().map(|p| p.component_id).collect();
    let reg = registry(&ids);
    let mut pass = scan_components(&reg, addrs.clone());
    let mut scanned = Vec::new();
    let mut nonce = seed;
    loop {
        nonce = nonce.wrapping_mul(6364136223846793005).wrapping_add(1442695040888963407);
        match pass.next_step(nonce) {
            ScanStep::Exchange { addr, frame } => {
                scanned.push(addr);
                let i = addrs.iter().position(|&a| a == addr).unwrap();
                let reply = if Some(addr) == fail {
                    Err(TransportError)
                } else {
                    match component_process_cmd(&mut peers[i], &frame, 0) {
                        PeripheralAction::Reply(b) => Ok(b),
                        _ => Err(TransportError),
                    }
                };
                pass.take_reply(reply);
            }
            ScanStep::Done { success } => return (success, scanned),
        }
    }
}

#[test]
fn scan_confirms_every_peripheral() {
    let mut peers = vec![
        Peripheral::new(0xAA, SecretPolicy::SingleUse),
        Peripheral::new(0xBB, SecretPolicy::SingleUse),
    ];
    let (ok, scanned) = run_scan(&mut peers, vec![0x2A, 0x3B], None, 1);
    assert!(ok);
    assert_eq!(scanned, vec![0x2A, 0x3B]);
}

#[test]
fn scan_transport_failure_fails_but_scans_the_rest() {
    let mut peers = vec![
        Peripheral::new(0x11, SecretPolicy::SingleUse),
        Peripheral::new(0x22, SecretPolicy::SingleUse),
        Peripheral::new(0x33, SecretPolicy::SingleUse),
    ];
    let (ok, scanned) = run_scan(&mut peers, vec![0x41, 0x42, 0x43], Some(0x42), 5);
    assert!(!ok);
    assert_eq!(scanned, vec![0x41, 0x42, 0x43]);
}

#[test]
fn scan_skips_reserved_addresses() {
    let mut peers = vec![
        Peripheral::new(0x01, SecretPolicy::SingleUse),
        Peripheral::new(0x02, SecretPolicy::SingleUse),
        Peripheral::new(0x03, SecretPolicy::SingleUse),
        Peripheral::new(0x04, SecretPolicy::SingleUse),
    ];
    let (ok, scanned) = run_scan(&mut peers, vec![0x18, 0x40, 0x28, 0x36], None, 9);
    assert_eq!(scanned, vec![0x40]);
    assert!(!ok);
}

#[test]
fn scan_wrong_identifier_is_unconfirmed() {
    let mut peers = vec![Peripheral::new(0xAA, SecretPolicy::SingleUse)];
    let reg = registry(&[0xAB]);
    let mut pass = scan_components(&reg, vec![0x50]);
    match pass.next_step(77) {
        ScanStep::Exchange { frame, .. } => {
            match component_process_cmd(&mut peers[0], &frame, 0) {
                PeripheralAction::Reply(b) => pass.take_reply(Ok(b)),
                _ => panic!("scan must be answered"),
            }
        }
        _ => panic!("one exchange is due"),
    }
    assert!(matches!(pass.next_step(78), ScanStep::Done { success: false }));
}

#[test]
fn scan_wrong_echo_is_unconfirmed() {
    let reg = registry(&[0xAA]);
    let mut pass = scan_components(&reg, vec![0x50]);
    assert!(matches!(pass.next_step(77), ScanStep::Exchange { addr: 0x50, .. }));
    let reply = validate_message { component_id: 0xAA, nonce1: 78, nonce2: 0 };
    pass.take_reply(Ok(reply.to_bytes()));
    assert!(matches!(pass.next_step(79), ScanStep::Done { success: false }));
}

#[test]
fn repeated_scan_gives_the_same_result() {
    let mut peers = vec![
        Peripheral::new(0xAA, SecretPolicy::SingleUse),
        Peripheral::new(0xBB, SecretPolicy::SingleUse),
        Peripheral::new(0xCC, SecretPolicy::SingleUse),
    ];
    let addrs = vec![0x2A, 0x3B, 0x4C];
    let first = run_scan(&mut peers, addrs.clone(), None, 3);
    let second = run_scan(&mut peers, addrs.clone(), None, 1234);
    assert_eq!(first, second);
    assert!(first.0);
    let failing_first = run_scan(&mut peers, addrs.clone(), Some(0x3B), 3);
    let failing_second = run_scan(&mut peers, addrs, Some(0x3B), 99);
    assert_eq!(failing_first, failing_second);
    assert!(!failing_first.0);
}

#[test]
fn empty_scan_succeeds() {
    let reg = registry(&[]);
    let mut pass = scan_components(&reg, vec![]);
    assert!(matches!(pass.next_step(1), ScanStep::Done { success: true }));
}
