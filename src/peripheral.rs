//! The peripheral's side: decoding a command frame from the host, choosing the
//! handler by its opcode, and keeping the one piece of session state, the
//! secret handed out by the last Validate.

use crate::wire::{
    be_u64_at, command_message, validate_message, Opcode, MAX_I2C_MESSAGE_LEN,
};
use vstd::prelude::*;

verus! {

/// What becomes of the session secret once a Boot command has been handled.
#[derive(Clone, Copy, Debug, PartialEq, Eq, Structural)]
pub enum SecretPolicy {
    /// The secret is cleared by the first Boot command, matched or not, so it
    /// cannot be replayed within the same power cycle.
    SingleUse,
    /// The secret stays until the next Validate replaces it.
    Retained,
}

/// The session state of a peripheral.
pub struct Peripheral {
    /// The identifier this peripheral reports.
    pub component_id: u32,
    /// The secret handed out by the last Validate; `None` until one has been.
    pub session_secret: Option<u64>,
    /// What a Boot command does to `session_secret`.
    pub policy: SecretPolicy,
}

/// Why a Boot command was refused.
#[derive(Clone, Copy, Debug, PartialEq, Eq, Structural)]
pub enum BootRejection {
    /// No Validate has set a session secret.
    NoSecret,
    /// The secret in the frame is not the one handed out.
    SecretMismatch,
}

/// What the peripheral does in answer to a frame.
#[derive(Debug, PartialEq, Eq)]
pub enum PeripheralAction {
    /// Send these bytes back to the host.
    Reply(Vec<u8>),
    /// The host proved knowledge of the session secret: boot.
    Boot,
    /// Refuse to boot.
    RejectBoot(BootRejection),
    /// Run the attestation handler.
    Attest,
    /// Report an opcode that names no command.
    InvalidOpcode(u8),
    /// Report a frame that is not exactly one frame long.
    MalformedFrame,
}

/// The reply to a Scan or Validate: this peripheral's identifier, the host's
/// nonce as it came, and `nonce2`.
pub open spec fn identity_reply(id: u32, frame: Seq<u8>, nonce2: u64) -> Seq<u8> {
    validate_message { component_id: id, nonce1: be_u64_at(frame, 1), nonce2 }.spec_bytes()
}

/// The session secret after a Boot command under `policy`.
pub open spec fn secret_after_boot(policy: SecretPolicy, secret: Option<u64>) -> Option<u64> {
    match policy {
        SecretPolicy::SingleUse => None,
        SecretPolicy::Retained => secret,
    }
}

impl Peripheral {
    /// A freshly started peripheral: no session secret yet.
    pub fn new(component_id: u32, policy: SecretPolicy) -> (r: Self)
        ensures
            r.component_id == component_id,
            r.session_secret is None,
            r.policy == policy,
    {
        Peripheral { component_id, session_secret: None, policy }
    }
}

/// Handles one frame received from the host. `fresh` is a newly generated
/// nonce; it becomes the session secret if the frame is a Validate.
pub fn component_process_cmd(p: &mut Peripheral, frame: &[u8], fresh: u64) -> (r:
    PeripheralAction)
    ensures
        final(p).component_id == old(p).component_id,
        final(p).policy == old(p).policy,
        frame@.len() != MAX_I2C_MESSAGE_LEN ==> r is MalformedFrame && final(p).session_secret
            == old(p).session_secret,
        frame@.len() == MAX_I2C_MESSAGE_LEN ==> {
            let op = frame@[0];
            let sent = be_u64_at(frame@, 1);
            &&& op == Opcode::Scan.spec_byte() ==> (r matches PeripheralAction::Reply(b) && b@
                == identity_reply(old(p).component_id, frame@, 0)) && final(p).session_secret
                == old(p).session_secret
            &&& op == Opcode::Validate.spec_byte() ==> (r matches PeripheralAction::Reply(b) && b@
                == identity_reply(old(p).component_id, frame@, fresh)) && final(p).session_secret
                == Some(fresh)
            &&& op == Opcode::Boot.spec_byte() ==> final(p).session_secret == secret_after_boot(
                old(p).policy,
                old(p).session_secret,
            ) && match old(p).session_secret {
                None => r == PeripheralAction::RejectBoot(BootRejection::NoSecret),
                Some(s) => if s == sent {
                    r is Boot
                } else {
                    r == PeripheralAction::RejectBoot(BootRejection::SecretMismatch)
                },
            }
            &&& op == Opcode::Attest.spec_byte() ==> r is Attest && final(p).session_secret
                == old(p).session_secret
            &&& (op == 0 || op > 4) ==> r == PeripheralAction::InvalidOpcode(op)
                && final(p).session_secret == old(p).session_secret
        },
{
    let cmd = match command_message::from_bytes(frame) {
        Some(c) => c,
        None => return PeripheralAction::MalformedFrame,
    };
    assert(cmd.params@ =~= frame@.subrange(1, frame@.len() as int));
    let sent = cmd.value();
    assert(be_u64_at(cmd.params@, 0) == be_u64_at(frame@, 1));
    match Opcode::from_byte(cmd.opcode) {
        Some(Opcode::Scan) => {
            let m = validate_message { component_id: p.component_id, nonce1: sent, nonce2: 0 };
            PeripheralAction::Reply(m.to_bytes())
        },
        Some(Opcode::Validate) => {
            p.session_secret = Some(fresh);
            let m = validate_message { component_id: p.component_id, nonce1: sent, nonce2: fresh };
            PeripheralAction::Reply(m.to_bytes())
        },
        Some(Opcode::Boot) => {
            let expected = p.session_secret;
            if let SecretPolicy::SingleUse = p.policy {
                p.session_secret = None;
            }
            match expected {
                None => PeripheralAction::RejectBoot(BootRejection::NoSecret),
                Some(s) => if s == sent {
                    PeripheralAction::Boot
                } else {
                    PeripheralAction::RejectBoot(BootRejection::SecretMismatch)
                },
            }
        },
        Some(Opcode::Attest) => PeripheralAction::Attest,
        _ => PeripheralAction::InvalidOpcode(cmd.opcode),
    }
}

} // verus!
