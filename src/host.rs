//! The host's side: the Scan pass, which checks that every expected peripheral
//! answers, and the boot attempt, a strict Validate pass followed by a
//! tolerant Boot pass and then the host's own boot.
//!
//! Each pass is a state machine. The caller performs every exchange on the
//! bus: it asks for the next step, sends the frame, and hands the reply back.

use crate::gate::GateVerdict;
use crate::wire::{
    be_u32_at, command_message, flash_entry, read_u32_be, request_frame, spec_decode_reply,
    validate_message, Opcode,
};
use vstd::prelude::*;

verus! {

/// The transport could not send a frame or receive its reply.
#[derive(Clone, Copy, Debug, PartialEq, Eq, Structural)]
pub struct TransportError;

/// The reply the transport delivered, or `None` when it failed.
pub open spec fn reply_view(reply: &Result<Vec<u8>, TransportError>) -> Option<Seq<u8>> {
    match reply {
        Ok(b) => Some(b@),
        Err(_) => None,
    }
}

/// Bus addresses that belong to no peripheral; the Scan pass never challenges
/// them.
pub open spec fn is_reserved_addr(a: u8) -> bool {
    a == 0x18 || a == 0x28 || a == 0x36
}

pub fn is_reserved(a: u8) -> (r: bool)
    ensures
        r == is_reserved_addr(a),
{
    a == 0x18 || a == 0x28 || a == 0x36
}

/// A reply confirms a peripheral when it decodes, echoes the nonce that was
/// sent and reports the expected identifier.
pub open spec fn reply_confirms(id: u32, nonce: u64, reply: Option<Seq<u8>>) -> bool {
    match reply {
        None => false,
        Some(b) => match spec_decode_reply(b) {
            None => false,
            Some(m) => m.nonce1 == nonce && m.component_id == id,
        },
    }
}

/// One registry entry's exchange in a Scan pass: `None` when the entry was
/// skipped, else the nonce sent and the reply (`None` when transport failed).
pub type ScanRecord = Option<(u64, Option<Seq<u8>>)>;

/// Whether the Scan pass counts an entry as confirmed.
pub open spec fn entry_confirmed(id: u32, addr: u8, ex: ScanRecord) -> bool {
    !is_reserved_addr(addr) && match ex {
        None => false,
        Some((n, r)) => reply_confirms(id, n, r),
    }
}

/// The Scan pass succeeds when every expected identifier was confirmed.
pub open spec fn scan_succeeds(ids: Seq<u32>, addrs: Seq<u8>, log: Seq<ScanRecord>) -> bool {
    forall|i: int| 0 <= i < ids.len() ==> entry_confirmed(ids[i], addrs[i], log[i])
}

/// How an entry was answered, leaving out the nonce itself: skipped, not
/// reached or unreadable, or the identifier reported and whether the nonce
/// came back.
pub open spec fn answer_shape(ex: ScanRecord) -> Option<Option<(u32, bool)>> {
    match ex {
        None => None,
        Some((n, r)) => Some(
            match r {
                None => None,
                Some(b) => match spec_decode_reply(b) {
                    None => None,
                    Some(m) => Some((m.component_id, m.nonce1 == n)),
                },
            },
        ),
    }
}

/// Repeating a Scan pass while no peripheral has changed gives the same
/// result: when every entry is answered in the same way in both passes, the
/// two results agree, whatever nonces were drawn.
pub proof fn lemma_scan_repeatable(
    ids: Seq<u32>,
    addrs: Seq<u8>,
    first: Seq<ScanRecord>,
    second: Seq<ScanRecord>,
)
    requires
        addrs.len() == ids.len(),
        first.len() == ids.len(),
        second.len() == ids.len(),
        forall|i: int| 0 <= i < ids.len() ==> answer_shape(first[i]) == answer_shape(second[i]),
    ensures
        scan_succeeds(ids, addrs, first) == scan_succeeds(ids, addrs, second),
{
    assert forall|i: int| 0 <= i < ids.len() implies entry_confirmed(ids[i], addrs[i], first[i])
        == entry_confirmed(ids[i], addrs[i], second[i]) by {
        assert(answer_shape(first[i]) == answer_shape(second[i]));
    }
}

/// An entry at a reserved address is never challenged, so it is never
/// confirmed: a Scan pass over a registry holding one fails, whatever the
/// exchanges were.
pub proof fn lemma_reserved_entry_fails_scan(
    ids: Seq<u32>,
    addrs: Seq<u8>,
    log: Seq<ScanRecord>,
    i: int,
)
    requires
        addrs.len() == ids.len(),
        0 <= i < ids.len(),
        is_reserved_addr(addrs[i]),
    ensures
        !scan_succeeds(ids, addrs, log),
{
    assert(!entry_confirmed(ids[i], addrs[i], log[i]));
}

/// What the caller does next in a Scan pass.
#[derive(Debug, PartialEq, Eq)]
pub enum ScanStep {
    /// Send `frame` to `addr` and hand the reply to `take_reply`.
    Exchange { addr: u8, frame: Vec<u8> },
    /// The pass is over.
    Done { success: bool },
}

/// The state of a Scan pass as the contracts see it.
pub ghost struct ScanModel {
    pub ids: Seq<u32>,
    pub addrs: Seq<u8>,
    /// Entries before `next` have been dealt with.
    pub next: nat,
    /// The nonce sent to entry `next`, while its reply is awaited.
    pub pending: Option<u64>,
    /// One exchange per entry dealt with.
    pub log: Seq<ScanRecord>,
}

/// A Scan pass over the registry. Failures are tolerated: an entry that is
/// not confirmed is noted and the pass goes on to the next one.
pub struct ScanPass {
    ids: Vec<u32>,
    addrs: Vec<u8>,
    next: usize,
    pending: Option<u64>,
    all_confirmed: bool,
    log: Ghost<Seq<ScanRecord>>,
}

impl View for ScanPass {
    type V = ScanModel;

    closed spec fn view(&self) -> ScanModel {
        ScanModel {
            ids: self.ids@,
            addrs: self.addrs@,
            next: self.next as nat,
            pending: self.pending,
            log: self.log@,
        }
    }
}

impl ScanPass {
    pub closed spec fn wf(&self) -> bool {
        &&& self.addrs@.len() == self.ids@.len()
        &&& self.next <= self.ids@.len()
        &&& self.log@.len() == self.next
        &&& self.all_confirmed == (forall|i: int|
            0 <= i < self.next ==> entry_confirmed(self.ids@[i], self.addrs@[i], self.log@[i]))
        &&& forall|i: int|
            0 <= i < self.next ==> (is_reserved_addr(self.addrs@[i]) <==> self.log@[i] is None)
        &&& self.pending is Some ==> self.next < self.ids@.len() && !is_reserved_addr(
            self.addrs@[self.next as int],
        )
    }

    /// The next exchange of the pass, for which `nonce` is the fresh nonce;
    /// entries at reserved addresses are skipped on the way and stay
    /// unconfirmed.
    pub fn next_step(&mut self, nonce: u64) -> (r: ScanStep)
        requires
            old(self).wf(),
            old(self)@.pending is None,
        ensures
            final(self).wf(),
            final(self)@.ids == old(self)@.ids,
            final(self)@.addrs == old(self)@.addrs,
            old(self)@.next <= final(self)@.next,
            final(self)@.log.subrange(0, old(self)@.next as int) == old(self)@.log,
            forall|j: int|
                old(self)@.next <= j < final(self)@.next ==> is_reserved_addr(old(self)@.addrs[j])
                    && final(self)@.log[j] is None,
            match r {
                ScanStep::Exchange { addr, frame } => {
                    &&& final(self)@.next < final(self)@.ids.len()
                    &&& addr == final(self)@.addrs[final(self)@.next as int]
                    &&& !is_reserved_addr(addr)
                    &&& frame@ == request_frame(Opcode::Scan, nonce)
                    &&& final(self)@.pending == Some(nonce)
                },
                ScanStep::Done { success } => {
                    &&& final(self)@.next == final(self)@.ids.len()
                    &&& final(self)@.pending is None
                    &&& success == scan_succeeds(
                        final(self)@.ids,
                        final(self)@.addrs,
                        final(self)@.log,
                    )
                },
            },
    {
        let n = self.ids.len();
        while self.next < n && is_reserved(self.addrs[self.next])
            invariant
                self.wf(),
                self.pending is None,
                n == self.ids@.len(),
                self.ids@ == old(self)@.ids,
                self.addrs@ == old(self)@.addrs,
                old(self)@.next <= self.next,
                self.log@.subrange(0, old(self)@.next as int) == old(self)@.log,
                forall|j: int|
                    old(self)@.next <= j < self.next ==> is_reserved_addr(old(self)@.addrs[j])
                        && self.log@[j] is None,
            decreases n - self.next,
        {
            let ghost k = self.next as int;
            self.log = Ghost(self.log@.push(None));
            self.all_confirmed = false;
            self.next = self.next + 1;
            assert(!entry_confirmed(self.ids@[k], self.addrs@[k], self.log@[k]));
            assert(self.log@.subrange(0, old(self)@.next as int) =~= old(self)@.log);
        }
        if self.next == n {
            ScanStep::Done { success: self.all_confirmed }
        } else {
            self.pending = Some(nonce);
            let frame = command_message::with_value(Opcode::Scan, nonce).to_bytes();
            ScanStep::Exchange { addr: self.addrs[self.next], frame }
        }
    }

    /// Records the reply to the exchange in flight; a transport failure or a
    /// wrong reply leaves the entry unconfirmed.
    pub fn take_reply(&mut self, reply: Result<Vec<u8>, TransportError>)
        requires
            old(self).wf(),
            old(self)@.pending is Some,
        ensures
            final(self).wf(),
            final(self)@.ids == old(self)@.ids,
            final(self)@.addrs == old(self)@.addrs,
            final(self)@.pending is None,
            final(self)@.next == old(self)@.next + 1,
            final(self)@.log == old(self)@.log.push(
                Some((old(self)@.pending->Some_0, reply_view(&reply))),
            ),
    {
        let nonce = match self.pending {
            Some(n) => n,
            None => 0,
        };
        let i = self.next;
        assert(i < self.ids.len());
        let ghost old_log = self.log@;
        let confirmed = match &reply {
            Ok(b) => match validate_message::from_bytes(b.as_slice()) {
                Some(m) => m.nonce1 == nonce && m.component_id == self.ids[i],
                None => false,
            },
            Err(_) => false,
        };
        self.log = Ghost(self.log@.push(Some((nonce, reply_view(&reply)))));
        self.all_confirmed = self.all_confirmed && confirmed;
        self.pending = None;
        self.next = i + 1;
        assert(confirmed == entry_confirmed(self.ids@[i as int], self.addrs@[i as int], self.log@[i as int]));
        assert forall|j: int| 0 <= j < i implies self.log@[j] == old_log[j] by {}
    }
}

/// Starts a Scan pass over the registry's expected identifiers; `addrs[i]` is
/// the bus address of the `i`th of them.
pub fn scan_components(registry: &flash_entry, addrs: Vec<u8>) -> (r: ScanPass)
    requires
        registry.wf(),
        addrs@.len() == registry.ids().len(),
    ensures
        r.wf(),
        r@.ids == registry.ids(),
        r@.addrs == addrs@,
        r@.next == 0,
        r@.pending is None,
{
    ScanPass {
        ids: registry.expected_ids(),
        addrs,
        next: 0,
        pending: None,
        all_confirmed: true,
        log: Ghost(Seq::empty()),
    }
}

/// Why a boot attempt was abandoned; the index is the registry entry.
#[derive(Clone, Copy, Debug, PartialEq, Eq, Structural)]
pub enum BootFailure {
    /// The exchange with the entry's peripheral failed on the bus.
    TransportFailure(usize),
    /// The reply was unreadable, did not echo the nonce, or named another
    /// identifier.
    ProtocolMismatch(usize),
}

/// Where a boot attempt stands.
#[derive(Clone, Copy, Debug, PartialEq, Eq, Structural)]
pub enum BootPhase {
    /// Challenging each peripheral and collecting its secret.
    Validating,
    /// Handing each peripheral its secret back.
    Booting,
    /// The host's own boot has been called for.
    Booted,
    /// The attempt failed; nothing more is sent.
    Aborted(BootFailure),
}

/// The secret that a Validate reply hands over, or why the reply is refused.
pub open spec fn validate_outcome(id: u32, nonce: u64, reply: Option<Seq<u8>>, index: usize) -> Result<
    u64,
    BootFailure,
> {
    match reply {
        None => Err(BootFailure::TransportFailure(index)),
        Some(b) => match spec_decode_reply(b) {
            None => Err(BootFailure::ProtocolMismatch(index)),
            Some(m) => if m.nonce1 == nonce && m.component_id == id {
                Ok(m.nonce2)
            } else {
                Err(BootFailure::ProtocolMismatch(index))
            },
        },
    }
}

/// What the caller does next in a boot attempt.
#[derive(Debug, PartialEq, Eq)]
pub enum BootStep {
    /// Send `frame` to `addr` and hand the reply to `take_reply`.
    Exchange { addr: u8, frame: Vec<u8> },
    /// Every peripheral was validated and booted: boot the host. Given once.
    TriggerBoot,
    /// The host has already been booted; nothing is left to do.
    Finished,
    /// The attempt failed; the host must not boot.
    Abort(BootFailure),
}

/// A step of a boot attempt as the contracts see it.
pub ghost enum BootAction {
    Send(u8, Seq<u8>),
    TriggerBoot,
    Finished,
    Abort(BootFailure),
}

impl BootStep {
    pub open spec fn spec_action(&self) -> BootAction {
        match self {
            BootStep::Exchange { addr, frame } => BootAction::Send(*addr, frame@),
            BootStep::TriggerBoot => BootAction::TriggerBoot,
            BootStep::Finished => BootAction::Finished,
            BootStep::Abort(f) => BootAction::Abort(*f),
        }
    }
}

/// The state of a boot attempt as the contracts see it.
pub ghost struct BootModel {
    pub ids: Seq<u32>,
    pub addrs: Seq<u8>,
    pub phase: BootPhase,
    /// Entries before `next` have been dealt with in the current pass.
    pub next: nat,
    /// The value sent to entry `next`, while its reply is awaited.
    pub pending: Option<u64>,
    /// The secret each validated peripheral handed over, in registry order.
    pub secrets: Seq<u64>,
    /// For each entry booted so far, whether its Boot exchange went through.
    pub delivered: Seq<bool>,
}

/// A boot attempt that has not sent anything yet.
pub open spec fn initial_attempt(ids: Seq<u32>, addrs: Seq<u8>) -> BootModel {
    BootModel {
        ids,
        addrs,
        phase: BootPhase::Validating,
        next: 0,
        pending: None,
        secrets: seq![],
        delivered: seq![],
    }
}

/// Hands entry `m.next` its secret back, or boots the host once every entry
/// has had it.
pub open spec fn boot_request(m: BootModel) -> (BootModel, BootAction) {
    if m.next < m.ids.len() {
        (
            BootModel { pending: Some(m.secrets[m.next as int]), ..m },
            BootAction::Send(
                m.addrs[m.next as int],
                request_frame(Opcode::Boot, m.secrets[m.next as int]),
            ),
        )
    } else {
        (BootModel { phase: BootPhase::Booted, ..m }, BootAction::TriggerBoot)
    }
}

/// The state after `next_step` and the step it gives.
pub open spec fn spec_next_step(m: BootModel, nonce: u64) -> (BootModel, BootAction) {
    match m.phase {
        BootPhase::Aborted(f) => (m, BootAction::Abort(f)),
        BootPhase::Booted => (m, BootAction::Finished),
        BootPhase::Validating => if m.next < m.ids.len() {
            (
                BootModel { pending: Some(nonce), ..m },
                BootAction::Send(m.addrs[m.next as int], request_frame(Opcode::Validate, nonce)),
            )
        } else {
            boot_request(BootModel { phase: BootPhase::Booting, next: 0, ..m })
        },
        BootPhase::Booting => boot_request(m),
    }
}

/// The state after `take_reply`.
pub open spec fn spec_take_reply(m: BootModel, reply: Option<Seq<u8>>) -> BootModel {
    if m.phase is Booting {
        BootModel {
            next: m.next + 1,
            pending: None,
            delivered: m.delivered.push(reply is Some),
            ..m
        }
    } else {
        match validate_outcome(
            m.ids[m.next as int],
            m.pending->Some_0,
            reply,
            m.next as usize,
        ) {
            Ok(s) => BootModel {
                next: m.next + 1,
                pending: None,
                secrets: m.secrets.push(s),
                ..m
            },
            Err(f) => BootModel { phase: BootPhase::Aborted(f), pending: None, ..m },
        }
    }
}

/// A boot attempt. The Validate pass is strict: the first failure abandons the
/// attempt before any Boot frame is sent. The Boot pass is tolerant: a
/// transport failure is noted and the pass goes on.
pub struct BootAttempt {
    ids: Vec<u32>,
    addrs: Vec<u8>,
    phase: BootPhase,
    next: usize,
    pending: Option<u64>,
    secrets: Vec<u64>,
    delivered: Vec<bool>,
}

impl View for BootAttempt {
    type V = BootModel;

    closed spec fn view(&self) -> BootModel {
        BootModel {
            ids: self.ids@,
            addrs: self.addrs@,
            phase: self.phase,
            next: self.next as nat,
            pending: self.pending,
            secrets: self.secrets@,
            delivered: self.delivered@,
        }
    }
}

impl BootAttempt {
    pub closed spec fn wf(&self) -> bool {
        &&& self.addrs@.len() == self.ids@.len()
        &&& self.next <= self.ids@.len()
        &&& match self.phase {
            BootPhase::Validating => self.secrets@.len() == self.next && self.delivered@.len()
                == 0,
            BootPhase::Booting => self.secrets@.len() == self.ids@.len()
                && self.delivered@.len() == self.next,
            BootPhase::Booted => self.secrets@.len() == self.ids@.len()
                && self.delivered@.len() == self.ids@.len() && self.next == self.ids@.len(),
            BootPhase::Aborted(_) => self.delivered@.len() == 0,
        }
        &&& self.pending is Some ==> self.next < self.ids@.len() && (self.phase
            is Validating || self.phase is Booting)
    }

    /// The next step of the attempt, for which `nonce` is the fresh nonce if
    /// a Validate frame is due. Once the attempt is aborted or booted it stays
    /// so.
    pub fn next_step(&mut self, nonce: u64) -> (r: BootStep)
        requires
            old(self).wf(),
            old(self)@.pending is None,
        ensures
            final(self).wf(),
            final(self)@.ids == old(self)@.ids,
            final(self)@.addrs == old(self)@.addrs,
            final(self)@.secrets == old(self)@.secrets,
            final(self)@.delivered == old(self)@.delivered,
            (final(self)@, r.spec_action()) == spec_next_step(old(self)@, nonce),
            old(self)@.phase matches BootPhase::Aborted(f) ==> r == BootStep::Abort(f)
                && final(self)@ == old(self)@,
            old(self)@.phase is Booted ==> r is Finished && final(self)@ == old(self)@,
            r is TriggerBoot ==> old(self)@.phase is Validating || old(self)@.phase is Booting,
            r is TriggerBoot ==> final(self)@.phase is Booted,
            old(self)@.phase is Validating && old(self)@.next < old(self)@.ids.len() ==> {
                &&& final(self)@.phase is Validating
                &&& final(self)@.next == old(self)@.next
                &&& final(self)@.pending == Some(nonce)
                &&& r == BootStep::Exchange {
                    addr: old(self)@.addrs[old(self)@.next as int],
                    frame: r->frame,
                }
                &&& r->frame@ == request_frame(Opcode::Validate, nonce)
            },
            (old(self)@.phase is Booting || old(self)@.phase is Validating && old(self)@.next
                == old(self)@.ids.len()) ==> {
                let k = if old(self)@.phase is Booting {
                    old(self)@.next
                } else {
                    0
                };
                if k < old(self)@.ids.len() {
                    &&& final(self)@.phase is Booting
                    &&& final(self)@.next == k
                    &&& final(self)@.pending == Some(old(self)@.secrets[k as int])
                    &&& r == BootStep::Exchange { addr: old(self)@.addrs[k as int], frame: r->frame }
                    &&& r->frame@ == request_frame(Opcode::Boot, old(self)@.secrets[k as int])
                } else {
                    r is TriggerBoot
                }
            },
    {
        match self.phase {
            BootPhase::Aborted(f) => {
                return BootStep::Abort(f);
            },
            BootPhase::Booted => {
                return BootStep::Finished;
            },
            BootPhase::Validating => {
                if self.next < self.ids.len() {
                    self.pending = Some(nonce);
                    let frame = command_message::with_value(Opcode::Validate, nonce).to_bytes();
                    return BootStep::Exchange { addr: self.addrs[self.next], frame };
                }
                self.phase = BootPhase::Booting;
                self.next = 0;
            },
            BootPhase::Booting => {},
        }
        if self.next < self.ids.len() {
            let secret = self.secrets[self.next];
            self.pending = Some(secret);
            let frame = command_message::with_value(Opcode::Boot, secret).to_bytes();
            BootStep::Exchange { addr: self.addrs[self.next], frame }
        } else {
            self.phase = BootPhase::Booted;
            BootStep::TriggerBoot
        }
    }

    /// Records the reply to the exchange in flight. In the Validate pass a
    /// reply that is missing, unreadable, does not echo the nonce or names
    /// another identifier aborts the attempt; otherwise its secret is kept for
    /// the entry. In the Boot pass the reply is only noted.
    pub fn take_reply(&mut self, reply: Result<Vec<u8>, TransportError>)
        requires
            old(self).wf(),
            old(self)@.pending is Some,
        ensures
            final(self).wf(),
            final(self)@.ids == old(self)@.ids,
            final(self)@.addrs == old(self)@.addrs,
            final(self)@.pending is None,
            final(self)@ == spec_take_reply(old(self)@, reply_view(&reply)),
            old(self)@.phase is Validating ==> match validate_outcome(
                old(self)@.ids[old(self)@.next as int],
                old(self)@.pending->Some_0,
                reply_view(&reply),
                old(self)@.next as usize,
            ) {
                Ok(secret) => {
                    &&& final(self)@.phase is Validating
                    &&& final(self)@.next == old(self)@.next + 1
                    &&& final(self)@.secrets == old(self)@.secrets.push(secret)
                },
                Err(f) => final(self)@.phase == BootPhase::Aborted(f),
            },
            old(self)@.phase is Booting ==> {
                &&& final(self)@.phase is Booting
                &&& final(self)@.next == old(self)@.next + 1
                &&& final(self)@.secrets == old(self)@.secrets
                &&& final(self)@.delivered == old(self)@.delivered.push(reply is Ok)
            },
    {
        let sent = match self.pending {
            Some(v) => v,
            None => 0,
        };
        let i = self.next;
        assert(i < self.ids.len());
        self.pending = None;
        if let BootPhase::Booting = self.phase {
            self.delivered.push(reply.is_ok());
            self.next = i + 1;
            return;
        }
        match &reply {
            Err(_) => {
                self.phase = BootPhase::Aborted(BootFailure::TransportFailure(i));
            },
            Ok(b) => match validate_message::from_bytes(b.as_slice()) {
                None => {
                    self.phase = BootPhase::Aborted(BootFailure::ProtocolMismatch(i));
                },
                Some(m) => {
                    if m.nonce1 == sent && m.component_id == self.ids[i] {
                        self.secrets.push(m.nonce2);
                        self.next = i + 1;
                    } else {
                        self.phase = BootPhase::Aborted(BootFailure::ProtocolMismatch(i));
                    }
                },
            },
        }
    }
}

/// Starts a boot attempt over the registry's expected identifiers; `addrs[i]`
/// is the bus address of the `i`th of them.
pub fn attempt_boot(registry: &flash_entry, addrs: Vec<u8>) -> (r: BootAttempt)
    requires
        registry.wf(),
        addrs@.len() == registry.ids().len(),
    ensures
        r.wf(),
        r@.ids == registry.ids(),
        r@.addrs == addrs@,
        r@.phase is Validating,
        r@.next == 0,
        r@.pending is None,
        r@.secrets.len() == 0,
        r@ == initial_attempt(registry.ids(), addrs@),
{
    BootAttempt {
        ids: registry.expected_ids(),
        addrs,
        phase: BootPhase::Validating,
        next: 0,
        pending: None,
        secrets: Vec::new(),
        delivered: Vec::new(),
    }
}

/// What the attestation entry point does after the PIN check.
#[derive(Clone, Copy, Debug, PartialEq, Eq, Structural)]
pub enum AttestStep {
    /// Ask the operator for the identifier of the component to attest.
    PromptForComponent,
    /// The PIN was not accepted; stop without prompting.
    Refuse(GateVerdict),
}

/// The attestation entry point: the operator is asked for a component only
/// once the PIN gate has accepted.
pub fn attempt_attest(pin: GateVerdict) -> (r: AttestStep)
    ensures
        pin == GateVerdict::Accepted ==> r == AttestStep::PromptForComponent,
        pin != GateVerdict::Accepted ==> r == AttestStep::Refuse(pin),
{
    match pin {
        GateVerdict::Accepted => AttestStep::PromptForComponent,
        _ => AttestStep::Refuse(pin),
    }
}

/// The identifier typed at the prompt: its first four bytes, most significant
/// first; `None` when fewer than four were typed.
pub fn attest_target(input: &[u8]) -> (r: Option<u32>)
    ensures
        r is Some <==> input@.len() >= 4,
        r matches Some(id) ==> id == be_u32_at(input@, 0),
{
    if input.len() < 4 {
        None
    } else {
        Some(read_u32_be(input, 0))
    }
}

} // verus!
