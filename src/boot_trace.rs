//! Whole runs of a boot attempt, as a caller drives it round by round, and the
//! two guarantees they give: a Boot frame hands each peripheral the secret of
//! its own validated reply, and a Validate reply with a wrong echo stops the
//! attempt before any Boot frame and before the host boots.

use crate::host::{
    initial_attempt, spec_next_step, spec_take_reply, validate_outcome, BootAction, BootFailure,
    BootModel, BootPhase,
};
use crate::wire::{request_frame, spec_decode_reply, Opcode};
use vstd::prelude::*;

verus! {

/// One round of driving an attempt: the nonce offered to `next_step`, and the
/// reply handed to `take_reply` (`None` for a transport failure), used only
/// when the step was an exchange.
pub type Round = (u64, Option<Seq<u8>>);

/// The state after one round, and the step the round gave.
pub open spec fn round(m: BootModel, r: Round) -> (BootModel, BootAction) {
    let (m1, a) = spec_next_step(m, r.0);
    if a is Send {
        (spec_take_reply(m1, r.1), a)
    } else {
        (m1, a)
    }
}

/// The state after the given rounds.
pub open spec fn state_after(m: BootModel, rounds: Seq<Round>) -> BootModel
    decreases rounds.len(),
{
    if rounds.len() == 0 {
        m
    } else {
        round(state_after(m, rounds.drop_last()), rounds.last()).0
    }
}

/// The step given in round `k`.
pub open spec fn action_at(m: BootModel, rounds: Seq<Round>, k: int) -> BootAction {
    round(state_after(m, rounds.take(k)), rounds[k]).1
}

/// The step sends a Boot frame.
pub open spec fn is_boot_frame(a: BootAction) -> bool {
    a matches BootAction::Send(_, f) && f.len() > 0 && f[0] == Opcode::Boot.spec_byte()
}

/// In round `v` the host sent entry `i` a Validate frame, and the reply echoed
/// its nonce, named the entry's identifier and handed over the secret `s`.
#[verifier::opaque]
pub open spec fn validated_at(m: BootModel, rounds: Seq<Round>, v: int, i: int, s: u64) -> bool {
    let mv = state_after(m, rounds.take(v));
    &&& mv.phase is Validating
    &&& mv.next == i
    &&& action_at(m, rounds, v) == BootAction::Send(
        m.addrs[i],
        request_frame(Opcode::Validate, rounds[v].0),
    )
    &&& validate_outcome(m.ids[i], rounds[v].0, rounds[v].1, i as usize) == Ok::<u64, BootFailure>(s)
}

/// The states a run passes through between rounds.
pub open spec fn between_rounds(m: BootModel) -> bool {
    &&& m.addrs.len() == m.ids.len()
    &&& m.next <= m.ids.len()
    &&& m.pending is None
    &&& match m.phase {
        BootPhase::Validating => m.secrets.len() == m.next,
        BootPhase::Booting => m.secrets.len() == m.ids.len(),
        BootPhase::Booted => m.secrets.len() == m.ids.len(),
        BootPhase::Aborted(_) => true,
    }
}

proof fn lemma_request_head(op: Opcode, n: u64)
    ensures
        request_frame(op, n).len() > 0,
        request_frame(op, n)[0] == op.spec_byte(),
{
    let f = request_frame(op, n);
    assert(f[0] == (seq![op.spec_byte()] + crate::wire::be_bytes_u64(n))[0]);
}

proof fn lemma_take_step(m: BootModel, rounds: Seq<Round>, j: int)
    requires
        0 <= j < rounds.len(),
    ensures
        state_after(m, rounds.take(j + 1)) == round(state_after(m, rounds.take(j)), rounds[j]).0,
{
    assert(rounds.take(j + 1).drop_last() =~= rounds.take(j));
    assert(rounds.take(j + 1).last() == rounds[j]);
}

proof fn lemma_round_keeps(m: BootModel, r: Round)
    requires
        between_rounds(m),
    ensures
        between_rounds(round(m, r).0),
        round(m, r).0.ids == m.ids,
        round(m, r).0.addrs == m.addrs,
        round(m, r).0.secrets == m.secrets || (m.phase is Validating && m.next < m.ids.len()
            && round(m, r).1 == BootAction::Send(
            m.addrs[m.next as int],
            request_frame(Opcode::Validate, r.0),
        ) && validate_outcome(m.ids[m.next as int], r.0, r.1, m.next as usize) == Ok::<u64, BootFailure>(
            round(m, r).0.secrets.last(),
        ) && round(m, r).0.secrets == m.secrets.push(round(m, r).0.secrets.last())),
{
}

proof fn lemma_run_keeps(m: BootModel, rounds: Seq<Round>, j: int)
    requires
        between_rounds(m),
        0 <= j <= rounds.len(),
    ensures
        between_rounds(state_after(m, rounds.take(j))),
        state_after(m, rounds.take(j)).ids == m.ids,
        state_after(m, rounds.take(j)).addrs == m.addrs,
    decreases j,
{
    if j == 0 {
        assert(rounds.take(0) =~= Seq::<Round>::empty());
    } else {
        lemma_run_keeps(m, rounds, j - 1);
        lemma_take_step(m, rounds, j - 1);
        lemma_round_keeps(state_after(m, rounds.take(j - 1)), rounds[j - 1]);
    }
}

/// The `i`th secret held after `n` rounds came from a validated reply of
/// entry `i` in one of those rounds.
spec fn secret_has_source(m: BootModel, rounds: Seq<Round>, n: int, i: int) -> bool {
    exists|v: int|
        0 <= v < n && #[trigger] validated_at(
            m,
            rounds,
            v,
            i,
            state_after(m, rounds.take(n)).secrets[i],
        )
}

/// Every secret held after `n` rounds came from a validated reply of its entry.
proof fn lemma_secrets_validated(m: BootModel, rounds: Seq<Round>, n: int)
    requires
        between_rounds(m),
        m.secrets.len() == 0,
        0 <= n <= rounds.len(),
    ensures
        forall|i: int|
            0 <= i < state_after(m, rounds.take(n)).secrets.len() ==> #[trigger] secret_has_source(
                m,
                rounds,
                n,
                i,
            ),
    decreases n,
{
    if n == 0 {
        assert(rounds.take(0) =~= Seq::<Round>::empty());
        assert(state_after(m, rounds.take(0)) == m);
    } else {
        let j = n - 1;
        lemma_secrets_validated(m, rounds, j);
        lemma_run_keeps(m, rounds, j);
        lemma_take_step(m, rounds, j);
        let before = state_after(m, rounds.take(j));
        let after = state_after(m, rounds.take(n));
        lemma_round_keeps(before, rounds[j]);
        assert forall|i: int| 0 <= i < after.secrets.len() implies #[trigger] secret_has_source(
            m,
            rounds,
            n,
            i,
        ) by {
            if i < before.secrets.len() {
                assert(secret_has_source(m, rounds, j, i));
                assert(after.secrets[i] == before.secrets[i]);
                let v = choose|v: int|
                    0 <= v < j && #[trigger] validated_at(m, rounds, v, i, before.secrets[i]);
                assert(validated_at(m, rounds, v, i, after.secrets[i]));
            } else {
                assert(before.secrets != after.secrets);
                assert(validated_at(m, rounds, j, i, after.secrets[i])) by {
                    reveal(validated_at);
                }
            }
        }
    }
}

/// Each Boot frame of a run hands its entry the secret that the entry's own
/// Validate reply carried: in an earlier round the host sent that entry a
/// Validate frame, and the reply echoed its nonce, named the entry's
/// identifier and handed over exactly that secret.
pub proof fn lemma_boot_frame_carries_validated_secret(
    ids: Seq<u32>,
    addrs: Seq<u8>,
    rounds: Seq<Round>,
    k: int,
)
    requires
        addrs.len() == ids.len(),
        0 <= k < rounds.len(),
        is_boot_frame(action_at(initial_attempt(ids, addrs), rounds, k)),
    ensures
        exists|i: int, v: int, s: u64|
            0 <= i < ids.len() && 0 <= v < k && action_at(initial_attempt(ids, addrs), rounds, k)
                == BootAction::Send(addrs[i], request_frame(Opcode::Boot, s)) && validated_at(
                initial_attempt(ids, addrs),
                rounds,
                v,
                i,
                s,
            ),
{
    let m0 = initial_attempt(ids, addrs);
    lemma_run_keeps(m0, rounds, k);
    lemma_secrets_validated(m0, rounds, k);
    let m = state_after(m0, rounds.take(k));
    lemma_request_head(Opcode::Validate, rounds[k].0);
    let i: int = if m.phase is Booting {
        m.next as int
    } else {
        0
    };
    assert(0 <= i < m.secrets.len());
    let s = m.secrets[i];
    lemma_request_head(Opcode::Boot, s);
    assert(secret_has_source(m0, rounds, k, i));
    let v = choose|v: int| 0 <= v < k && #[trigger] validated_at(m0, rounds, v, i, s);
    assert(0 <= i < ids.len() && 0 <= v < k);
    assert(action_at(m0, rounds, k) == BootAction::Send(addrs[i], request_frame(Opcode::Boot, s)));
}

proof fn lemma_validating_before(m: BootModel, rounds: Seq<Round>, k: int, j: int)
    requires
        between_rounds(m),
        0 <= j <= k <= rounds.len(),
        state_after(m, rounds.take(k)).phase is Validating,
    ensures
        state_after(m, rounds.take(j)).phase is Validating,
        j < k ==> !is_boot_frame(action_at(m, rounds, j)) && !(action_at(
            m,
            rounds,
            j,
        ) is TriggerBoot),
    decreases k - j,
{
    if j < k {
        lemma_validating_before(m, rounds, k, j + 1);
        lemma_take_step(m, rounds, j);
        lemma_run_keeps(m, rounds, j);
        lemma_request_head(Opcode::Validate, rounds[j].0);
    }
}

proof fn lemma_aborted_after(m: BootModel, rounds: Seq<Round>, k: int, j: int)
    requires
        between_rounds(m),
        0 <= k < j <= rounds.len(),
        state_after(m, rounds.take(k + 1)).phase is Aborted,
    ensures
        state_after(m, rounds.take(j)).phase is Aborted,
        j < rounds.len() ==> action_at(m, rounds, j) is Abort,
    decreases j - k,
{
    if j > k + 1 {
        lemma_aborted_after(m, rounds, k, j - 1);
        lemma_take_step(m, rounds, j - 1);
    }
}

/// A Validate reply that does not echo the nonce sent ends the attempt: no
/// round of the run, before or after, sends a Boot frame or tells the host to
/// boot.
pub proof fn lemma_wrong_echo_blocks_boot(
    ids: Seq<u32>,
    addrs: Seq<u8>,
    rounds: Seq<Round>,
    k: int,
)
    requires
        addrs.len() == ids.len(),
        0 <= k < rounds.len(),
        state_after(initial_attempt(ids, addrs), rounds.take(k)).phase is Validating,
        state_after(initial_attempt(ids, addrs), rounds.take(k)).next < ids.len(),
        rounds[k].1 matches Some(b) && spec_decode_reply(b) matches Some(reply) && reply.nonce1
            != rounds[k].0,
    ensures
        forall|j: int|
            0 <= j < rounds.len() ==> !is_boot_frame(action_at(initial_attempt(ids, addrs), rounds, j))
                && !(action_at(initial_attempt(ids, addrs), rounds, j) is TriggerBoot),
{
    let m0 = initial_attempt(ids, addrs);
    lemma_run_keeps(m0, rounds, k);
    lemma_take_step(m0, rounds, k);
    lemma_request_head(Opcode::Validate, rounds[k].0);
    assert(state_after(m0, rounds.take(k + 1)).phase is Aborted);
    assert forall|j: int| 0 <= j < rounds.len() implies !is_boot_frame(action_at(m0, rounds, j))
        && !(action_at(m0, rounds, j) is TriggerBoot) by {
        if j < k {
            lemma_validating_before(m0, rounds, k, j);
        } else if j > k {
            lemma_aborted_after(m0, rounds, k, j);
        }
    }
}

} // verus!
