use vstd::prelude::*;

use crate::action::is_word;
use crate::bank::BankState;
use crate::model::{
    buy_model, deposit_model, sell_model, transfer_model, withdraw_model, BankError,
    Ledger,
};
use crate::num::BigNum;

verus! {

/// The values a trace step chose for the parameters of its action; only
/// those its action needs are present.
#[derive(Clone, Debug)]
pub struct NondetPicks {
    pub depositor: Option<String>,
    pub withdrawer: Option<String>,
    pub sender: Option<String>,
    pub receiver: Option<String>,
    pub amount: Option<BigNum>,
    pub buyer: Option<String>,
    pub seller: Option<String>,
    pub id: Option<BigNum>,
}

/// One step of a trace: the label of the action taken, whether the trace
/// declares that it failed (with a message that is not compared), and the
/// chosen parameters.
#[derive(Clone, Debug)]
pub struct TraceStep {
    pub action_taken: String,
    pub error: Option<String>,
    pub nondet_picks: NondetPicks,
}

/// Why a step of a trace could not be replayed in agreement with the trace.
#[derive(Clone, Copy, Debug, PartialEq, Eq, Structural)]
pub enum OracleError {
    /// A parameter that the step's action needs is absent.
    MalformedTrace,
    /// The label names no known action.
    InvalidActionLabel,
    /// The local outcome disagrees with the trace, which declared failure
    /// (`declared_failure`) or success.
    Mismatch { declared_failure: bool },
}

/// Where and why a trace was rejected.
#[derive(Clone, Copy, Debug, PartialEq, Eq, Structural)]
pub struct Violation {
    pub step: usize,
    pub kind: OracleError,
}

/// The model's outcome of the action a step names, or why it cannot be
/// built from the step.
pub open spec fn step_outcome(s: Ledger, label: Seq<char>, p: NondetPicks) -> Result<
    Result<Ledger, BankError>,
    OracleError,
> {
    if label == "deposit_action"@ {
        if p.depositor is Some && p.amount is Some {
            Ok(deposit_model(s, p.depositor->Some_0@, p.amount->Some_0@))
        } else {
            Err(OracleError::MalformedTrace)
        }
    } else if label == "withdraw_action"@ {
        if p.withdrawer is Some && p.amount is Some {
            Ok(withdraw_model(s, p.withdrawer->Some_0@, p.amount->Some_0@))
        } else {
            Err(OracleError::MalformedTrace)
        }
    } else if label == "transfer_action"@ {
        if p.sender is Some && p.receiver is Some && p.amount is Some {
            Ok(transfer_model(s, p.sender->Some_0@, p.receiver->Some_0@, p.amount->Some_0@))
        } else {
            Err(OracleError::MalformedTrace)
        }
    } else if label == "buy_investment_action"@ {
        if p.buyer is Some && p.amount is Some {
            Ok(buy_model(s, p.buyer->Some_0@, p.amount->Some_0@))
        } else {
            Err(OracleError::MalformedTrace)
        }
    } else if label == "sell_investment_action"@ {
        if p.seller is Some && p.id is Some {
            Ok(sell_model(s, p.seller->Some_0@, p.id->Some_0@))
        } else {
            Err(OracleError::MalformedTrace)
        }
    } else {
        Err(OracleError::InvalidActionLabel)
    }
}

/// The ledger after replaying one step, or why the step is rejected: the
/// `init` step changes nothing; any other step must succeed locally exactly
/// when the trace declares no error.
pub open spec fn replay_step_model(s: Ledger, step: TraceStep) -> Result<Ledger, OracleError> {
    if step.action_taken@ == "init"@ {
        Ok(s)
    } else {
        match step_outcome(s, step.action_taken@, step.nondet_picks) {
            Err(e) => Err(e),
            Ok(Ok(t)) => if step.error is Some {
                Err(OracleError::Mismatch { declared_failure: true })
            } else {
                Ok(t)
            },
            Ok(Err(_)) => if step.error is None {
                Err(OracleError::Mismatch { declared_failure: false })
            } else {
                Ok(s)
            },
        }
    }
}

/// The ledger after replaying `steps` in order, or the index of the first
/// rejected step and why.
pub open spec fn replay_model(s: Ledger, steps: Seq<TraceStep>) -> Result<Ledger, (int, OracleError)>
    decreases steps.len(),
{
    if steps.len() == 0 {
        Ok(s)
    } else {
        match replay_model(s, steps.drop_last()) {
            Err(v) => Err(v),
            Ok(t) => match replay_step_model(t, steps.last()) {
                Ok(u) => Ok(u),
                Err(e) => Err((steps.len() - 1, e)),
            },
        }
    }
}

/// Compares a local outcome with the outcome that the trace declares.
fn compare_error(declared: &Option<String>, local: Result<(), BankError>) -> (r: Result<
    (),
    OracleError,
>)
    ensures
        declared is Some && local is Ok ==> r == Err::<(), OracleError>(
            OracleError::Mismatch { declared_failure: true },
        ),
        declared is None && local is Err ==> r == Err::<(), OracleError>(
            OracleError::Mismatch { declared_failure: false },
        ),
        (declared is Some) == (local is Err) ==> r is Ok,
{
    match (declared, local) {
        (Some(_), Ok(())) => Err(OracleError::Mismatch { declared_failure: true }),
        (None, Err(_)) => Err(OracleError::Mismatch { declared_failure: false }),
        _ => Ok(()),
    }
}

/// Replays one step against the local ledger.
pub fn replay_step(state: &mut BankState, step: &TraceStep) -> (r: Result<(), OracleError>)
    requires
        old(state).wf(),
    ensures
        final(state).wf(),
        match replay_step_model(old(state)@, *step) {
            Ok(t) => r is Ok && final(state)@ == t,
            Err(e) => r == Err::<(), OracleError>(e),
        },
{
    let label = &step.action_taken;
    let p = &step.nondet_picks;
    let local = if is_word(label, "init") {
        return Ok(());
    } else if is_word(label, "deposit_action") {
        match (&p.depositor, &p.amount) {
            (Some(d), Some(a)) => state.deposit(d.clone(), a.duplicate()),
            _ => return Err(OracleError::MalformedTrace),
        }
    } else if is_word(label, "withdraw_action") {
        match (&p.withdrawer, &p.amount) {
            (Some(w), Some(a)) => state.withdraw(w.clone(), a.duplicate()),
            _ => return Err(OracleError::MalformedTrace),
        }
    } else if is_word(label, "transfer_action") {
        match (&p.sender, &p.receiver, &p.amount) {
            (Some(f), Some(t), Some(a)) => state.transfer(f.clone(), t.clone(), a.duplicate()),
            _ => return Err(OracleError::MalformedTrace),
        }
    } else if is_word(label, "buy_investment_action") {
        match (&p.buyer, &p.amount) {
            (Some(b), Some(a)) => state.buy_investment(b.clone(), a.duplicate()),
            _ => return Err(OracleError::MalformedTrace),
        }
    } else if is_word(label, "sell_investment_action") {
        match (&p.seller, &p.id) {
            (Some(s), Some(i)) => state.sell_investment(s.clone(), i.duplicate()),
            _ => return Err(OracleError::MalformedTrace),
        }
    } else {
        return Err(OracleError::InvalidActionLabel);
    };
    compare_error(&step.error, local)
}

/// Replays a trace from the ledger of its first step; stops at the first
/// step that is rejected.
pub fn replay(initial: BankState, steps: &Vec<TraceStep>) -> (r: Result<BankState, Violation>)
    requires
        initial.wf(),
    ensures
        match replay_model(initial@, steps@) {
            Ok(t) => r is Ok && r->Ok_0@ == t && r->Ok_0.wf(),
            Err((i, e)) => r is Err && r->Err_0.step == i && r->Err_0.kind == e,
        },
{
    let mut state = initial;
    let mut i: usize = 0;
    while i < steps.len()
        invariant
            i <= steps@.len(),
            state.wf(),
            replay_model(initial@, steps@.take(i as int)) == Ok::<Ledger, (int, OracleError)>(state@),
        decreases steps@.len() - i,
    {
        proof {
            assert(steps@.take(i as int + 1).drop_last() =~= steps@.take(i as int));
        }
        match replay_step(&mut state, &steps[i]) {
            Ok(()) => {},
            Err(e) => {
                proof {
                    assert(replay_model(initial@, steps@.take(i as int + 1)) == Err::<Ledger, (int, OracleError)>((i as int, e)));
                    lemma_replay_stops(initial@, steps@, i as int + 1);
                }
                return Err(Violation { step: i, kind: e });
            },
        }
        i = i + 1;
    }
    proof {
        assert(steps@.take(i as int) =~= steps@);
    }
    Ok(state)
}

/// Once a prefix of the trace is rejected, the whole trace is rejected at
/// the same step.
proof fn lemma_replay_stops(s: Ledger, steps: Seq<TraceStep>, n: int)
    requires
        0 <= n <= steps.len(),
        replay_model(s, steps.take(n)) is Err,
    ensures
        replay_model(s, steps) == replay_model(s, steps.take(n)),
    decreases steps.len() - n,
{
    if n < steps.len() {
        assert(steps.take(n + 1).drop_last() =~= steps.take(n));
        lemma_replay_stops(s, steps, n + 1);
    } else {
        assert(steps.take(n) =~= steps);
    }
}

} // verus!
