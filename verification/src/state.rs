//! The lifecycle state a supervised run publishes, its mathematical
//! model, and the transition discipline: states only move forward from
//! `Starting` through `PortDetected` to `Ready`, or abort to `Error`, and
//! a terminal state never changes again.

use vstd::prelude::*;
use vstd::string::StringExecFns;
use crate::numfmt::{dec_str_i, fmt_i32};

verus! {

/// Exit information recorded once the child process is observed to end.
#[derive(Clone, Copy, Debug, PartialEq, Eq)]
pub struct TerminationInfo {
    pub code: Option<i32>,
    pub signal: Option<i32>,
}

/// The lifecycle state published to observers, one variant active at a
/// time.
#[derive(Clone, Debug)]
pub enum BackendEventPayload {
    Starting,
    PortDetected { port: u16 },
    Ready { port: u16, base_url: String, log_path: String },
    Error { message: String, details: String, log_path: String, last_logs: String },
}

/// The mathematical value of a lifecycle state, with the strings as
/// character sequences.
pub enum StateModel {
    Starting,
    PortDetected { port: u16 },
    Ready { port: u16, base_url: Seq<char>, log_path: Seq<char> },
    Error { message: Seq<char>, details: Seq<char>, log_path: Seq<char>, last_logs: Seq<char> },
}

impl View for BackendEventPayload {
    type V = StateModel;

    open spec fn view(&self) -> StateModel {
        match self {
            BackendEventPayload::Starting => StateModel::Starting,
            BackendEventPayload::PortDetected { port } => StateModel::PortDetected {
                port: *port,
            },
            BackendEventPayload::Ready { port, base_url, log_path } => StateModel::Ready {
                port: *port,
                base_url: base_url@,
                log_path: log_path@,
            },
            BackendEventPayload::Error {
                message,
                details,
                log_path,
                last_logs,
            } => StateModel::Error {
                message: message@,
                details: details@,
                log_path: log_path@,
                last_logs: last_logs@,
            },
        }
    }
}

/// How far along the run a state is.
pub open spec fn state_rank(s: StateModel) -> int {
    match s {
        StateModel::Starting => 0,
        StateModel::PortDetected { .. } => 1,
        StateModel::Ready { .. } => 2,
        StateModel::Error { .. } => 2,
    }
}

/// A state the run never leaves.
pub open spec fn is_terminal(s: StateModel) -> bool {
    match s {
        StateModel::Ready { .. } => true,
        StateModel::Error { .. } => true,
        _ => false,
    }
}

/// One legal state transition: forward along `Starting` →
/// `PortDetected` → `Ready`, or an abort to `Error` from a non-terminal
/// state.
pub open spec fn step_allowed(pre: StateModel, post: StateModel) -> bool {
    ||| (pre is Starting && post is PortDetected)
    ||| (pre is Starting && post is Error)
    ||| (pre is PortDetected && post is Ready)
    ||| (pre is PortDetected && post is Error)
}

/// The published states of one run — each equal to its predecessor or
/// one legal transition beyond it — never lose ground.
proof fn lemma_run_monotone_pair(states: Seq<StateModel>, i: int, j: int)
    requires
        0 <= i <= j < states.len(),
        forall|k: int|
            0 <= k < states.len() - 1 ==> (states[k + 1] == states[k] || #[trigger] step_allowed(
                states[k],
                states[k + 1],
            )),
    ensures
        state_rank(states[i]) <= state_rank(states[j]),
        is_terminal(states[i]) ==> states[j] == states[i],
    decreases j - i,
{
    if i < j {
        lemma_run_monotone_pair(states, i, j - 1);
        let k = j - 1;
        assert(states[k + 1] == states[k] || step_allowed(states[k], states[k + 1]));
        assert(states[k + 1] == states[j]);
    }
}

/// The sequence of states one run publishes is a prefix of
/// `Starting, PortDetected, (Ready | Error)`: every state follows its
/// predecessor legally, ranks never decrease, and once a terminal state
/// is reached every later published state repeats it.
pub proof fn lemma_run_monotone(states: Seq<StateModel>)
    requires
        forall|k: int|
            0 <= k < states.len() - 1 ==> (states[k + 1] == states[k] || #[trigger] step_allowed(
                states[k],
                states[k + 1],
            )),
    ensures
        forall|i: int, j: int|
            0 <= i <= j < states.len() ==> state_rank(states[i]) <= state_rank(states[j]),
        forall|i: int, j: int|
            0 <= i <= j < states.len() && is_terminal(states[i]) ==> states[j] == states[i],
{
    assert forall|i: int, j: int| 0 <= i <= j < states.len() implies state_rank(states[i])
        <= state_rank(states[j]) && (is_terminal(states[i]) ==> states[j] == states[i]) by {
        lemma_run_monotone_pair(states, i, j);
    }
}

/// The human-readable exit descriptor that is appended to error details
/// once the child's termination has been observed.
pub open spec fn exit_descriptor_spec(t: TerminationInfo) -> Seq<char> {
    match (t.code, t.signal) {
        (Option::Some(c), Option::Some(s)) => "exit code: "@ + dec_str_i(c as int)
            + ", signal: "@ + dec_str_i(s as int),
        (Option::Some(c), Option::None) => "exit code: "@ + dec_str_i(c as int),
        (Option::None, Option::Some(s)) => "signal: "@ + dec_str_i(s as int),
        (Option::None, Option::None) => "exit: unknown"@,
    }
}

/// Renders the exit descriptor for observed termination information.
pub fn exit_descriptor(t: &TerminationInfo) -> (r: String)
    ensures
        r@ == exit_descriptor_spec(*t),
{
    match (t.code, t.signal) {
        (Option::Some(c), Option::Some(s)) => {
            let mut r = String::from_str("exit code: ");
            let a = fmt_i32(c);
            r.append(a.as_str());
            r.append(", signal: ");
            let b = fmt_i32(s);
            r.append(b.as_str());
            proof {
                assert(r@ =~= exit_descriptor_spec(*t));
            }
            r
        },
        (Option::Some(c), Option::None) => {
            let mut r = String::from_str("exit code: ");
            let a = fmt_i32(c);
            r.append(a.as_str());
            r
        },
        (Option::None, Option::Some(s)) => {
            let mut r = String::from_str("signal: ");
            let a = fmt_i32(s);
            r.append(a.as_str());
            r
        },
        (Option::None, Option::None) => String::from_str("exit: unknown"),
    }
}

} // verus!
