//! The supervisor's core: the shared run state — lifecycle state, log
//! ring, termination record, one-shot port handoff — and the decisions
//! the supervision tasks make on each child event.  The host spawns the
//! child, feeds its stream events in, publishes every state this core
//! produces, and performs the sleeps and probes it calls for.

use vstd::prelude::*;
use vstd::string::{StrSliceExecFns, StringExecFns};
use crate::health::{health_timeout_text, probe_diagnostic_text, HealthBackoff};
use crate::logring::{join_lines, ring_push, LogRing, LOG_RING_MAX_LINES};
use crate::numfmt::{dec_str, fmt_opt_i32, fmt_u64, opt_i32_debug};
use crate::port::{bytes_to_line, parse_port_from_stdout_line, parse_port_spec, trim_line_ends,
    utf8_lossy_of};
use crate::state::{exit_descriptor, exit_descriptor_spec, is_terminal, step_allowed,
    BackendEventPayload, StateModel, TerminationInfo};

verus! {

/// How long the startup sequence waits for the port announcement, in
/// milliseconds.
pub const PORT_DETECT_TIMEOUT_MS: u64 = 15000;

/// One event from the child's interleaved output stream, as the host
/// observes it.
pub enum ChildEvent {
    /// A line of standard output, as raw bytes without framing.
    Stdout(Vec<u8>),
    /// A line of standard error, as raw bytes without framing.
    Stderr(Vec<u8>),
    /// A failure reported by the stream itself.
    StreamError(String),
    /// The child terminated with the given exit code and signal.
    Terminated(Option<i32>, Option<i32>),
}

/// What handling one stream event decided: the line appended to the log
/// ring (for the host to persist durably as well), the port handed to
/// the startup sequence (at most once per run), and whether consumption
/// of the stream ends.
pub struct EventOutcome {
    pub appended: Option<String>,
    pub port: Option<u16>,
    pub ended: bool,
}

/// A stdout line as it appears in the log.
pub open spec fn stdout_tagged(line: Seq<char>) -> Seq<char> {
    "[stdout] "@ + line
}

/// A stderr line as it appears in the log.
pub open spec fn stderr_tagged(line: Seq<char>) -> Seq<char> {
    "[stderr] "@ + line
}

/// A stream failure as it appears in the log.
pub open spec fn error_tagged(err: Seq<char>) -> Seq<char> {
    "[error] "@ + err
}

/// The log line recording the child's termination.
pub open spec fn terminated_line(code: Option<i32>, signal: Option<i32>) -> Seq<char> {
    "[process] terminated (code="@ + opt_i32_debug(code) + ", signal="@ + opt_i32_debug(signal)
        + ")"@
}

/// The base URL of a backend that reported healthy on `port`.
pub open spec fn base_url_text(port: u16) -> Seq<char> {
    "http://127.0.0.1:"@ + dec_str(port as int)
}

/// Error details enriched with the exit descriptor once termination has
/// been observed.
pub open spec fn enriched_details(details: Seq<char>, term: Option<TerminationInfo>) -> Seq<
    char,
> {
    match term {
        Option::None => details,
        Option::Some(t) => details + "\n"@ + exit_descriptor_spec(t),
    }
}

/// The failure text used when the child exits while health polling is
/// still under way.
pub open spec fn exited_during_startup_text(t: TerminationInfo) -> Seq<char> {
    "Backend exited during startup ("@ + exit_descriptor_spec(t) + ")"@
}

/// Renders the failure text for a child that exited during health
/// polling.
pub fn exited_during_startup_message(t: &TerminationInfo) -> (r: String)
    ensures
        r@ == exited_during_startup_text(*t),
{
    let mut r = String::from_str("Backend exited during startup (");
    let d = exit_descriptor(t);
    r.append(d.as_str());
    r.append(")");
    proof {
        assert(r@ =~= exited_during_startup_text(*t));
    }
    r
}

/// The supervisor's shared run state.
pub struct SupervisorCore {
    log_path: String,
    ring: LogRing,
    state: BackendEventPayload,
    termination: Option<TerminationInfo>,
    port_sent: bool,
}

impl SupervisorCore {
    /// The current lifecycle state.
    pub closed spec fn spec_state(&self) -> StateModel {
        self.state@
    }

    /// The lines the log ring retains, oldest first.
    pub closed spec fn spec_ring(&self) -> Seq<Seq<char>> {
        self.ring@
    }

    /// The recorded termination of the child, once observed.
    pub closed spec fn spec_termination(&self) -> Option<TerminationInfo> {
        self.termination
    }

    /// Whether the detected port has already been handed over.
    pub closed spec fn spec_port_sent(&self) -> bool {
        self.port_sent
    }

    /// The durable log file's location, for display.
    pub closed spec fn spec_log_path(&self) -> Seq<char> {
        self.log_path@
    }

    /// The core is well formed: its ring is within bounds.
    pub open spec fn wf(&self) -> bool {
        self.spec_ring().len() <= LOG_RING_MAX_LINES
    }

    /// A fresh core for one run: state `Starting`, an empty ring, no
    /// termination observed, the port not yet handed over.
    pub fn new(log_path: String) -> (r: SupervisorCore)
        ensures
            r.wf(),
            r.spec_state() is Starting,
            r.spec_ring() =~= Seq::<Seq<char>>::empty(),
            r.spec_termination() is None,
            !r.spec_port_sent(),
            r.spec_log_path() == log_path@,
    {
        SupervisorCore {
            log_path,
            ring: LogRing::new(),
            state: BackendEventPayload::Starting,
            termination: Option::None,
            port_sent: false,
        }
    }

    /// The durable log file's location as a string.
    pub fn log_path_string(&self) -> (r: String)
        ensures
            r@ == self.spec_log_path(),
    {
        self.log_path.clone()
    }

    /// A copy of the current lifecycle state.
    pub fn state(&self) -> (r: BackendEventPayload)
        ensures
            r@ == self.spec_state(),
    {
        match &self.state {
            BackendEventPayload::Starting => BackendEventPayload::Starting,
            BackendEventPayload::PortDetected { port } => BackendEventPayload::PortDetected {
                port: *port,
            },
            BackendEventPayload::Ready { port, base_url, log_path } => BackendEventPayload::Ready {
                port: *port,
                base_url: base_url.clone(),
                log_path: log_path.clone(),
            },
            BackendEventPayload::Error {
                message,
                details,
                log_path,
                last_logs,
            } => BackendEventPayload::Error {
                message: message.clone(),
                details: details.clone(),
                log_path: log_path.clone(),
                last_logs: last_logs.clone(),
            },
        }
    }

    /// Stores a state directly; only transitions the state machine
    /// allows, or re-publishing the current state, are accepted.
    pub fn set_state(&mut self, state: BackendEventPayload)
        requires
            state@ == old(self).spec_state() || step_allowed(old(self).spec_state(), state@),
        ensures
            final(self).spec_state() == state@,
            final(self).spec_ring() == old(self).spec_ring(),
            final(self).spec_termination() == old(self).spec_termination(),
            final(self).spec_port_sent() == old(self).spec_port_sent(),
            final(self).spec_log_path() == old(self).spec_log_path(),
    {
        self.state = state;
    }

    /// The retained log lines joined with newlines, oldest first.
    pub fn last_logs_string(&self) -> (r: String)
        ensures
            r@ == join_lines(self.spec_ring()),
    {
        self.ring.snapshot()
    }

    /// The recorded termination of the child, if observed yet.
    pub fn termination(&self) -> (r: Option<TerminationInfo>)
        ensures
            r == self.spec_termination(),
    {
        self.termination
    }

    /// Handles one event of the child's output stream: logs it, detects
    /// the port on stdout until one has been handed over, records
    /// termination.
    pub fn on_child_event(&mut self, ev: ChildEvent) -> (out: EventOutcome)
        requires
            old(self).wf(),
        ensures
            final(self).wf(),
            final(self).spec_state() == old(self).spec_state() || step_allowed(
                old(self).spec_state(),
                final(self).spec_state(),
            ),
            match ev {
                ChildEvent::Stdout(bytes) => stdout_event_ok(*old(self), *final(self), bytes@, out),
                ChildEvent::Stderr(bytes) => stderr_event_ok(*old(self), *final(self), bytes@, out),
                ChildEvent::StreamError(err) => stream_error_event_ok(
                    *old(self),
                    *final(self),
                    err@,
                    out,
                ),
                ChildEvent::Terminated(code, signal) => terminated_event_ok(
                    *old(self),
                    *final(self),
                    code,
                    signal,
                    out,
                ),
            },
    {
        match ev {
            ChildEvent::Stdout(bytes) => {
                let line = bytes_to_line(bytes.as_slice());
                let mut appended: Option<String> = Option::None;
                if !line.as_str().is_empty() {
                    let mut tagged = String::from_str("[stdout] ");
                    tagged.append(line.as_str());
                    let persisted = tagged.clone();
                    self.ring.push(tagged);
                    appended = Option::Some(persisted);
                }
                let mut port: Option<u16> = Option::None;
                if !self.port_sent {
                    if let Option::Some(p) = parse_port_from_stdout_line(line.as_str()) {
                        self.port_sent = true;
                        port = Option::Some(p);
                        if matches!(self.state, BackendEventPayload::Starting) {
                            self.state = BackendEventPayload::PortDetected { port: p };
                        }
                    }
                }
                EventOutcome { appended, port, ended: false }
            },
            ChildEvent::Stderr(bytes) => {
                let line = bytes_to_line(bytes.as_slice());
                let mut appended: Option<String> = Option::None;
                if !line.as_str().is_empty() {
                    let mut tagged = String::from_str("[stderr] ");
                    tagged.append(line.as_str());
                    let persisted = tagged.clone();
                    self.ring.push(tagged);
                    appended = Option::Some(persisted);
                }
                EventOutcome { appended, port: Option::None, ended: false }
            },
            ChildEvent::StreamError(err) => {
                let mut tagged = String::from_str("[error] ");
                tagged.append(err.as_str());
                let persisted = tagged.clone();
                self.ring.push(tagged);
                EventOutcome { appended: Option::Some(persisted), port: Option::None, ended: false }
            },
            ChildEvent::Terminated(code, signal) => {
                if self.termination.is_none() {
                    self.termination = Option::Some(TerminationInfo { code, signal });
                }
                let mut line = String::from_str("[process] terminated (code=");
                let a = fmt_opt_i32(&code);
                line.append(a.as_str());
                line.append(", signal=");
                let b = fmt_opt_i32(&signal);
                line.append(b.as_str());
                line.append(")");
                proof {
                    assert(line@ =~= terminated_line(code, signal));
                }
                let persisted = line.clone();
                self.ring.push(line);
                EventOutcome { appended: Option::Some(persisted), port: Option::None, ended: true }
            },
        }
    }

    /// Aborts the run: moves to `Error` with the given message, the
    /// details enriched with any recorded exit descriptor, the log
    /// path, and a snapshot of the ring.
    fn fail(&mut self, message: String, details: String)
        requires
            old(self).wf(),
            !is_terminal(old(self).spec_state()),
        ensures
            final(self).wf(),
            failed_with(*old(self), *final(self), message@, details@),
    {
        let mut details_out = details;
        if let Option::Some(t) = self.termination {
            details_out.append("\n");
            let d = exit_descriptor(&t);
            details_out.append(d.as_str());
            proof {
                assert(details_out@ =~= enriched_details(details@, self.spec_termination()));
            }
        }
        let last_logs = self.ring.snapshot();
        let log_path = self.log_path.clone();
        self.state = BackendEventPayload::Error {
            message,
            details: details_out,
            log_path,
            last_logs,
        };
    }

    /// No candidate executable could be spawned; the run ends before
    /// any output is consumed.
    pub fn on_spawn_failure(&mut self, err: String)
        requires
            old(self).wf(),
            !is_terminal(old(self).spec_state()),
        ensures
            final(self).wf(),
            failed_with(
                *old(self),
                *final(self),
                "Backend spawn failed"@,
                "Failed to spawn backend sidecar: "@ + err@,
            ),
    {
        let mut details = String::from_str("Failed to spawn backend sidecar: ");
        details.append(err.as_str());
        self.fail(String::from_str("Backend spawn failed"), details);
    }

    /// The output stream ended before any port announcement was seen.
    pub fn on_stream_ended_before_port(&mut self)
        requires
            old(self).wf(),
            !is_terminal(old(self).spec_state()),
        ensures
            final(self).wf(),
            failed_with(
                *old(self),
                *final(self),
                "Backend exited before reporting port"@,
                "Backend process ended before printing DEVWATCHMAN_PORT=<port> on stdout."@,
            ),
    {
        self.fail(
            String::from_str("Backend exited before reporting port"),
            String::from_str("Backend process ended before printing DEVWATCHMAN_PORT=<port> on stdout."),
        );
    }

    /// The port-detection window closed with the stream still open and
    /// no port seen.
    pub fn on_port_detection_timeout(&mut self)
        requires
            old(self).wf(),
            !is_terminal(old(self).spec_state()),
        ensures
            final(self).wf(),
            failed_with(
                *old(self),
                *final(self),
                "Backend port detection timed out"@,
                "Didn't see DEVWATCHMAN_PORT=<port> on stdout within 15s."@,
            ),
    {
        self.fail(
            String::from_str("Backend port detection timed out"),
            String::from_str("Didn't see DEVWATCHMAN_PORT=<port> on stdout within 15s."),
        );
    }

    /// Health polling exhausted its deadline: the run fails with the
    /// timeout text as its message and the last probe diagnostic as its
    /// details.
    pub fn on_health_deadline_exceeded(&mut self, backoff: &HealthBackoff)
        requires
            old(self).wf(),
            !is_terminal(old(self).spec_state()),
        ensures
            final(self).wf(),
            failed_with(
                *old(self),
                *final(self),
                health_timeout_text(backoff.last_err@),
                probe_diagnostic_text(backoff.last_err@),
            ),
    {
        let message = backoff.timeout_text();
        let details = if backoff.last_err.as_str().is_empty() {
            String::from_str("no response")
        } else {
            backoff.last_err.clone()
        };
        self.fail(message, details);
    }

    /// The child was observed to exit while health polling was still
    /// under way: the run fails with the exit information in its
    /// message and details.
    pub fn on_exited_during_startup(&mut self)
        requires
            old(self).wf(),
            !is_terminal(old(self).spec_state()),
            old(self).spec_termination() is Some,
        ensures
            final(self).wf(),
            exited_failure_ok(*old(self), *final(self)),
    {
        let t = self.termination.unwrap();
        let message = exited_during_startup_message(&t);
        let details = exit_descriptor(&t);
        self.fail(message, details);
    }

    /// A probe reported the backend healthy: the run reaches its
    /// terminal success state.
    pub fn on_ready(&mut self, port: u16)
        requires
            old(self).wf(),
            old(self).spec_state() matches StateModel::PortDetected { port: p } && p == port,
        ensures
            final(self).wf(),
            final(self).spec_state() == (StateModel::Ready {
                port,
                base_url: base_url_text(port),
                log_path: old(self).spec_log_path(),
            }),
            final(self).spec_ring() == old(self).spec_ring(),
            final(self).spec_termination() == old(self).spec_termination(),
            final(self).spec_port_sent() == old(self).spec_port_sent(),
            final(self).spec_log_path() == old(self).spec_log_path(),
            step_allowed(old(self).spec_state(), final(self).spec_state()),
    {
        let mut base_url = String::from_str("http://127.0.0.1:");
        let digits = fmt_u64(port as u64);
        base_url.append(digits.as_str());
        let log_path = self.log_path.clone();
        self.state = BackendEventPayload::Ready { port, base_url, log_path };
    }
}

/// What the abort on a child exit during health polling leaves behind:
/// the recorded exit information stands in the message and the details.
pub open spec fn exited_failure_ok(pre: SupervisorCore, post: SupervisorCore) -> bool {
    pre.spec_termination() matches Option::Some(t) ==> failed_with(
        pre,
        post,
        exited_during_startup_text(t),
        exit_descriptor_spec(t),
    )
}

/// What failing the run with `message` and raw `details` leaves behind:
/// the terminal `Error` state carries the message, the details enriched
/// with any exit descriptor, the log path, and the ring snapshot, and
/// nothing else changes.
pub open spec fn failed_with(
    pre: SupervisorCore,
    post: SupervisorCore,
    message: Seq<char>,
    details: Seq<char>,
) -> bool {
    &&& post.spec_state() == (StateModel::Error {
        message,
        details: enriched_details(details, pre.spec_termination()),
        log_path: pre.spec_log_path(),
        last_logs: join_lines(pre.spec_ring()),
    })
    &&& post.spec_ring() == pre.spec_ring()
    &&& post.spec_termination() == pre.spec_termination()
    &&& post.spec_port_sent() == pre.spec_port_sent()
    &&& post.spec_log_path() == pre.spec_log_path()
    &&& step_allowed(pre.spec_state(), post.spec_state())
}

/// What handling one stdout line does: the non-empty line is logged
/// tagged `[stdout]`, and — until a port has been handed over once — a
/// port announcement moves the state forward and yields the port.
pub open spec fn stdout_event_ok(
    pre: SupervisorCore,
    post: SupervisorCore,
    bytes: Seq<u8>,
    out: EventOutcome,
) -> bool {
    let line = utf8_lossy_of(trim_line_ends(bytes));
    &&& post.spec_ring() == if line.len() > 0 {
        ring_push(pre.spec_ring(), stdout_tagged(line))
    } else {
        pre.spec_ring()
    }
    &&& (line.len() > 0 ==> (out.appended matches Option::Some(a) && a@ == stdout_tagged(line)))
    &&& (line.len() == 0 ==> out.appended is None)
    &&& (parse_port_spec(line) matches Option::Some(p) ==> (!pre.spec_port_sent() ==> {
        &&& out.port == Option::Some(p)
        &&& post.spec_port_sent()
        &&& post.spec_state() == if pre.spec_state() is Starting {
            StateModel::PortDetected { port: p }
        } else {
            pre.spec_state()
        }
    }))
    &&& ((pre.spec_port_sent() || parse_port_spec(line) is None) ==> {
        &&& out.port is None
        &&& post.spec_port_sent() == pre.spec_port_sent()
        &&& post.spec_state() == pre.spec_state()
    })
    &&& post.spec_termination() == pre.spec_termination()
    &&& post.spec_log_path() == pre.spec_log_path()
    &&& !out.ended
}

/// What handling one stderr line does: the non-empty line is logged
/// tagged `[stderr]`; nothing else changes.
pub open spec fn stderr_event_ok(
    pre: SupervisorCore,
    post: SupervisorCore,
    bytes: Seq<u8>,
    out: EventOutcome,
) -> bool {
    let line = utf8_lossy_of(trim_line_ends(bytes));
    &&& post.spec_ring() == if line.len() > 0 {
        ring_push(pre.spec_ring(), stderr_tagged(line))
    } else {
        pre.spec_ring()
    }
    &&& (line.len() > 0 ==> (out.appended matches Option::Some(a) && a@ == stderr_tagged(line)))
    &&& (line.len() == 0 ==> out.appended is None)
    &&& out.port is None
    &&& post.spec_state() == pre.spec_state()
    &&& post.spec_port_sent() == pre.spec_port_sent()
    &&& post.spec_termination() == pre.spec_termination()
    &&& post.spec_log_path() == pre.spec_log_path()
    &&& !out.ended
}

/// What a stream failure does: it is logged tagged `[error]`; nothing
/// else changes.
pub open spec fn stream_error_event_ok(
    pre: SupervisorCore,
    post: SupervisorCore,
    err: Seq<char>,
    out: EventOutcome,
) -> bool {
    &&& post.spec_ring() == ring_push(pre.spec_ring(), error_tagged(err))
    &&& (out.appended matches Option::Some(a) && a@ == error_tagged(err))
    &&& out.port is None
    &&& post.spec_state() == pre.spec_state()
    &&& post.spec_port_sent() == pre.spec_port_sent()
    &&& post.spec_termination() == pre.spec_termination()
    &&& post.spec_log_path() == pre.spec_log_path()
    &&& !out.ended
}

/// What the termination event does: the exit information is recorded —
/// once, the first observation wins — a `[process] terminated` line is
/// logged, and consumption of the stream ends.
pub open spec fn terminated_event_ok(
    pre: SupervisorCore,
    post: SupervisorCore,
    code: Option<i32>,
    signal: Option<i32>,
    out: EventOutcome,
) -> bool {
    &&& post.spec_termination() == if pre.spec_termination() is None {
        Option::Some(TerminationInfo { code, signal })
    } else {
        pre.spec_termination()
    }
    &&& post.spec_ring() == ring_push(pre.spec_ring(), terminated_line(code, signal))
    &&& (out.appended matches Option::Some(a) && a@ == terminated_line(code, signal))
    &&& out.port is None
    &&& post.spec_state() == pre.spec_state()
    &&& post.spec_port_sent() == pre.spec_port_sent()
    &&& post.spec_log_path() == pre.spec_log_path()
    &&& out.ended
}

} // verus!
