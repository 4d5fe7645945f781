//! The connection lifecycle and the reconnect-and-retry-once policy.
//!
//! A connection is opened (transport established, greeting discarded,
//! optional password exchange, binary limit negotiated) and then serves
//! one command exchange at a time. When a response line matches no
//! recognized shape the connection is desynchronized: it is reopened
//! once and the same command is resent once; a second desynchronization
//! is fatal. A server-side `ACK` is a command-level error only and
//! never reopens the connection.

use vstd::prelude::*;
use crate::error::MpdError;

verus! {

/// The lifecycle model of one connection: how many times its transport
/// has been opened, and whether the handshake has completed. The
/// surrounding I/O layer records each completed open and each teardown
/// here; the retry policy below never touches the generation itself.
pub struct ConnState {
    pub generation: u64,
    pub ready: bool,
}

impl ConnState {
    /// A connection whose transport has never been opened.
    pub fn new() -> (r: Self)
        ensures
            r.generation == 0,
            !r.ready,
    {
        ConnState { generation: 0, ready: false }
    }

    /// Records one completed open and handshake.
    pub fn note_opened(&mut self)
        requires
            old(self).generation < u64::MAX,
        ensures
            final(self).generation == old(self).generation + 1,
            final(self).ready,
    {
        self.generation = self.generation + 1;
        self.ready = true;
    }

    /// Records a teardown; the generation stands until the next open.
    pub fn note_closed(&mut self)
        ensures
            final(self).generation == old(self).generation,
            !final(self).ready,
    {
        self.ready = false;
    }
}

/// How one attempt at a command exchange ended, as seen by the decoder
/// and the transport.
pub enum CommandOutcome {
    /// A complete response was decoded (with or without a payload).
    Completed,
    /// The daemon answered `ACK`; the message is carried verbatim.
    Refused { message: String },
    /// A response line matched no recognized shape.
    Desynced,
    /// The transport itself failed to read or write.
    TransportFailed,
}

/// What the caller of the policy must do next.
pub enum NextAction {
    /// Hand the decoded response to the caller.
    Deliver,
    /// Surface this error to the caller.
    Fail { error: MpdError },
    /// Reopen the transport (a fresh open and handshake), then resend
    /// the same command once.
    ReconnectRetry,
}

/// Whether the single permitted retry has been spent for the command
/// exchange in progress.
pub struct RetryState {
    pub retried: bool,
}

/// The retry policy as a pure transition: a desynchronization is
/// answered with one reconnect-and-resend, a second one is a fatal
/// connection error; an `ACK` or a transport failure is surfaced at
/// once; a complete response is delivered.
pub open spec fn decide_spec(retried: bool, outcome: CommandOutcome) -> (bool, NextAction) {
    match outcome {
        CommandOutcome::Completed => (retried, NextAction::Deliver),
        CommandOutcome::Refused { message } => (
            retried,
            NextAction::Fail { error: MpdError::Server(message) },
        ),
        CommandOutcome::TransportFailed => (
            retried,
            NextAction::Fail { error: MpdError::Connection },
        ),
        CommandOutcome::Desynced => if !retried {
            (true, NextAction::ReconnectRetry)
        } else {
            (retried, NextAction::Fail { error: MpdError::Connection })
        },
    }
}

impl RetryState {
    /// A fresh exchange: no retry spent yet.
    pub fn new() -> (r: Self)
        ensures
            !r.retried,
    {
        RetryState { retried: false }
    }

    /// Applies the retry policy to one attempt's outcome.
    pub fn decide(&mut self, outcome: CommandOutcome) -> (action: NextAction)
        ensures
            final(self).retried == decide_spec(old(self).retried, outcome).0,
            action == decide_spec(old(self).retried, outcome).1,
    {
        match outcome {
            CommandOutcome::Completed => NextAction::Deliver,
            CommandOutcome::Refused { message } => NextAction::Fail {
                error: MpdError::Server(message),
            },
            CommandOutcome::TransportFailed => NextAction::Fail { error: MpdError::Connection },
            CommandOutcome::Desynced => {
                if !self.retried {
                    self.retried = true;
                    NextAction::ReconnectRetry
                } else {
                    NextAction::Fail { error: MpdError::Connection }
                }
            },
        }
    }
}

/// How a whole command exchange ends.
pub enum ExchangeEnd {
    /// A response was delivered to the caller.
    Delivered,
    /// An error was surfaced to the caller.
    Surfaced(MpdError),
    /// The script of outcomes ran out while the policy still wanted to
    /// retry.
    Starved,
}

/// Runs one command exchange against a script of attempt outcomes:
/// each attempt sends the command once and ends with the script's next
/// outcome; a reconnect costs one additional open. Returns how the
/// exchange ends, the number of sends, the number of reopens, and the
/// connection generation afterwards.
pub open spec fn run_exchange(outcomes: Seq<CommandOutcome>, retried: bool, generation: int) -> (
    ExchangeEnd,
    int,
    int,
    int,
)
    decreases outcomes.len(),
{
    if outcomes.len() == 0 {
        (ExchangeEnd::Starved, 0, 0, generation)
    } else {
        let st = decide_spec(retried, outcomes.first());
        match st.1 {
            NextAction::Deliver => (ExchangeEnd::Delivered, 1, 0, generation),
            NextAction::Fail { error } => (ExchangeEnd::Surfaced(error), 1, 0, generation),
            NextAction::ReconnectRetry => {
                let rest = run_exchange(outcomes.drop_first(), st.0, generation + 1);
                (rest.0, 1 + rest.1, 1 + rest.2, rest.3)
            },
        }
    }
}

/// A single desynchronization followed by a clean attempt delivers the
/// response with exactly one extra send and exactly one reopen,
/// whatever would have come after.
pub proof fn lemma_single_desync_recovers(rest: Seq<CommandOutcome>, generation: int)
    ensures
        run_exchange(seq![CommandOutcome::Desynced, CommandOutcome::Completed] + rest, false, generation)
            == (ExchangeEnd::Delivered, 2int, 1int, generation + 1),
{
    let script = seq![CommandOutcome::Desynced, CommandOutcome::Completed] + rest;
    assert(script.first() == CommandOutcome::Desynced);
    assert(script.drop_first() =~= seq![CommandOutcome::Completed] + rest);
    assert(script.drop_first().first() == CommandOutcome::Completed);
    assert(run_exchange(script.drop_first(), true, generation + 1) == (
        ExchangeEnd::Delivered,
        1int,
        0int,
        generation + 1,
    ));
}

/// Two desynchronizations in a row surface a fatal connection error
/// after the single retry — one extra send, one reopen, and no third
/// attempt, whatever the script would have offered next.
pub proof fn lemma_double_desync_fatal(rest: Seq<CommandOutcome>, generation: int)
    ensures
        run_exchange(seq![CommandOutcome::Desynced, CommandOutcome::Desynced] + rest, false, generation)
            == (ExchangeEnd::Surfaced(MpdError::Connection), 2int, 1int, generation + 1),
{
    let script = seq![CommandOutcome::Desynced, CommandOutcome::Desynced] + rest;
    assert(script.first() == CommandOutcome::Desynced);
    assert(script.drop_first() =~= seq![CommandOutcome::Desynced] + rest);
    assert(script.drop_first().first() == CommandOutcome::Desynced);
    assert(run_exchange(script.drop_first(), true, generation + 1) == (
        ExchangeEnd::Surfaced(MpdError::Connection),
        1int,
        0int,
        generation + 1,
    ));
}

/// An `ACK` reply never reconnects: the exchange surfaces the server's
/// message at once, with no reopen, and the connection generation is
/// exactly what it was — whether or not the retry was already spent.
pub proof fn lemma_refusal_keeps_generation(
    message: String,
    rest: Seq<CommandOutcome>,
    retried: bool,
    generation: int,
)
    ensures
        run_exchange(seq![CommandOutcome::Refused { message }] + rest, retried, generation) == (
            ExchangeEnd::Surfaced(MpdError::Server(message)),
            1int,
            0int,
            generation,
        ),
{
    let script = seq![CommandOutcome::Refused { message }] + rest;
    assert(script.first() == CommandOutcome::Refused { message });
}

} // verus!
