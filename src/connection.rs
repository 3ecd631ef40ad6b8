//! The decisions of one connection: read a line, parse it, answer each of its
//! commands in order, and shut the socket on every way out.
//!
//! The caller performs each `Action` (reading, writing, shutting down, under
//! one deadline for the whole span) and reports back what happened as an
//! `Event`.
use crate::executor::{execute, listing_for, next_store, reply};
use crate::request::{parse_request, request_of_text, CommandModel, CommandRequest};
use crate::store::Store;
use vstd::prelude::*;
use vstd::string::StringExecFns;

verus! {

/// How long, in seconds, a connection may take from accept to its last
/// response.
pub const CONNECTION_TIMEOUT_SECS: u64 = 10;

/// Where a connection stands.
#[derive(Clone, Copy, Debug, PartialEq, Eq, Structural)]
pub enum Phase {
    /// Waiting for the request line.
    Reading,
    /// Sending one response per command, in order.
    Dispatching,
    /// Waiting for the socket to be shut down.
    Closing,
    /// Done; nothing more happens.
    Closed,
}

/// What happened since the last action.
#[derive(Debug)]
pub enum Event {
    /// The socket was accepted.
    Accepted,
    /// A full line arrived.
    LineRead(String),
    /// The peer closed before sending a full line.
    EndOfInput,
    /// The last response was written and flushed.
    Written,
    /// Reading or writing failed.
    IoFailed,
    /// The connection's deadline passed.
    TimedOut,
    /// The socket was shut down.
    ShutDown,
}

/// What the caller is to do next.
#[derive(Debug)]
pub enum Action {
    /// Read one line.
    ReadLine,
    /// Write this response as one line, and flush.
    Send(String),
    /// Shut the socket down.
    Shutdown,
    /// Stop handling the connection.
    Finish,
}

/// The prefix of the single response to a line that cannot be parsed.
pub open spec fn parse_error_prefix() -> Seq<char> {
    "Error parsing request: "@
}

/// One connection's state.
pub struct Connection {
    phase: Phase,
    pending: Vec<CommandRequest>,
    next: usize,
}

impl Connection {
    pub closed spec fn phase_of(&self) -> Phase {
        self.phase
    }

    /// The commands of the request line being answered.
    pub closed spec fn pending_of(&self) -> Seq<CommandModel> {
        self.pending@.map_values(|c: CommandRequest| c@)
    }

    /// How many of the pending commands have been run.
    pub closed spec fn next_of(&self) -> int {
        self.next as int
    }

    pub closed spec fn wf(&self) -> bool {
        &&& self.next <= self.pending@.len()
        &&& self.phase == Phase::Reading ==> self.pending@.len() == 0
    }

    /// A freshly accepted connection.
    pub fn new() -> (r: Connection)
        ensures
            r.wf(),
            r.phase_of() == Phase::Reading,
            r.pending_of().len() == 0,
    {
        Connection { phase: Phase::Reading, pending: Vec::new(), next: 0 }
    }

    /// Where the connection stands.
    pub fn phase(&self) -> (r: Phase)
        ensures
            r == self.phase_of(),
    {
        self.phase
    }

    fn close(&mut self) -> (r: Action)
        requires
            old(self).wf(),
        ensures
            final(self).wf(),
            final(self).phase_of() == Phase::Closing,
            final(self).pending_of() == old(self).pending_of(),
            final(self).next_of() == old(self).next_of(),
            r is Shutdown,
    {
        self.phase = Phase::Closing;
        Action::Shutdown
    }

    /// Runs the next pending command, or closes when none is left.
    fn dispatch(&mut self, store: &mut Store, now: u64) -> (r: Action)
        requires
            old(self).wf(),
            old(self).phase_of() == Phase::Dispatching,
            old(store).wf(),
        ensures
            final(self).wf(),
            final(store).wf(),
            final(self).pending_of() == old(self).pending_of(),
            old(self).next_of() < old(self).pending_of().len() ==> {
                let c = old(self).pending_of()[old(self).next_of()];
                &&& final(self).phase_of() == Phase::Dispatching
                &&& final(self).next_of() == old(self).next_of() + 1
                &&& final(store)@ == next_store(old(store)@, c, now)
                &&& r is Send
                &&& r->Send_0@ == reply(old(store)@, listing_for(*old(store), c, now), c, now)
            },
            old(self).next_of() >= old(self).pending_of().len() ==> {
                &&& final(self).phase_of() == Phase::Closing
                &&& final(self).next_of() == old(self).next_of()
                &&& final(store)@ == old(store)@
                &&& r is Shutdown
            },
    {
        if self.next < self.pending.len() {
            let response = execute(store, &self.pending[self.next], now);
            self.next = self.next + 1;
            Action::Send(response)
        } else {
            self.close()
        }
    }

    /// Takes the connection one step: from what happened to what to do next.
    /// `store` is touched only to run a command, at instant `now`.
    ///
    /// A line that parses is answered one command at a time, each response
    /// sent only after the previous one was written; one that does not parse
    /// gets a single error response. A timeout, a failed read or write, an
    /// early end of input, or an event that does not fit the phase, leads
    /// straight to shutting the socket down, and a shut-down connection
    /// finishes.
    pub fn step(&mut self, event: Event, store: &mut Store, now: u64) -> (r: Action)
        requires
            old(self).wf(),
            old(store).wf(),
        ensures
            final(self).wf(),
            final(store).wf(),
            // a closed connection stays closed
            old(self).phase_of() == Phase::Closed ==> {
                &&& final(self).phase_of() == Phase::Closed
                &&& final(store)@ == old(store)@
                &&& r is Finish
            },
            // the socket is shut down once, then the handling finishes
            old(self).phase_of() == Phase::Closing ==> {
                &&& (event is ShutDown ==> final(self).phase_of() == Phase::Closed && r is Finish)
                &&& (!(event is ShutDown) ==> final(self).phase_of() == Phase::Closing
                    && r is Shutdown)
                &&& final(store)@ == old(store)@
            },
            // a timeout or failure in an open phase shuts the socket down
            old(self).phase_of() != Phase::Closed && old(self).phase_of() != Phase::Closing && (
            event is TimedOut || event is IoFailed || event is EndOfInput || event is ShutDown)
                ==> {
                &&& final(self).phase_of() == Phase::Closing
                &&& final(store)@ == old(store)@
                &&& r is Shutdown
            },
            old(self).phase_of() == Phase::Reading && event is Accepted ==> {
                &&& final(self).phase_of() == Phase::Reading
                &&& final(store)@ == old(store)@
                &&& r is ReadLine
            },
            // a line that does not parse gets one error response
            old(self).phase_of() == Phase::Reading && event is LineRead && request_of_text(
                event->LineRead_0@,
            ) is None ==> {
                &&& final(self).phase_of() == Phase::Dispatching
                &&& final(self).pending_of().len() == 0
                &&& final(store)@ == old(store)@
                &&& r is Send
                &&& r->Send_0@.len() >= parse_error_prefix().len()
                &&& r->Send_0@.subrange(0, parse_error_prefix().len() as int)
                    == parse_error_prefix()
            },
            // a line that parses is answered command by command, in order
            old(self).phase_of() == Phase::Reading && event is LineRead && request_of_text(
                event->LineRead_0@,
            ) is Some ==> {
                let cs = request_of_text(event->LineRead_0@)->0;
                &&& final(self).pending_of() == cs
                &&& cs.len() == 0 ==> final(self).phase_of() == Phase::Closing && final(store)@
                    == old(store)@ && r is Shutdown
                &&& cs.len() > 0 ==> final(self).phase_of() == Phase::Dispatching
                    && final(self).next_of() == 1 && final(store)@ == next_store(
                    old(store)@,
                    cs[0],
                    now,
                ) && r is Send && r->Send_0@ == reply(
                    old(store)@,
                    listing_for(*old(store), cs[0], now),
                    cs[0],
                    now,
                )
            },
            old(self).phase_of() == Phase::Dispatching && event is Written ==> {
                let k = old(self).next_of();
                let cs = old(self).pending_of();
                &&& final(self).pending_of() == cs
                &&& k < cs.len() ==> final(self).phase_of() == Phase::Dispatching
                    && final(self).next_of() == k + 1 && final(store)@ == next_store(
                    old(store)@,
                    cs[k],
                    now,
                ) && r is Send && r->Send_0@ == reply(
                    old(store)@,
                    listing_for(*old(store), cs[k], now),
                    cs[k],
                    now,
                )
                &&& k >= cs.len() ==> final(self).phase_of() == Phase::Closing && final(store)@
                    == old(store)@ && r is Shutdown
            },
            // any other event shuts the socket down
            (old(self).phase_of() == Phase::Reading && (event is Written))
                || (old(self).phase_of() == Phase::Dispatching && (event is Accepted
                || event is LineRead)) ==> {
                &&& final(self).phase_of() == Phase::Closing
                &&& final(store)@ == old(store)@
                &&& r is Shutdown
            },
    {
        match self.phase {
            Phase::Closed => Action::Finish,
            Phase::Closing => match event {
                Event::ShutDown => {
                    self.phase = Phase::Closed;
                    Action::Finish
                },
                _ => Action::Shutdown,
            },
            Phase::Reading => match event {
                Event::Accepted => Action::ReadLine,
                Event::LineRead(line) => match parse_request(line.as_str()) {
                    Ok(request) => {
                        self.pending = request.commands;
                        self.next = 0;
                        self.phase = Phase::Dispatching;
                        self.dispatch(store, now)
                    },
                    Err(e) => {
                        self.phase = Phase::Dispatching;
                        let mut message = "Error parsing request: ".to_owned();
                        message.append(e.message.as_str());
                        Action::Send(message)
                    },
                },
                _ => self.close(),
            },
            Phase::Dispatching => match event {
                Event::Written => self.dispatch(store, now),
                _ => self.close(),
            },
        }
    }
}

} // verus!
