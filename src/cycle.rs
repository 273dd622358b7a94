use crate::error::AgentError;
use crate::payload::{digest_text, generate_payload, proof_text, Payload, SALT_LEN};
use vstd::prelude::*;

verus! {

/// The step of the update cycle that the agent is in.
#[derive(Clone, Copy, Debug, PartialEq, Eq, Structural)]
pub enum Phase {
    Discovering,
    Sending,
    Sleeping,
    Stopped,
}

/// What the agent does next.
#[derive(Debug)]
pub enum Action {
    /// Learn the public address, with retries.
    Discover,
    /// Submit this payload, with retries.
    Send(Payload),
    /// Wait this many seconds before the next cycle.
    Sleep(u64),
    /// Give up: the error ends the agent.
    Stop(AgentError),
}

/// The update loop: discover the address, build and submit the payload, sleep,
/// and again, for ever. A step whose retries are spent ends the agent rather
/// than skipping to the next cycle.
#[derive(Debug)]
pub struct UpdateCycle {
    pub phase: Phase,
    pub poll_seconds: u64,
}

impl UpdateCycle {
    /// A loop that sleeps `poll_seconds` between cycles and starts by
    /// discovering the address.
    pub fn new(poll_seconds: u64) -> (r: (UpdateCycle, Action))
        ensures
            r.0.phase == Phase::Discovering,
            r.0.poll_seconds == poll_seconds,
            r.1 is Discover,
    {
        (UpdateCycle { phase: Phase::Discovering, poll_seconds }, Action::Discover)
    }

    /// The discovery step ended with `outcome`: an address is turned into a
    /// fresh payload to send; an error stops the agent.
    pub fn discovered(&mut self, outcome: Result<String, AgentError>, token: &str, key: &str) -> (a:
        Action)
        requires
            old(self).phase == Phase::Discovering,
        ensures
            final(self).poll_seconds == old(self).poll_seconds,
            outcome is Ok ==> final(self).phase == Phase::Sending,
            outcome matches Ok(ip) ==> (a matches Action::Send(p) && p.status@ == "success"@
                && p.additional@.len() == 2 * SALT_LEN && p.data@ == digest_text(
                proof_text(
                    p.additional@.subrange(0, SALT_LEN as int),
                    token@,
                    ip@,
                    p.additional@.subrange(SALT_LEN as int, 2 * SALT_LEN as int),
                    key@,
                ),
            )),
            outcome is Err ==> final(self).phase == Phase::Stopped,
            outcome matches Err(e) ==> a == Action::Stop(e),
    {
        match outcome {
            Ok(ip) => {
                self.phase = Phase::Sending;
                Action::Send(generate_payload(ip.as_str(), token, key))
            },
            Err(e) => {
                self.phase = Phase::Stopped;
                Action::Stop(e)
            },
        }
    }

    /// The submission step ended with `outcome`: a success leads to the sleep
    /// between cycles; an error stops the agent.
    pub fn sent(&mut self, outcome: Result<(), AgentError>) -> (a: Action)
        requires
            old(self).phase == Phase::Sending,
        ensures
            final(self).poll_seconds == old(self).poll_seconds,
            outcome is Ok ==> final(self).phase == Phase::Sleeping && a == Action::Sleep(
                old(self).poll_seconds,
            ),
            outcome is Err ==> final(self).phase == Phase::Stopped,
            outcome matches Err(e) ==> a == Action::Stop(e),
    {
        match outcome {
            Ok(()) => {
                self.phase = Phase::Sleeping;
                Action::Sleep(self.poll_seconds)
            },
            Err(e) => {
                self.phase = Phase::Stopped;
                Action::Stop(e)
            },
        }
    }

    /// The sleep is over: the next cycle starts with discovery.
    pub fn slept(&mut self) -> (a: Action)
        requires
            old(self).phase == Phase::Sleeping,
        ensures
            final(self).poll_seconds == old(self).poll_seconds,
            final(self).phase == Phase::Discovering,
            a is Discover,
    {
        self.phase = Phase::Discovering;
        Action::Discover
    }
}

} // verus!
