//! The life of the store's keeper: it serves commands one at a time until
//! the editor hangs up, then serves what is still queued, then ends.

use vstd::prelude::*;

verus! {

/// Where the keeper stands.
#[derive(Debug, Clone, Copy)]
pub enum ActorState {
    /// Commands are taken as they come.
    Running,
    /// The editor has hung up: no new commands are taken, queued ones are
    /// still served.
    Draining,
    /// All is done.
    Stopped,
}

/// What the keeper sees when it looks up.
#[derive(Debug, Clone, Copy)]
pub enum ActorSignal {
    /// The editor no longer listens for answers.
    Shutdown,
    /// A command is next in the queue.
    CommandReady,
    /// The queue holds nothing.
    QueueEmpty,
}

/// What the keeper does next.
#[derive(Debug, Clone, Copy)]
pub enum ActorStep {
    /// Take the next command, carry it out and send its answer.
    Serve,
    /// The same, for a command that was queued when the editor hung up.
    ServeLeftover,
    /// Close the queue to new commands.
    CloseQueue,
    /// Wait for a command or for the editor to hang up.
    Wait,
    /// End.
    Stop,
}

impl ActorState {
    /// The next state and what to do, for what the keeper sees. The
    /// editor hanging up is looked at before the queue, so it comes first
    /// when both are there.
    pub open spec fn stepped(self, signal: ActorSignal) -> (ActorState, ActorStep) {
        match self {
            ActorState::Running => match signal {
                ActorSignal::Shutdown => (ActorState::Draining, ActorStep::CloseQueue),
                ActorSignal::CommandReady => (ActorState::Running, ActorStep::Serve),
                ActorSignal::QueueEmpty => (ActorState::Running, ActorStep::Wait),
            },
            ActorState::Draining => match signal {
                ActorSignal::CommandReady => (ActorState::Draining, ActorStep::ServeLeftover),
                _ => (ActorState::Stopped, ActorStep::Stop),
            },
            ActorState::Stopped => (ActorState::Stopped, ActorStep::Stop),
        }
    }

    /// What the keeper sees: the editor hanging up counts before anything
    /// in the queue, but only while the keeper is running.
    pub open spec fn sees(self, hung_up: bool, queued: nat) -> ActorSignal {
        if self is Running && hung_up {
            ActorSignal::Shutdown
        } else if queued > 0 {
            ActorSignal::CommandReady
        } else {
            ActorSignal::QueueEmpty
        }
    }

    /// How many of `queued` commands are served from here on once the
    /// editor has hung up, given `fuel` looks at the queue.
    pub open spec fn served_after_hangup(self, queued: nat, fuel: nat) -> nat
        decreases fuel,
    {
        if fuel == 0 {
            0
        } else {
            let (next, step) = self.stepped(self.sees(true, queued));
            match step {
                ActorStep::Serve | ActorStep::ServeLeftover => 1 + next.served_after_hangup(
                    (queued - 1) as nat,
                    (fuel - 1) as nat,
                ),
                ActorStep::Stop => 0,
                _ => next.served_after_hangup(queued, (fuel - 1) as nat),
            }
        }
    }

    pub fn new() -> (state: Self)
        ensures
            state is Running,
    {
        ActorState::Running
    }

    /// Decides what to do next.
    pub fn step(&mut self, signal: ActorSignal) -> (step: ActorStep)
        ensures
            (*final(self), step) == old(self).stepped(signal),
    {
        let (next, step) = match *self {
            ActorState::Running => match signal {
                ActorSignal::Shutdown => (ActorState::Draining, ActorStep::CloseQueue),
                ActorSignal::CommandReady => (ActorState::Running, ActorStep::Serve),
                ActorSignal::QueueEmpty => (ActorState::Running, ActorStep::Wait),
            },
            ActorState::Draining => match signal {
                ActorSignal::CommandReady => (ActorState::Draining, ActorStep::ServeLeftover),
                _ => (ActorState::Stopped, ActorStep::Stop),
            },
            ActorState::Stopped => (ActorState::Stopped, ActorStep::Stop),
        };
        *self = next;
        step
    }

    /// Tells what the keeper sees.
    pub fn look(&self, hung_up: bool, queued: usize) -> (signal: ActorSignal)
        ensures
            signal == self.sees(hung_up, queued as nat),
    {
        let running = match self {
            ActorState::Running => true,
            _ => false,
        };
        if running && hung_up {
            ActorSignal::Shutdown
        } else if queued > 0 {
            ActorSignal::CommandReady
        } else {
            ActorSignal::QueueEmpty
        }
    }
}

/// Once the editor has hung up, every command that is still queued is
/// served before the keeper ends, whether the keeper was running or
/// already serving leftovers.
pub proof fn lemma_nothing_queued_is_dropped(state: ActorState, queued: nat, fuel: nat)
    requires
        !(state is Stopped),
        fuel >= queued + 2,
    ensures
        state.served_after_hangup(queued, fuel) == queued,
{
    match state {
        ActorState::Running => {
            lemma_nothing_queued_is_dropped_draining(queued, (fuel - 1) as nat);
        },
        _ => {
            lemma_nothing_queued_is_dropped_draining(queued, fuel);
        },
    }
}

/// The same, for a keeper that is already serving leftovers.
pub proof fn lemma_nothing_queued_is_dropped_draining(queued: nat, fuel: nat)
    requires
        fuel >= queued + 1,
    ensures
        ActorState::Draining.served_after_hangup(queued, fuel) == queued,
    decreases queued,
{
    if queued > 0 {
        lemma_nothing_queued_is_dropped_draining((queued - 1) as nat, (fuel - 1) as nat);
    }
}

} // verus!
