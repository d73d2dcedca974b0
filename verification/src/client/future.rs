//! Awaiting a command.
//!
//! A command goes to the event loop when its future is first polled. After
//! that every poll waits for the result. A caller that drops the future
//! cancels the command, so that the event loop can forget it.

use crate::error::Error;
use vstd::prelude::*;

verus! {

/// What happens to a command's future.
pub enum CommandEvent {
    /// The future is polled.
    Polled,
    /// The event loop's queue took the command, or refused it.
    Sent { accepted: bool },
    /// The future is dropped.
    Dropped,
}

/// What is to be done next.
pub enum CommandAction<T> {
    /// Put the command into the event loop's queue.
    Send(T),
    /// Wait for the command's result.
    Await,
    /// The future is done with this error.
    Fail(Error),
    /// Mark the command as cancelled.
    Cancel,
}

/// The future of a command with handler `T`.
pub struct CommandFuture<T> {
    handler: Option<T>,
}

impl<T> View for CommandFuture<T> {
    type V = Option<T>;

    /// The handler that is still to be sent.
    closed spec fn view(&self) -> Option<T> {
        self.handler
    }
}

/// Whether `action` answers `event` in a future that still has `unsent` to send.
pub open spec fn answers<T>(unsent: Option<T>, event: CommandEvent, action: CommandAction<T>) -> bool {
    match event {
        CommandEvent::Polled => match unsent {
            Some(handler) => action == CommandAction::Send(handler),
            None => action is Await,
        },
        CommandEvent::Sent { accepted: true } => action is Await,
        CommandEvent::Sent { accepted: false } => action matches CommandAction::Fail(error)
            && error is Behaviour && error->Behaviour_0@ == "command channel closed"@,
        CommandEvent::Dropped => action is Cancel,
    }
}

/// What is left to send after `event`.
pub open spec fn unsent_after<T>(unsent: Option<T>, event: CommandEvent) -> Option<T> {
    match event {
        CommandEvent::Polled => None,
        _ => unsent,
    }
}

impl<T> CommandFuture<T> {
    /// A future that has not sent its command yet.
    pub fn new(handler: T) -> (future: Self)
        ensures
            future@ == Some(handler),
    {
        Self { handler: Some(handler) }
    }

    /// Says what is to be done about `event`.
    pub fn step(&mut self, event: CommandEvent) -> (action: CommandAction<T>)
        ensures
            answers(old(self)@, event, action),
            final(self)@ == unsent_after(old(self)@, event),
    {
        match event {
            CommandEvent::Polled => match self.handler.take() {
                Some(handler) => CommandAction::Send(handler),
                None => CommandAction::Await,
            },
            CommandEvent::Sent { accepted } => if accepted {
                CommandAction::Await
            } else {
                CommandAction::Fail(Error::Behaviour("command channel closed".to_owned()))
            },
            CommandEvent::Dropped => CommandAction::Cancel,
        }
    }
}

/// What is left to send after a run of events.
pub open spec fn unsent_after_all<T>(unsent: Option<T>, events: Seq<CommandEvent>) -> Option<T>
    decreases events.len(),
{
    if events.len() == 0 {
        unsent
    } else {
        unsent_after(unsent_after_all(unsent, events.drop_last()), events.last())
    }
}

/// A future that was never polled has not sent its command.
pub proof fn unpolled_future_sends_nothing<T>(handler: T, events: Seq<CommandEvent>)
    requires
        forall|i: int| 0 <= i < events.len() ==> !((#[trigger] events[i]) is Polled),
    ensures
        unsent_after_all(Some(handler), events) == Some(handler),
    decreases events.len(),
{
    if events.len() > 0 {
        let before = events.drop_last();
        assert forall|i: int| 0 <= i < before.len() implies !((#[trigger] before[i]) is Polled) by {
            assert(before[i] == events[i]);
        }
        unpolled_future_sends_nothing(handler, before);
        assert(!(events[events.len() - 1] is Polled));
    }
}

/// A command is sent by the first poll and by no later one, whatever happens
/// in between.
pub proof fn sent_once<T>(handler: T, between: Seq<CommandEvent>, action: CommandAction<T>)
    requires
        answers(
            unsent_after_all(unsent_after(Some(handler), CommandEvent::Polled), between),
            CommandEvent::Polled,
            action,
        ),
    ensures
        action is Await,
{
    nothing_left_stays_so::<T>(between);
}

/// Once nothing is left to send, nothing ever is.
proof fn nothing_left_stays_so<T>(events: Seq<CommandEvent>)
    ensures
        unsent_after_all(None::<T>, events) is None,
    decreases events.len(),
{
    if events.len() > 0 {
        nothing_left_stays_so::<T>(events.drop_last());
    }
}

/// A poll sends what is unsent and waits otherwise; a queue that took the
/// command is waited for, and one that refused it fails the future; a dropped
/// future cancels its command.
pub proof fn every_event_has_one_answer<T>(
    handler: T,
    unsent: Option<T>,
    action: CommandAction<T>,
)
    ensures
        answers(Some(handler), CommandEvent::Polled, action) <==> action == CommandAction::Send(
            handler,
        ),
        answers(None, CommandEvent::Polled, action) <==> action is Await,
        answers(unsent, CommandEvent::Sent { accepted: true }, action) <==> action is Await,
        answers(unsent, CommandEvent::Sent { accepted: false }, action) <==> action is Fail
            && action->Fail_0 is Behaviour && action->Fail_0->Behaviour_0@
            == "command channel closed"@,
        answers(unsent, CommandEvent::Dropped, action) <==> action is Cancel,
{
}

/// Only a poll takes the command out of its future.
pub proof fn only_a_poll_takes_the_command<T>(unsent: Option<T>, event: CommandEvent)
    ensures
        unsent_after(unsent, event) == if event is Polled {
            None
        } else {
            unsent
        },
{
}

} // verus!
