//! The bounded queue of commands between the control requests and whoever
//! carries them out.

use vstd::prelude::*;

use embassy_sync::blocking_mutex::raw::CriticalSectionRawMutex;
use embassy_sync::channel::Channel;

use crate::protocol::Command;

verus! {

/// Commands that the queue holds.
pub const COMMAND_SLOTS: usize = 8;

/// A bounded queue of commands.
#[verifier::external_body]
pub struct CommandChannel {
    channel: Channel<CriticalSectionRawMutex, Command, COMMAND_SLOTS>,
}

/// The commands in the queue, the one that has waited longest first.
pub uninterp spec fn commands_in(queue: CommandChannel) -> Seq<Command>;

impl View for CommandChannel {
    type V = Seq<Command>;

    open spec fn view(&self) -> Seq<Command> {
        commands_in(*self)
    }
}

/// `embassy_sync::channel::Channel::new`: a channel with nothing in it.
#[verifier::external_body]
fn channel_new() -> (queue: CommandChannel)
    ensures
        commands_in(queue) == Seq::<Command>::empty(),
{
    CommandChannel { channel: Channel::new() }
}

/// `embassy_sync::channel::Channel::try_send`: puts the command behind the
/// others, or refuses it if the channel is full. Nobody else uses the channel
/// meanwhile.
#[verifier::external_body]
fn channel_try_send(queue: &mut CommandChannel, command: Command) -> (taken: bool)
    ensures
        taken == (commands_in(*old(queue)).len() < COMMAND_SLOTS),
        commands_in(*final(queue)) == if taken {
            commands_in(*old(queue)).push(command)
        } else {
            commands_in(*old(queue))
        },
{
    queue.channel.try_send(command).is_ok()
}

/// `embassy_sync::channel::Channel::try_receive`: takes the command in front,
/// if there is one. Nobody else uses the channel meanwhile.
#[verifier::external_body]
fn channel_try_receive(queue: &mut CommandChannel) -> (command: Option<Command>)
    ensures
        commands_in(*old(queue)).len() == 0 ==> {
            &&& command is None
            &&& commands_in(*final(queue)) == commands_in(*old(queue))
        },
        commands_in(*old(queue)).len() > 0 ==> {
            &&& command == Some(commands_in(*old(queue))[0])
            &&& commands_in(*final(queue)) == commands_in(*old(queue)).skip(1)
        },
{
    queue.channel.try_receive().ok()
}

/// `embassy_sync::channel::Channel::free_capacity`: the room that is left.
#[verifier::external_body]
fn channel_free_capacity(queue: &CommandChannel) -> (n: usize)
    ensures
        n == COMMAND_SLOTS - commands_in(*queue).len(),
{
    queue.channel.free_capacity()
}

/// `embassy_sync::channel::Channel::clear`: nothing is left in it.
#[verifier::external_body]
fn channel_clear(queue: &mut CommandChannel)
    ensures
        commands_in(*final(queue)) == Seq::<Command>::empty(),
{
    queue.channel.clear()
}

impl CommandChannel {
    pub fn new() -> (queue: Self)
        ensures
            queue@ == Seq::<Command>::empty(),
    {
        channel_new()
    }

    /// Puts a command in, or gives it back if there is no room.
    pub fn try_send(&mut self, command: Command) -> (r: Result<(), Command>)
        ensures
            old(self)@.len() < COMMAND_SLOTS ==> {
                &&& r is Ok
                &&& final(self)@ == old(self)@.push(command)
            },
            old(self)@.len() >= COMMAND_SLOTS ==> {
                &&& r == Err::<(), Command>(command)
                &&& final(self)@ == old(self)@
            },
    {
        if channel_try_send(self, command) {
            Ok(())
        } else {
            Err(command)
        }
    }

    /// Takes the command that has waited longest, if there is one.
    pub fn try_receive(&mut self) -> (command: Option<Command>)
        ensures
            match command {
                Some(c) => {
                    &&& old(self)@.len() > 0
                    &&& c == old(self)@[0]
                    &&& final(self)@ == old(self)@.skip(1)
                },
                None => old(self)@.len() == 0 && final(self)@ == old(self)@,
            },
    {
        channel_try_receive(self)
    }

    /// How many more commands there is room for.
    pub fn free_capacity(&self) -> (n: usize)
        ensures
            n == COMMAND_SLOTS - self@.len(),
    {
        channel_free_capacity(self)
    }

    /// Throws away what is in it.
    pub fn clear(&mut self)
        ensures
            final(self)@ == Seq::<Command>::empty(),
    {
        channel_clear(self)
    }
}

} // verus!
