//! The queue through which every transcription event reaches the one thread
//! that handles it.
use std::collections::VecDeque;

use vstd::prelude::*;

use crate::lifecycle;
use crate::lifecycle::Command;

verus! {

/// Serialises all transcription lifecycle events through a single queue to
/// eliminate race conditions between keyboard shortcuts, signals, and the
/// async transcribe-paste pipeline.
pub struct TranscriptionCoordinator {
    queue: VecDeque<Command>,
    /// Somebody can still send.
    connected: bool,
    /// Somebody still receives.
    open: bool,
}

/// The queue, in the abstract: the commands sent and not yet received, the
/// oldest first.
pub ghost struct QueueSpec {
    pub commands: Seq<lifecycle::CommandSpec>,
    pub connected: bool,
    pub open: bool,
}

impl QueueSpec {
    /// The queue after `command` was sent. Nothing is kept where nobody
    /// receives.
    pub open spec fn sent(self, command: lifecycle::CommandSpec) -> QueueSpec {
        if self.open {
            QueueSpec { commands: self.commands.push(command), ..self }
        } else {
            self
        }
    }
}

/// What the receiver finds.
#[derive(Debug, PartialEq, Eq)]
pub enum Received {
    /// The oldest command.
    Command(Command),
    /// No command yet.
    Empty,
    /// No command, and none will come.
    Disconnected,
}

impl View for TranscriptionCoordinator {
    type V = QueueSpec;

    closed spec fn view(&self) -> QueueSpec {
        QueueSpec {
            commands: self.queue@.map_values(|c: Command| c@),
            connected: self.connected,
            open: self.open,
        }
    }
}

impl TranscriptionCoordinator {
    /// An empty queue with a sender and a receiver.
    pub fn new() -> (res: TranscriptionCoordinator)
        ensures
            res@ == (QueueSpec { commands: Seq::empty(), connected: true, open: true }),
    {
        let res = TranscriptionCoordinator { queue: VecDeque::new(), connected: true, open: true };
        assert(res@.commands =~= Seq::empty());
        res
    }

    fn send(&mut self, command: Command) -> (delivered: bool)
        ensures
            delivered == old(self)@.open,
            final(self)@ == old(self)@.sent(command@),
    {
        if self.open {
            self.queue.push_back(command);
            assert(self@.commands =~= old(self)@.commands.push(command@));
            true
        } else {
            false
        }
    }

    /// Sends a keyboard/signal input event for a transcribe binding.
    /// For signal-based toggles, use `is_pressed: true` and `push_to_talk: false`
    /// (which also makes `hands_free` irrelevant: there is no hold to latch).
    /// Returns whether somebody receives it.
    pub fn send_input(
        &mut self,
        binding_id: &str,
        hotkey_string: &str,
        is_pressed: bool,
        push_to_talk: bool,
        hands_free: bool,
    ) -> (delivered: bool)
        ensures
            delivered == old(self)@.open,
            final(self)@ == old(self)@.sent(
                lifecycle::CommandSpec::Input(
                    (lifecycle::InputSpec {
                        binding_id: binding_id@,
                        hotkey_string: hotkey_string@,
                        is_pressed,
                        push_to_talk,
                        hands_free,
                    }),
                ),
            ),
    {
        self.send(
            Command::Input {
                binding_id: binding_id.to_owned(),
                hotkey_string: hotkey_string.to_owned(),
                is_pressed,
                push_to_talk,
                hands_free,
            },
        )
    }

    /// Asks to convert an in-flight push-to-talk hold into a hands-free
    /// recording. Returns whether somebody receives it.
    pub fn notify_hands_free_latch(&mut self) -> (delivered: bool)
        ensures
            delivered == old(self)@.open,
            final(self)@ == old(self)@.sent(lifecycle::CommandSpec::HandsFreeLatch),
    {
        self.send(Command::HandsFreeLatch)
    }

    /// Tells that the user cancelled. Returns whether somebody receives it.
    pub fn notify_cancel(&mut self, recording_was_active: bool) -> (delivered: bool)
        ensures
            delivered == old(self)@.open,
            final(self)@ == old(self)@.sent(
                lifecycle::CommandSpec::Cancel { recording_was_active },
            ),
    {
        self.send(Command::Cancel { recording_was_active })
    }

    /// Tells that the pipeline is done. Returns whether somebody receives it.
    pub fn notify_processing_finished(&mut self) -> (delivered: bool)
        ensures
            delivered == old(self)@.open,
            final(self)@ == old(self)@.sent(lifecycle::CommandSpec::ProcessingFinished),
    {
        self.send(Command::ProcessingFinished)
    }

    /// Takes the oldest command. That nobody sends any more shows only once
    /// every command has been taken.
    pub fn receive(&mut self) -> (res: Received)
        ensures
            match res {
                Received::Command(command) => {
                    &&& old(self)@.commands.len() > 0
                    &&& command@ == old(self)@.commands[0]
                    &&& final(self)@ == (QueueSpec {
                        commands: old(self)@.commands.skip(1),
                        ..old(self)@
                    })
                },
                Received::Empty => {
                    &&& old(self)@.commands.len() == 0
                    &&& old(self)@.connected
                    &&& final(self)@ == old(self)@
                },
                Received::Disconnected => {
                    &&& old(self)@.commands.len() == 0
                    &&& !old(self)@.connected
                    &&& final(self)@ == old(self)@
                },
            },
    {
        match self.queue.pop_front() {
            Some(command) => {
                assert(self@.commands =~= old(self)@.commands.skip(1));
                Received::Command(command)
            },
            None => {
                assert(self@.commands =~= old(self)@.commands);
                if self.connected {
                    Received::Empty
                } else {
                    Received::Disconnected
                }
            },
        }
    }

    /// The last sender is gone.
    pub fn disconnect(&mut self)
        ensures
            final(self)@ == (QueueSpec { connected: false, ..old(self)@ }),
    {
        self.connected = false;
    }

    /// The receiver is gone, and with it whatever it did not take.
    pub fn close(&mut self)
        ensures
            final(self)@ == (QueueSpec { commands: Seq::empty(), open: false, ..old(self)@ }),
    {
        self.open = false;
        self.queue = VecDeque::new();
        assert(self@.commands =~= Seq::empty());
    }
}

/// The queue after all of `list` was sent, in that order.
pub open spec fn sent_all(queue: QueueSpec, list: Seq<lifecycle::CommandSpec>) -> QueueSpec
    decreases list.len(),
{
    if list.len() == 0 {
        queue
    } else {
        sent_all(queue, list.drop_last()).sent(list.last())
    }
}

/// Commands come out in the order they went in, each exactly once: after any
/// number of sends, what is left to receive is what was left before, followed
/// by what was sent.
pub proof fn commands_keep_their_order(queue: QueueSpec, list: Seq<lifecycle::CommandSpec>)
    requires
        queue.open,
    ensures
        sent_all(queue, list).commands == queue.commands + list,
        sent_all(queue, list).open,
    decreases list.len(),
{
    if list.len() == 0 {
        assert(queue.commands + list =~= queue.commands);
    } else {
        commands_keep_their_order(queue, list.drop_last());
        assert((queue.commands + list.drop_last()).push(list.last()) =~= queue.commands + list);
    }
}

/// Sending appends the command while somebody receives, and does nothing after; it
/// connects and closes nothing.
pub proof fn sending_appends_or_does_nothing(queue: QueueSpec, command: lifecycle::CommandSpec)
    ensures
        queue.sent(command).open == queue.open,
        queue.sent(command).connected == queue.connected,
        queue.open ==> queue.sent(command).commands == queue.commands + seq![command],
        !queue.open ==> queue.sent(command).commands == queue.commands,
{
    assert(queue.commands.push(command) =~= queue.commands + seq![command]);
}

} // verus!
