//! Duplex transport driver: the decisions of the task that owns a
//! connection.
//!
//! The driver moves frames in both directions at once: from the stream into
//! the inbound queue and from the outbound queue into the stream. It suspends
//! on the stream and on the queues, which this crate cannot do. So the
//! driver is written as a list of steps. Each call takes the outcome of the
//! step before and names the next one in a `PipeAction`; whoever runs the
//! driver performs it and comes back with the outcome.
//!
//! One poll of the driver starts with `begin_poll` and ends with an action
//! `Return`.

use crate::codec::LHMFrame;
use vstd::prelude::*;

verus! {

/// How a poll of the driver ends.
#[derive(Clone, Copy, Debug, PartialEq, Eq, Structural)]
pub enum PipeOutcome {
    /// Nothing more can be done now; the driver is polled again later.
    Pending,
    /// The connection is done: the peer closed it, or the last outbound
    /// sender is gone and the write side was closed.
    Finished,
    /// The stream failed; the connection is lost.
    Failed,
}

/// The next thing to do for the driver.
#[derive(Debug, PartialEq, Eq)]
pub enum PipeAction {
    /// Poll the stream for the next inbound frame; report with `on_read`.
    PollRead,
    /// Put this frame on the inbound queue; report with `on_delivered`.
    Deliver(LHMFrame),
    /// Ask the stream whether it takes a frame; report with `on_sink_ready`.
    PollSinkReady,
    /// Start writing this frame; report with `on_sent`.
    StartSend(LHMFrame),
    /// Poll the outbound queue; report with `on_outbound`.
    PollOutbound,
    /// Flush and close the write side; report with `on_close`.
    PollClose,
    /// Flush what was written; report with `on_flush`.
    PollFlush,
    /// End this poll.
    Return(PipeOutcome),
}

/// What polling the stream for an inbound frame gave.
#[derive(Debug, PartialEq, Eq)]
pub enum ReadEvent {
    /// A whole frame was decoded.
    Frame(LHMFrame),
    /// Reading or decoding failed.
    Failed,
    /// The peer closed the stream.
    Closed,
    /// No frame is there yet.
    Pending,
}

/// What polling the outbound queue gave.
#[derive(Debug, PartialEq, Eq)]
pub enum OutboundEvent {
    /// The next frame to write.
    Item(LHMFrame),
    /// Every sender is gone: nothing will ever be written again.
    Closed,
    /// No frame is there yet.
    Pending,
}

/// How far an operation on the write side got.
#[derive(Clone, Copy, Debug, PartialEq, Eq, Structural)]
pub enum Progress {
    /// It is done.
    Ready,
    /// It has to be tried again at the next poll.
    Pending,
    /// It failed.
    Failed,
}

/// The state of the driver between steps.
pub struct PipeFuture {
    /// Whether the inbound queue still has a receiver.
    inbound_open: bool,
    /// An outbound frame that was accepted and waits to be written.
    buffered_item: Option<LHMFrame>,
}

impl PipeFuture {
    /// Whether inbound frames are still read and delivered.
    pub closed spec fn inbound_open(&self) -> bool {
        self.inbound_open
    }

    /// The outbound frame that was accepted and not yet written.
    pub closed spec fn buffered_item(&self) -> Option<LHMFrame> {
        self.buffered_item
    }

    /// The first step on the write side: a frame that waits is written
    /// before another one is taken from the outbound queue.
    pub open spec fn write_step(&self) -> PipeAction {
        if self.buffered_item() is Some {
            PipeAction::PollSinkReady
        } else {
            PipeAction::PollOutbound
        }
    }

    /// A driver for a fresh connection: it reads, and nothing waits to be
    /// written.
    pub fn new() -> (pipe: PipeFuture)
        ensures
            pipe.inbound_open(),
            pipe.buffered_item() is None,
    {
        PipeFuture { inbound_open: true, buffered_item: None }
    }

    /// Whether a frame waits to be written.
    pub fn has_buffered_item(&self) -> (waiting: bool)
        ensures
            waiting == (self.buffered_item() is Some),
    {
        self.buffered_item.is_some()
    }

    fn next_write(&self) -> (action: PipeAction)
        ensures
            action == self.write_step(),
    {
        if self.buffered_item.is_some() {
            PipeAction::PollSinkReady
        } else {
            PipeAction::PollOutbound
        }
    }

    /// Starts a poll: read first while there is someone to read for, then
    /// write.
    pub fn begin_poll(&self) -> (action: PipeAction)
        ensures
            action == if self.inbound_open() {
                PipeAction::PollRead
            } else {
                self.write_step()
            },
    {
        if self.inbound_open {
            PipeAction::PollRead
        } else {
            self.next_write()
        }
    }

    /// Takes the outcome of `PollRead`. A frame goes to the inbound queue;
    /// a failure or the end of the stream ends the connection; with nothing
    /// to read the driver turns to writing.
    pub fn on_read(&self, event: ReadEvent) -> (action: PipeAction)
        ensures
            action == match event {
                ReadEvent::Frame(frame) => PipeAction::Deliver(frame),
                ReadEvent::Failed => PipeAction::Return(PipeOutcome::Failed),
                ReadEvent::Closed => PipeAction::Return(PipeOutcome::Finished),
                ReadEvent::Pending => self.write_step(),
            },
    {
        match event {
            ReadEvent::Frame(frame) => PipeAction::Deliver(frame),
            ReadEvent::Failed => PipeAction::Return(PipeOutcome::Failed),
            // Stream is already closed, cannot read anything more
            ReadEvent::Closed => PipeAction::Return(PipeOutcome::Finished),
            // Nothing yet, move on to writing
            ReadEvent::Pending => self.next_write(),
        }
    }

    /// Takes the outcome of `Deliver`. After a frame was taken the next one
    /// is read; once the receiver is gone reading stops for good.
    pub fn on_delivered(&mut self, accepted: bool) -> (action: PipeAction)
        ensures
            final(self).buffered_item() == old(self).buffered_item(),
            final(self).inbound_open() == (old(self).inbound_open() && accepted),
            action == if accepted {
                PipeAction::PollRead
            } else {
                old(self).write_step()
            },
    {
        if accepted {
            PipeAction::PollRead
        } else {
            // Receiver for messages has dropped, stop reading messages
            self.inbound_open = false;
            self.next_write()
        }
    }

    /// Takes the outcome of `PollSinkReady`. Once the stream takes a frame
    /// the waiting frame leaves the driver to be written; until then it
    /// stays where it is.
    pub fn on_sink_ready(&mut self, progress: Progress) -> (action: PipeAction)
        ensures
            final(self).inbound_open() == old(self).inbound_open(),
            match progress {
                Progress::Ready => match old(self).buffered_item() {
                    Some(frame) => action == PipeAction::StartSend(frame)
                        && final(self).buffered_item() is None,
                    None => action == PipeAction::PollOutbound
                        && final(self).buffered_item() is None,
                },
                Progress::Pending => action == PipeAction::Return(PipeOutcome::Pending)
                    && final(self).buffered_item() == old(self).buffered_item(),
                Progress::Failed => action == PipeAction::Return(PipeOutcome::Failed)
                    && final(self).buffered_item() == old(self).buffered_item(),
            },
    {
        match progress {
            Progress::Ready => match self.buffered_item.take() {
                Some(frame) => PipeAction::StartSend(frame),
                None => PipeAction::PollOutbound,
            },
            Progress::Pending => PipeAction::Return(PipeOutcome::Pending),
            Progress::Failed => PipeAction::Return(PipeOutcome::Failed),
        }
    }

    /// Takes the outcome of `StartSend`.
    pub fn on_sent(&self, sent: bool) -> (action: PipeAction)
        ensures
            action == if sent {
                PipeAction::PollOutbound
            } else {
                PipeAction::Return(PipeOutcome::Failed)
            },
    {
        if sent {
            PipeAction::PollOutbound
        } else {
            PipeAction::Return(PipeOutcome::Failed)
        }
    }

    /// Takes the outcome of `PollOutbound`. A frame is kept until the stream
    /// takes it; when every sender is gone the write side is closed; with
    /// nothing to write the stream is flushed.
    ///
    /// The driver asks for `PollOutbound` only while no frame waits, and the
    /// outcome may only be reported then: a frame that waits is never
    /// overwritten.
    pub fn on_outbound(&mut self, event: OutboundEvent) -> (action: PipeAction)
        requires
            old(self).buffered_item() is None,
        ensures
            final(self).inbound_open() == old(self).inbound_open(),
            match event {
                OutboundEvent::Item(frame) => action == PipeAction::PollSinkReady
                    && final(self).buffered_item() == Some(frame),
                OutboundEvent::Closed => action == PipeAction::PollClose
                    && final(self).buffered_item() is None,
                OutboundEvent::Pending => action == PipeAction::PollFlush
                    && final(self).buffered_item() is None,
            },
    {
        match event {
            // Message ready, set the buffered item
            OutboundEvent::Item(frame) => {
                self.buffered_item = Some(frame);
                PipeAction::PollSinkReady
            },
            // All message senders have dropped, close the pipe
            OutboundEvent::Closed => PipeAction::PollClose,
            OutboundEvent::Pending => PipeAction::PollFlush,
        }
    }

    /// Takes the outcome of `PollClose`.
    pub fn on_close(&self, progress: Progress) -> (action: PipeAction)
        ensures
            action == PipeAction::Return(
                match progress {
                    Progress::Ready => PipeOutcome::Finished,
                    Progress::Pending => PipeOutcome::Pending,
                    Progress::Failed => PipeOutcome::Failed,
                },
            ),
    {
        match progress {
            Progress::Ready => PipeAction::Return(PipeOutcome::Finished),
            Progress::Pending => PipeAction::Return(PipeOutcome::Pending),
            Progress::Failed => PipeAction::Return(PipeOutcome::Failed),
        }
    }

    /// Takes the outcome of `PollFlush`. A flushed stream leaves nothing to
    /// do until the next poll.
    pub fn on_flush(&self, progress: Progress) -> (action: PipeAction)
        ensures
            action == PipeAction::Return(
                match progress {
                    Progress::Ready => PipeOutcome::Pending,
                    Progress::Pending => PipeOutcome::Pending,
                    Progress::Failed => PipeOutcome::Failed,
                },
            ),
    {
        match progress {
            Progress::Ready => PipeAction::Return(PipeOutcome::Pending),
            Progress::Pending => PipeAction::Return(PipeOutcome::Pending),
            Progress::Failed => PipeAction::Return(PipeOutcome::Failed),
        }
    }
}

} // verus!
