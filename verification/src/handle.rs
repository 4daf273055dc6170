//! The outbound send path of one connection.
//!
//! A `ConnectionHandle` owns the exclusive right to deliver frames to one
//! client. Frames accepted for delivery are queued in order on the handle's
//! outbox; the surrounding process drains the outbox to the physical socket
//! (outside any registry lock), so the directory lock is never held across
//! I/O. A handle is `Open` until either the session closes it (`Closed`) or
//! the writer observes a transport failure and marks it `Broken`; in both
//! terminal states further sends fail and queue nothing.

use vstd::prelude::*;

use crate::message::Frame;
use crate::message::FrameModel;

verus! {

/// Delivery status of a handle's outbound path.
#[derive(Clone, Copy, Debug, PartialEq, Eq, Structural)]
pub enum HandleStatus {
    /// The socket accepts frames.
    Open,
    /// A close frame was sent; the handle is terminal.
    Closed,
    /// The transport failed; the peer is unreachable.
    Broken,
}

/// Why a send was refused.
#[derive(Clone, Copy, Debug, PartialEq, Eq, Structural)]
pub enum SendError {
    /// The handle was closed by its own session.
    Closed,
    /// The transport to this peer has failed.
    Unreachable,
}

/// Mathematical model of a handle: the frames accepted for delivery, in
/// order, and the delivery status.
#[verifier::ext_equal]
pub struct HandleModel {
    pub outbox: Seq<FrameModel>,
    pub status: HandleStatus,
}

/// One client's outbound send path.
pub struct ConnectionHandle {
    outbox: Vec<Frame>,
    status: HandleStatus,
}

impl View for ConnectionHandle {
    type V = HandleModel;

    closed spec fn view(&self) -> HandleModel {
        HandleModel { outbox: self.outbox.deep_view(), status: self.status }
    }
}

impl ConnectionHandle {
    /// A fresh open handle with an empty outbox.
    pub fn new() -> (h: ConnectionHandle)
        ensures
            h@.outbox == Seq::<FrameModel>::empty(),
            h@.status == HandleStatus::Open,
    {
        ConnectionHandle { outbox: Vec::new(), status: HandleStatus::Open }
    }

    /// Current delivery status.
    pub fn status(&self) -> (s: HandleStatus)
        ensures
            s == self@.status,
    {
        self.status
    }

    /// Number of frames queued for delivery.
    pub fn queued_len(&self) -> (n: usize)
        ensures
            n == self@.outbox.len(),
    {
        self.outbox.len()
    }

    /// The `i`-th frame queued for delivery.
    pub fn queued_at(&self, i: usize) -> (f: &Frame)
        requires
            i < self@.outbox.len(),
        ensures
            f@ == self@.outbox[i as int],
    {
        &self.outbox[i]
    }

    /// Accept `frame` for delivery. On an open handle the frame is queued and
    /// the call succeeds; on a terminal handle nothing is queued and the call
    /// reports why. A failure never panics: the router treats it as "this one
    /// recipient is unreachable".
    pub fn send(&mut self, frame: Frame) -> (r: Result<(), SendError>)
        ensures
            final(self)@.status == old(self)@.status,
            old(self)@.status == HandleStatus::Open ==> r is Ok
                && final(self)@.outbox == old(self)@.outbox.push(frame@),
            old(self)@.status == HandleStatus::Closed ==> r == Err::<(), SendError>(
                SendError::Closed,
            ) && final(self)@.outbox == old(self)@.outbox,
            old(self)@.status == HandleStatus::Broken ==> r == Err::<(), SendError>(
                SendError::Unreachable,
            ) && final(self)@.outbox == old(self)@.outbox,
    {
        match self.status {
            HandleStatus::Open => {
                self.outbox.push(frame);
                Ok(())
            },
            HandleStatus::Closed => Err(SendError::Closed),
            HandleStatus::Broken => Err(SendError::Unreachable),
        }
    }

    /// Queue a close frame and make the handle terminal; subsequent sends
    /// fail with [`SendError::Closed`]. Closing an already terminal handle
    /// queues nothing and reports the failure.
    pub fn close(&mut self) -> (r: Result<(), SendError>)
        ensures
            old(self)@.status == HandleStatus::Open ==> r is Ok
                && final(self)@.outbox == old(self)@.outbox.push(FrameModel::Close)
                && final(self)@.status == HandleStatus::Closed,
            old(self)@.status == HandleStatus::Closed ==> r == Err::<(), SendError>(
                SendError::Closed,
            ) && final(self)@ == old(self)@,
            old(self)@.status == HandleStatus::Broken ==> r == Err::<(), SendError>(
                SendError::Unreachable,
            ) && final(self)@ == old(self)@,
    {
        match self.status {
            HandleStatus::Open => {
                self.outbox.push(Frame::Close);
                self.status = HandleStatus::Closed;
                Ok(())
            },
            HandleStatus::Closed => Err(SendError::Closed),
            HandleStatus::Broken => Err(SendError::Unreachable),
        }
    }

    /// Record that the transport to this peer has failed. Queued frames are
    /// kept (they were accepted before the failure), but nothing further is
    /// accepted.
    pub fn mark_broken(&mut self)
        ensures
            final(self)@.outbox == old(self)@.outbox,
            final(self)@.status == HandleStatus::Broken,
    {
        self.status = HandleStatus::Broken;
    }

    /// Hand the queued frames to the writer, in order, leaving the outbox
    /// empty. The status is unchanged: draining is not a lifecycle event.
    pub fn take_outbox(&mut self) -> (drained: Vec<Frame>)
        ensures
            drained.deep_view() == old(self)@.outbox,
            final(self)@.outbox == Seq::<FrameModel>::empty(),
            final(self)@.status == old(self)@.status,
    {
        let mut drained: Vec<Frame> = Vec::new();
        core::mem::swap(&mut drained, &mut self.outbox);
        drained
    }
}

} // verus!
