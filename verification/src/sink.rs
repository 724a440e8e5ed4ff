//! A model of the send half of an upstream connection.
//!
//! The send half is shared by the ingest relay and the keepalive responder;
//! every write appends one complete frame. The model records the frames in
//! the order they were written, so contracts can state exactly what reaches
//! the service and in what order.

use vstd::prelude::*;

verus! {

/// One frame written to the recognition service.
#[derive(Debug)]
pub enum OutboundFrame {
    /// A binary audio frame, passed through unmodified.
    Audio(Vec<u8>),
    /// A liveness reply carrying the probe's payload.
    Pong(Vec<u8>),
    /// The final close frame.
    Close,
}

/// The mathematical value of an outbound frame.
pub enum OutboundFrameView {
    Audio(Seq<u8>),
    Pong(Seq<u8>),
    Close,
}

impl View for OutboundFrame {
    type V = OutboundFrameView;

    open spec fn view(&self) -> OutboundFrameView {
        match self {
            OutboundFrame::Audio(d) => OutboundFrameView::Audio(d@),
            OutboundFrame::Pong(d) => OutboundFrameView::Pong(d@),
            OutboundFrame::Close => OutboundFrameView::Close,
        }
    }
}

/// The send half, modelled as the log of complete frames written so far.
pub struct UpstreamSink {
    log: Vec<OutboundFrame>,
}

impl View for UpstreamSink {
    type V = Seq<OutboundFrameView>;

    closed spec fn view(&self) -> Seq<OutboundFrameView> {
        self.log@.map_values(|f: OutboundFrame| f@)
    }
}

impl UpstreamSink {
    /// A send half on which nothing has been written yet.
    pub fn new() -> (r: UpstreamSink)
        ensures
            r@ == Seq::<OutboundFrameView>::empty(),
    {
        let s = UpstreamSink { log: Vec::new() };
        proof {
            assert(s@ =~= Seq::<OutboundFrameView>::empty());
        }
        s
    }

    /// Write one complete binary audio frame.
    pub fn send_audio(&mut self, payload: Vec<u8>)
        ensures
            final(self)@ == old(self)@.push(OutboundFrameView::Audio(payload@)),
    {
        let ghost payload_view = payload@;
        self.log.push(OutboundFrame::Audio(payload));
        proof {
            assert(self@ =~= old(self)@.push(OutboundFrameView::Audio(payload_view)));
        }
    }

    /// Write one complete liveness reply frame.
    pub fn send_pong(&mut self, payload: Vec<u8>)
        ensures
            final(self)@ == old(self)@.push(OutboundFrameView::Pong(payload@)),
    {
        let ghost payload_view = payload@;
        self.log.push(OutboundFrame::Pong(payload));
        proof {
            assert(self@ =~= old(self)@.push(OutboundFrameView::Pong(payload_view)));
        }
    }

    /// Write the close frame.
    pub fn send_close(&mut self)
        ensures
            final(self)@ == old(self)@.push(OutboundFrameView::Close),
    {
        self.log.push(OutboundFrame::Close);
        proof {
            assert(self@ =~= old(self)@.push(OutboundFrameView::Close));
        }
    }

    /// The frames written so far, oldest first.
    pub fn sent_frames(&self) -> (r: &Vec<OutboundFrame>)
        ensures
            r@.map_values(|f: OutboundFrame| f@) == self@,
    {
        &self.log
    }
}

} // verus!
