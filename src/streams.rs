//! The set of open capture streams, from a start until the next stop.
use vstd::prelude::*;

verus! {

/// The streams of the capture in progress, if any. Dropping a stream handle
/// stops its hardware callbacks, so clearing the set stops the capture;
/// samples still waiting in a stream's buffer are lost with it.
pub struct StreamSet<S> {
    streams: Option<Vec<S>>,
}

impl<S> View for StreamSet<S> {
    type V = Option<Seq<S>>;

    closed spec fn view(&self) -> Self::V {
        match self.streams {
            Some(v) => Some(v@),
            None => None,
        }
    }
}

impl<S> StreamSet<S> {
    /// No capture in progress.
    pub fn new() -> (r: StreamSet<S>)
        ensures
            r@ is None,
    {
        StreamSet { streams: None }
    }

    /// Records the streams a start opened, possibly none, in place of what
    /// the set held.
    pub fn install(&mut self, streams: Vec<S>)
        ensures
            final(self)@ == Some(streams@),
    {
        self.streams = Some(streams);
    }

    /// Stops the capture in progress by dropping its streams. With no
    /// capture in progress nothing changes.
    pub fn clear(&mut self)
        ensures
            final(self)@ is None,
            old(self)@ is None ==> final(self)@ == old(self)@,
    {
        self.streams = None;
    }

    /// Whether a capture is in progress.
    pub fn is_active(&self) -> (r: bool)
        ensures
            r == self@ is Some,
    {
        self.streams.is_some()
    }

    /// Number of streams of the capture in progress; zero when none is.
    pub fn len(&self) -> (r: usize)
        ensures
            r == (match self@ {
                Some(s) => s.len(),
                None => 0,
            }),
    {
        match &self.streams {
            Some(v) => v.len(),
            None => 0,
        }
    }
}

} // verus!
