//! A sink and a stream combined into one duplex endpoint.

use core::marker::PhantomData;

use vstd::prelude::*;

verus! {

/// A sink and a stream owned together, so one endpoint both sends `Item`s
/// and receives.
pub struct DuplexStream<Si, Item, St> {
    sink: Si,
    stream: St,
    _phantom: PhantomData<Item>,
}

impl<Si, Item, St> DuplexStream<Si, Item, St> {
    /// The sink half.
    pub closed spec fn spec_sink(&self) -> &Si {
        &self.sink
    }

    /// The stream half.
    pub closed spec fn spec_stream(&self) -> &St {
        &self.stream
    }

    /// Combine a sink and a stream into one endpoint.
    pub fn new(sink: Si, stream: St) -> (r: Self)
        ensures
            *r.spec_sink() == sink,
            *r.spec_stream() == stream,
    {
        DuplexStream { sink, stream, _phantom: PhantomData }
    }

    /// Acquires a reference to the underlying sink.
    pub fn get_sink(&self) -> (r: &Si)
        ensures
            r == self.spec_sink(),
    {
        &self.sink
    }

    /// Acquires a mutable reference to the underlying sink.
    pub fn get_sink_mut(&mut self) -> (r: &mut Si)
        ensures
            *r == *old(self).spec_sink(),
            *final(self).spec_sink() == *final(r),
            *final(self).spec_stream() == *old(self).spec_stream(),
    {
        &mut self.sink
    }

    /// Acquires a reference to the underlying stream.
    pub fn get_stream(&self) -> (r: &St)
        ensures
            r == self.spec_stream(),
    {
        &self.stream
    }

    /// Acquires a mutable reference to the underlying stream.
    pub fn get_stream_mut(&mut self) -> (r: &mut St)
        ensures
            *r == *old(self).spec_stream(),
            *final(self).spec_stream() == *final(r),
            *final(self).spec_sink() == *old(self).spec_sink(),
    {
        &mut self.stream
    }

    /// Consumes this endpoint, returning the underlying sink and stream.
    pub fn split_into(self) -> (r: (Si, St))
        ensures
            r.0 == *self.spec_sink(),
            r.1 == *self.spec_stream(),
    {
        let DuplexStream { sink, stream, _phantom } = self;
        (sink, stream)
    }
}

} // verus!
