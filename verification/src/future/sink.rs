//! A sink paired with an error-mapping function.

use vstd::prelude::*;

verus! {

/// A sink together with the function that transforms the errors it
/// returns.
pub struct SafeSinkMapErr<Si, F> {
    sink: Si,
    f: F,
}

impl<Si, F> SafeSinkMapErr<Si, F> {
    /// The wrapped sink.
    pub closed spec fn spec_sink(&self) -> &Si {
        &self.sink
    }

    /// The error-mapping function.
    pub closed spec fn spec_f(&self) -> &F {
        &self.f
    }

    /// Pair a sink with an error-mapping function.
    pub fn new(sink: Si, f: F) -> (r: Self)
        ensures
            *r.spec_sink() == sink,
            *r.spec_f() == f,
    {
        SafeSinkMapErr { sink, f }
    }

    /// Take the pair apart again.
    pub fn into_inner(self) -> (r: (Si, F))
        ensures
            r.0 == *self.spec_sink(),
            r.1 == *self.spec_f(),
    {
        let SafeSinkMapErr { sink, f } = self;
        (sink, f)
    }
}

} // verus!
