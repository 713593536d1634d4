//! The size gate on renderer requests: a byte sink that counts what a
//! serializer writes into it and refuses the first write that would carry the
//! total past its cap, remembering that it did, so that the caller can tell a
//! request that is too large from one that failed to serialize at all.
use vstd::prelude::*;

verus! {

/// The sink refused a write that would have passed its cap.
#[derive(Debug, Clone, Copy, PartialEq, Eq, Structural)]
pub enum SinkError {
    LimitExceeded,
}

/// Counts the bytes written into it, up to `cap`.
pub struct CappedJsonSink {
    written: usize,
    exceeded: bool,
    cap: usize,
}

impl CappedJsonSink {
    /// Bytes accepted so far.
    pub closed spec fn written_spec(&self) -> nat {
        self.written as nat
    }

    /// A write has been refused.
    pub closed spec fn exceeded_spec(&self) -> bool {
        self.exceeded
    }

    /// The most bytes the sink accepts in all.
    pub closed spec fn cap_spec(&self) -> nat {
        self.cap as nat
    }

    /// What was accepted never passes the cap.
    pub closed spec fn wf(&self) -> bool {
        self.written <= self.cap
    }

    /// An empty sink that accepts at most `cap` bytes.
    pub fn new(cap: usize) -> (s: Self)
        ensures
            s.wf(),
            s.written_spec() == 0,
            !s.exceeded_spec(),
            s.cap_spec() == cap,
    {
        CappedJsonSink { written: 0, exceeded: false, cap }
    }

    pub fn written(&self) -> (n: usize)
        ensures
            n == self.written_spec(),
    {
        self.written
    }

    pub fn exceeded(&self) -> (b: bool)
        ensures
            b == self.exceeded_spec(),
    {
        self.exceeded
    }

    /// Accepts the whole buffer when it fits in what is left of the cap;
    /// otherwise refuses it, accepts nothing, and records the refusal.
    pub fn write(&mut self, buffer: &[u8]) -> (r: Result<usize, SinkError>)
        requires
            old(self).wf(),
        ensures
            final(self).wf(),
            final(self).cap_spec() == old(self).cap_spec(),
            buffer@.len() + old(self).written_spec() > old(self).cap_spec() ==> {
                &&& r == Err::<usize, SinkError>(SinkError::LimitExceeded)
                &&& final(self).exceeded_spec()
                &&& final(self).written_spec() == old(self).written_spec()
            },
            buffer@.len() + old(self).written_spec() <= old(self).cap_spec() ==> {
                &&& r == Ok::<usize, SinkError>(buffer@.len() as usize)
                &&& final(self).exceeded_spec() == old(self).exceeded_spec()
                &&& final(self).written_spec() == old(self).written_spec() + buffer@.len()
            },
    {
        if buffer.len() > self.cap - self.written {
            self.exceeded = true;
            return Err(SinkError::LimitExceeded);
        }
        self.written = self.written + buffer.len();
        Ok(buffer.len())
    }

    /// Nothing is buffered, so there is nothing to flush.
    pub fn flush(&mut self) -> (r: Result<(), SinkError>)
        ensures
            r is Ok,
            *final(self) == *old(self),
    {
        Ok(())
    }
}

/// How a serialization into a capped sink is judged: success passes; a
/// failure after the sink refused a write is a request that is too large;
/// any other failure is a malformed request.
pub fn size_verdict(serialized: bool, exceeded: bool) -> (r: Result<(), String>)
    ensures
        serialized ==> r is Ok,
        !serialized && exceeded ==> (r matches Err(m) && m@ == "renderer request exceeds the allowed size"@),
        !serialized && !exceeded ==> (r matches Err(m) && m@ == "invalid renderer request"@),
{
    if serialized {
        Ok(())
    } else if exceeded {
        Err("renderer request exceeds the allowed size".to_string())
    } else {
        Err("invalid renderer request".to_string())
    }
}

/// A sink that `new` made and `write` kept never holds more than its cap.
pub proof fn law_sink_never_passes_its_cap(s: CappedJsonSink)
    requires
        s.wf(),
    ensures
        s.written_spec() <= s.cap_spec(),
{
}

} // verus!
