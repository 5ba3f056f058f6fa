use vstd::prelude::*;

verus! {

/// An in-memory byte source with a read cursor: the model of a readable,
/// seekable input that the tag locator and the copier work on. An adapter
/// around a real device fills `data` and hands the stream in; the cursor then
/// plays the role of the device's stream position.
pub struct InputStream {
    pub data: Vec<u8>,
    pub pos: usize,
}

impl InputStream {
    /// The cursor never points past the end of the data.
    pub open spec fn wf(&self) -> bool {
        self.pos <= self.data@.len()
    }

    /// All bytes the stream holds, before and after the cursor.
    pub open spec fn bytes(&self) -> Seq<u8> {
        self.data@
    }

    /// The cursor, as a mathematical index into `bytes()`.
    pub open spec fn cursor(&self) -> int {
        self.pos as int
    }

    /// The bytes not yet consumed: everything from the cursor to the end.
    pub open spec fn rem(&self) -> Seq<u8> {
        self.data@.skip(self.pos as int)
    }

    pub fn new(data: Vec<u8>) -> (s: InputStream)
        ensures
            s.wf(),
            s.bytes() == data@,
            s.cursor() == 0,
    {
        InputStream { data, pos: 0 }
    }

    /// The current stream position. On the in-memory model this cannot fail.
    pub fn position(&self) -> (p: u64)
        requires
            self.wf(),
        ensures
            p == self.cursor(),
    {
        self.pos as u64
    }

    pub fn is_at_end(&self) -> (r: bool)
        requires
            self.wf(),
        ensures
            r <==> self.cursor() == self.bytes().len(),
    {
        self.pos == self.data.len()
    }

    /// Read exactly `n` bytes from the cursor. Returns `None`, leaving the
    /// stream unchanged, when fewer than `n` bytes remain.
    pub fn read_exact(&mut self, n: usize) -> (r: Option<Vec<u8>>)
        requires
            old(self).wf(),
        ensures
            final(self).wf(),
            final(self).bytes() == old(self).bytes(),
            n <= old(self).rem().len() ==> (r matches Some(v)
                && v@ == old(self).rem().take(n as int)
                && final(self).cursor() == old(self).cursor() + n),
            n > old(self).rem().len() ==> r is None && *final(self) == *old(self),
    {
        if n > self.data.len() - self.pos {
            return None;
        }
        let mut v: Vec<u8> = Vec::new();
        let mut i: usize = 0;
        while i < n
            invariant
                self.wf(),
                i <= n,
                n <= self.data@.len() - self.pos,
                self.data@.len() <= usize::MAX,
                v@ == self.rem().take(i as int),
            decreases n - i,
        {
            v.push(self.data[self.pos + i]);
            i = i + 1;
            proof {
                assert(v@ =~= self.rem().take(i as int));
            }
        }
        self.pos = self.pos + n;
        proof {
            assert(old(self).rem().take(n as int) == v@);
        }
        Some(v)
    }

    /// Advance the cursor by `n` bytes without reading them. Fails, leaving the
    /// stream unchanged, when that would move the cursor past the end.
    pub fn skip(&mut self, n: u64) -> (ok: bool)
        requires
            old(self).wf(),
        ensures
            final(self).wf(),
            final(self).bytes() == old(self).bytes(),
            n <= old(self).rem().len() ==> (ok && final(self).cursor() == old(self).cursor() + n),
            n > old(self).rem().len() ==> !ok && *final(self) == *old(self),
    {
        let left: u64 = (self.data.len() - self.pos) as u64;
        if n > left {
            false
        } else {
            self.pos = self.pos + n as usize;
            true
        }
    }

    /// Read up to `max` bytes from the cursor; the chunk is empty exactly at
    /// end-of-stream.
    pub fn read_chunk(&mut self, max: usize) -> (chunk: Vec<u8>)
        requires
            old(self).wf(),
            max > 0,
        ensures
            final(self).wf(),
            final(self).bytes() == old(self).bytes(),
            chunk@.len() == (if max <= old(self).rem().len() { max as int } else { old(self).rem().len() as int }),
            chunk@ == old(self).rem().take(chunk@.len() as int),
            final(self).cursor() == old(self).cursor() + chunk@.len(),
    {
        let left: usize = self.data.len() - self.pos;
        let n: usize = if max <= left { max } else { left };
        let mut v: Vec<u8> = Vec::new();
        let mut i: usize = 0;
        while i < n
            invariant
                self.wf(),
                i <= n,
                n <= self.data@.len() - self.pos,
                self.data@.len() <= usize::MAX,
                v@ == self.rem().take(i as int),
            decreases n - i,
        {
            v.push(self.data[self.pos + i]);
            i = i + 1;
            proof {
                assert(v@ =~= self.rem().take(i as int));
            }
        }
        self.pos = self.pos + n;
        v
    }
}

/// An in-memory byte destination: the model of a sequential output sink. An
/// adapter around a real device drains `data` to where the bytes must go.
pub struct OutputSink {
    pub data: Vec<u8>,
}

impl OutputSink {
    /// All bytes written so far, in order.
    pub open spec fn bytes(&self) -> Seq<u8> {
        self.data@
    }

    pub fn new() -> (s: OutputSink)
        ensures
            s.bytes() == Seq::<u8>::empty(),
    {
        OutputSink { data: Vec::new() }
    }

    /// Append the whole buffer to the sink. On the in-memory model this cannot
    /// fail.
    pub fn write_all(&mut self, buf: &Vec<u8>)
        ensures
            final(self).bytes() == old(self).bytes() + buf@,
    {
        let mut i: usize = 0;
        while i < buf.len()
            invariant
                i <= buf@.len(),
                self.data@ == old(self).data@ + buf@.take(i as int),
            decreases buf@.len() - i,
        {
            self.data.push(buf[i]);
            i = i + 1;
            proof {
                assert(self.data@ =~= old(self).data@ + buf@.take(i as int));
            }
        }
        proof {
            assert(old(self).bytes() + buf@.take(buf@.len() as int) =~= old(self).bytes() + buf@);
        }
    }
}

} // verus!
