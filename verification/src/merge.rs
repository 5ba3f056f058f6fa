use vstd::prelude::*;

use crate::error::Error;
use crate::stream::InputStream;
use crate::stream::OutputSink;
use crate::tag::audio_part;
use crate::tag::has_tag;
use crate::tag::locate_error;
use crate::tag::read_to_first_header;
use crate::tag::skip_len;

verus! {

/// A progress observer: told the zero-based index of each input as soon as
/// that input's bytes have been fully copied. `history()` is the sequence of
/// indices reported so far, so a caller can reason about every notification
/// the orchestrator made.
pub trait Progress {
    spec fn history(&self) -> Seq<usize>;

    fn notify(&mut self, index: usize)
        ensures
            final(self).history() == old(self).history().push(index),
    ;
}

/// A progress observer that records the reported indices in order.
pub struct ProgressLog {
    pub seen: Vec<usize>,
}

impl ProgressLog {
    pub fn new() -> (log: ProgressLog)
        ensures
            log.history() == Seq::<usize>::empty(),
    {
        ProgressLog { seen: Vec::new() }
    }
}

impl Progress for ProgressLog {
    open spec fn history(&self) -> Seq<usize> {
        self.seen@
    }

    fn notify(&mut self, index: usize) {
        self.seen.push(index);
    }
}

/// The fixed transfer-buffer size: memory use of a copy is bounded by it and
/// does not scale with input size.
pub const CHUNK: usize = 1024;

/// The stream copier: transfer everything from the input's current position to
/// the sink, in chunks of at most `CHUNK` bytes, until end-of-stream. On the
/// in-memory model no read or write can fail, so the result is always `Ok`.
pub fn copy(reader: &mut InputStream, writer: &mut OutputSink) -> (r: Result<(), Error>)
    requires
        old(reader).wf(),
    ensures
        final(reader).wf(),
        final(reader).bytes() == old(reader).bytes(),
        final(reader).cursor() == old(reader).bytes().len(),
        final(writer).bytes() == old(writer).bytes() + old(reader).rem(),
        r is Ok,
{
    let ghost data0 = reader.bytes();
    let ghost c0 = reader.cursor();
    let ghost w0 = writer.bytes();
    while !reader.is_at_end()
        invariant
            reader.wf(),
            reader.bytes() == data0,
            0 <= c0 <= reader.cursor(),
            writer.bytes() == w0 + data0.subrange(c0, reader.cursor()),
        decreases data0.len() - reader.cursor(),
    {
        let ghost cprev = reader.cursor();
        let chunk = reader.read_chunk(CHUNK);
        writer.write_all(&chunk);
        proof {
            assert(chunk@ =~= data0.subrange(cprev, reader.cursor()));
            assert(data0.subrange(c0, reader.cursor()) =~= data0.subrange(c0, cprev)
                + data0.subrange(cprev, reader.cursor()));
        }
    }
    proof {
        assert(data0.subrange(c0, data0.len() as int) =~= data0.skip(c0));
    }
    Ok(())
}

/// How many inputs the orchestrator completes: the length of the longest
/// prefix of the inputs whose remaining bytes all begin with a complete tag.
pub open spec fn ok_count(ss: Seq<InputStream>) -> nat
    decreases ss.len(),
{
    if ss.len() == 0 {
        0
    } else if !has_tag(ss[0].rem()) {
        0
    } else {
        1 + ok_count(ss.drop_first())
    }
}

/// The bytes the orchestrator appends to the sink for the first `k` inputs:
/// each input's audio part, in input order.
pub open spec fn merged_audio(ss: Seq<InputStream>, k: int) -> Seq<u8>
    decreases k,
{
    if k <= 0 {
        Seq::empty()
    } else {
        merged_audio(ss, k - 1) + audio_part(ss[k - 1].rem())
    }
}

/// The sum over the first `k` inputs of (remaining length − skip offset).
pub open spec fn total_audio_len(ss: Seq<InputStream>, k: int) -> int
    decreases k,
{
    if k <= 0 {
        0
    } else {
        total_audio_len(ss, k - 1) + (ss[k - 1].rem().len() - skip_len(ss[k - 1].rem()))
    }
}

proof fn lemma_ok_count(ss: Seq<InputStream>, k: int)
    requires
        0 <= k <= ss.len(),
        forall|j: int| 0 <= j < k ==> has_tag((#[trigger] ss[j]).rem()),
        k == ss.len() || !has_tag(ss[k].rem()),
    ensures
        ok_count(ss) == k,
    decreases ss.len(),
{
    if k > 0 {
        let tail = ss.drop_first();
        assert forall|j: int| 0 <= j < k - 1 implies has_tag((#[trigger] tail[j]).rem()) by {
            assert(tail[j] == ss[j + 1]);
        }
        if k < ss.len() {
            assert(tail[k - 1] == ss[k]);
        }
        lemma_ok_count(tail, k - 1);
    }
}

/// Merge length law: for any prefix of inputs that all carry a complete tag,
/// the merged output length is the sum over those inputs of (remaining length
/// − skip offset).
pub proof fn lemma_merged_audio_len(ss: Seq<InputStream>, k: int)
    requires
        0 <= k <= ss.len(),
        forall|j: int| 0 <= j < k ==> has_tag((#[trigger] ss[j]).rem()),
    ensures
        merged_audio(ss, k).len() == total_audio_len(ss, k),
    decreases k,
{
    if k > 0 {
        lemma_merged_audio_len(ss, k - 1);
    }
}

/// The merge orchestrator: for each input in order, locate the end of its
/// metadata tag, copy everything after it to the shared sink, then report the
/// input's index. The first failure aborts the merge; bytes already written
/// stay in the sink. With `k` the length of the longest prefix of inputs that
/// carry a complete tag: the sink gains exactly the audio of those `k` inputs,
/// the observer is notified with `0, 1, ..., k-1` in order, the merge succeeds
/// if and only if `k` covers every input, and otherwise the error is the tag
/// locator's report on input `k`.
pub fn merge_mp3s<P: Progress>(rs: &mut Vec<InputStream>, w: &mut OutputSink, cb: &mut P) -> (r:
    Result<(), Error>)
    requires
        forall|i: int| 0 <= i < old(rs)@.len() ==> (#[trigger] old(rs)@[i]).wf(),
    ensures
        final(rs)@.len() == old(rs)@.len(),
        forall|i: int|
            0 <= i < old(rs)@.len() ==> (#[trigger] final(rs)@[i]).bytes() == old(rs)@[i].bytes(),
        final(w).bytes() == old(w).bytes() + merged_audio(old(rs)@, ok_count(old(rs)@) as int),
        final(cb).history() == old(cb).history() + Seq::new(
            ok_count(old(rs)@),
            |j: int| j as usize,
        ),
        r is Ok <==> ok_count(old(rs)@) == old(rs)@.len(),
        r matches Err(e) ==> {
            let k = ok_count(old(rs)@) as int;
            &&& k < old(rs)@.len()
            &&& !has_tag(old(rs)@[k].rem())
            &&& locate_error(old(rs)@[k].cursor(), old(rs)@[k].rem(), e)
        },
        forall|i: int|
            0 <= i < ok_count(old(rs)@) ==> (#[trigger] final(rs)@[i]).cursor()
                == final(rs)@[i].bytes().len(),
        forall|i: int|
            ok_count(old(rs)@) < i < old(rs)@.len() ==> #[trigger] final(rs)@[i] == old(rs)@[i],
{
    let ghost rs0 = rs@;
    let ghost w0 = w.bytes();
    let ghost h0 = cb.history();
    let n = rs.len();
    let mut i: usize = 0;
    while i < n
        invariant
            i <= n,
            rs0 == old(rs)@,
            w0 == old(w).bytes(),
            h0 == old(cb).history(),
            n == rs@.len(),
            rs@.len() == rs0.len(),
            forall|j: int| 0 <= j < rs0.len() ==> (#[trigger] rs0[j]).wf(),
            forall|j: int| i <= j < rs0.len() ==> #[trigger] rs@[j] == rs0[j],
            forall|j: int| 0 <= j < rs0.len() ==> (#[trigger] rs@[j]).bytes() == rs0[j].bytes(),
            forall|j: int|
                0 <= j < i ==> has_tag((#[trigger] rs0[j]).rem()) && rs@[j].cursor()
                    == rs@[j].bytes().len(),
            w.bytes() == w0 + merged_audio(rs0, i as int),
            cb.history() == h0 + Seq::new(i as nat, |j: int| j as usize),
        decreases n - i,
    {
        match read_to_first_header(&mut rs[i]) {
            Ok(_) => {},
            Err(e) => {
                proof {
                    lemma_ok_count(rs0, i as int);
                }
                return Err(e);
            },
        }
        match copy(&mut rs[i], w) {
            Ok(_) => {},
            Err(e) => {
                return Err(e);
            },
        }
        cb.notify(i);
        i = i + 1;
        proof {
            assert(merged_audio(rs0, i as int) == merged_audio(rs0, i - 1) + audio_part(
                rs0[i - 1].rem(),
            ));
            assert(w.bytes() =~= w0 + merged_audio(rs0, i as int));
            assert(cb.history() =~= h0 + Seq::new(i as nat, |j: int| j as usize));
        }
    }
    proof {
        lemma_ok_count(rs0, n as int);
    }
    Ok(())
}

} // verus!
