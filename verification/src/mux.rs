//! The stream-multiplexer model: merging the line events of a child's two
//! pipes into one transcript.
//!
//! Two concurrent reader tasks (outside the library) each read complete
//! lines from one pipe and forward them, as they become available, into one
//! shared ordered sink.  The library receives the sink's contents — the line
//! events in arrival order — and builds the merged transcript.  Lines of one
//! stream arrive in that stream's own order; the interleaving *between* the
//! streams is whatever order the reads completed in, and stays unspecified.

use vstd::prelude::*;

verus! {

/// Which pipe a line came from.
#[derive(Clone, Copy, Debug, Eq, PartialEq, Structural)]
pub enum StreamTag {
    Stdout,
    Stderr,
}

/// One forwarded line: its source and its raw bytes (terminator included,
/// except possibly on the last line of a stream).
pub struct RawEvent {
    pub tag: StreamTag,
    pub bytes: Vec<u8>,
}

/// The merged transcript: every line's bytes, in arrival order.
pub open spec fn merged_bytes(events: Seq<RawEvent>) -> Seq<u8>
    decreases events.len(),
{
    if events.len() == 0 {
        Seq::<u8>::empty()
    } else {
        events[0].bytes@ + merged_bytes(events.drop_first())
    }
}

/// One stream's own content: the bytes of its lines, in arrival order.
pub open spec fn stream_bytes(events: Seq<RawEvent>, tag: StreamTag) -> Seq<u8>
    decreases events.len(),
{
    if events.len() == 0 {
        Seq::<u8>::empty()
    } else {
        (if events[0].tag == tag {
            events[0].bytes@
        } else {
            Seq::<u8>::empty()
        }) + stream_bytes(events.drop_first(), tag)
    }
}

/// The events of one stream only, in arrival order.
pub open spec fn events_of(events: Seq<RawEvent>, tag: StreamTag) -> Seq<RawEvent>
    decreases events.len(),
{
    if events.len() == 0 {
        Seq::<RawEvent>::empty()
    } else if events[0].tag == tag {
        seq![events[0]] + events_of(events.drop_first(), tag)
    } else {
        events_of(events.drop_first(), tag)
    }
}

/// Same-stream order preservation: erasing the other stream's lines from the
/// merged transcript leaves exactly this stream's own bytes, in their
/// original order.  Nothing is said of the order *between* the two streams.
pub proof fn lemma_stream_order(events: Seq<RawEvent>, tag: StreamTag)
    ensures
        merged_bytes(events_of(events, tag)) == stream_bytes(events, tag),
    decreases events.len(),
{
    if events.len() == 0 {
    } else {
        lemma_stream_order(events.drop_first(), tag);
        if events[0].tag == tag {
            let rest = events_of(events.drop_first(), tag);
            let own = seq![events[0]] + rest;
            assert(own.len() > 0);
            assert(own[0] == events[0]);
            assert(own.drop_first() =~= rest);
            assert(merged_bytes(own) == events[0].bytes@ + merged_bytes(rest));
            assert(merged_bytes(events_of(events, tag)) =~= stream_bytes(events, tag));
        } else {
            assert(merged_bytes(events_of(events, tag)) =~= stream_bytes(events, tag));
        }
    }
}

/// Builds the merged transcript bytes from the forwarded line events.
pub fn merge_events(events: &Vec<RawEvent>) -> (r: Vec<u8>)
    ensures
        r@ == merged_bytes(events@),
{
    let mut out: Vec<u8> = Vec::new();
    let mut i: usize = 0;
    proof {
        lemma_merged_take(events@, 0);
    }
    while i < events.len()
        invariant
            i <= events@.len(),
            out@ == merged_bytes(events@.take(i as int)),
        decreases events@.len() - i,
    {
        let line = &events[i].bytes;
        let mut j: usize = 0;
        while j < line.len()
            invariant
                i < events@.len(),
                line == events@[i as int].bytes,
                j <= line@.len(),
                out@ == merged_bytes(events@.take(i as int)) + line@.subrange(0, j as int),
            decreases line@.len() - j,
        {
            out.push(line[j]);
            j += 1;
            proof {
                assert(out@ =~= merged_bytes(events@.take(i as int)) + line@.subrange(
                    0,
                    j as int,
                ));
            }
        }
        proof {
            assert(line@.subrange(0, line@.len() as int) =~= line@);
            lemma_merged_take(events@, i as int + 1);
            assert(out@ =~= merged_bytes(events@.take(i as int + 1)));
        }
        i += 1;
    }
    proof {
        assert(events@.take(events@.len() as int) =~= events@);
    }
    out
}

/// Extending the processed prefix by one event appends that event's bytes.
proof fn lemma_merged_take(events: Seq<RawEvent>, i: int)
    requires
        0 <= i <= events.len(),
    ensures
        i == 0 ==> merged_bytes(events.take(0)) == Seq::<u8>::empty(),
        i > 0 ==> merged_bytes(events.take(i)) == merged_bytes(events.take(i - 1)) + events[i
            - 1].bytes@,
{
    if i > 0 {
        lemma_merged_snoc(events.take(i - 1), events[i - 1]);
        assert(events.take(i) =~= events.take(i - 1).push(events[i - 1]));
    } else {
        assert(events.take(0) =~= Seq::<RawEvent>::empty());
    }
}

/// Merging a sequence with one more event at the end appends its bytes.
proof fn lemma_merged_snoc(events: Seq<RawEvent>, e: RawEvent)
    ensures
        merged_bytes(events.push(e)) == merged_bytes(events) + e.bytes@,
    decreases events.len(),
{
    if events.len() == 0 {
        let one = events.push(e);
        assert(one.drop_first() =~= Seq::<RawEvent>::empty());
        assert(merged_bytes(one) == one[0].bytes@ + merged_bytes(one.drop_first()));
        assert(merged_bytes(events.push(e)) =~= merged_bytes(events) + e.bytes@);
    } else {
        lemma_merged_snoc(events.drop_first(), e);
        assert(events.push(e).drop_first() =~= events.drop_first().push(e));
        assert(merged_bytes(events.push(e)) == events[0].bytes@ + merged_bytes(
            events.drop_first().push(e),
        ));
        assert(merged_bytes(events.push(e)) =~= merged_bytes(events) + e.bytes@);
    }
}

} // verus!
