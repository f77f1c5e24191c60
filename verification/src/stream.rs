//! Framing of a container's statistics stream: the bytes arrive in chunks,
//! and a sample is there once the bytes gathered so far are one JSON
//! object.

use vstd::prelude::*;
use crate::container::update_node_stats;
use crate::container::with_sample;
use crate::json::Json;
use crate::json::json_of;
use crate::sample::read_sample;
use crate::sample::sample_of;
use crate::store::Data;
use crate::store::DataView;

verus! {

/// The JSON object that the bytes are, if they are one.
pub open spec fn document_of(bytes: Seq<u8>) -> Option<Json> {
    match json_of(bytes) {
        Some(Json::Object(members)) => Some(Json::Object(members)),
        _ => None,
    }
}

/// What one chunk does to the gathered bytes: an empty chunk nothing; a
/// chunk that completes a JSON object hands the object out and leaves
/// nothing gathered; any other chunk is gathered.
pub open spec fn fed(gathered: Seq<u8>, chunk: Seq<u8>) -> (Seq<u8>, Option<Json>) {
    if chunk.len() == 0 {
        (gathered, None)
    } else {
        match document_of(gathered + chunk) {
            Some(doc) => (Seq::empty(), Some(doc)),
            None => (gathered + chunk, None),
        }
    }
}

/// What a run of chunks does to the gathered bytes, and the objects that
/// it hands out, in order.
pub open spec fn fed_all(gathered: Seq<u8>, chunks: Seq<Seq<u8>>) -> (Seq<u8>, Seq<Json>)
    decreases chunks.len(),
{
    if chunks.len() == 0 {
        (gathered, Seq::empty())
    } else {
        let before = fed_all(gathered, chunks.drop_last());
        let step = fed(before.0, chunks.last());
        match step.1 {
            Some(doc) => (step.0, before.1.push(doc)),
            None => (step.0, before.1),
        }
    }
}

/// The chunks one after the other.
pub open spec fn joined(chunks: Seq<Seq<u8>>) -> Seq<u8>
    decreases chunks.len(),
{
    if chunks.len() == 0 {
        Seq::empty()
    } else {
        joined(chunks.drop_last()) + chunks.last()
    }
}

/// Whether the chunks are the pieces of one JSON object `doc`: none is
/// empty, together they are `doc`, and the first few of them never are a
/// JSON object.
pub open spec fn pieces_of(chunks: Seq<Seq<u8>>, doc: Json) -> bool {
    &&& chunks.len() > 0
    &&& forall|i: int| 0 <= i < chunks.len() ==> (#[trigger] chunks[i]).len() > 0
    &&& forall|k: int| 0 < k < chunks.len() ==> document_of(#[trigger] joined(chunks.take(k))) is None
    &&& document_of(joined(chunks)) == Some(doc)
}

/// While the chunks fed so far are no JSON object, all of them are
/// gathered and no object is handed out.
proof fn lemma_gathering(chunks: Seq<Seq<u8>>, doc: Json, k: int)
    requires
        pieces_of(chunks, doc),
        0 <= k < chunks.len(),
    ensures
        fed_all(Seq::empty(), chunks.take(k)) == (joined(chunks.take(k)), Seq::<Json>::empty()),
    decreases k,
{
    if k > 0 {
        lemma_gathering(chunks, doc, k - 1);
        assert(chunks.take(k).drop_last() =~= chunks.take(k - 1));
        assert(chunks.take(k).last() == chunks[k - 1]);
        assert(document_of(joined(chunks.take(k))) is None);
    }
}

/// A JSON object that arrives in any number of chunks is handed out once,
/// by the chunk that completes it, and nothing stays gathered after it.
pub proof fn lemma_pieces_give_one_document(chunks: Seq<Seq<u8>>, doc: Json)
    ensures
        pieces_of(chunks, doc) ==> fed_all(Seq::empty(), chunks) == (
            Seq::<u8>::empty(),
            seq![doc],
        ),
{
    if pieces_of(chunks, doc) {
        let n = chunks.len() as int;
        lemma_gathering(chunks, doc, n - 1);
        assert(chunks.take(n - 1) =~= chunks.drop_last());
        assert(Seq::<Json>::empty().push(doc) =~= seq![doc]);
    }
}

/// The bytes of one container's statistics stream that have come and are
/// not yet a sample.
#[derive(Debug)]
pub struct StatsStream {
    bufs: Vec<u8>,
}

/// What a chunk of the stream led to.
#[derive(Debug, Clone, Copy, PartialEq, Eq, Structural)]
pub enum Step {
    /// The bytes gathered so far are no JSON object yet.
    Waiting,
    /// A JSON object came, and the store has the figures of its sample.
    Updated,
    /// A JSON object came that holds no usable sample; the store is as it
    /// was.
    Skipped,
}

/// The store after a chunk of the stream of the node `name`.
pub open spec fn after_chunk(
    store: DataView,
    name: Seq<char>,
    gathered: Seq<u8>,
    chunk: Seq<u8>,
) -> DataView {
    match fed(gathered, chunk).1 {
        Some(doc) => match sample_of(doc) {
            Some(stats) => with_sample(store, name, stats),
            None => store,
        },
        None => store,
    }
}

/// What a chunk of the stream leads to.
pub open spec fn step_of(gathered: Seq<u8>, chunk: Seq<u8>) -> Step {
    match fed(gathered, chunk).1 {
        Some(doc) => match sample_of(doc) {
            Some(stats) => if stats.node_stats() is Some {
                Step::Updated
            } else {
                Step::Skipped
            },
            None => Step::Skipped,
        },
        None => Step::Waiting,
    }
}

/// The store and the gathered bytes after a run of chunks of the stream of
/// the node `name`.
pub open spec fn after_chunks(
    store: DataView,
    name: Seq<char>,
    gathered: Seq<u8>,
    chunks: Seq<Seq<u8>>,
) -> (DataView, Seq<u8>)
    decreases chunks.len(),
{
    if chunks.len() == 0 {
        (store, gathered)
    } else {
        let before = after_chunks(store, name, gathered, chunks.drop_last());
        (after_chunk(before.0, name, before.1, chunks.last()), fed(before.1, chunks.last()).0)
    }
}

/// While the chunks fed so far are no JSON object, the store stays as it
/// is.
proof fn lemma_store_waits(
    store: DataView,
    name: Seq<char>,
    chunks: Seq<Seq<u8>>,
    doc: Json,
    k: int,
)
    requires
        pieces_of(chunks, doc),
        0 <= k < chunks.len(),
    ensures
        after_chunks(store, name, Seq::empty(), chunks.take(k)) == (store, joined(chunks.take(k))),
    decreases k,
{
    if k > 0 {
        lemma_store_waits(store, name, chunks, doc, k - 1);
        assert(chunks.take(k).drop_last() =~= chunks.take(k - 1));
        assert(chunks.take(k).last() == chunks[k - 1]);
        assert(document_of(joined(chunks.take(k))) is None);
    }
}

/// A sample that arrives in any number of chunks changes the store once,
/// as one sample does, and leaves nothing gathered.
pub proof fn lemma_pieces_give_one_update(
    store: DataView,
    name: Seq<char>,
    chunks: Seq<Seq<u8>>,
    doc: Json,
)
    ensures
        pieces_of(chunks, doc) ==> after_chunks(store, name, Seq::empty(), chunks) == (
            match sample_of(doc) {
                Some(stats) => with_sample(store, name, stats),
                None => store,
            },
            Seq::<u8>::empty(),
        ),
{
    if pieces_of(chunks, doc) {
        let n = chunks.len() as int;
        lemma_store_waits(store, name, chunks, doc, n - 1);
        assert(chunks.take(n - 1) =~= chunks.drop_last());
    }
}

impl StatsStream {
    /// The bytes gathered so far.
    pub closed spec fn gathered(&self) -> Seq<u8> {
        self.bufs@
    }

    /// A stream of which nothing has come yet.
    pub fn new() -> (r: StatsStream)
        ensures
            r.gathered() == Seq::<u8>::empty(),
    {
        StatsStream { bufs: Vec::new() }
    }

    /// The number of bytes gathered so far.
    pub fn pending(&self) -> (r: usize)
        ensures
            r == self.gathered().len(),
    {
        self.bufs.len()
    }

    /// Takes one chunk of the stream, and hands out the JSON object that
    /// it completes, if it completes one.
    pub fn feed(&mut self, chunk: &[u8]) -> (r: Option<Json>)
        ensures
            final(self).gathered() == fed(old(self).gathered(), chunk@).0,
            r == fed(old(self).gathered(), chunk@).1,
    {
        if chunk.len() == 0 {
            return None;
        }
        let mut i: usize = 0;
        while i < chunk.len()
            invariant
                i <= chunk.len(),
                self.bufs@ == old(self).bufs@ + chunk@.take(i as int),
            decreases chunk.len() - i,
        {
            self.bufs.push(chunk[i]);
            assert(self.bufs@ =~= old(self).bufs@ + chunk@.take(i + 1));
            i += 1;
        }
        assert(chunk@.take(chunk.len() as int) =~= chunk@);
        match Json::parse(self.bufs.as_slice()) {
            Some(Json::Object(members)) => {
                self.bufs = Vec::new();
                Some(Json::Object(members))
            },
            _ => None,
        }
    }

    /// Takes one chunk of the stream of the node `name`; where it
    /// completes a sample, the store gets the sample's figures.
    pub fn on_chunk(&mut self, name: &str, data: &mut Data, chunk: &[u8]) -> (r: Step)
        requires
            old(data).wf(),
        ensures
            final(data).wf(),
            final(self).gathered() == fed(old(self).gathered(), chunk@).0,
            final(data)@ == after_chunk(old(data)@, name@, old(self).gathered(), chunk@),
            r == step_of(old(self).gathered(), chunk@),
    {
        match self.feed(chunk) {
            Some(doc) => match read_sample(&doc) {
                Some(stats) => {
                    if update_node_stats(name, data, &stats) {
                        Step::Updated
                    } else {
                        Step::Skipped
                    }
                },
                None => Step::Skipped,
            },
            None => Step::Waiting,
        }
    }
}

} // verus!
