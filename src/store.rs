use vstd::prelude::*;

verus! {

/// The buffer after appending `paths` to `pending`.
pub open spec fn appended(pending: Seq<String>, paths: Seq<String>) -> Seq<String> {
    pending + paths
}

/// What a drain of `pending` returns, and the buffer it leaves behind.
pub open spec fn drained(pending: Seq<String>) -> (Seq<String>, Seq<String>) {
    (pending, Seq::empty())
}

/// The buffer after appending each batch of `batches` in turn to `start`.
pub open spec fn after_appends(start: Seq<String>, batches: Seq<Seq<String>>) -> Seq<String>
    decreases batches.len(),
{
    if batches.len() == 0 {
        start
    } else {
        appended(after_appends(start, batches.drop_last()), batches.last())
    }
}

/// Paths that were requested to be opened and not yet collected, oldest
/// first.
///
/// The buffer grows only by `append` and shrinks only by `drain`, which
/// empties it: no operation removes part of it.
pub struct PendingOpens {
    paths: Vec<String>,
}

impl View for PendingOpens {
    type V = Seq<String>;

    closed spec fn view(&self) -> Seq<String> {
        self.paths@
    }
}

impl PendingOpens {
    /// An empty buffer.
    pub fn new() -> (s: Self)
        ensures
            s@ == Seq::<String>::empty(),
    {
        PendingOpens { paths: Vec::new() }
    }

    /// Number of paths waiting.
    pub fn len(&self) -> (n: usize)
        ensures
            n == self@.len(),
    {
        self.paths.len()
    }

    /// Whether no path is waiting.
    pub fn is_empty(&self) -> (b: bool)
        ensures
            b == (self@.len() == 0),
    {
        self.paths.len() == 0
    }

    /// Adds `paths` at the end, in their order. An empty `paths` changes
    /// nothing.
    pub fn append(&mut self, paths: Vec<String>)
        ensures
            final(self)@ == appended(old(self)@, paths@),
    {
        if paths.len() == 0 {
            assert(old(self)@ + paths@ =~= old(self)@);
            return;
        }
        let mut paths = paths;
        self.paths.append(&mut paths);
    }

    /// Hands out everything waiting, oldest first, and leaves the buffer
    /// empty.
    pub fn drain(&mut self) -> (out: Vec<String>)
        ensures
            (out@, final(self)@) == drained(old(self)@),
    {
        let mut out: Vec<String> = Vec::new();
        std::mem::swap(&mut self.paths, &mut out);
        out
    }
}

/// The command through which the interface collects the paths requested so
/// far: returns the buffer's contents verbatim, oldest first, and leaves it
/// empty. Called again with no append in between, it returns nothing.
pub fn take_pending_opens(pending: &mut PendingOpens) -> (paths: Vec<String>)
    ensures
        (paths@, final(pending)@) == drained(old(pending)@),
{
    pending.drain()
}

/// Replays a history of operations on an initially empty buffer, each step
/// `Some(batch)` for an append of `batch` and `None` for a drain. Gives the
/// buffer at the end and everything the drains returned, joined in the
/// order the drains came.
pub open spec fn replay(history: Seq<Option<Seq<String>>>) -> (Seq<String>, Seq<String>)
    decreases history.len(),
{
    if history.len() == 0 {
        (Seq::empty(), Seq::empty())
    } else {
        let (pending, handed_out) = replay(history.drop_last());
        match history.last() {
            Some(batch) => (appended(pending, batch), handed_out),
            None => (drained(pending).1, handed_out + drained(pending).0),
        }
    }
}

/// Every batch appended in `history`, joined in the order of the appends.
pub open spec fn all_appended(history: Seq<Option<Seq<String>>>) -> Seq<String>
    decreases history.len(),
{
    if history.len() == 0 {
        Seq::empty()
    } else {
        match history.last() {
            Some(batch) => all_appended(history.drop_last()) + batch,
            None => all_appended(history.drop_last()),
        }
    }
}

/// Along any order in which appends and drains take turns on the buffer,
/// every appended path is handed out by exactly one drain or still waits:
/// what the drains returned, followed by what remains, is every append
/// joined in order. Nothing is lost and nothing is handed out twice.
pub proof fn law_each_path_drained_once(history: Seq<Option<Seq<String>>>)
    ensures
        replay(history).1 + replay(history).0 == all_appended(history),
    decreases history.len(),
{
    if history.len() > 0 {
        let init = history.drop_last();
        law_each_path_drained_once(init);
        let (pending, handed_out) = replay(init);
        match history.last() {
            Some(batch) => {
                assert(handed_out + (pending + batch) =~= (handed_out + pending) + batch);
            },
            None => {
                assert(handed_out + pending + Seq::<String>::empty() =~= handed_out + pending);
            },
        }
    }
}

/// Appending batches one after another, with no drain between them, leaves
/// the buffer holding its earlier contents followed by the batches joined in
/// the order they came; a drain then returns exactly that.
pub proof fn law_appends_concatenate(start: Seq<String>, batches: Seq<Seq<String>>)
    ensures
        after_appends(start, batches) == start + batches.flatten(),
        drained(after_appends(start, batches)).0 == start + batches.flatten(),
    decreases batches.len(),
{
    if batches.len() == 0 {
        assert(start + batches.flatten() =~= start);
    } else {
        let init = batches.drop_last();
        law_appends_concatenate(start, init);
        init.lemma_flatten_push(batches.last());
        assert(init.push(batches.last()) =~= batches);
        assert(start + init.flatten() + batches.last() =~= start + (init.flatten()
            + batches.last()));
    }
}

/// A drain that directly follows another drain returns nothing.
pub proof fn law_second_drain_is_empty(pending: Seq<String>)
    ensures
        drained(drained(pending).1).0 == Seq::<String>::empty(),
        drained(drained(pending).1).1 == Seq::<String>::empty(),
{
}

/// Appending an empty sequence leaves the buffer as it was.
pub proof fn law_empty_append_is_no_op(pending: Seq<String>)
    ensures
        appended(pending, Seq::empty()) == pending,
{
    assert(pending + Seq::<String>::empty() =~= pending);
}

} // verus!
