//! One terminal session as the supervisor sees it: the PTY's size and the
//! single-shot teardown.
use vstd::prelude::*;
use crate::protocol::{ResizeMessage, TermSize};
use crate::registry::{copy_observation, opt_chars, swept, ClientTtyRegistry};

verus! {

/// The PTY's size after a run of resizes.
pub open spec fn size_run(s: TermSize, resizes: Seq<TermSize>) -> TermSize
    decreases resizes.len(),
{
    if resizes.len() == 0 {
        s
    } else {
        size_run(resizes[0], resizes.drop_first())
    }
}

pub struct TerminalSession {
    size: TermSize,
    finished: bool,
}

impl TerminalSession {
    pub closed spec fn size_spec(&self) -> TermSize {
        self.size
    }

    pub closed spec fn is_finished(&self) -> bool {
        self.finished
    }

    /// A session whose PTY opened at `size`.
    pub fn new(size: TermSize) -> (r: Self)
        ensures
            r.size_spec() == size,
            !r.is_finished(),
    {
        TerminalSession { size, finished: false }
    }

    pub fn size(&self) -> (r: TermSize)
        ensures
            r == self.size_spec(),
    {
        self.size
    }

    /// A decoded resize request: the size to set on the PTY master.
    pub fn resize(&mut self, m: &ResizeMessage) -> (r: TermSize)
        ensures
            r == (TermSize { cols: m.columns, rows: m.rows }),
            final(self).size_spec() == size_run(old(self).size_spec(), seq![r]),
            final(self).is_finished() == old(self).is_finished(),
    {
        let r = TermSize { cols: m.columns, rows: m.rows };
        self.size = r;
        assert(seq![r].drop_first() =~= Seq::<TermSize>::empty());
        assert(size_run(r, Seq::<TermSize>::empty()) == r);
        r
    }

    /// Ends the session, once: the first call hands back the teardown for
    /// this connection's own observation; later calls hand back nothing.
    pub fn finish(&mut self, observation: Option<String>) -> (r: Option<Teardown>)
        ensures
            final(self).is_finished(),
            final(self).size_spec() == old(self).size_spec(),
            old(self).is_finished() ==> r is None,
            !old(self).is_finished() ==> r is Some && r->0.observed() == opt_chars(observation),
    {
        if self.finished {
            return None;
        }
        self.finished = true;
        Some(Teardown { observation })
    }
}

/// The last steps of a session: the multiplexer detach with the
/// connection's own observation, then the registry sweep.
pub struct Teardown {
    observation: Option<String>,
}

impl Teardown {
    pub closed spec fn observed(&self) -> Option<Seq<char>> {
        opt_chars(self.observation)
    }

    /// The client TTY to detach from the multiplexer, if one was observed.
    pub fn detach_target(&self) -> (r: Option<String>)
        ensures
            opt_chars(r) == self.observed(),
    {
        copy_observation(&self.observation)
    }

    /// Sweeps the registry: it is emptied when it still holds this
    /// connection's observation.
    pub fn sweep(self, registry: &mut ClientTtyRegistry) -> (cleared: bool)
        ensures
            cleared == (old(registry)@ == self.observed()),
            final(registry)@ == swept(old(registry)@, self.observed()),
    {
        registry.clear_if_equal(&self.observation)
    }
}

/// The last resize decides the size.
pub proof fn lemma_last_resize_wins(s: TermSize, resizes: Seq<TermSize>, last: TermSize)
    ensures
        size_run(s, resizes.push(last)) == last,
    decreases resizes.len(),
{
    let all = resizes.push(last);
    if resizes.len() == 0 {
        assert(all[0] == last);
        assert(all.drop_first() =~= Seq::<TermSize>::empty());
        assert(size_run(last, Seq::<TermSize>::empty()) == last);
    } else {
        assert(all[0] == resizes[0]);
        assert(all.drop_first() =~= resizes.drop_first().push(last));
        lemma_last_resize_wins(resizes[0], resizes.drop_first(), last);
    }
}

/// Repeating a resize changes nothing.
pub proof fn lemma_repeated_resize(s: TermSize, resizes: Seq<TermSize>, last: TermSize)
    ensures
        size_run(s, resizes.push(last).push(last)) == size_run(s, resizes.push(last)),
{
    lemma_last_resize_wins(s, resizes.push(last), last);
    lemma_last_resize_wins(s, resizes, last);
}

} // verus!
