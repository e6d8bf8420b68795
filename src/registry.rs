//! The process-wide record of the attached client's TTY path.
use vstd::prelude::*;

verus! {

/// The view of an optional string: the characters it holds, if any.
pub open spec fn opt_chars(o: Option<String>) -> Option<Seq<char>> {
    match o {
        Some(s) => Some(s@),
        None => None,
    }
}

/// Compares two optional strings by their characters.
pub fn same_observation(a: &Option<String>, b: &Option<String>) -> (r: bool)
    ensures
        r == (opt_chars(*a) == opt_chars(*b)),
{
    match (a, b) {
        (Some(x), Some(y)) => x.eq(y),
        (None, None) => true,
        _ => false,
    }
}

/// Copies an optional string.
pub fn copy_observation(a: &Option<String>) -> (r: Option<String>)
    ensures
        opt_chars(r) == opt_chars(*a),
{
    match a {
        Some(x) => Some(x.clone()),
        None => None,
    }
}

/// The registry after a departing session's sweep.
pub open spec fn swept(pre: Option<Seq<char>>, observation: Option<Seq<char>>) -> Option<
    Seq<char>,
> {
    if pre == observation {
        None
    } else {
        pre
    }
}

/// The TTY path of the currently attached client, as far as the terminal
/// sessions have announced it.
pub struct ClientTtyRegistry {
    current: Option<String>,
}

impl View for ClientTtyRegistry {
    type V = Option<Seq<char>>;

    closed spec fn view(&self) -> Option<Seq<char>> {
        opt_chars(self.current)
    }
}

impl ClientTtyRegistry {
    /// An empty registry.
    pub fn new() -> (r: Self)
        ensures
            r@ is None,
    {
        ClientTtyRegistry { current: None }
    }

    /// The path held, if any.
    pub fn get(&self) -> (r: Option<String>)
        ensures
            opt_chars(r) == self@,
    {
        copy_observation(&self.current)
    }

    /// Publishes a session's first observation: it is stored when the
    /// registry is empty or already holds the same path, and otherwise the
    /// registry keeps what another session published.
    pub fn publish(&mut self, path: &str) -> (stored: bool)
        ensures
            stored == (old(self)@ is None || old(self)@ == Some(path@)),
            final(self)@ == if stored { Some(path@) } else { old(self)@ },
    {
        let owned: String = path.to_owned();
        let stored = match &self.current {
            None => true,
            Some(cur) => cur.eq(&owned),
        };
        if stored {
            self.current = Some(owned);
        }
        stored
    }

    /// The teardown sweep: the registry is emptied when it still holds the
    /// departing session's observation, and left alone otherwise.
    pub fn clear_if_equal(&mut self, observation: &Option<String>) -> (cleared: bool)
        ensures
            cleared == (old(self)@ == opt_chars(*observation)),
            final(self)@ == swept(old(self)@, opt_chars(*observation)),
    {
        let cleared = same_observation(&self.current, observation);
        if cleared {
            self.current = None;
        }
        cleared
    }
}

/// At session end the registry is empty exactly when the departing
/// session's observation is what it held. A session that observed a path
/// which never reached an empty registry is left out: the registry stays
/// empty then.
pub proof fn lemma_sweep_empties_iff_owned(pre: Option<Seq<char>>, observation: Option<Seq<char>>)
    requires
        pre is Some || observation is None,
    ensures
        swept(pre, observation) is None <==> observation == pre,
{
}

} // verus!
