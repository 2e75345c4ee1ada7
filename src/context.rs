use vstd::prelude::*;

verus! {

/// One match reported by the ranking oracle: the position of the item in the
/// original list and its rank.
#[derive(Clone, Copy, Debug, PartialEq, Eq, Structural)]
pub struct Score {
    pub index: usize,
    pub score: i64,
}

/// What the picker currently selects.
#[derive(Debug)]
pub enum State {
    /// No active query: `index` points into the full item list.
    Selected { index: usize },
    /// An active query with matches: `index` points into `scores`.
    Scores { scores: Vec<Score>, index: usize },
    /// An active query without any match.
    NoMatch,
}

impl State {
    /// Length of the index space of this state, if it has one.
    pub open spec fn active_len(&self, item_count: nat) -> Option<nat> {
        match self {
            State::Selected { .. } => Some(item_count),
            State::Scores { scores, .. } => Some(scores@.len()),
            State::NoMatch => None,
        }
    }

    /// The selected position within the index space, if there is one.
    pub open spec fn active_index(&self) -> Option<nat> {
        match self {
            State::Selected { index } => Some(*index as nat),
            State::Scores { index, .. } => Some(*index as nat),
            State::NoMatch => None,
        }
    }

    /// A query state holds at least one match and selects one of them.
    pub open spec fn scores_wf(&self) -> bool {
        match self {
            State::Scores { scores, index } => scores@.len() > 0 && (*index as nat)
                < scores@.len(),
            _ => true,
        }
    }

    /// The selection is inside its index space.
    pub open spec fn wf(&self, item_count: nat) -> bool {
        &&& self.scores_wf()
        &&& match self {
            State::Selected { index } => item_count > 0 ==> (*index as nat) < item_count,
            _ => true,
        }
    }

    /// The item of the original list that the selection stands for.
    pub open spec fn accept_target(&self) -> Option<usize> {
        match self {
            State::Selected { index } => Some(*index),
            State::Scores { scores, index } => Some(scores@[*index as int].index),
            State::NoMatch => None,
        }
    }

    /// The same state with its selected position replaced.
    pub open spec fn with_index(self, i: usize) -> State {
        match self {
            State::Selected { .. } => State::Selected { index: i },
            State::Scores { scores, .. } => State::Scores { scores, index: i },
            State::NoMatch => State::NoMatch,
        }
    }
}

impl Default for State {
    fn default() -> (r: State)
        ensures
            r == (State::Selected { index: 0 }),
    {
        State::Selected { index: 0 }
    }
}

/// What the host should do after one input frame.
#[derive(Clone, Copy, Debug, PartialEq, Eq, Structural)]
pub enum Action {
    /// Commit the item at `index` of the original list.
    Accept { index: usize },
    /// The buffer holds input, but no item was accepted.
    HasInput,
    /// Nothing to act on.
    Nothing,
}

impl Default for Action {
    fn default() -> (r: Action)
        ensures
            r == Action::Nothing,
    {
        Action::Nothing
    }
}

/// The state of one picker session: the query text and the selection.
#[derive(Debug)]
pub struct Search {
    pub(crate) buffer: String,
    pub(crate) state: State,
}

impl Search {
    /// The query text, as characters.
    pub open(crate) spec fn spec_buffer(&self) -> Seq<char> {
        self.buffer@
    }

    /// The current selection state.
    pub open(crate) spec fn spec_state(&self) -> State {
        self.state
    }

    /// An empty session: empty buffer, first item selected.
    pub fn new() -> (r: Search)
        ensures
            r.spec_buffer() == Seq::<char>::empty(),
            r.spec_state() == (State::Selected { index: 0 }),
    {
        Search { buffer: String::new(), state: State::Selected { index: 0 } }
    }

    /// The query text.
    pub fn buffer(&self) -> (r: &String)
        ensures
            r@ == self.spec_buffer(),
    {
        &self.buffer
    }

    /// The current selection state.
    pub fn state(&self) -> (r: &State)
        ensures
            r == self.spec_state(),
    {
        &self.state
    }

    /// Whether writing `text` would change the buffer, so that the ranking
    /// oracle has to be asked for it.
    pub fn needs_requery(&self, text: &String) -> (r: bool)
        ensures
            r == (text@ != self.spec_buffer()),
    {
        !(*text == self.buffer)
    }

    /// Replaces the state by what the oracle returned for the current buffer,
    /// as a host must after changing its item list: `NoMatch`, or the matches
    /// with the first one selected.
    pub fn requery(&mut self, scores: Vec<Score>)
        ensures
            final(self).spec_buffer() == old(self).spec_buffer(),
            scores@.len() == 0 ==> final(self).spec_state() == State::NoMatch,
            scores@.len() > 0 ==> final(self).spec_state() == (State::Scores { scores, index: 0 }),
            forall|c: nat| #[trigger] final(self).spec_state().wf(c),
    {
        self.state = if scores.len() == 0 {
            State::NoMatch
        } else {
            State::Scores { scores, index: 0 }
        };
    }

    /// Whether the selection lies inside its index space over `item_count`
    /// items. A host that changed its item list without a new query checks
    /// this before the next frame.
    pub fn is_consistent(&self, item_count: usize) -> (r: bool)
        ensures
            r == self.spec_state().wf(item_count as nat),
    {
        match &self.state {
            State::Selected { index } => item_count == 0 || *index < item_count,
            State::Scores { scores, index } => scores.len() > 0 && *index < scores.len(),
            State::NoMatch => true,
        }
    }

    /// Writes the query text. `scores` is what the ranking oracle returned for
    /// `buffer`; it is used only where the text changes. A changed text
    /// replaces the state by `NoMatch` or by the matches with the first one
    /// selected. An empty text is not special: it too takes the oracle's
    /// result, so clearing the buffer does not bring back `Selected`.
    pub fn set_buffer(&mut self, buffer: String, scores: Vec<Score>) -> (changed: bool)
        ensures
            changed == (buffer@ != old(self).spec_buffer()),
            final(self).spec_buffer() == buffer@,
            !changed ==> final(self).spec_state() == old(self).spec_state(),
            changed && scores@.len() == 0 ==> final(self).spec_state() == State::NoMatch,
            changed && scores@.len() > 0 ==> final(self).spec_state() == (State::Scores {
                scores,
                index: 0,
            }),
            forall|c: nat| old(self).spec_state().wf(c) ==> #[trigger] final(self).spec_state().wf(c),
    {
        if buffer == self.buffer {
            return false;
        }
        self.buffer = buffer;
        self.state = if scores.len() == 0 {
            State::NoMatch
        } else {
            State::Scores { scores, index: 0 }
        };
        true
    }
}

impl Default for Search {
    fn default() -> (r: Search)
        ensures
            r.spec_buffer() == Seq::<char>::empty(),
            r.spec_state() == (State::Selected { index: 0 }),
    {
        Search::new()
    }
}

} // verus!
