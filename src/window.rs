use vstd::prelude::*;

use crate::context::{Action, Score, Search, State};
use vstd::arithmetic::div_mod::{lemma_mod_self_0, lemma_small_mod};

verus! {

/// The position after `i` in an index space of length `n`, wrapping to 0.
pub open spec fn next_index(i: int, n: int) -> int {
    (i + 1) % n
}

/// The position before `i` in an index space of length `n`, wrapping to `n - 1`.
pub open spec fn prev_index(i: int, n: int) -> int {
    if i == 0 {
        n - 1
    } else {
        i - 1
    }
}

/// `next_index` stays inside the index space.
pub proof fn lemma_next_index(i: int, n: int)
    requires
        0 <= i < n,
    ensures
        next_index(i, n) == if i + 1 < n {
            i + 1
        } else {
            0
        },
{
    if i + 1 < n {
        lemma_small_mod((i + 1) as nat, n as nat);
    } else {
        lemma_mod_self_0(n);
    }
}

/// The navigation key that a frame acts on.
#[derive(Clone, Copy, Debug, PartialEq, Eq, Structural)]
pub enum InputKind {
    Down,
    Up,
    End,
    Home,
    Enter,
    Idle,
}

impl Default for InputKind {
    fn default() -> (r: InputKind)
        ensures
            r == InputKind::Idle,
    {
        InputKind::Idle
    }
}

/// The key signals of one frame, already classified by the host.
#[derive(Clone, Copy, Debug, PartialEq, Eq, Structural)]
pub struct InputState {
    pub down: bool,
    pub up: bool,
    pub end: bool,
    pub home: bool,
    pub enter: bool,
    /// The command modifier alone is held.
    pub ctrl: bool,
}

impl InputState {
    /// The first signal that is set, in the order down, up, end, home, enter.
    pub open spec fn kind(&self) -> InputKind {
        if self.down {
            InputKind::Down
        } else if self.up {
            InputKind::Up
        } else if self.end {
            InputKind::End
        } else if self.home {
            InputKind::Home
        } else if self.enter {
            InputKind::Enter
        } else {
            InputKind::Idle
        }
    }

    pub fn as_kind(&self) -> (r: InputKind)
        ensures
            r == self.kind(),
    {
        if self.down {
            InputKind::Down
        } else if self.up {
            InputKind::Up
        } else if self.end {
            InputKind::End
        } else if self.home {
            InputKind::Home
        } else if self.enter {
            InputKind::Enter
        } else {
            InputKind::Idle
        }
    }
}

impl State {
    /// The state after one navigation key, over a list of `item_count` items.
    /// A state without index space, or with an empty one, is left as it is.
    pub open spec fn navigated(self, kind: InputKind, item_count: nat) -> State {
        match (self.active_index(), self.active_len(item_count)) {
            (Some(i), Some(n)) if n > 0 => match kind {
                InputKind::Down => self.with_index(next_index(i as int, n as int) as usize),
                InputKind::Up => self.with_index(prev_index(i as int, n as int) as usize),
                InputKind::End => self.with_index((n - 1) as usize),
                InputKind::Home => self.with_index(0),
                _ => self,
            },
            _ => self,
        }
    }
}

/// A navigation key keeps the selection inside its index space.
pub proof fn lemma_navigated_wf(s: State, kind: InputKind, item_count: nat)
    requires
        s.wf(item_count),
    ensures
        s.navigated(kind, item_count).wf(item_count),
{
    match (s.active_index(), s.active_len(item_count)) {
        (Some(i), Some(n)) if n > 0 => {
            lemma_next_index(i as int, n as int);
        },
        _ => {},
    }
}

impl Search {
    /// The selected position and the length of the index space, if any.
    fn get_extents(&self, item_count: usize) -> (r: Option<(usize, usize)>)
        ensures
            r matches Some((i, n)) ==> self.spec_state().active_index() == Some(i as nat)
                && self.spec_state().active_len(item_count as nat) == Some(n as nat),
            r is None ==> self.state is NoMatch,
    {
        match &self.state {
            State::Selected { index } => Some((*index, item_count)),
            State::Scores { scores, index } => Some((*index, scores.len())),
            State::NoMatch => None,
        }
    }

    /// Moves the selection to position `i` of the current index space.
    fn set_index(&mut self, i: usize)
        ensures
            final(self).spec_buffer() == old(self).spec_buffer(),
            final(self).spec_state() == old(self).spec_state().with_index(i),
    {
        let mut s = State::NoMatch;
        std::mem::swap(&mut s, &mut self.state);
        self.state = match s {
            State::Selected { .. } => State::Selected { index: i },
            State::Scores { scores, .. } => State::Scores { scores, index: i },
            State::NoMatch => State::NoMatch,
        };
    }

    /// Down: the next position, wrapping to the top.
    pub fn handle_select_down(&mut self, item_count: usize)
        requires
            old(self).spec_state().wf(item_count as nat),
        ensures
            final(self).spec_buffer() == old(self).spec_buffer(),
            final(self).spec_state() == old(self).spec_state().navigated(InputKind::Down, item_count as nat),
            final(self).spec_state().wf(item_count as nat),
    {
        proof {
            lemma_navigated_wf(self.state, InputKind::Down, item_count as nat);
        }
        if let Some((index, len)) = self.get_extents(item_count) {
            if len > 0 {
                self.set_index((index + 1) % len);
            }
        }
    }

    /// Up: the previous position, wrapping to the bottom.
    pub fn handle_select_up(&mut self, item_count: usize)
        requires
            old(self).spec_state().wf(item_count as nat),
        ensures
            final(self).spec_buffer() == old(self).spec_buffer(),
            final(self).spec_state() == old(self).spec_state().navigated(InputKind::Up, item_count as nat),
            final(self).spec_state().wf(item_count as nat),
    {
        proof {
            lemma_navigated_wf(self.state, InputKind::Up, item_count as nat);
        }
        if let Some((index, len)) = self.get_extents(item_count) {
            if len > 0 {
                let prev = match index.checked_sub(1) {
                    Some(p) => p,
                    None => len - 1,
                };
                self.set_index(prev);
            }
        }
    }

    /// End: the last position.
    pub fn handle_select_list_down(&mut self, item_count: usize)
        requires
            old(self).spec_state().wf(item_count as nat),
        ensures
            final(self).spec_buffer() == old(self).spec_buffer(),
            final(self).spec_state() == old(self).spec_state().navigated(InputKind::End, item_count as nat),
            final(self).spec_state().wf(item_count as nat),
    {
        proof {
            lemma_navigated_wf(self.state, InputKind::End, item_count as nat);
        }
        if let Some((_index, len)) = self.get_extents(item_count) {
            if len > 0 {
                self.set_index(len - 1);
            }
        }
    }

    /// Home: the first position.
    pub fn handle_select_list_up(&mut self, item_count: usize)
        requires
            old(self).spec_state().wf(item_count as nat),
        ensures
            final(self).spec_buffer() == old(self).spec_buffer(),
            final(self).spec_state() == old(self).spec_state().navigated(InputKind::Home, item_count as nat),
            final(self).spec_state().wf(item_count as nat),
    {
        proof {
            lemma_navigated_wf(self.state, InputKind::Home, item_count as nat);
        }
        if let Some((_index, len)) = self.get_extents(item_count) {
            if len > 0 {
                self.set_index(0);
            }
        }
    }

    /// Enter: the original index of the selected item, if a state selects one.
    pub fn handle_select_accept(&self) -> (r: Action)
        requires
            self.spec_state().scores_wf(),
        ensures
            r == match self.spec_state().accept_target() {
                Some(i) => Action::Accept { index: i },
                None => Action::Nothing,
            },
    {
        let index = match &self.state {
            State::Selected { index } => *index,
            State::Scores { scores, index } => scores[*index].index,
            State::NoMatch => {
                return Action::Nothing;
            },
        };
        Action::Accept { index }
    }
}

impl State {
    /// The state after `k` presses of the same navigation key.
    pub open spec fn navigated_n(self, kind: InputKind, item_count: nat, k: nat) -> State
        decreases k,
    {
        if k == 0 {
            self
        } else {
            self.navigated_n(kind, item_count, (k - 1) as nat).navigated(kind, item_count)
        }
    }

    /// The state after a sequence of navigation keys, applied in order.
    pub open spec fn navigated_all(self, kinds: Seq<InputKind>, item_count: nat) -> State
        decreases kinds.len(),
    {
        if kinds.len() == 0 {
            self
        } else {
            self.navigated_all(kinds.drop_last(), item_count).navigated(kinds.last(), item_count)
        }
    }
}

proof fn lemma_with_index(s: State, item_count: nat, j: usize)
    requires
        !(s is NoMatch),
    ensures
        s.with_index(j).active_index() == Some(j as nat),
        s.with_index(j).active_len(item_count) == s.active_len(item_count),
        forall|k: usize| #[trigger] s.with_index(j).with_index(k) == s.with_index(k),
        s.with_index((s.active_index()->0) as usize) == s,
        s.wf(item_count) && (j as nat) < s.active_len(item_count)->0 ==> s.with_index(j).wf(
            item_count,
        ),
{
}

proof fn lemma_down_n(s: State, item_count: nat, i: int, n: int, k: nat)
    requires
        s.wf(item_count),
        s.active_index() == Some(i as nat),
        s.active_len(item_count) == Some(n as nat),
        0 <= i < n <= usize::MAX,
        k <= n,
    ensures
        s.navigated_n(InputKind::Down, item_count, k) == s.with_index(
            (if i + k < n {
                i + k
            } else {
                i + k - n
            }) as usize,
        ),
    decreases k,
{
    lemma_with_index(s, item_count, i as usize);
    if k > 0 {
        let j = if i + k - 1 < n {
            i + k - 1
        } else {
            i + k - 1 - n
        };
        lemma_down_n(s, item_count, i, n, (k - 1) as nat);
        lemma_with_index(s, item_count, j as usize);
        lemma_next_index(j, n);
    }
}

proof fn lemma_up_n(s: State, item_count: nat, i: int, n: int, k: nat)
    requires
        s.wf(item_count),
        s.active_index() == Some(i as nat),
        s.active_len(item_count) == Some(n as nat),
        0 <= i < n <= usize::MAX,
        k <= n,
    ensures
        s.navigated_n(InputKind::Up, item_count, k) == s.with_index(
            (if k <= i {
                i - k
            } else {
                i + n - k
            }) as usize,
        ),
    decreases k,
{
    lemma_with_index(s, item_count, i as usize);
    if k > 0 {
        let j = if k - 1 <= i {
            i - k + 1
        } else {
            i + n - k + 1
        };
        lemma_up_n(s, item_count, i, n, (k - 1) as nat);
        lemma_with_index(s, item_count, j as usize);
    }
}

/// Pressing Down as many times as the index space is long brings the
/// selection back to where it started; so does pressing Up that often.
pub proof fn lemma_wrap(s: State, item_count: usize, n: nat)
    requires
        s.wf(item_count as nat),
        s.active_len(item_count as nat) == Some(n),
        0 < n <= usize::MAX,
    ensures
        s.navigated_n(InputKind::Down, item_count as nat, n) == s,
        s.navigated_n(InputKind::Up, item_count as nat, n) == s,
{
    let i = s.active_index()->0;
    lemma_with_index(s, item_count as nat, i as usize);
    lemma_down_n(s, item_count as nat, i as int, n as int, n);
    lemma_up_n(s, item_count as nat, i as int, n as int, n);
}

/// Any sequence of navigation keys keeps the selection inside its index
/// space.
pub proof fn lemma_bounds(s: State, kinds: Seq<InputKind>, item_count: nat)
    requires
        s.wf(item_count),
    ensures
        s.navigated_all(kinds, item_count).wf(item_count),
        item_count > 0 ==> (s.navigated_all(kinds, item_count).active_index() matches Some(i)
            ==> i < s.navigated_all(kinds, item_count).active_len(item_count)->0),
    decreases kinds.len(),
{
    if kinds.len() > 0 {
        lemma_bounds(s, kinds.drop_last(), item_count);
        lemma_navigated_wf(s.navigated_all(kinds.drop_last(), item_count), kinds.last(), item_count);
    }
}

/// What one input frame comes to.
#[derive(Debug)]
pub enum Frame {
    /// The host shows that the trimmed buffer matched nothing; the frame ends
    /// with `action`.
    NothingFound { action: Action },
    /// The host lists the items of the original list at `range`, in that
    /// order, and highlights position `selected` of that listing. A click on
    /// a listed row accepts that row; without a click the frame ends with
    /// `key_action`.
    Rows { range: Vec<usize>, selected: usize, key_action: Action },
}

/// The action that the key of `input` decides from state `s`, if any: Enter
/// with the command modifier signals input, plain Enter accepts the selected
/// item where there is one.
pub open spec fn key_action(s: State, item_count: nat, input: InputState) -> Option<Action> {
    if item_count > 0 && input.kind() == InputKind::Enter {
        if input.ctrl {
            Some(Action::HasInput)
        } else {
            match s.accept_target() {
                Some(i) => Some(Action::Accept { index: i }),
                None => None,
            }
        }
    } else {
        None
    }
}

/// What a state shows, given the action its key decided, if any.
pub open spec fn shows(
    s: State,
    item_count: nat,
    buffer_empty: bool,
    key: Option<Action>,
    f: Frame,
) -> bool {
    match s {
        State::NoMatch => f == (Frame::NothingFound {
            action: match key {
                Some(a) => a,
                None => if buffer_empty {
                    Action::Nothing
                } else {
                    Action::HasInput
                },
            },
        }),
        State::Selected { index } => {
            &&& f is Rows
            &&& f->range@ == Seq::new(item_count, |i: int| i as usize)
            &&& f->selected == index
            &&& f->key_action == key.unwrap_or(Action::Nothing)
        },
        State::Scores { scores, index } => {
            &&& f is Rows
            &&& f->range@ == scores@.map_values(|sc: Score| sc.index)
            &&& f->selected == index
            &&& f->key_action == key.unwrap_or(Action::Nothing)
        },
    }
}

/// The frame that `input` gives from state `s` over `item_count` items, once
/// the navigation key has been applied to give `t`.
pub open spec fn frame_of(
    s: State,
    t: State,
    item_count: nat,
    buffer_empty: bool,
    input: InputState,
    f: Frame,
) -> bool {
    if item_count == 0 && !buffer_empty {
        &&& t == s
        &&& f == (Frame::NothingFound { action: Action::HasInput })
    } else {
        &&& t == if item_count > 0 {
            s.navigated(input.kind(), item_count)
        } else {
            s
        }
        &&& shows(t, item_count, buffer_empty, key_action(s, item_count, input), f)
    }
}

impl Frame {
    /// The action the frame resolves to, given the listed position that was
    /// clicked, if any. A click on a listed row accepts the original item at
    /// that position and overrides the action of the keys.
    pub fn action(&self, clicked: Option<usize>) -> (r: Action)
        ensures
            r == match self {
                Frame::NothingFound { action } => *action,
                Frame::Rows { range, key_action, .. } => match clicked {
                    Some(p) if (p as nat) < range@.len() => Action::Accept {
                        index: range@[p as int],
                    },
                    _ => *key_action,
                },
            },
    {
        match self {
            Frame::NothingFound { action } => *action,
            Frame::Rows { range, key_action, .. } => match clicked {
                Some(p) => {
                    if p < range.len() {
                        Action::Accept { index: range[p] }
                    } else {
                        *key_action
                    }
                },
                None => *key_action,
            },
        }
    }
}

/// Whether `c` has Unicode's White_Space property.
pub open spec fn is_white_space(c: char) -> bool {
    let x = c as u32;
    ||| 0x9 <= x <= 0xd
    ||| x == 0x20
    ||| x == 0x85
    ||| x == 0xa0
    ||| x == 0x1680
    ||| 0x2000 <= x <= 0x200a
    ||| x == 0x2028
    ||| x == 0x2029
    ||| x == 0x202f
    ||| x == 0x205f
    ||| x == 0x3000
}

/// Every character of `s` is white space.
pub open spec fn all_white_space(s: Seq<char>) -> bool {
    forall|i: int| 0 <= i < s.len() ==> is_white_space(#[trigger] s[i])
}

/// `r` is `s` without its leading and trailing white space.
pub open spec fn is_trim_of(r: Seq<char>, s: Seq<char>) -> bool {
    exists|a: int, b: int|
        {
            &&& 0 <= a <= b <= s.len()
            &&& r == #[trigger] s.subrange(a, b)
            &&& forall|i: int| 0 <= i < a ==> is_white_space(#[trigger] s[i])
            &&& forall|i: int| b <= i < s.len() ==> is_white_space(#[trigger] s[i])
            &&& a < b ==> !is_white_space(s[a]) && !is_white_space(s[b - 1])
        }
}

/// Relies on `str::trim`: the text with leading and trailing white space
/// (the White_Space property) removed.
#[verifier::external_body]
fn trim(s: &str) -> (r: &str)
    ensures
        is_trim_of(r@, s@),
{
    s.trim()
}

impl Search {
    /// The listing of the current state, given the action its key decided.
    fn listing(&self, item_count: usize, buffer_empty: bool, key: Option<Action>) -> (r: Frame)
        ensures
            shows(self.spec_state(), item_count as nat, buffer_empty, key, r),
    {
        let key_action = match key {
            Some(a) => a,
            None => Action::Nothing,
        };
        match &self.state {
            State::NoMatch => {
                if key.is_some() {
                    Frame::NothingFound { action: key_action }
                } else if buffer_empty {
                    Frame::NothingFound { action: Action::Nothing }
                } else {
                    Frame::NothingFound { action: Action::HasInput }
                }
            },
            State::Selected { index } => {
                let mut range: Vec<usize> = Vec::new();
                let mut i: usize = 0;
                while i < item_count
                    invariant
                        i <= item_count,
                        range@ == Seq::new(i as nat, |k: int| k as usize),
                    decreases item_count - i,
                {
                    range.push(i);
                    i = i + 1;
                }
                assert(range@ =~= Seq::new(item_count as nat, |k: int| k as usize));
                Frame::Rows { range, selected: *index, key_action }
            },
            State::Scores { scores, index } => {
                let mut range: Vec<usize> = Vec::new();
                let mut i: usize = 0;
                while i < scores.len()
                    invariant
                        i <= scores@.len(),
                        range@ == scores@.take(i as int).map_values(|sc: Score| sc.index),
                    decreases scores@.len() - i,
                {
                    range.push(scores[i].index);
                    i = i + 1;
                    assert(range@ =~= scores@.take(i as int).map_values(|sc: Score| sc.index));
                }
                assert(scores@.take(i as int) =~= scores@);
                Frame::Rows { range, selected: *index, key_action }
            },
        }
    }

    /// Runs one frame over `item_count` items, where `buffer_empty` tells
    /// whether the trimmed buffer is empty: applies the key of `input` and
    /// says how the frame ends.
    pub fn step(&mut self, item_count: usize, buffer_empty: bool, input: InputState) -> (r: Frame)
        requires
            old(self).spec_state().wf(item_count as nat),
        ensures
            final(self).spec_buffer() == old(self).spec_buffer(),
            final(self).spec_state().wf(item_count as nat),
            frame_of(
                old(self).spec_state(),
                final(self).spec_state(),
                item_count as nat,
                buffer_empty,
                input,
                r,
            ),
    {
        if item_count == 0 && !buffer_empty {
            return Frame::NothingFound { action: Action::HasInput };
        }
        let mut key: Option<Action> = None;
        if item_count > 0 {
            match input.as_kind() {
                InputKind::Down => self.handle_select_down(item_count),
                InputKind::Up => self.handle_select_up(item_count),
                InputKind::End => self.handle_select_list_down(item_count),
                InputKind::Home => self.handle_select_list_up(item_count),
                InputKind::Enter => {
                    if input.ctrl {
                        key = Some(Action::HasInput);
                    } else if let Action::Accept { index } = self.handle_select_accept() {
                        key = Some(Action::Accept { index });
                    }
                },
                InputKind::Idle => {},
            }
        }
        self.listing(item_count, buffer_empty, key)
    }

    /// Runs one frame, reading from the buffer whether the query is empty
    /// once trimmed, that is, whether it holds only white space.
    pub fn handle_input(&mut self, item_count: usize, input: InputState) -> (r: Frame)
        requires
            old(self).spec_state().wf(item_count as nat),
        ensures
            final(self).spec_buffer() == old(self).spec_buffer(),
            final(self).spec_state().wf(item_count as nat),
            frame_of(
                old(self).spec_state(),
                final(self).spec_state(),
                item_count as nat,
                all_white_space(old(self).spec_buffer()),
                input,
                r,
            ),
    {
        let t = trim(self.buffer.as_str());
        let buffer_empty = t.is_empty();
        proof {
            let s = self.buffer@;
            let (a, b) = choose|a: int, b: int|
                {
                    &&& 0 <= a <= b <= s.len()
                    &&& t@ == #[trigger] s.subrange(a, b)
                    &&& forall|i: int| 0 <= i < a ==> is_white_space(#[trigger] s[i])
                    &&& forall|i: int| b <= i < s.len() ==> is_white_space(#[trigger] s[i])
                    &&& a < b ==> !is_white_space(s[a]) && !is_white_space(s[b - 1])
                };
            assert(t@.len() == b - a);
            if a < b {
                assert(!is_white_space(s[a]));
            } else {
                assert forall|i: int| 0 <= i < s.len() implies is_white_space(#[trigger] s[i]) by {
                    if i >= b {
                    } else {
                    }
                }
            }
        }
        self.step(item_count, buffer_empty, input)
    }
}

} // verus!
