//! Undo/redo log of the values entered into one text field.

use vstd::prelude::*;

verus! {

/// What a [`History`] holds, as mathematical values.
pub struct HistoryView {
    /// The entries, oldest first.
    pub items: Seq<Seq<char>>,
    /// The capacity the history was made with.
    pub max_size: nat,
    /// The index of the entry that `get` returns.
    pub view_pos: nat,
    /// Whether the newest entry is provisional.
    pub last_is_tentative: bool,
}

impl HistoryView {
    /// The history without entries that keeps at most `max_size` of them.
    pub open spec fn empty(max_size: nat) -> HistoryView {
        HistoryView { items: Seq::empty(), max_size, view_pos: 0, last_is_tentative: false }
    }

    /// The cursor indexes an entry whenever there is one, and the log keeps to
    /// its capacity (a capacity of zero still leaves room for one entry).
    pub open spec fn wf(self) -> bool {
        &&& self.items.len() == 0 ==> self.view_pos == 0
        &&& self.items.len() > 0 ==> self.view_pos < self.items.len()
        &&& self.items.len() <= self.max_size || self.items.len() <= 1
    }

    /// Whether entry `i` is provisional: only the newest entry ever is.
    pub open spec fn is_tentative(self, i: int) -> bool {
        self.last_is_tentative && i == self.items.len() - 1
    }

    /// Whether `value` repeats the newest entry.
    pub open spec fn repeats_last(self, value: Seq<char>) -> bool {
        self.items.len() > 0 && self.items.last() == value
    }

    /// The entries that stay when a new value is about to be appended: the
    /// oldest one leaves if the log is full, then the newest one leaves if it
    /// was provisional.
    pub open spec fn kept(self) -> Seq<Seq<char>> {
        let evicted = if self.items.len() > 0 && self.items.len() >= self.max_size {
            self.items.drop_first()
        } else {
            self.items
        };
        if self.last_is_tentative && evicted.len() > 0 {
            evicted.drop_last()
        } else {
            evicted
        }
    }

    /// The history after `value` was entered.
    pub open spec fn add(self, value: Seq<char>, is_tentative: bool) -> HistoryView {
        if self.repeats_last(value) {
            self
        } else {
            HistoryView {
                items: self.kept().push(value),
                max_size: self.max_size,
                view_pos: self.kept().len(),
                last_is_tentative: is_tentative,
            }
        }
    }

    /// The history with the cursor one step nearer to the oldest entry.
    pub open spec fn prev(self) -> HistoryView {
        HistoryView {
            view_pos: if self.view_pos > 0 { (self.view_pos - 1) as nat } else { 0 },
            ..self
        }
    }

    /// The history with the cursor one step nearer to the newest entry.
    pub open spec fn next(self) -> HistoryView {
        HistoryView {
            view_pos: if self.view_pos + 1 < self.items.len() {
                self.view_pos + 1
            } else {
                self.view_pos
            },
            ..self
        }
    }

    /// No two neighbouring entries are equal.
    pub open spec fn no_adjacent_repeat(self) -> bool {
        forall|i: int| 0 <= i && i + 1 < self.items.len() ==> self.items[i] != #[trigger] self.items[i + 1]
    }
}

/// The text of each string of `items`, in order.
spec fn texts(items: Seq<String>) -> Seq<Seq<char>> {
    Seq::new(items.len(), |i: int| items[i]@)
}

/// Bounded log of entered values with a cursor for undo and redo.
#[derive(Debug)]
pub struct History {
    items: Vec<String>,
    max_size: usize,
    view_pos: usize,
    last_is_tentative: bool,
}

impl View for History {
    type V = HistoryView;

    closed spec fn view(&self) -> HistoryView {
        HistoryView {
            items: texts(self.items@),
            max_size: self.max_size as nat,
            view_pos: self.view_pos as nat,
            last_is_tentative: self.last_is_tentative,
        }
    }
}

impl History {
    /// Every history keeps its cursor on an entry and keeps to its capacity.
    #[verifier::type_invariant]
    spec fn inv(&self) -> bool {
        self@.wf()
    }

    /// An empty history that keeps at most `max_size` entries.
    pub fn new(max_size: usize) -> (h: History)
        ensures
            h@.wf(),
            h@ == HistoryView::empty(max_size as nat),
    {
        let h = History { items: Vec::new(), max_size, view_pos: 0, last_is_tentative: false };
        assert(h@.items =~= Seq::<Seq<char>>::empty());
        h
    }

    /// Enters `arg`. A value equal to the newest entry changes nothing.
    /// Otherwise the oldest entry leaves if the log is full, the newest entry
    /// leaves if it was provisional, `arg` becomes the newest entry and the
    /// cursor moves to it.
    pub fn add(&mut self, arg: &str, is_tentative: bool)
        ensures
            final(self)@.wf(),
            final(self)@ == old(self)@.add(arg@, is_tentative),
    {
        proof {
            use_type_invariant(&*self);
        }
        let value = arg.to_owned();
        let n: usize = self.items.len();
        if n > 0 && self.items[n - 1] == value {
            return;
        }
        // The entries are edited outside of `self`, which meanwhile is empty.
        let mut items: Vec<String> = Vec::new();
        self.view_pos = 0;
        std::mem::swap(&mut self.items, &mut items);
        if n > 0 && n >= self.max_size {
            items.remove(0);
        }
        if self.last_is_tentative {
            items.pop();
        }
        items.push(value);
        assert(texts(items@) =~= old(self)@.kept().push(arg@));
        std::mem::swap(&mut self.items, &mut items);
        self.last_is_tentative = is_tentative;
        self.view_pos = self.items.len() - 1;
    }

    /// The entries, oldest first.
    pub fn items(&self) -> (items: &Vec<String>)
        ensures
            items@.len() == self@.items.len(),
            forall|i: int| 0 <= i < items@.len() ==> (#[trigger] items@[i])@ == self@.items[i],
    {
        &self.items
    }

    /// How many entries there are.
    pub fn len(&self) -> (len: usize)
        ensures
            len == self@.items.len(),
    {
        self.items.len()
    }

    /// Whether nothing was entered yet.
    pub fn is_empty(&self) -> (empty: bool)
        ensures
            empty == (self@.items.len() == 0),
    {
        self.items.len() == 0
    }

    /// Whether the newest entry is provisional: the next value replaces it.
    pub fn last_is_tentative(&self) -> (tentative: bool)
        ensures
            tentative == self@.last_is_tentative,
    {
        self.last_is_tentative
    }

    /// The entry under the cursor.
    pub fn get(&self) -> (value: &str)
        requires
            self@.items.len() > 0,
        ensures
            value@ == self@.items[self@.view_pos as int],
    {
        proof {
            use_type_invariant(self);
        }
        self.items[self.view_pos].as_str()
    }

    /// Marks the newest entry as provisional or as kept, and nothing else.
    pub fn set_last_tentative(&mut self, is_tentative: bool)
        ensures
            final(self)@.wf(),
            final(self)@ == (HistoryView { last_is_tentative: is_tentative, ..old(self)@ }),
    {
        proof {
            use_type_invariant(&*self);
        }
        self.last_is_tentative = is_tentative;
    }

    /// Moves the cursor one entry back; at the oldest entry it stays.
    pub fn prev(&mut self)
        ensures
            final(self)@.wf(),
            final(self)@ == old(self)@.prev(),
    {
        proof {
            use_type_invariant(&*self);
        }
        if self.view_pos > 0 {
            self.view_pos = self.view_pos - 1;
        }
    }

    /// Moves the cursor one entry forward; at the newest entry it stays.
    pub fn next(&mut self)
        ensures
            final(self)@.wf(),
            final(self)@ == old(self)@.next(),
    {
        proof {
            use_type_invariant(&*self);
        }
        let n: usize = self.items.len();
        if self.view_pos < n && n - self.view_pos > 1 {
            self.view_pos += 1;
        }
    }
}

/// Entering a value and stepping through the log keep a history well formed:
/// the cursor stays on an entry and the log stays within its capacity.
pub proof fn lemma_steps_keep_wf(h: HistoryView, value: Seq<char>, is_tentative: bool)
    requires
        h.wf(),
    ensures
        h.add(value, is_tentative).wf(),
        h.prev().wf(),
        h.next().wf(),
{
}

/// After a value was entered it is the newest entry and the one under the
/// cursor, whether it was appended or repeated the newest entry.
pub proof fn lemma_add_shows_value(h: HistoryView, value: Seq<char>, is_tentative: bool)
    requires
        h.wf(),
    ensures
        h.add(value, is_tentative).items.len() > 0,
        h.add(value, is_tentative).items.last() == value,
        !h.repeats_last(value) ==> h.add(value, is_tentative).items[h.add(
            value,
            is_tentative,
        ).view_pos as int] == value,
{
}

/// Below capacity, a new value replaces a provisional newest entry and is
/// appended behind a kept one; no other entry is touched.
pub proof fn lemma_add_below_capacity(h: HistoryView, value: Seq<char>, is_tentative: bool)
    requires
        h.wf(),
        h.items.len() < h.max_size,
        !h.repeats_last(value),
    ensures
        h.last_is_tentative && h.items.len() > 0 ==> h.add(value, is_tentative).items
            == h.items.drop_last().push(value),
        !h.last_is_tentative || h.items.len() == 0 ==> h.add(value, is_tentative).items
            == h.items.push(value),
{
}

/// A log without equal neighbours stays so when a value is entered, provided
/// that the entry which becomes the neighbour of an appended value differs
/// from it.
pub proof fn lemma_add_no_adjacent_repeat(h: HistoryView, value: Seq<char>, is_tentative: bool)
    requires
        h.wf(),
        h.no_adjacent_repeat(),
        !h.repeats_last(value) && h.kept().len() > 0 ==> h.kept().last() != value,
    ensures
        h.add(value, is_tentative).no_adjacent_repeat(),
{
    let after = h.add(value, is_tentative);
    if !h.repeats_last(value) {
        let kept = h.kept();
        let shift: int = if h.items.len() > 0 && h.items.len() >= h.max_size {
            1
        } else {
            0
        };
        assert forall|i: int| 0 <= i && i + 1 < after.items.len() implies after.items[i]
            != #[trigger] after.items[i + 1] by {
            if i + 1 < kept.len() {
                assert(kept[i] == h.items[i + shift]);
                assert(kept[i + 1] == h.items[i + shift + 1]);
            } else {
                assert(after.items[i] == kept.last());
            }
        }
    }
}

/// Behind a kept newest entry, entering a value never makes equal neighbours.
pub proof fn lemma_add_behind_kept_entry(h: HistoryView, value: Seq<char>, is_tentative: bool)
    requires
        h.wf(),
        h.no_adjacent_repeat(),
        !h.last_is_tentative,
    ensures
        h.add(value, is_tentative).no_adjacent_repeat(),
{
    if !h.repeats_last(value) && h.kept().len() > 0 {
        assert(h.kept().last() == h.items.last());
    }
    lemma_add_no_adjacent_repeat(h, value, is_tentative);
}

} // verus!
