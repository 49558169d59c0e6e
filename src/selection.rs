//! The filterable single-choice list: live substring filtering of the
//! candidates' labels, a clamped highlighted row, and resolution to exactly one
//! of the candidates handed in.
use vstd::prelude::*;

use crate::key::Key;
use crate::render::{
    conclude_selection, conclusion_draws, draw_filter, draw_options, draws, filter_draws,
    options_draws, picked_labels, DrawOp, MAX_VISIBLE_OPTIONS,
};
use crate::text::{contains, contains_seq, pop_char, push_char};

verus! {

/// The characters of each label.
pub open spec fn labels_of(strings: Seq<String>) -> Seq<Seq<char>> {
    strings.map_values(|s: String| s@)
}

/// The positions, in increasing order, of the labels that contain `filter`.
pub open spec fn matching(filter: Seq<char>, labels: Seq<Seq<char>>) -> Seq<usize>
    decreases labels.len(),
{
    if labels.len() == 0 {
        Seq::empty()
    } else {
        let rest = matching(filter, labels.drop_last());
        if contains_seq(labels.last(), filter) {
            rest.push((labels.len() - 1) as usize)
        } else {
            rest
        }
    }
}

/// The highlighted row once the list has `len` rows: kept by position and
/// clamped to the last row, the first row if none was highlighted, and none
/// for an empty list.
pub open spec fn clamp_selection(selection: Option<usize>, len: nat) -> Option<usize> {
    if len == 0 {
        None
    } else {
        match selection {
            Some(s) => Some(if s < len { s } else { (len - 1) as usize }),
            None => Some(0),
        }
    }
}

/// `s` is strictly increasing and every element is below `bound`.
pub open spec fn ordered_below(s: Seq<usize>, bound: nat) -> bool {
    &&& forall|k: int| 0 <= k < s.len() ==> s[k] < bound
    &&& forall|j: int, k: int| 0 <= j < k < s.len() ==> s[j] < s[k]
}

/// The matching positions are an order-preserving selection of the labels'
/// positions: exactly those whose label contains the filter.
pub proof fn lemma_matching_shape(filter: Seq<char>, labels: Seq<Seq<char>>)
    requires
        labels.len() <= usize::MAX,
    ensures
        ordered_below(matching(filter, labels), labels.len()),
        forall|k: int|
            0 <= k < matching(filter, labels).len() ==> contains_seq(
                labels[matching(filter, labels)[k] as int],
                filter,
            ),
        forall|i: int|
            0 <= i < labels.len() && contains_seq(labels[i], filter) ==> exists|k: int|
                0 <= k < matching(filter, labels).len() && matching(filter, labels)[k] == i,
    decreases labels.len(),
{
    if labels.len() > 0 {
        let prefix = labels.drop_last();
        lemma_matching_shape(filter, prefix);
        let rest = matching(filter, prefix);
        let m = matching(filter, labels);
        let last = (labels.len() - 1) as usize;
        if contains_seq(labels.last(), filter) {
            assert(m == rest.push(last));
        } else {
            assert(m == rest);
        }
        assert forall|k: int| 0 <= k < m.len() implies contains_seq(labels[m[k] as int], filter) by {
            if k < rest.len() {
                assert(m[k] == rest[k]);
                assert(labels[rest[k] as int] == prefix[rest[k] as int]);
            } else {
                assert(m[k] == last);
            }
        }
        assert forall|i: int|
            0 <= i < labels.len() && contains_seq(labels[i], filter) implies exists|k: int|
                0 <= k < m.len() && m[k] == i by {
            if i < labels.len() - 1 {
                assert(prefix[i] == labels[i]);
                let k = choose|k: int| 0 <= k < rest.len() && rest[k] == i;
                assert(m[k] == i);
            } else {
                assert(m[rest.len() as int] == i);
            }
        }
    }
}

/// The positions, in order, of the options whose label contains `filter`.
pub fn apply_filter(filter: &str, all_options: &[String]) -> (r: Vec<usize>)
    ensures
        r@ == matching(filter@, labels_of(all_options@)),
{
    let ghost labels = labels_of(all_options@);
    let mut out: Vec<usize> = Vec::new();
    let mut i: usize = 0;
    while i < all_options.len()
        invariant
            labels == labels_of(all_options@),
            i <= all_options@.len(),
            out@ == matching(filter@, labels.take(i as int)),
        decreases all_options@.len() - i,
    {
        let found = contains(all_options[i].as_str(), filter);
        proof {
            assert(labels.take(i + 1).drop_last() =~= labels.take(i as int));
            assert(labels.take(i + 1).last() == all_options@[i as int]@);
        }
        if found {
            out.push(i);
        }
        i = i + 1;
    }
    assert(labels.take(i as int) =~= labels);
    out
}

/// The highlighted row for the list `current_options`, given the row that
/// was highlighted before it changed.
pub fn update_selection(current_options: &[usize], current_selection: Option<usize>) -> (r: Option<
    usize,
>)
    ensures
        r == clamp_selection(current_selection, current_options@.len()),
{
    let len = current_options.len();
    if len == 0 {
        None
    } else {
        match current_selection {
            Some(s) => Some(if s < len { s } else { len - 1 }),
            None => Some(0),
        }
    }
}

/// What a key did to a selection prompt, and so what must be redrawn.
#[derive(Clone, Copy, Debug, PartialEq, Eq, Structural)]
pub enum SelectAction {
    /// Nothing changed.
    Ignored,
    /// The filter text changed, and with it the list and the highlighted row.
    FilterChanged,
    /// The highlighted row may have moved.
    SelectionMoved,
    /// A row is highlighted and was chosen: the prompt is done.
    Chosen,
}

/// The abstract state of a selection prompt.
pub struct SelectView<T> {
    /// The candidates, in the order they were given.
    pub items: Seq<T>,
    /// The label of each candidate.
    pub displays: Seq<String>,
    /// The filter text typed so far.
    pub filter: Seq<char>,
    /// Positions in `items` of the candidates that the filter keeps.
    pub filtered: Seq<usize>,
    /// The highlighted position in `filtered`.
    pub highlighted: Option<usize>,
}

impl<T> SelectView<T> {
    /// The labels that stay after filtering lie at `filtered`, in order; the
    /// highlighted row, when there is one, is a row of that list, and there is
    /// one whenever the list is not empty.
    pub open spec fn inv(self) -> bool {
        &&& self.displays.len() == self.items.len()
        &&& self.items.len() <= usize::MAX
        &&& self.filtered == matching(self.filter, labels_of(self.displays))
        &&& match self.highlighted {
            Some(i) => i < self.filtered.len(),
            None => self.filtered.len() == 0,
        }
    }

    /// The state once the filter text is `filter`.
    pub open spec fn refilter(self, filter: Seq<char>) -> SelectView<T> {
        let filtered = matching(filter, labels_of(self.displays));
        SelectView {
            items: self.items,
            displays: self.displays,
            filter,
            filtered,
            highlighted: clamp_selection(self.highlighted, filtered.len()),
        }
    }

    /// The state with `highlighted` as the highlighted row.
    pub open spec fn highlight(self, highlighted: Option<usize>) -> SelectView<T> {
        SelectView {
            items: self.items,
            displays: self.displays,
            filter: self.filter,
            filtered: self.filtered,
            highlighted,
        }
    }

    /// The state after `key`.
    pub open spec fn after_key(self, key: Key) -> SelectView<T> {
        match key {
            Key::Character(c) => self.refilter(self.filter.push(c)),
            Key::Backspace => self.refilter(
                if self.filter.len() > 0 {
                    self.filter.drop_last()
                } else {
                    self.filter
                },
            ),
            Key::ArrowDown => self.highlight(
                match self.highlighted {
                    Some(i) => Some(
                        if i + 1 < self.filtered.len() {
                            (i + 1) as usize
                        } else {
                            (self.filtered.len() - 1) as usize
                        },
                    ),
                    None => None,
                },
            ),
            Key::ArrowUp => self.highlight(
                match self.highlighted {
                    Some(i) => Some(
                        if i == 0 {
                            0
                        } else {
                            (i - 1) as usize
                        },
                    ),
                    None => None,
                },
            ),
            _ => self,
        }
    }

    /// What `key` does to this state.
    pub open spec fn action_for(self, key: Key) -> SelectAction {
        match key {
            Key::Character(_) => SelectAction::FilterChanged,
            Key::Backspace => SelectAction::FilterChanged,
            Key::ArrowDown => SelectAction::SelectionMoved,
            Key::ArrowUp => SelectAction::SelectionMoved,
            Key::Enter => if self.highlighted is Some {
                SelectAction::Chosen
            } else {
                SelectAction::Ignored
            },
            _ => SelectAction::Ignored,
        }
    }

    /// The item that the highlighted row stands for.
    pub open spec fn choice(self) -> T
        recommends
            self.highlighted is Some,
    {
        self.items[self.filtered[self.highlighted->0 as int] as int]
    }
}

/// A selection prompt: the candidates, their labels, the filter typed so far,
/// the candidates that it keeps and the highlighted row.
pub struct SelectPrompt<T> {
    items: Vec<T>,
    displays: Vec<String>,
    filter: String,
    filtered: Vec<usize>,
    highlighted: Option<usize>,
}

impl<T> View for SelectPrompt<T> {
    type V = SelectView<T>;

    closed spec fn view(&self) -> SelectView<T> {
        SelectView {
            items: self.items@,
            displays: self.displays@,
            filter: self.filter@,
            filtered: self.filtered@,
            highlighted: self.highlighted,
        }
    }
}

impl<T> SelectPrompt<T> {
    /// A prompt over `items`, labelled by `transform`: the filter is empty,
    /// every candidate is listed in order, and the first one is highlighted.
    pub fn new<F: Fn(&T) -> String>(items: Vec<T>, transform: F) -> (r: Self)
        requires
            forall|i: int| 0 <= i < items@.len() ==> transform.requires((&items@[i],)),
        ensures
            r@.inv(),
            r@.items == items@,
            forall|i: int|
                0 <= i < items@.len() ==> transform.ensures((&items@[i],), #[trigger] r@.displays[i]),
            r@.filter.len() == 0,
            r@.filtered == Seq::new(items@.len(), |i: int| i as usize),
            r@.highlighted == (if items@.len() > 0 {
                Some(0usize)
            } else {
                None
            }),
    {
        let mut displays: Vec<String> = Vec::new();
        let mut i: usize = 0;
        while i < items.len()
            invariant
                i <= items@.len(),
                displays@.len() == i,
                forall|j: int| 0 <= j < items@.len() ==> transform.requires((&items@[j],)),
                forall|j: int| 0 <= j < i ==> transform.ensures((&items@[j],), #[trigger] displays@[j]),
            decreases items@.len() - i,
        {
            let label = transform(&items[i]);
            displays.push(label);
            i = i + 1;
        }
        let filter = String::new();
        let filtered = apply_filter(filter.as_str(), displays.as_slice());
        let highlighted = update_selection(filtered.as_slice(), None);
        let r = SelectPrompt { items, displays, filter, filtered, highlighted };
        proof {
            lemma_empty_filter_keeps_all(labels_of(r.displays@));
        }
        r
    }

    /// Recomputes the list and the highlighted row from the filter text.
    fn refresh(&mut self)
        requires
            old(self).items@.len() == old(self).displays@.len(),
            old(self).items@.len() <= usize::MAX,
        ensures
            final(self)@ == old(self)@.refilter(old(self)@.filter),
    {
        self.filtered = apply_filter(self.filter.as_str(), self.displays.as_slice());
        self.highlighted = update_selection(self.filtered.as_slice(), self.highlighted);
    }

    /// Handles one key: a character extends the filter and backspace shortens
    /// it, after which the list is filtered again and the highlighted row is
    /// clamped into it; the arrows move the highlighted row without wrapping;
    /// Enter chooses the highlighted row, if any.
    pub fn handle_key(&mut self, key: Key) -> (r: SelectAction)
        requires
            old(self)@.inv(),
        ensures
            final(self)@ == old(self)@.after_key(key),
            final(self)@.inv(),
            r == old(self)@.action_for(key),
    {
        proof {
            lemma_step_keeps_invariant(self@, key);
        }
        match key {
            Key::Character(c) => {
                push_char(&mut self.filter, c);
                self.refresh();
                SelectAction::FilterChanged
            },
            Key::Backspace => {
                pop_char(&mut self.filter);
                self.refresh();
                SelectAction::FilterChanged
            },
            Key::ArrowDown => {
                if let Some(i) = self.highlighted {
                    let last = self.filtered.len() - 1;
                    self.highlighted = Some(if i < last { i + 1 } else { last });
                }
                SelectAction::SelectionMoved
            },
            Key::ArrowUp => {
                if let Some(i) = self.highlighted {
                    self.highlighted = Some(if i == 0 { 0 } else { i - 1 });
                }
                SelectAction::SelectionMoved
            },
            Key::Enter => {
                if self.highlighted.is_some() {
                    SelectAction::Chosen
                } else {
                    SelectAction::Ignored
                }
            },
            _ => SelectAction::Ignored,
        }
    }

    /// The filter text typed so far.
    pub fn filter(&self) -> (r: &String)
        ensures
            r@ == self@.filter,
    {
        &self.filter
    }

    /// Positions in the candidates of those that the filter keeps, in order.
    pub fn filtered(&self) -> (r: &Vec<usize>)
        ensures
            r@ == self@.filtered,
    {
        &self.filtered
    }

    /// The highlighted position in the filtered list.
    pub fn highlighted(&self) -> (r: Option<usize>)
        ensures
            r == self@.highlighted,
    {
        self.highlighted
    }

    /// The label of each candidate.
    pub fn displays(&self) -> (r: &Vec<String>)
        ensures
            r@ == self@.displays,
    {
        &self.displays
    }

    /// The options pane for the current list and highlighted row.
    pub fn options_pane(&self) -> (r: Vec<DrawOp>)
        requires
            self@.inv(),
        ensures
            draws(r@) == options_draws(
                picked_labels(self@.filtered, self@.displays),
                self@.highlighted,
            ),
    {
        proof {
            lemma_matching_shape(self@.filter, labels_of(self@.displays));
        }
        draw_options(self.highlighted, self.filtered.as_slice(), self.displays.as_slice())
    }

    /// The filter text, rewritten after the label.
    pub fn filter_echo(&self) -> (r: Vec<DrawOp>)
        ensures
            draws(r@) == filter_draws(self@.filter),
    {
        draw_filter(self.filter.as_str())
    }

    /// The end of the prompt: the pane cleared and the chosen label shown in
    /// place of the filter.
    pub fn conclusion(&self) -> (r: Vec<DrawOp>)
        requires
            self@.inv(),
            self@.highlighted is Some,
        ensures
            draws(r@) == conclusion_draws(
                if self@.filtered.len() <= MAX_VISIBLE_OPTIONS {
                    self@.filtered.len()
                } else {
                    MAX_VISIBLE_OPTIONS as nat
                },
                self@.displays[self@.filtered[self@.highlighted->0 as int] as int]@,
            ),
    {
        proof {
            lemma_matching_shape(self@.filter, labels_of(self@.displays));
        }
        let len = self.filtered.len();
        let rows = if len <= MAX_VISIBLE_OPTIONS {
            len
        } else {
            MAX_VISIBLE_OPTIONS
        };
        let h = self.highlighted.unwrap();
        conclude_selection(rows, self.displays[self.filtered[h]].as_str())
    }

    /// Ends the prompt and hands back the chosen item; the other candidates
    /// are dropped.
    pub fn take_choice(self) -> (r: T)
        requires
            self@.inv(),
            self@.highlighted is Some,
        ensures
            r == self@.choice(),
    {
        proof {
            lemma_matching_shape(self@.filter, labels_of(self@.displays));
        }
        let h = self.highlighted.unwrap();
        let index = self.filtered[h];
        let mut items = self.items;
        items.remove(index)
    }
}

/// With an empty filter every label is kept, in order.
proof fn lemma_empty_filter_keeps_all(labels: Seq<Seq<char>>)
    requires
        labels.len() <= usize::MAX,
    ensures
        matching(Seq::empty(), labels) == Seq::new(labels.len(), |i: int| i as usize),
    decreases labels.len(),
{
    if labels.len() > 0 {
        lemma_empty_filter_keeps_all(labels.drop_last());
        assert(crate::text::occurs_at(labels.last(), Seq::empty(), 0)) by {
            assert(labels.last().subrange(0, 0) =~= Seq::<char>::empty());
        }
        assert(matching(Seq::empty(), labels) =~= Seq::new(labels.len(), |i: int| i as usize));
    }
}

/// Every key keeps the prompt's invariant: the list is always the filtered
/// labels' positions, and the highlighted row a row of it.
pub proof fn lemma_step_keeps_invariant<T>(v: SelectView<T>, key: Key)
    requires
        v.inv(),
    ensures
        v.after_key(key).inv(),
{
    lemma_matching_shape(v.filter, labels_of(v.displays));
}

/// Filtering is idempotent: applying a filter text twice in a row gives the
/// same state as applying it once, applying the text that the prompt already
/// holds changes nothing, and typing a character and erasing it again brings
/// back the same list.
pub proof fn lemma_filter_idempotent<T>(v: SelectView<T>, filter: Seq<char>, c: char)
    requires
        v.inv(),
    ensures
        v.refilter(filter).refilter(filter) == v.refilter(filter),
        v.refilter(v.filter) == v,
        v.after_key(Key::Character(c)).after_key(Key::Backspace).filter == v.filter,
        v.after_key(Key::Character(c)).after_key(Key::Backspace).filtered == v.filtered,
{
    assert(v.filter.push(c).drop_last() =~= v.filter);
}

/// In every state the list is an order-preserving subsequence of the
/// candidates' positions, and it holds exactly the candidates whose label
/// contains the filter text.
pub proof fn lemma_filtered_is_ordered_subsequence<T>(v: SelectView<T>)
    requires
        v.inv(),
    ensures
        ordered_below(v.filtered, v.items.len()),
        forall|k: int|
            0 <= k < v.filtered.len() ==> contains_seq(
                v.displays[v.filtered[k] as int]@,
                v.filter,
            ),
        forall|i: int|
            0 <= i < v.items.len() && contains_seq(v.displays[i]@, v.filter) ==> exists|k: int|
                0 <= k < v.filtered.len() && v.filtered[k] == i,
{
    let labels = labels_of(v.displays);
    lemma_matching_shape(v.filter, labels);
    assert forall|i: int| 0 <= i < v.items.len() implies labels[i] == v.displays[i]@ by {}
    assert forall|k: int| 0 <= k < v.filtered.len() implies contains_seq(
        v.displays[v.filtered[k] as int]@,
        v.filter,
    ) by {
        assert(labels[v.filtered[k] as int] == v.displays[v.filtered[k] as int]@);
    }
    assert forall|i: int|
        0 <= i < v.items.len() && contains_seq(v.displays[i]@, v.filter) implies exists|k: int|
            0 <= k < v.filtered.len() && v.filtered[k] == i by {
        assert(labels[i] == v.displays[i]@);
    }
}

/// The highlighted row, whenever there is one, is a row of the current list,
/// before and after any key.
pub proof fn lemma_highlighted_in_range<T>(v: SelectView<T>, key: Key)
    requires
        v.inv(),
    ensures
        v.highlighted is Some ==> v.highlighted->0 < v.filtered.len(),
        v.after_key(key).highlighted is Some ==> v.after_key(key).highlighted->0 < v.after_key(
            key,
        ).filtered.len(),
{
    lemma_step_keeps_invariant(v, key);
}

} // verus!
