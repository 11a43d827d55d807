//! The render state: the latest value of every source, the batches that
//! change it, and what is handed to the renderer.

use crate::poll::batch_view;
use crate::poll::Message;
use vstd::prelude::*;
use vstd::string::StringExecFns;

verus! {

/// The latest value of every source, by key; nothing for a source that has
/// not reported yet.
pub type Values = Seq<Option<Seq<char>>>;

/// The values after one update: the value under `id` is overwritten. An
/// update under a key that no source has changes nothing.
pub open spec fn applied(values: Values, id: usize, value: Seq<char>) -> Values {
    if id < values.len() {
        values.update(id as int, Some(value))
    } else {
        values
    }
}

/// The values after the updates of a batch, applied in the order of the
/// batch.
pub open spec fn applied_all(values: Values, batch: Seq<(usize, Seq<char>)>) -> Values
    decreases batch.len(),
{
    if batch.len() == 0 {
        values
    } else {
        applied(applied_all(values, batch.drop_last()), batch.last().0, batch.last().1)
    }
}

/// Last write wins: of two updates under one key that are applied one after
/// the other, only the later one shows.
pub proof fn lemma_last_write_wins(values: Values, id: usize, first: Seq<char>, last: Seq<char>)
    ensures
        applied(applied(values, id, first), id, last) == applied(values, id, last),
{
    assert(applied(applied(values, id, first), id, last) =~= applied(values, id, last));
}

/// Isolation: an update under one key leaves the value under every other
/// key as it was.
pub proof fn lemma_other_keys_untouched(values: Values, id: usize, value: Seq<char>, other: int)
    requires
        0 <= other < values.len(),
        other != id,
    ensures
        applied(values, id, value).len() == values.len(),
        applied(values, id, value)[other] == values[other],
{
}

/// Updates under different keys do not disturb each other: the order in
/// which they are applied does not show.
pub proof fn lemma_keys_independent(
    values: Values,
    id: usize,
    value: Seq<char>,
    other: usize,
    other_value: Seq<char>,
)
    requires
        id != other,
    ensures
        applied(applied(values, id, value), other, other_value) == applied(
            applied(values, other, other_value),
            id,
            value,
        ),
{
    assert(applied(applied(values, id, value), other, other_value) =~= applied(
        applied(values, other, other_value),
        id,
        value,
    ));
}

/// Applying two batches one after the other is applying them as one.
pub proof fn lemma_batches_in_sequence(
    values: Values,
    first: Seq<(usize, Seq<char>)>,
    second: Seq<(usize, Seq<char>)>,
)
    ensures
        applied_all(applied_all(values, first), second) == applied_all(values, first + second),
    decreases second.len(),
{
    if second.len() == 0 {
        assert(first + second =~= first);
    } else {
        lemma_batches_in_sequence(values, first, second.drop_last());
        assert((first + second).drop_last() =~= first + second.drop_last());
        assert((first + second).last() == second.last());
    }
}

/// The batch holds an update under `id`.
pub open spec fn has_update(batch: Seq<(usize, Seq<char>)>, id: int) -> bool
    decreases batch.len(),
{
    batch.len() > 0 && (batch.last().0 == id || has_update(batch.drop_last(), id))
}

/// The value that a batch leaves under `id`: that of the last update under
/// `id` in the batch, or what was there before if the batch has none.
pub open spec fn last_value(before: Option<Seq<char>>, batch: Seq<(usize, Seq<char>)>, id: int)
    -> Option<Seq<char>>
    decreases batch.len(),
{
    if batch.len() == 0 {
        before
    } else if batch.last().0 == id {
        Some(batch.last().1)
    } else {
        last_value(before, batch.drop_last(), id)
    }
}

/// No batch adds or removes a key.
pub proof fn lemma_length_kept(values: Values, batch: Seq<(usize, Seq<char>)>)
    ensures
        applied_all(values, batch).len() == values.len(),
    decreases batch.len(),
{
    if batch.len() > 0 {
        lemma_length_kept(values, batch.drop_last());
    }
}

/// Last write wins, for whole batches: after any batch, every key holds the
/// value of the last update under it, and a key without an update holds what
/// it held.
pub proof fn lemma_batch_last_write_wins(values: Values, batch: Seq<(usize, Seq<char>)>, id: int)
    requires
        0 <= id < values.len(),
    ensures
        applied_all(values, batch).len() == values.len(),
        applied_all(values, batch)[id] == last_value(values[id], batch, id),
        !has_update(batch, id) ==> applied_all(values, batch)[id] == values[id],
    decreases batch.len(),
{
    if batch.len() > 0 {
        lemma_batch_last_write_wins(values, batch.drop_last(), id);
    }
}

/// What a batch leaves under a key that it updates does not depend on what
/// was there before.
proof fn lemma_last_value_overwrites(
    before: Option<Seq<char>>,
    other: Option<Seq<char>>,
    batch: Seq<(usize, Seq<char>)>,
    id: int,
)
    requires
        has_update(batch, id),
    ensures
        last_value(before, batch, id) == last_value(other, batch, id),
    decreases batch.len(),
{
    if batch.last().0 != id {
        lemma_last_value_overwrites(before, other, batch.drop_last(), id);
    }
}

/// A batch that was applied already changes nothing when it is applied
/// again.
pub proof fn lemma_apply_idempotent(values: Values, batch: Seq<(usize, Seq<char>)>)
    ensures
        applied_all(applied_all(values, batch), batch) == applied_all(values, batch),
{
    let once = applied_all(values, batch);
    let twice = applied_all(once, batch);
    lemma_length_kept(values, batch);
    lemma_length_kept(once, batch);
    assert forall|i: int| 0 <= i < once.len() implies twice[i] == once[i] by {
        lemma_batch_last_write_wins(values, batch, i);
        lemma_batch_last_write_wins(once, batch, i);
        if has_update(batch, i) {
            lemma_last_value_overwrites(values[i], once[i], batch, i);
        }
    }
    assert(twice =~= once);
}

/// The render state.
#[derive(Debug)]
pub struct RenderState {
    values: Vec<Option<String>>,
}

impl View for RenderState {
    type V = Values;

    closed spec fn view(&self) -> Values {
        self.values@.map_values(
            |value: Option<String>|
                match value {
                    Some(text) => Some(text@),
                    None => None,
                },
        )
    }
}

impl RenderState {
    /// The state of `count` sources, none of which has reported yet.
    pub fn new(count: usize) -> (state: RenderState)
        ensures
            state@ == Seq::new(count as nat, |i: int| None::<Seq<char>>),
    {
        let mut values: Vec<Option<String>> = Vec::with_capacity(count);
        let mut i: usize = 0;
        while i < count
            invariant
                i <= count,
                values@.len() == i,
                forall|j: int| 0 <= j < i ==> values@[j].is_none(),
            decreases count - i,
        {
            values.push(None);
            i += 1;
        }
        let state = RenderState { values };
        assert(state@ =~= Seq::new(count as nat, |i: int| None::<Seq<char>>));
        state
    }

    /// Number of keys.
    pub fn len(&self) -> (n: usize)
        ensures
            n == self@.len(),
    {
        self.values.len()
    }

    /// The latest value under `id`, if a source with that key has reported.
    pub fn get(&self, id: usize) -> (value: Option<&str>)
        ensures
            match value {
                Some(text) => id < self@.len() && self@[id as int] == Some(text@),
                None => id >= self@.len() || self@[id as int].is_none(),
            },
    {
        if id < self.values.len() {
            match &self.values[id] {
                Some(text) => Some(text.as_str()),
                None => None,
            }
        } else {
            None
        }
    }

    /// Overwrites the value under `id`.
    pub fn apply(&mut self, id: usize, value: String)
        ensures
            final(self)@ == applied(old(self)@, id, value@),
    {
        if id < self.values.len() {
            self.values.set(id, Some(value));
            assert(self@ =~= applied(old(self)@, id, value@));
        }
    }

    /// Applies the updates of a batch, in the order of the batch.
    pub fn apply_batch(&mut self, batch: Message)
        ensures
            final(self)@ == applied_all(old(self)@, batch_view(batch@)),
    {
        let mut batch = batch;
        let ghost given = batch_view(batch@);
        let n = batch.len();
        let mut i: usize = 0;
        assert(given.take(0) =~= Seq::empty());
        while i < n
            invariant
                i <= n,
                n == batch@.len(),
                n == given.len(),
                forall|j: int| i <= j < n ==> (#[trigger] batch@[j]).0 == given[j].0 && batch@[j].1@
                    == given[j].1,
                self@ == applied_all(old(self)@, given.take(i as int)),
            decreases n - i,
        {
            let id = batch[i].0;
            let mut value = String::new();
            std::mem::swap(&mut batch[i].1, &mut value);
            assert(id == given[i as int].0 && value@ == given[i as int].1);
            self.apply(id, value);
            proof {
                assert(given.take(i + 1).drop_last() =~= given.take(i as int));
                assert(given.take(i + 1).last() == given[i as int]);
            }
            i += 1;
        }
        assert(given.take(n as int) =~= given);
    }
}

} // verus!
