//! The operation log: an append-only sequence addressed by a global index
//! that is never renumbered, trimmable at both ends.

use vstd::prelude::*;

pub mod memory;

verus! {

pub type LogResult<T> = Result<T, LogError>;

#[derive(Debug, Clone, Copy, PartialEq, Eq, Structural)]
pub enum LogError {
    /// The index lies outside the entries that the log currently holds.
    InvalidIndex,
}

/// What a log holds: the entries it retains and the global index of the
/// first of them. The entry at position `i` of `entries` has the global
/// index `offset + i`.
#[verifier::ext_equal]
pub struct LogView<T> {
    pub offset: nat,
    pub entries: Seq<T>,
}

impl<T> LogView<T> {
    /// One past the global index of the last entry.
    pub open spec fn end(self) -> nat {
        self.offset + self.entries.len()
    }

    /// Whether the log holds an entry at the global index `index`.
    pub open spec fn holds(self, index: int) -> bool {
        self.offset <= index < self.end()
    }

    /// The entry at the global index `index`.
    pub open spec fn at(self, index: int) -> T
        recommends
            self.holds(index),
    {
        self.entries[index - self.offset]
    }

    pub open spec fn push(self, value: T) -> Self {
        LogView { offset: self.offset, entries: self.entries.push(value) }
    }

    /// The log without the entries below `first`.
    pub open spec fn without_front(self, first: int) -> Self
        recommends
            self.holds(first),
    {
        LogView {
            offset: first as nat,
            entries: self.entries.subrange(first - self.offset, self.entries.len() as int),
        }
    }

    /// The log without the entries at `last` and above.
    pub open spec fn without_end(self, last: int) -> Self
        recommends
            self.holds(last),
    {
        LogView { offset: self.offset, entries: self.entries.subrange(0, last - self.offset) }
    }
}

impl<T> LogView<T> {
    /// The log after `values` have been pushed, the first of them first.
    pub open spec fn push_all(self, values: Seq<T>) -> Self
        decreases values.len(),
    {
        if values.len() == 0 {
            self
        } else {
            self.push_all(values.drop_last()).push(values.last())
        }
    }

    /// Pushes number the entries without a gap: the values that are pushed
    /// take the indices from the old end on, one after the other, the
    /// offset stays, and what the log held stays where it was.
    pub proof fn pushes_are_contiguous(self, values: Seq<T>)
        ensures
            self.push_all(values).offset == self.offset,
            self.push_all(values).end() == self.end() + values.len(),
            forall|k: int|
                0 <= k < values.len() ==> #[trigger] self.push_all(values).at(self.end() + k)
                    == values[k],
            forall|index: int|
                self.holds(index) ==> self.push_all(values).holds(index) && #[trigger] self.push_all(
                    values,
                ).at(index) == self.at(index),
    {
        self.pushes_append(values);
    }

    /// To push values one by one is to append them.
    pub proof fn pushes_append(self, values: Seq<T>)
        ensures
            self.push_all(values) == (LogView {
                offset: self.offset,
                entries: self.entries + values,
            }),
        decreases values.len(),
    {
        if values.len() > 0 {
            self.pushes_append(values.drop_last());
            assert(self.entries + values =~= (self.entries + values.drop_last()).push(
                values.last(),
            ));
        } else {
            assert(self.entries + values =~= self.entries);
        }
    }

    /// The indices that a log holds are those from its offset up to its
    /// end, and no others.
    pub proof fn holds_the_range(self, index: int)
        ensures
            self.holds(index) <==> self.offset <= index < self.offset + self.entries.len(),
    {
    }

    /// To trim the front at the offset changes nothing.
    pub proof fn front_trim_at_offset_is_idle(self)
        ensures
            self.without_front(self.offset as int) == self,
    {
        assert(self.without_front(self.offset as int) =~= self);
    }

    /// After the front is trimmed at `first` the offset is `first`, no
    /// index below `first` is held, and every entry from `first` on is held
    /// as before.
    pub proof fn front_trim_drops_what_is_below(self, first: int, index: int)
        requires
            self.holds(first),
        ensures
            self.without_front(first).offset == first,
            self.without_front(first).end() == self.end(),
            index < first ==> !self.without_front(first).holds(index),
            first <= index < self.end() ==> self.without_front(first).holds(index)
                && self.without_front(first).at(index) == self.at(index),
    {
    }

    /// After the end is trimmed at `last` the log ends at `last`, no index
    /// from `last` on is held, and every entry below `last` is held as
    /// before.
    pub proof fn end_trim_drops_what_is_above(self, last: int, index: int)
        requires
            self.holds(last),
        ensures
            self.without_end(last).offset == self.offset,
            self.without_end(last).end() == last,
            index >= last ==> !self.without_end(last).holds(index),
            self.offset <= index < last ==> self.without_end(last).holds(index)
                && self.without_end(last).at(index) == self.at(index),
    {
    }
}

pub trait Log<T> {
    spec fn view(&self) -> LogView<T>;

    fn current_size(&self) -> (size: u64)
        ensures
            size == self@.entries.len(),
    ;

    fn current_offset(&self) -> (offset: u64)
        ensures
            offset == self@.offset,
    ;

    fn current_size_with_offset(&self) -> (end: u64)
        ensures
            end == self@.end(),
    ;

    fn get(&self, index: u64) -> (result: LogResult<&T>)
        ensures
            self@.holds(index as int) ==> result == Ok::<&T, LogError>(&self@.at(index as int)),
            !self@.holds(index as int) ==> result == Err::<&T, LogError>(LogError::InvalidIndex),
    ;

    fn push(&mut self, value: T) -> (result: LogResult<()>)
        requires
            old(self)@.end() < u64::MAX,
        ensures
            result is Ok,
            final(self)@ == old(self)@.push(value),
    ;

    fn trim_front(&mut self, first: u64) -> (result: LogResult<()>)
        ensures
            first == old(self)@.offset ==> final(self)@ == old(self)@,
            old(self)@.holds(first as int) ==> result is Ok && final(self)@ == old(self)@.without_front(
                first as int,
            ),
            !old(self)@.holds(first as int) ==> result == Err::<(), LogError>(LogError::InvalidIndex)
                && final(self)@ == old(self)@,
    ;

    fn trim_end(&mut self, last: u64) -> (result: LogResult<()>)
        ensures
            old(self)@.holds(last as int) ==> result is Ok && final(self)@ == old(self)@.without_end(
                last as int,
            ),
            !old(self)@.holds(last as int) ==> result == Err::<(), LogError>(LogError::InvalidIndex)
                && final(self)@ == old(self)@,
    ;
}

} // verus!
