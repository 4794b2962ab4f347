//! A log kept in memory.

use std::collections::VecDeque;
use vstd::prelude::*;

use super::{Log, LogError, LogResult, LogView};

verus! {

pub struct MemoryLog<T> {
    offset: u64,
    data: VecDeque<T>,
}

impl<T> MemoryLog<T> {
    #[verifier::type_invariant]
    spec fn within_index_range(self) -> bool {
        self.offset + self.data@.len() <= u64::MAX
    }

    pub fn new() -> (log: Self)
        ensures
            log@ == (LogView::<T> { offset: 0, entries: Seq::empty() }),
    {
        Self { offset: 0, data: VecDeque::new() }
    }
}

impl<T> Default for MemoryLog<T> {
    fn default() -> (log: Self)
        ensures
            log@ == (LogView::<T> { offset: 0, entries: Seq::empty() }),
    {
        Self::new()
    }
}

impl<T> Log<T> for MemoryLog<T> {
    closed spec fn view(&self) -> LogView<T> {
        LogView { offset: self.offset as nat, entries: self.data@ }
    }

    fn current_size(&self) -> (size: u64) {
        proof {
            use_type_invariant(self);
        }
        self.data.len() as u64
    }

    fn current_offset(&self) -> (offset: u64) {
        self.offset
    }

    fn current_size_with_offset(&self) -> (end: u64) {
        proof {
            use_type_invariant(self);
        }
        self.offset + self.data.len() as u64
    }

    fn get(&self, index: u64) -> (result: LogResult<&T>) {
        if index < self.offset {
            return Err(LogError::InvalidIndex);
        }
        let position: u64 = index - self.offset;
        if position >= self.data.len() as u64 {
            return Err(LogError::InvalidIndex);
        }
        Ok(&self.data[position as usize])
    }

    fn push(&mut self, value: T) -> (result: LogResult<()>) {
        proof {
            use_type_invariant(&*self);
        }
        // The entries leave the log while they change, so that the log is
        // within its index range at every step.
        let mut data = VecDeque::new();
        std::mem::swap(&mut data, &mut self.data);
        data.push_back(value);
        self.data = data;
        Ok(())
    }

    fn trim_front(&mut self, first: u64) -> (result: LogResult<()>) {
        proof {
            use_type_invariant(&*self);
        }
        if first < self.offset {
            return Err(LogError::InvalidIndex);
        }
        let drain_to: u64 = first - self.offset;
        if drain_to >= self.data.len() as u64 {
            return Err(LogError::InvalidIndex);
        }
        if drain_to == 0 {
            proof {
                self@.front_trim_at_offset_is_idle();
            }
            return Ok(());
        }
        let mut data = VecDeque::new();
        std::mem::swap(&mut data, &mut self.data);
        let kept = data.split_off(drain_to as usize);
        *self = Self { offset: first, data: kept };
        Ok(())
    }

    fn trim_end(&mut self, last: u64) -> (result: LogResult<()>) {
        proof {
            use_type_invariant(&*self);
        }
        if last < self.offset {
            return Err(LogError::InvalidIndex);
        }
        let truncate_to: u64 = last - self.offset;
        if truncate_to >= self.data.len() as u64 {
            return Err(LogError::InvalidIndex);
        }
        let mut data = VecDeque::new();
        std::mem::swap(&mut data, &mut self.data);
        data.truncate(truncate_to as usize);
        self.data = data;
        Ok(())
    }
}

} // verus!
