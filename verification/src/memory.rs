//! The word store backing the word machine's registers and memory.

use vstd::prelude::*;

use crate::storage::Storage;
use crate::stream::Error;

verus! {

/// One observed write to a word store: the index written and the
/// value it now holds.
#[derive(Clone, Copy, PartialEq, Eq, Structural, Debug)]
pub struct ChangeEvent {
    pub idx: u32,
    pub val: u32,
}

/// A sink for word-store change events; the host forwards journaled
/// events to its observers, as with the byte machine.
pub trait Observer<T> {
    /// Called once for each observed change.
    fn notify(&self, evt: T);
}

/// A named, zero-initialised store of words with change journaling.
pub struct Memory {
    name: String,
    backing: Vec<u32>,
    log: Vec<ChangeEvent>,
    observed: bool,
}

impl Memory {
    /// The journal of change events not yet drained.
    pub closed spec fn events_log(self) -> Seq<ChangeEvent> {
        self.log@
    }

    /// Whether changes are being journaled.
    pub closed spec fn observed(self) -> bool {
        self.observed
    }

    /// The stored words, for use in specifications.
    pub closed spec fn backing_view(self) -> Seq<u32> {
        self.backing@
    }

    /// The store's name, for use in specifications.
    pub closed spec fn name_view(self) -> Seq<char> {
        self.name@
    }

    /// Attach an observer: turns on journaling of writes.
    pub fn add_observer(&mut self)
        ensures
            final(self).backing_view() == old(self).backing_view(),
            final(self).observed(),
            final(self).events_log() == old(self).events_log(),
    {
        self.observed = true;
    }

    /// Journal one change event, while observation is on.
    pub fn emit(&mut self, evt: ChangeEvent)
        ensures
            final(self).backing_view() == old(self).backing_view(),
            final(self).observed() == old(self).observed(),
            final(self).name_view() == old(self).name_view(),
            final(self).events_log() == if old(self).observed() {
                old(self).events_log().push(evt)
            } else {
                old(self).events_log()
            },
    {
        if self.observed {
            self.log.push(evt);
        }
    }

    /// Drain the journal of change events, in the order the writes
    /// happened.
    pub fn take_events(&mut self) -> (r: Vec<ChangeEvent>)
        ensures
            r@ == old(self).events_log(),
            final(self).backing_view() == old(self).backing_view(),
            final(self).events_log() == Seq::<ChangeEvent>::empty(),
            final(self).observed() == old(self).observed(),
    {
        let mut taken: Vec<ChangeEvent> = Vec::new();
        core::mem::swap(&mut taken, &mut self.log);
        taken
    }

    /// A fresh store of `count` zeroed words, under the given name.
    pub fn create(name: String, count: usize) -> (r: Self)
        ensures
            r.backing_view() == Seq::new(count as nat, |i: int| 0u32),
            r.events_log() == Seq::<ChangeEvent>::empty(),
            !r.observed(),
            r.store_name() == name@,
    {
        let mut backing: Vec<u32> = Vec::new();
        let mut i: usize = 0;
        while i < count
            invariant
                i <= count,
                backing@.len() == i,
                forall|k: int| 0 <= k < i ==> backing@[k] == 0u32,
            decreases count - i,
        {
            backing.push(0);
            i = i + 1;
        }
        let r = Self { name, backing, log: Vec::new(), observed: false };
        proof {
            assert(r.backing_view() =~= Seq::new(count as nat, |i: int| 0u32));
        }
        r
    }
}

impl Storage for Memory {
    open spec fn contents(&self) -> Seq<u32> {
        self.backing_view()
    }

    open spec fn store_name(&self) -> Seq<char> {
        self.name_view()
    }

    open spec fn events(&self) -> Seq<ChangeEvent> {
        self.events_log()
    }

    open spec fn observing(&self) -> bool {
        self.observed()
    }

    fn get(&self, i: u32) -> (r: Result<u32, Error>) {
        if (i as usize) >= self.backing.len() {
            Err(Error::plain(self.bad_index(i)))
        } else {
            Ok(self.backing[i as usize])
        }
    }

    fn set(&mut self, i: u32, v: u32) -> (r: Result<(), Error>) {
        if (i as usize) >= self.backing.len() {
            Err(Error::plain(self.bad_index(i)))
        } else {
            self.backing.set(i as usize, v);
            self.emit(ChangeEvent { idx: i, val: v });
            Ok(())
        }
    }

    fn count(&self) -> (r: usize) {
        self.backing.len()
    }
}

impl Memory {
    /// The out-of-range message, naming the index and the store.
    fn bad_index(&self, i: u32) -> (r: String)
        ensures
            r@ == crate::storage::spec_bad_index_message(i, self.store_name()),
    {
        String::from_str("Invalid index ").concat(crate::node::dec_nat_text(i as usize).as_str())
            .concat(" into ").concat(self.name.as_str())
    }
}

} // verus!
