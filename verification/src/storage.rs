//! The word-store abstraction shared by the word machine's register
//! file and main memory.

use vstd::prelude::*;

use crate::memory::ChangeEvent;
use crate::stream::Error;

verus! {

/// The message an out-of-range access to a named store raises: it
/// names the offending index and the store.
pub open spec fn spec_bad_index_message(i: u32, name: Seq<char>) -> Seq<char> {
    "Invalid index "@ + crate::node::spec_dec_nat(i as int) + " into "@ + name
}

/// An indexable store of words. Reads and writes outside the store
/// fail and change nothing. Every successful write, while observation
/// is on, journals exactly one change event holding the written
/// value.
pub trait Storage: Sized {
    /// The stored words.
    spec fn contents(&self) -> Seq<u32>;

    /// The store's name, as its errors report it.
    spec fn store_name(&self) -> Seq<char>;

    /// The journal of change events not yet drained.
    spec fn events(&self) -> Seq<ChangeEvent>;

    /// Whether changes are being journaled.
    spec fn observing(&self) -> bool;

    /// Read the word at `i`; fails exactly when `i` is out of range,
    /// naming the index and the store.
    fn get(&self, i: u32) -> (r: Result<u32, Error>)
        ensures
            (i as int) < self.contents().len() ==> r == Ok::<u32, Error>(
                self.contents()[i as int],
            ),
            (i as int) >= self.contents().len() ==> (r matches Err(e) && e.message@
                == spec_bad_index_message(i, self.store_name())),
    ;

    /// Write the word at `i`; fails, changing nothing, exactly when
    /// `i` is out of range.
    fn set(&mut self, i: u32, v: u32) -> (r: Result<(), Error>)
        ensures
            (i as int) < old(self).contents().len() ==> r is Ok && final(self).contents() == old(
                self,
            ).contents().update(i as int, v),
            (i as int) >= old(self).contents().len() ==> (r matches Err(e) && e.message@
                == spec_bad_index_message(i, old(self).store_name())) && final(self).contents()
                == old(self).contents(),
            final(self).observing() == old(self).observing(),
            final(self).store_name() == old(self).store_name(),
            final(self).events() == if (i as int) < old(self).contents().len() && old(
                self,
            ).observing() {
                old(self).events().push(ChangeEvent { idx: i, val: v })
            } else {
                old(self).events()
            },
    ;

    /// The number of stored words.
    fn count(&self) -> (r: usize)
        ensures
            r == self.contents().len(),
    ;
}

/// The journal of `pre` survives as a prefix in `post`, and the
/// observation switch is unchanged: writes only append events.
pub open spec fn events_extended<S: Storage>(pre: S, post: S) -> bool {
    &&& pre.events().len() <= post.events().len()
    &&& forall|i: int| 0 <= i < pre.events().len() ==> pre.events()[i] == post.events()[i]
    &&& pre.observing() == post.observing()
}

/// All stored words with their indices, in index order.
pub fn iter<S: Storage>(store: &S) -> (r: Vec<(u32, u32)>)
    requires
        store.contents().len() <= u32::MAX,
    ensures
        r@.len() == store.contents().len(),
        forall|k: int| 0 <= k < r@.len() ==> r@[k] == (k as u32, store.contents()[k]),
{
    let n = store.count();
    let mut out: Vec<(u32, u32)> = Vec::new();
    let mut i: usize = 0;
    while i < n
        invariant
            n == store.contents().len(),
            n <= u32::MAX,
            i <= n,
            out@.len() == i,
            forall|k: int| 0 <= k < i ==> out@[k] == (k as u32, store.contents()[k]),
        decreases n - i,
    {
        let v = match store.get(i as u32) {
            Ok(v) => v,
            Err(_) => { return out },
        };
        out.push((i as u32, v));
        i = i + 1;
    }
    out
}

} // verus!
