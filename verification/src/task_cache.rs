//! The concurrent task cache.
//!
//! In-flight concurrent handler tasks need stable indices: a waker captures
//! an index and calls back into the cache after arbitrary suspension, so the
//! cache must never shift entries on removal. The `slab` crate provides
//! exactly that — a dense free-list container with stable `usize` keys — and
//! `TaskRef` keeps one, holding the task-table id of each in-flight task.
//! The slab's contents are named by the uninterpreted map `slab_entries`,
//! and each method the engine calls is a trusted wrapper whose contract
//! states what the slab's source shows.

use vstd::prelude::*;

verus! {

#[verifier::external_type_specification]
#[verifier::external_body]
#[verifier::reject_recursive_types(T)]
pub struct ExSlab<T>(slab::Slab<T>);

/// The entries a slab holds, as a map from stable key to stored value.
pub uninterp spec fn slab_entries(s: slab::Slab<u64>) -> Map<usize, u64>;

/// The contents of a slab that holds nothing.
pub open spec fn no_entries() -> Map<usize, u64> {
    Map::empty()
}

/// The concurrent task cache: stable slab keys to task-table ids.
pub struct TaskRef {
    pub slab: slab::Slab<u64>,
}

impl TaskRef {
    /// The cache's contents.
    pub open spec fn entries(self) -> Map<usize, u64> {
        slab_entries(self.slab)
    }

    /// Relies on `slab::Slab::with_capacity`: a new slab holds nothing.
    #[verifier::external_body]
    pub(crate) fn new(size_hint: usize) -> (t: TaskRef)
        ensures
            slab_entries(t.slab) =~= no_entries(),
            slab_entries(t.slab).dom().finite(),
    {
        TaskRef { slab: slab::Slab::with_capacity(size_hint) }
    }

    /// Relies on `slab::Slab::insert`: the value is stored under a key that
    /// was vacant, and that key is returned.
    #[verifier::external_body]
    pub(crate) fn add_task(&mut self, task_id: u64) -> (key: usize)
        ensures
            !slab_entries(old(self).slab).dom().contains(key),
            slab_entries(final(self).slab) == slab_entries(old(self).slab).insert(key, task_id),
    {
        self.slab.insert(task_id)
    }

    /// Relies on `slab::Slab::try_remove`: removes and returns the value
    /// under `key` if the key is occupied, and does nothing otherwise.
    #[verifier::external_body]
    pub(crate) fn try_remove(&mut self, key: usize) -> (r: Option<u64>)
        ensures
            match r {
                Some(v) => slab_entries(old(self).slab).dom().contains(key) && v == slab_entries(
                    old(self).slab,
                )[key] && slab_entries(final(self).slab) == slab_entries(old(self).slab).remove(key),
                None => !slab_entries(old(self).slab).dom().contains(key) && slab_entries(
                    final(self).slab,
                ) == slab_entries(old(self).slab),
            },
    {
        self.slab.try_remove(key)
    }

    /// Relies on `slab::Slab::contains`.
    #[verifier::external_body]
    pub(crate) fn contains(&self, key: usize) -> (r: bool)
        ensures
            r == slab_entries(self.slab).dom().contains(key),
    {
        self.slab.contains(key)
    }

    /// Relies on `slab::Slab`'s `Index` impl, which panics only on a vacant
    /// key.
    #[verifier::external_body]
    pub(crate) fn get(&self, key: usize) -> (v: u64)
        requires
            slab_entries(self.slab).dom().contains(key),
        ensures
            v == slab_entries(self.slab)[key],
    {
        self.slab[key]
    }

    /// Relies on `slab::Slab::len`: the number of stored values.
    #[verifier::external_body]
    pub(crate) fn len(&self) -> (n: usize)
        requires
            slab_entries(self.slab).dom().finite(),
        ensures
            n == slab_entries(self.slab).dom().len(),
    {
        self.slab.len()
    }

    /// Relies on `slab::Slab::is_empty`.
    #[verifier::external_body]
    pub(crate) fn is_empty(&self) -> (r: bool)
        requires
            slab_entries(self.slab).dom().finite(),
        ensures
            r == (slab_entries(self.slab).dom().len() == 0),
    {
        self.slab.is_empty()
    }
}

} // verus!
