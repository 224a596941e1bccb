//! Managers of the tasks a kernel runs: every task entity by number, and the
//! queue of numbers ready to run, served first come, first served.
use std::collections::{BTreeMap, VecDeque};
use vstd::prelude::*;

verus! {

broadcast use {vstd::std_specs::btree::group_btree_axioms, vstd::laws_cmp::group_laws_cmp};

/// Threads by number, and the numbers of the threads ready to run.
pub struct ThreadManager<T> {
    tasks: BTreeMap<usize, T>,
    ready_queue: VecDeque<usize>,
}

impl<T> ThreadManager<T> {
    /// The threads by number.
    pub closed spec fn tasks(&self) -> Map<usize, T> {
        self.tasks@
    }

    /// The ready threads, the next to run first.
    pub closed spec fn ready(&self) -> Seq<usize> {
        self.ready_queue@
    }

    /// No thread and none ready.
    pub fn new() -> (r: Self)
        ensures
            r.tasks() == Map::<usize, T>::empty(),
            r.ready() == Seq::<usize>::empty(),
    {
        Self { tasks: BTreeMap::new(), ready_queue: VecDeque::new() }
    }

    /// Records `task` under number `id`, replacing a thread of that number.
    pub fn insert(&mut self, id: usize, task: T)
        ensures
            final(self).tasks() == old(self).tasks().insert(id, task),
            final(self).ready() == old(self).ready(),
    {
        self.tasks.insert(id, task);
    }

    /// The thread numbered `id`, if any.
    pub fn get(&self, id: usize) -> (r: Option<&T>)
        ensures
            match r {
                Some(t) => self.tasks().contains_key(id) && *t == self.tasks()[id],
                None => !self.tasks().contains_key(id),
            },
    {
        self.tasks.get(&id)
    }

    /// Forgets the thread numbered `id`.
    pub fn delete(&mut self, id: usize)
        ensures
            final(self).tasks() == old(self).tasks().remove(id),
            final(self).ready() == old(self).ready(),
    {
        self.tasks.remove(&id);
    }

    /// Queues thread `id` to run.
    pub fn add(&mut self, id: usize)
        ensures
            final(self).tasks() == old(self).tasks(),
            final(self).ready() == old(self).ready().push(id),
    {
        self.ready_queue.push_back(id);
    }

    /// The thread queued first, taken off the queue, if any.
    pub fn fetch(&mut self) -> (r: Option<usize>)
        ensures
            final(self).tasks() == old(self).tasks(),
            old(self).ready().len() == 0 ==> r is None && final(self).ready() == old(self).ready(),
            old(self).ready().len() > 0 ==> r == Some(old(self).ready()[0]) && final(self).ready()
                == old(self).ready().drop_first(),
    {
        self.ready_queue.pop_front()
    }
}

/// Processes by number.
pub struct ProcManager<P> {
    procs: BTreeMap<usize, P>,
}

impl<P> ProcManager<P> {
    /// The processes by number.
    pub closed spec fn procs(&self) -> Map<usize, P> {
        self.procs@
    }

    /// No process.
    pub fn new() -> (r: Self)
        ensures
            r.procs() == Map::<usize, P>::empty(),
    {
        Self { procs: BTreeMap::new() }
    }

    /// Records `item` under number `id`, replacing a process of that number.
    pub fn insert(&mut self, id: usize, item: P)
        ensures
            final(self).procs() == old(self).procs().insert(id, item),
    {
        self.procs.insert(id, item);
    }

    /// The process numbered `id`, if any.
    pub fn get(&self, id: usize) -> (r: Option<&P>)
        ensures
            match r {
                Some(p) => self.procs().contains_key(id) && *p == self.procs()[id],
                None => !self.procs().contains_key(id),
            },
    {
        self.procs.get(&id)
    }

    /// Forgets the process numbered `id`.
    pub fn delete(&mut self, id: usize)
        ensures
            final(self).procs() == old(self).procs().remove(id),
    {
        self.procs.remove(&id);
    }
}

} // verus!
