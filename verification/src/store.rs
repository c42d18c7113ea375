//! The bounded line store: the lines read so far, oldest first.
//!
//! A store may carry a limit on its rows. When an append takes it over the
//! limit, rows leave from the front, one at a time, until it is within the
//! limit again: the store then holds the latest rows and nothing else.

use crate::reader::window;
use crate::search::texts;
use vstd::prelude::*;

verus! {

/// The rows of all `batches`, one batch after the other.
pub open spec fn joined<A>(batches: Seq<Seq<A>>) -> Seq<A>
    decreases batches.len(),
{
    if batches.len() == 0 {
        Seq::empty()
    } else {
        joined(batches.drop_last()) + batches.last()
    }
}

/// The rows of a store that held `rows` and then took in `batches`, one
/// after the other, under `limit`.
pub open spec fn after_appends<A>(rows: Seq<A>, batches: Seq<Seq<A>>, limit: Option<usize>) -> Seq<A>
    decreases batches.len(),
{
    if batches.len() == 0 {
        rows
    } else {
        window(after_appends(rows, batches.drop_last(), limit) + batches.last(), limit)
    }
}

/// The rows of `rows` that do not fit under `limit`: the oldest ones, as
/// many as there are rows over the limit.
pub open spec fn overflow<A>(rows: Seq<A>, limit: Option<usize>) -> Seq<A> {
    match limit {
        Some(cap) if rows.len() > cap => rows.take(rows.len() - cap),
        _ => Seq::empty(),
    }
}

/// The rows that leave and the rows that stay are, one after the other, the
/// rows there were.
pub proof fn lemma_overflow_then_window<A>(rows: Seq<A>, limit: Option<usize>)
    ensures
        overflow(rows, limit) + window(rows, limit) == rows,
{
    assert(overflow(rows, limit) + window(rows, limit) =~= rows);
}

/// Cutting to the limit before an append changes nothing of what the append
/// leaves: rows that left would have left anyway.
pub proof fn lemma_window_concat<A>(rows: Seq<A>, batch: Seq<A>, limit: Option<usize>)
    ensures
        window(window(rows, limit) + batch, limit) == window(rows + batch, limit),
{
}

/// Whatever the appends, a store that started within its limit stays within
/// it, and holds the latest rows of all it was given: the oldest leave first.
pub proof fn lemma_appends_keep_latest<A>(rows: Seq<A>, batches: Seq<Seq<A>>, limit: Option<usize>)
    requires
        limit is Some ==> rows.len() <= limit.unwrap(),
    ensures
        after_appends(rows, batches, limit) == window(rows + joined(batches), limit),
        limit is Some ==> after_appends(rows, batches, limit).len() <= limit.unwrap(),
    decreases batches.len(),
{
    if batches.len() > 0 {
        let before = batches.drop_last();
        lemma_appends_keep_latest(rows, before, limit);
        lemma_window_concat(rows + joined(before), batches.last(), limit);
    }
}

/// An ordered sequence of lines, with or without a limit on its length.
#[derive(Clone, Debug)]
pub struct LineStore {
    pub lines: Vec<String>,
    pub max_rows: Option<usize>,
}

impl LineStore {
    /// The store is within its limit.
    pub open spec fn wf(&self) -> bool {
        self.max_rows is Some ==> self.lines@.len() <= self.max_rows.unwrap()
    }

    /// The texts of the lines held, oldest first.
    pub open spec fn rows(&self) -> Seq<Seq<char>> {
        texts(self.lines@)
    }

    /// A store without a limit that holds `lines`.
    pub fn new(lines: Vec<String>) -> (store: LineStore)
        ensures
            store.lines == lines,
            store.max_rows is None,
            store.wf(),
    {
        LineStore { lines, max_rows: None }
    }

    pub fn len(&self) -> (n: usize)
        ensures
            n == self.lines@.len(),
    {
        self.lines.len()
    }

    pub fn is_empty(&self) -> (b: bool)
        ensures
            b == (self.lines@.len() == 0),
    {
        self.lines.len() == 0
    }

    /// Lets rows go from the front, one at a time, until the store is
    /// within its limit. The rows that left are the result, oldest first.
    pub fn evict(&mut self) -> (gone: Vec<String>)
        ensures
            final(self).max_rows == old(self).max_rows,
            final(self).rows() == window(old(self).rows(), old(self).max_rows),
            texts(gone@) == overflow(old(self).rows(), old(self).max_rows),
            final(self).wf(),
    {
        let mut gone: Vec<String> = Vec::new();
        match self.max_rows {
            Some(cap) => {
                let ghost all = self.lines@;
                while self.lines.len() > cap
                    invariant
                        self.max_rows == Some(cap),
                        self.lines@.len() <= all.len(),
                        self.lines@.len() >= cap || self.lines@.len() == all.len(),
                        self.lines@ == all.skip(all.len() - self.lines@.len()),
                        gone@ == all.take(all.len() - self.lines@.len()),
                    decreases self.lines@.len(),
                {
                    let row = self.lines.remove(0);
                    gone.push(row);
                    assert(gone@ =~= all.take(all.len() - self.lines@.len()));
                }
                assert(texts(gone@) =~= overflow(texts(all), Some(cap)));
            },
            None => {},
        }
        gone
    }

    /// Puts a limit on the store, or takes it away, and lets go of the rows
    /// that are over the limit. The rows that left are the result, oldest
    /// first.
    pub fn set_limit(&mut self, max_rows: Option<usize>) -> (gone: Vec<String>)
        ensures
            final(self).max_rows == max_rows,
            final(self).rows() == window(old(self).rows(), max_rows),
            texts(gone@) == overflow(old(self).rows(), max_rows),
            final(self).wf(),
    {
        self.max_rows = max_rows;
        self.evict()
    }

    /// Takes in `batch` at the end, then lets the oldest rows go if the store
    /// is over its limit. The rows that left are the result, oldest first.
    pub fn append(&mut self, batch: Vec<String>) -> (gone: Vec<String>)
        ensures
            final(self).max_rows == old(self).max_rows,
            final(self).rows() == window(old(self).rows() + texts(batch@), old(self).max_rows),
            texts(gone@) == overflow(old(self).rows() + texts(batch@), old(self).max_rows),
            final(self).wf(),
    {
        let mut batch = batch;
        self.lines.append(&mut batch);
        self.evict()
    }

    /// Lets go of every row.
    pub fn clear(&mut self)
        ensures
            final(self).max_rows == old(self).max_rows,
            final(self).lines@.len() == 0,
            final(self).wf(),
    {
        self.lines.clear();
    }
}

} // verus!
