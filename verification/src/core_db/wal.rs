//! The write-ahead log of the triple store (kept in memory until flushed).
use crate::core_db::triple::Triple;
use vstd::prelude::*;

verus! {

#[derive(Debug, Clone, Copy, PartialEq, Eq, Structural)]
pub enum WalRecordType {
    AddTriple,
}

#[derive(Debug, Clone, Copy, PartialEq, Eq, Structural)]
pub struct WalEntry {
    pub record_type: WalRecordType,
    pub triple: Triple,
}

/// The log: where it lives and the entries not yet flushed.
#[derive(Debug)]
pub struct WriteAheadLog {
    path: String,
    buffer: Vec<WalEntry>,
}

impl WriteAheadLog {
    /// The entries appended since the last flush, oldest first.
    pub closed spec fn pending(&self) -> Seq<WalEntry> {
        self.buffer@
    }

    /// The location of the log.
    pub closed spec fn location(&self) -> Seq<char> {
        self.path@
    }

    /// An empty log at `path`.
    pub fn new(path: String) -> (w: WriteAheadLog)
        ensures
            w.pending() == Seq::<WalEntry>::empty(),
            w.location() == path@,
    {
        WriteAheadLog { path, buffer: Vec::new() }
    }

    /// Appends an entry to the log.
    pub fn append(&mut self, entry: WalEntry)
        ensures
            final(self).pending() == old(self).pending().push(entry),
            final(self).location() == old(self).location(),
    {
        self.buffer.push(entry);
    }

    /// Flushes the log; the pending entries are handed over and the buffer is emptied.
    pub fn flush(&mut self) -> (r: Result<(), ()>)
        ensures
            r is Ok,
            final(self).pending() == Seq::<WalEntry>::empty(),
            final(self).location() == old(self).location(),
    {
        self.buffer.clear();
        Ok(())
    }

    /// The location of the log.
    pub fn path(&self) -> (r: &String)
        ensures
            r@ == self.location(),
    {
        &self.path
    }

    /// The number of pending entries.
    pub fn pending_len(&self) -> (n: usize)
        ensures
            n == self.pending().len(),
    {
        self.buffer.len()
    }
}

} // verus!
