//! A lock-protected interning table, shareable between threads.
//!
//! The table sits behind a verified reader-writer lock whose invariant is
//! the table's well-formedness, so every table state any thread can observe
//! has distinct, densely indexed entries, and the lock itself is free of
//! data races by construction. Lookups of already-interned text take only a
//! shared lock; a first-time insertion releases the shared lock, takes the
//! exclusive lock and re-checks for the text before inserting, so that two
//! racing writers of equal text cannot allocate two indices.
//!
//! What each operation computes is specified on [`Interner`], whose fully
//! contracted methods run under the lock. The lock hides its current
//! contents from specifications, so the functions here carry no contract of
//! their own: a clause on them could not bind the result to the shared
//! state, nor relate two calls.

use vstd::prelude::*;
use vstd::rwlock::RwLock;
use vstd::rwlock::RwLockPredicate;

use crate::interner::Interner;
use crate::interner::Symbol;

verus! {

/// The invariant every value stored in the lock satisfies: the table is
/// well-formed.
pub struct TablePred;

impl RwLockPredicate<Interner> for TablePred {
    open spec fn inv(self, t: Interner) -> bool {
        t.wf()
    }
}

/// An interning table behind a reader-writer lock. Copies of handles it
/// issues stay valid for its whole lifetime: entries are never removed.
pub struct SharedInterner {
    lock: RwLock<Interner, TablePred>,
}

impl SharedInterner {
    /// Creates an empty shared table.
    pub fn new() -> SharedInterner {
        SharedInterner { lock: RwLock::new(Interner::new(), Ghost(TablePred)) }
    }

    /// Interns `s`: returns the handle of `s`, inserting `s` first if no
    /// thread has interned it yet. `None` can only come back when the table
    /// already holds the maximal number of texts a handle can index and `s`
    /// is not among them.
    ///
    /// The lookup-or-insert itself is [`Interner::lookup`] and
    /// [`Interner::intern`], performed under the lock; see the module
    /// documentation for what is and is not specified here.
    pub fn intern(&self, s: &str) -> Option<Symbol> {
        let read_handle = self.lock.acquire_read();
        let found = read_handle.borrow().lookup(s);
        read_handle.release_read();
        if let Some(sym) = found {
            return Some(sym);
        }
        // The text was absent under the shared lock; take the exclusive
        // lock and re-check, since another writer may have inserted it in
        // the meantime.
        let (mut table, write_handle) = self.lock.acquire_write();
        let r = match table.lookup(s) {
            Some(sym) => Some(sym),
            None => {
                if table.len() < u32::MAX as usize {
                    Some(table.intern(s))
                } else {
                    None
                }
            },
        };
        write_handle.release_write(table);
        r
    }

    /// Recovers an owned copy of the text behind `sym`, or `None` for a
    /// handle whose index this table has not issued. The recovery is
    /// [`Interner::try_text_at`], performed under the shared lock.
    pub fn text_of(&self, sym: Symbol) -> Option<String> {
        let read_handle = self.lock.acquire_read();
        let table = read_handle.borrow();
        let found = match table.try_text_at(sym) {
            Some(text) => Some(text.to_owned()),
            None => None,
        };
        read_handle.release_read();
        found
    }

    /// The number of distinct texts interned at the moment of the call.
    pub fn len(&self) -> usize {
        let read_handle = self.lock.acquire_read();
        let n: usize = read_handle.borrow().len();
        read_handle.release_read();
        n
    }
}

} // verus!
