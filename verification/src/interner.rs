//! The interning table and the handle type built on top of it.

use vstd::prelude::*;
use vstd::std_specs::cmp::PartialOrdSpec;

verus! {

/// What the `Debug` formatting of `str` renders for a text: a quoted form
/// with quotes, backslashes, control and other non-printable characters
/// escaped. The rendering depends on the characters alone.
pub uninterp spec fn debug_of(s: Seq<char>) -> Seq<char>;

/// Relies on std's `Debug` formatting of `&str`, a pure function of the
/// characters, named by [`debug_of`].
#[verifier::external_body]
fn debug_render(s: &str) -> (r: String)
    ensures
        r@ == debug_of(s@),
{
    format!("{:?}", s)
}

/// Holds exactly when every text value in `t` occupies at most one slot.
pub open spec fn entries_distinct(t: Seq<Seq<char>>) -> bool {
    forall|i: int, j: int| 0 <= i < j < t.len() ==> t[i] != t[j]
}

/// What one lookup-or-insert step does to a table `t`: if `s` is already
/// present the table is unchanged and the result is the index of `s`;
/// otherwise `s` is appended and the result is the freshly assigned index,
/// which equals the number of texts interned before it.
pub open spec fn spec_intern(t: Seq<Seq<char>>, s: Seq<char>) -> (Seq<Seq<char>>, int) {
    if t.contains(s) {
        (t, t.index_of(s))
    } else {
        (t.push(s), t.len() as int)
    }
}

/// In a table with distinct entries, an occurrence of `s` at slot `i`
/// pins `index_of` down to `i`.
pub proof fn lemma_index_of_distinct(t: Seq<Seq<char>>, s: Seq<char>, i: int)
    requires
        entries_distinct(t),
        0 <= i < t.len(),
        t[i] == s,
    ensures
        t.contains(s),
        t.index_of(s) == i,
{
    assert(t.contains(s));
    let j = t.index_of(s);
    assert(0 <= j < t.len() && t[j] == s);
    if i != j {
        assert(t[i] != t[j]);
    }
}

/// An interned string handle: a copyable wrapper around the index of one
/// slot in the [`Interner`] that issued it.
///
/// Equality, ordering and hashing go by the wrapped index alone, so they
/// are O(1) and independent of the text's length. Note that the order of
/// two handles is the order in which their texts were first interned, not
/// the lexicographic order of the texts.
#[derive(Copy, Clone, PartialEq, Eq, Structural, Ord, Hash, Debug)]
pub struct Symbol(u32);

impl Symbol {
    /// The index of the table slot this handle refers to.
    pub closed spec fn idx(self) -> int {
        self.0 as int
    }

    /// Two handles are equal exactly when they wrap the same index.
    pub proof fn lemma_eq_is_idx(a: Symbol, b: Symbol)
        ensures
            (a == b) <==> a.idx() == b.idx(),
    {
    }

    /// A handle orders strictly before another exactly when its index is
    /// smaller: handle order is interning order.
    pub proof fn lemma_lt_is_idx(a: Symbol, b: Symbol)
        ensures
            (a.partial_cmp_spec(&b) == Some(core::cmp::Ordering::Less)) <==> a.idx() < b.idx(),
    {
    }
}

impl PartialOrd for Symbol {
    fn partial_cmp(&self, other: &Symbol) -> (r: Option<core::cmp::Ordering>) {
        if self.0 < other.0 {
            Some(core::cmp::Ordering::Less)
        } else if self.0 == other.0 {
            Some(core::cmp::Ordering::Equal)
        } else {
            Some(core::cmp::Ordering::Greater)
        }
    }
}

impl vstd::std_specs::cmp::PartialOrdSpecImpl for Symbol {
    open spec fn obeys_partial_cmp_spec() -> bool {
        true
    }

    /// Handles are totally ordered by their index, i.e. by interning order.
    open spec fn partial_cmp_spec(&self, other: &Symbol) -> Option<core::cmp::Ordering> {
        if self.idx() < other.idx() {
            Some(core::cmp::Ordering::Less)
        } else if self.idx() == other.idx() {
            Some(core::cmp::Ordering::Equal)
        } else {
            Some(core::cmp::Ordering::Greater)
        }
    }
}

/// The interning table: a dense, insertion-ordered store of distinct text
/// values. Slot `i` holds the `i`-th distinct text ever interned on this
/// table; slots are never removed, reused or overwritten.
pub struct Interner {
    entries: Vec<String>,
}

impl View for Interner {
    type V = Seq<Seq<char>>;

    /// The table is modelled as the sequence of its texts in insertion order.
    closed spec fn view(&self) -> Seq<Seq<char>> {
        self.entries.deep_view()
    }
}

impl Interner {
    /// The table's invariant: every text occupies exactly one slot, and the
    /// number of slots fits the handles' 32-bit index.
    pub open spec fn wf(&self) -> bool {
        &&& entries_distinct(self@)
        &&& self@.len() <= u32::MAX
    }

    /// Creates an empty table.
    pub fn new() -> (r: Interner)
        ensures
            r.wf(),
            r@ =~= Seq::<Seq<char>>::empty(),
    {
        Interner { entries: Vec::new() }
    }

    /// The number of distinct texts interned so far.
    pub fn len(&self) -> (r: usize)
        ensures
            r == self@.len(),
    {
        self.entries.len()
    }

    /// Returns the handle of `s` if `s` has already been interned on this
    /// table, and `None` otherwise.
    pub fn lookup(&self, s: &str) -> (r: Option<Symbol>)
        requires
            self.wf(),
        ensures
            match r {
                Some(sym) => {
                    &&& self@.contains(s@)
                    &&& 0 <= sym.idx() < self@.len()
                    &&& self@[sym.idx()] == s@
                    &&& sym.idx() == self@.index_of(s@)
                },
                None => !self@.contains(s@),
            },
    {
        let key: String = s.to_owned();
        let n: usize = self.entries.len();
        let mut i: usize = 0;
        while i < n
            invariant
                self.wf(),
                n == self@.len(),
                key@ == s@,
                0 <= i <= n,
                forall|j: int| 0 <= j < i ==> self@[j] != s@,
            decreases n - i,
        {
            if self.entries[i] == key {
                proof {
                    assert(self@[i as int] == s@);
                    lemma_index_of_distinct(self@, s@, i as int);
                }
                return Some(Symbol(i as u32));
            }
            i += 1;
        }
        None
    }

    /// Recovers the text stored at the handle's slot. The handle must have
    /// been issued by this table.
    pub fn text_at(&self, sym: Symbol) -> (r: &str)
        requires
            self.wf(),
            sym.idx() < self@.len(),
        ensures
            r@ == self@[sym.idx()],
    {
        self.entries[sym.0 as usize].as_str()
    }

    /// Like [`Interner::text_at`], but total: returns `None` for a handle
    /// whose index this table has not issued (one from a larger table).
    pub fn try_text_at(&self, sym: Symbol) -> (r: Option<&str>)
        requires
            self.wf(),
        ensures
            match r {
                Some(text) => 0 <= sym.idx() < self@.len() && text@ == self@[sym.idx()],
                None => sym.idx() >= self@.len(),
            },
    {
        if (sym.0 as usize) < self.entries.len() {
            Some(self.text_at(sym))
        } else {
            None
        }
    }

    /// Looks `s` up and, if it is absent, inserts it: the table's
    /// lookup-or-insert operation. Equal text always yields the same handle;
    /// fresh text is appended at the next sequential index, and existing
    /// entries are never moved or changed.
    ///
    /// Only a first-time insertion needs room for one more 32-bit index;
    /// looking up text already interned works at any size.
    pub fn intern(&mut self, s: &str) -> (r: Symbol)
        requires
            old(self).wf(),
            old(self)@.contains(s@) || old(self)@.len() < u32::MAX,
        ensures
            final(self).wf(),
            final(self)@ == spec_intern(old(self)@, s@).0,
            r.idx() == spec_intern(old(self)@, s@).1,
            0 <= r.idx() < final(self)@.len(),
            final(self)@[r.idx()] == s@,
    {
        match self.lookup(s) {
            Some(sym) => sym,
            None => {
                let i: u32 = self.entries.len() as u32;
                self.entries.push(s.to_owned());
                proof {
                    assert(self@ =~= old(self)@.push(s@));
                    lemma_distinct_push(old(self)@, s@);
                    lemma_index_of_distinct(self@, s@, i as int);
                }
                Symbol(i)
            },
        }
    }

    /// Parses text into a handle. Parsing never fails: it is the same
    /// operation as interning the text, so parsed and interned handles for
    /// equal text are identical.
    pub fn parse_symbol(&mut self, s: &str) -> (r: Symbol)
        requires
            old(self).wf(),
            old(self)@.contains(s@) || old(self)@.len() < u32::MAX,
        ensures
            final(self).wf(),
            final(self)@ == spec_intern(old(self)@, s@).0,
            r.idx() == spec_intern(old(self)@, s@).1,
            0 <= r.idx() < final(self)@.len(),
            final(self)@[r.idx()] == s@,
    {
        self.intern(s)
    }
}

impl Symbol {
    /// Get the string that this symbol represents, from the table that
    /// issued the symbol.
    pub fn as_str(self, table: &Interner) -> (r: &str)
        requires
            table.wf(),
            self.idx() < table@.len(),
        ensures
            r@ == table@[self.idx()],
    {
        table.text_at(self)
    }

    /// The human-readable rendering of the handle: exactly its recovered
    /// text.
    pub fn display_text(self, table: &Interner) -> (r: String)
        requires
            table.wf(),
            self.idx() < table@.len(),
        ensures
            r@ == table@[self.idx()],
    {
        table.text_at(self).to_owned()
    }

    /// The debug-style rendering of the handle: its recovered text as the
    /// `Debug` formatting of `str` shows it, quoted and escaped. This is
    /// distinct from the plain rendering of [`Symbol::display_text`].
    pub fn debug_text(self, table: &Interner) -> (r: String)
        requires
            table.wf(),
            self.idx() < table@.len(),
        ensures
            r@ == debug_of(table@[self.idx()]),
    {
        debug_render(table.text_at(self))
    }
}

/// Appending a text that is not yet present keeps the entries distinct.
pub proof fn lemma_distinct_push(t: Seq<Seq<char>>, s: Seq<char>)
    requires
        entries_distinct(t),
        !t.contains(s),
    ensures
        entries_distinct(t.push(s)),
{
    let t1 = t.push(s);
    assert forall|i: int, j: int| 0 <= i < j < t1.len() implies t1[i] != t1[j] by {
        if j == t.len() {
            assert(t1[i] == t[i]);
            if t[i] == s {
                assert(t.contains(s));
            }
        }
    }
}

} // verus!
