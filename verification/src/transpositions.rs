//! The transposition table: search results stored by the Zobrist hash of the
//! position they were found for.
//!
//! The table has far fewer slots than there are hashes, so the slot of a
//! hash is the hash modulo the number of slots, and the full hash is stored
//! in the entry to tell apart the positions that share a slot.
use vstd::prelude::*;
use crate::movegen::moves::Move;
use crate::zobrist::ZHash;
use vstd::layout::size_of;

verus! {

/// Whether the score saved in an entry is exact, an upper bound or a lower
/// bound.
#[derive(Debug, Copy, Clone, PartialEq, Eq, Structural)]
pub enum NodeType {
    Exact,
    Upper,
    Lower,
}

/// A single TT entry.
#[derive(Debug, Copy, Clone, PartialEq, Eq, Structural)]
pub struct TTEntry {
    /// The hash of the board the entry is for, used to test for hash
    /// collisions
    hash: ZHash,
    /// The depth we searched to from this node
    depth: usize,
    /// The best move we found in the previous search
    best_move: Move,
    /// The associated score we found. This could be an upper/lower bound if the
    /// search resulted in a cutoff
    score: i32,
    /// A flag to indicate whether the stored value is an upper/lower bound
    node_type: NodeType,
    age: u8,
}

impl TTEntry {
    pub closed spec fn spec_hash(self) -> ZHash {
        self.hash
    }

    pub closed spec fn spec_depth(self) -> usize {
        self.depth
    }

    pub closed spec fn spec_move(self) -> Move {
        self.best_move
    }

    pub closed spec fn spec_score(self) -> i32 {
        self.score
    }

    pub closed spec fn spec_type(self) -> NodeType {
        self.node_type
    }

    pub closed spec fn spec_age(self) -> u8 {
        self.age
    }

    /// An entry holds data when its hash is not the null hash.
    pub open spec fn spec_is_empty(self) -> bool {
        self.spec_hash().0 == 0
    }

    /// The empty entry.
    pub fn null() -> (r: TTEntry)
        ensures
            r.spec_hash().0 == 0,
            r.spec_move().0 == 0,
            r.spec_score() == i32::MIN,
            r.spec_depth() == 0,
            r.spec_type() == NodeType::Exact,
            r.spec_age() == 0,
    {
        TTEntry {
            hash: ZHash::null(),
            best_move: Move::null(),
            score: i32::MIN,
            depth: 0,
            node_type: NodeType::Exact,
            age: 0,
        }
    }

    /// Create a new TT entry
    pub fn new(hash: ZHash, best_move: Move, score: i32, depth: usize, node_type: NodeType, age: u8) -> (r: TTEntry)
        ensures
            r.spec_hash() == hash,
            r.spec_move() == best_move,
            r.spec_score() == score,
            r.spec_depth() == depth,
            r.spec_type() == node_type,
            r.spec_age() == age,
    {
        TTEntry { hash, best_move, score, depth, node_type, age }
    }

    /// Return the hash for the entry
    pub fn get_hash(&self) -> (r: ZHash)
        ensures
            r == self.spec_hash(),
    {
        self.hash
    }

    /// Return the best move for the entry
    pub fn get_move(&self) -> (r: Move)
        ensures
            r == self.spec_move(),
    {
        self.best_move
    }

    /// Return the score for the entry
    pub fn get_score(&self) -> (r: i32)
        ensures
            r == self.spec_score(),
    {
        self.score
    }

    /// Return the depth for the entry
    pub fn get_depth(&self) -> (r: usize)
        ensures
            r == self.spec_depth(),
    {
        self.depth
    }

    /// Return the type for the entry
    pub fn get_type(&self) -> (r: NodeType)
        ensures
            r == self.spec_type(),
    {
        self.node_type
    }

    /// Check whether there's any data stored in the entry
    pub fn is_empty(&self) -> (r: bool)
        ensures
            r == self.spec_is_empty(),
    {
        self.hash.0 == 0
    }

    /// The move and score an entry offers to a search of `depth` with window
    /// (`alpha`, `beta`): nothing when it was searched less deep; its score
    /// when exact; `alpha` for an upper bound at or below `alpha`; `beta` for
    /// a lower bound at or above `beta`; nothing otherwise.
    pub open spec fn spec_try_use(self, depth: usize, alpha: i32, beta: i32) -> Option<(Move, i32)> {
        if self.spec_depth() < depth {
            None
        } else {
            match self.spec_type() {
                NodeType::Exact => Some((self.spec_move(), self.spec_score())),
                NodeType::Upper => if self.spec_score() <= alpha {
                    Some((self.spec_move(), alpha))
                } else {
                    None
                },
                NodeType::Lower => if self.spec_score() >= beta {
                    Some((self.spec_move(), beta))
                } else {
                    None
                },
            }
        }
    }

    /// Check whether we can use the entry in the first place, and return the
    /// move/score if so.
    ///
    /// We don't want to use results that didn't search as deep as we're meant
    /// to search. Additionally,, we want to be careful returning a value that
    /// isn't the _actual_ value, but an upper/lower bound.
    pub fn try_use(&self, depth: usize, alpha: i32, beta: i32) -> (r: Option<(Move, i32)>)
        ensures
            r == self.spec_try_use(depth, alpha, beta),
    {
        let entry_type = self.get_type();
        let entry_score = self.get_score();
        let entry_depth = self.get_depth();
        let entry_move = self.get_move();

        if entry_depth < depth {
            return None;
        }

        match entry_type {
            NodeType::Exact => Some((entry_move, entry_score)),
            NodeType::Upper => if entry_score <= alpha {
                Some((entry_move, alpha))
            } else {
                None
            },
            NodeType::Lower => if entry_score >= beta {
                Some((entry_move, beta))
            } else {
                None
            },
        }
    }
}

impl Default for TTEntry {
    fn default() -> (r: Self)
        ensures
            r.spec_is_empty(),
            r.spec_move().0 == 0,
            r.spec_score() == i32::MIN,
            r.spec_depth() == 0,
            r.spec_type() == NodeType::Exact,
            r.spec_age() == 0,
    {
        TTEntry::null()
    }
}

/// ZKeys are Lookup keys derived from a Zobrist hash.
///
/// They are truncated to the requested size, in order to acommodate for the
/// desired transposition table size
#[derive(Debug, Copy, Clone, PartialEq, Eq, Structural)]
pub struct ZKey(pub usize);

/// The slot of `hash` in a table of `size` slots.
pub open spec fn slot_of(hash: ZHash, size: usize) -> int {
    ((hash.0 as usize) % size) as int
}

impl ZKey {
    /// The slot of `hash` in a table of `size` slots: the hash, cut to a
    /// `usize`, modulo `size`.
    pub fn from_hash(hash: ZHash, size: usize) -> (r: Self)
        requires
            size > 0,
        ensures
            r.0 == slot_of(hash, size),
            r.0 < size,
    {
        ZKey((hash.0 as usize) % size)
    }
}

/// The table after storing `entry`: it takes its slot when the slot is
/// empty, when it comes from an older search than the table's age, or when
/// it was searched deeper than the entry in the slot.
pub open spec fn spec_insert(table: Seq<TTEntry>, size: usize, age: u8, entry: TTEntry) -> Seq<TTEntry> {
    let k = slot_of(entry.spec_hash(), size);
    let slot = table[k];
    if slot.spec_is_empty() || entry.spec_age() < age || entry.spec_depth() > slot.spec_depth() {
        table.update(k, entry)
    } else {
        table
    }
}

/// The entry stored for `hash`: the entry of its slot, when it holds data
/// for that very hash.
pub open spec fn spec_probe(table: Seq<TTEntry>, size: usize, hash: ZHash) -> Option<TTEntry> {
    let k = slot_of(hash, size);
    if k < table.len() && !table[k].spec_is_empty() && table[k].spec_hash() == hash {
        Some(table[k])
    } else {
        None
    }
}

/// The size of a table entry, in bytes, as `core::mem::size_of` gives it;
/// it is positive, since an entry holds a `u64`.
#[verifier::external_body]
fn tt_entry_size() -> (r: usize)
    ensures
        r as nat == size_of::<TTEntry>(),
        r > 0,
{
    core::mem::size_of::<TTEntry>()
}

/// A transposition table that stores previously searched results
pub struct TTable {
    /// A collection of entries. Stored on the heap because we need to be able
    /// to dynamically resize it. We only instantiate it once at the start of
    /// the search though, so this isn't a big deal.
    table: Vec<TTEntry>,
    /// The key length of the transposition table
    size: usize,
    ///  The number of non-empty entries stored in the table
    occupancy: usize,
    /// The number of entries that have been inserted so far
    inserts: usize,
    age: u8,
}

impl TTable {
    pub closed spec fn entries(self) -> Seq<TTEntry> {
        self.table@
    }

    pub closed spec fn spec_size(self) -> usize {
        self.size
    }

    pub closed spec fn spec_occupancy(self) -> usize {
        self.occupancy
    }

    pub closed spec fn spec_inserts(self) -> usize {
        self.inserts
    }

    pub closed spec fn spec_age(self) -> u8 {
        self.age
    }

    /// Every entry that occupies a slot was inserted, so the table never
    /// counts more occupied slots than inserts.
    #[verifier::type_invariant]
    spec fn counts(self) -> bool {
        self.occupancy <= self.inserts
    }

    /// A table whose slots all exist: at least one slot, and no more slots
    /// than entries.
    pub open spec fn wf(self) -> bool {
        0 < self.spec_size() <= self.entries().len()
    }

    /// Set the number of entries to what fits in `mb_size` MiB, keeping the
    /// entries that remain and filling new ones with empty entries. The slot
    /// count the table computes keys with is left as it is.
    pub fn resize(&mut self, mb_size: usize)
        ensures
            final(self).spec_size() == old(self).spec_size(),
            final(self).spec_occupancy() == old(self).spec_occupancy(),
            final(self).spec_inserts() == old(self).spec_inserts(),
            final(self).spec_age() == old(self).spec_age(),
            final(self).entries() == resized(old(self).entries(), slots_for(mb_size) as int),
    {
        let n = tt_entry_size();
        let size = (mb_size << 20) / n;
        self.resize_to(size);
    }

    fn resize_to(&mut self, size: usize)
        ensures
            final(self).spec_size() == old(self).spec_size(),
            final(self).spec_occupancy() == old(self).spec_occupancy(),
            final(self).spec_inserts() == old(self).spec_inserts(),
            final(self).spec_age() == old(self).spec_age(),
            final(self).entries().len() == size,
            final(self).entries() == resized(old(self).entries(), size as int),
    {
        proof {
            use_type_invariant(&*self);
        }
        let mut table: Vec<TTEntry> = Vec::new();
        core::mem::swap(&mut table, &mut self.table);
        table.resize(size, TTEntry::default());
        proof {
            assert(table@ =~= resized(old(self).table@, size as int));
        }
        self.table = table;
    }

    /// Create a new table with the requested capacity in megabytes
    pub fn with_capacity(mb_size: usize) -> (r: TTable)
        ensures
            r.spec_size() == slots_for(mb_size),
            r.entries().len() == r.spec_size(),
            forall|i: int| 0 <= i < r.entries().len() ==> #[trigger] r.entries()[i].spec_is_empty(),
            r.spec_occupancy() == 0,
            r.spec_inserts() == 0,
            r.spec_age() == 0,
            r.spec_size() > 0 ==> r.wf(),
    {
        let n = tt_entry_size();
        let size = (mb_size << 20) / n;

        let mut table: TTable = TTable { table: Vec::new(), size, occupancy: 0, inserts: 0, age: 0 };
        table.resize_to(size);
        table
    }

    /// Insert an entry into the transposition table
    pub fn insert(&mut self, entry: TTEntry)
        requires
            old(self).wf(),
            old(self).spec_inserts() < usize::MAX,
            old(self).spec_occupancy() < usize::MAX,
        ensures
            final(self).entries() == spec_insert(old(self).entries(), old(self).spec_size(), old(self).spec_age(), entry),
            final(self).spec_size() == old(self).spec_size(),
            final(self).spec_age() == old(self).spec_age(),
            ({
                let slot = old(self).entries()[slot_of(entry.spec_hash(), old(self).spec_size())];
                &&& final(self).spec_occupancy() == old(self).spec_occupancy() + (if slot.spec_is_empty() { 1int } else { 0int })
                &&& final(self).spec_inserts() == old(self).spec_inserts() + (if slot.spec_is_empty() || entry.spec_age() < old(self).spec_age() || entry.spec_depth() > slot.spec_depth() { 1int } else { 0int })
            }),
    {
        proof {
            use_type_invariant(&*self);
        }
        let key: ZKey = ZKey::from_hash(entry.hash, self.size);
        let slot = self.table[key.0];

        if slot.is_empty() || entry.age < self.age || entry.depth > slot.depth {
            let mut table: Vec<TTEntry> = Vec::new();
            core::mem::swap(&mut table, &mut self.table);
            table.set(key.0, entry);
            self.table = table;
            self.inserts = self.inserts + 1;
            if slot.is_empty() {
                self.occupancy = self.occupancy + 1;
            }
        }
    }

    /// Check whether the hash appears in the transposition table, and return it
    /// if so.
    pub fn probe(&self, hash: ZHash) -> (r: Option<TTEntry>)
        requires
            self.spec_size() > 0,
        ensures
            r == spec_probe(self.entries(), self.spec_size(), hash),
    {
        let key = ZKey::from_hash(hash, self.size);
        if key.0 < self.table.len() {
            let entry = self.table[key.0];
            if !entry.is_empty() && entry.hash == hash {
                return Some(entry);
            }
        }
        None
    }

    /// The number of entries stored since the table was made, overwrites
    /// included.
    pub fn inserts(&self) -> (r: usize)
        ensures
            r == self.spec_inserts(),
    {
        self.inserts
    }

    /// Return the number of entries that were overwritten
    pub fn overwrites(&self) -> (r: usize)
        ensures
            r == self.spec_inserts() - self.spec_occupancy(),
    {
        proof {
            use_type_invariant(self);
        }
        self.inserts - self.occupancy
    }

    /// The number of non-empty slots.
    pub fn occupied(&self) -> (r: usize)
        ensures
            r == self.spec_occupancy(),
    {
        self.occupancy
    }

    /// The number of entries of the table.
    pub fn len(&self) -> (r: usize)
        ensures
            r == self.entries().len(),
    {
        self.table.len()
    }

    pub fn get_age(&self) -> (r: u8)
        ensures
            r == self.spec_age(),
    {
        self.age
    }

    pub fn increment_age(&mut self)
        requires
            old(self).spec_age() < u8::MAX,
        ensures
            final(self).spec_age() == old(self).spec_age() + 1,
            final(self).entries() == old(self).entries(),
            final(self).spec_size() == old(self).spec_size(),
            final(self).spec_occupancy() == old(self).spec_occupancy(),
            final(self).spec_inserts() == old(self).spec_inserts(),
    {
        proof {
            use_type_invariant(&*self);
        }
        self.age = self.age + 1;
    }
}

/// The number of entries that fit in `mb_size` MiB (the byte count wraps
/// around in a `usize`).
pub open spec fn slots_for(mb_size: usize) -> usize {
    ((mb_size << 20usize) as usize / (size_of::<TTEntry>() as usize)) as usize
}

/// The first `len` entries of `table`, padded with empty entries.
pub open spec fn resized(table: Seq<TTEntry>, len: int) -> Seq<TTEntry> {
    Seq::new(len as nat, |i: int| if i < table.len() { table[i] } else { TTEntry::spec_null() })
}

impl TTEntry {
    pub closed spec fn spec_null() -> TTEntry {
        TTEntry { hash: ZHash(0), best_move: Move(0), score: i32::MIN, depth: 0, node_type: NodeType::Exact, age: 0 }
    }
}

/// Reading back what was just stored: after an entry takes its slot, probing
/// its hash gives it back, as long as its hash is not the null hash; probing
/// another hash of the same slot finds nothing, since the full hash is kept.
pub proof fn lemma_probe_after_insert(table: Seq<TTEntry>, size: usize, age: u8, entry: TTEntry)
    requires
        0 < size <= table.len(),
        !entry.spec_is_empty(),
        ({
            let slot = table[slot_of(entry.spec_hash(), size)];
            slot.spec_is_empty() || entry.spec_age() < age || entry.spec_depth() > slot.spec_depth()
        }),
    ensures
        spec_probe(spec_insert(table, size, age, entry), size, entry.spec_hash()) == Some(entry),
        forall|h: ZHash|
            slot_of(h, size) == slot_of(entry.spec_hash(), size) && h != entry.spec_hash() ==> spec_probe(
                #[trigger] spec_insert(table, size, age, entry),
                size,
                h,
            ) is None,
{
}

/// Storing an entry leaves what is stored for hashes of other slots as it
/// was.
pub proof fn lemma_probe_other_slot(table: Seq<TTEntry>, size: usize, age: u8, entry: TTEntry, hash: ZHash)
    requires
        0 < size <= table.len(),
        slot_of(hash, size) != slot_of(entry.spec_hash(), size),
    ensures
        spec_probe(spec_insert(table, size, age, entry), size, hash) == spec_probe(table, size, hash),
{
}

} // verus!
