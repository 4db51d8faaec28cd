//! The bucket-striped hash table: an array of buckets, each an ordered list
//! of cells holding at most one cell per key.

use vstd::prelude::*;
use vstd::arithmetic::div_mod::{lemma_add_mod_noop, lemma_mul_mod_noop_left, lemma_small_mod};

verus! {

/// The cells of one bucket, in list order: each a key and its value.
pub type Cells = Seq<(Seq<char>, Seq<char>)>;

/// The buckets of a table, by index.
pub type Buckets = Seq<Cells>;

/// The polynomial hash of a key before reduction: `h = 31 * h + c` over the
/// characters of the key, starting from zero.
pub open spec fn hash_value(key: Seq<char>) -> nat
    decreases key.len(),
{
    if key.len() == 0 {
        0
    } else {
        31 * hash_value(key.drop_last()) + key.last() as nat
    }
}

/// The bucket that a key belongs to in a table of `buckets` buckets.
pub open spec fn bucket_of(key: Seq<char>, buckets: nat) -> int {
    (hash_value(key) % buckets) as int
}

/// The position of the first cell that holds `key`, or the number of cells
/// where none does.
pub open spec fn find(cells: Cells, key: Seq<char>) -> int
    decreases cells.len(),
{
    if cells.len() == 0 || cells[0].0 == key {
        0
    } else {
        1 + find(cells.drop_first(), key)
    }
}

/// No two cells hold the same key.
pub open spec fn distinct_keys(cells: Cells) -> bool {
    forall|i: int, j: int| 0 <= i < j < cells.len() ==> cells[i].0 != cells[j].0
}

/// What a lookup of `key` returns from a list of cells.
pub open spec fn cells_get(cells: Cells, key: Seq<char>) -> Option<Seq<char>> {
    let p = find(cells, key);
    if p < cells.len() {
        Some(cells[p].1)
    } else {
        None
    }
}

/// The list of cells after `key` is set to `value`: an existing cell is
/// overwritten where it stands, a new one is appended at the tail.
pub open spec fn cells_insert(
    cells: Cells,
    key: Seq<char>,
    value: Seq<char>,
) -> Cells {
    let p = find(cells, key);
    if p < cells.len() {
        cells.update(p, (key, value))
    } else {
        cells.push((key, value))
    }
}

/// The list of cells after the first cell that holds `key` is removed; the
/// order of the others is kept.
pub open spec fn cells_delete(cells: Cells, key: Seq<char>) -> Cells {
    let p = find(cells, key);
    if p < cells.len() {
        cells.remove(p)
    } else {
        cells
    }
}

/// `find` is the one position before which no cell holds the key and at which
/// the list ends or a cell does.
pub proof fn lemma_find_is(cells: Cells, key: Seq<char>, p: int)
    requires
        0 <= p <= cells.len(),
        forall|j: int| 0 <= j < p ==> cells[j].0 != key,
        p < cells.len() ==> cells[p].0 == key,
    ensures
        find(cells, key) == p,
    decreases cells.len(),
{
    if p > 0 {
        let rest = cells.drop_first();
        assert forall|j: int| 0 <= j < p - 1 implies rest[j].0 != key by {
            assert(rest[j] == cells[j + 1]);
        }
        lemma_find_is(rest, key, p - 1);
    }
}

/// What `find` returns has the properties that `lemma_find_is` asks for.
pub proof fn lemma_find_props(cells: Cells, key: Seq<char>)
    ensures
        0 <= find(cells, key) <= cells.len(),
        forall|j: int| 0 <= j < find(cells, key) ==> cells[j].0 != key,
        find(cells, key) < cells.len() ==> cells[find(cells, key)].0 == key,
    decreases cells.len(),
{
    if cells.len() != 0 && cells[0].0 != key {
        let rest = cells.drop_first();
        lemma_find_props(rest, key);
        assert forall|j: int| 0 <= j < find(cells, key) implies cells[j].0 != key by {
            if j > 0 {
                assert(rest[j - 1] == cells[j]);
            }
        }
    }
}

struct HashCell {
    key: String,
    value: String,
}

/// One chain of the table: cells in insertion order, one per key.
pub struct Bucket {
    cells: Vec<HashCell>,
}

impl View for Bucket {
    type V = Cells;

    closed spec fn view(&self) -> Cells {
        Seq::new(self.cells@.len(), |i: int| (self.cells@[i].key@, self.cells@[i].value@))
    }
}

impl Bucket {
    /// The bucket holds at most one cell per key.
    pub open spec fn wf(&self) -> bool {
        distinct_keys(self@)
    }

    /// A bucket without cells.
    pub fn new() -> (bucket: Bucket)
        ensures
            bucket.wf(),
            bucket@ == Cells::empty(),
    {
        let bucket = Bucket { cells: Vec::new() };
        assert(bucket@ =~= Cells::empty());
        bucket
    }

    /// The number of cells.
    pub fn len(&self) -> (n: usize)
        ensures
            n == self@.len(),
    {
        self.cells.len()
    }

    /// Sets `key` to `value`: overwrites the cell that holds `key`, or appends
    /// a new cell where none does.
    pub fn insert(&mut self, key: &str, value: &str)
        requires
            old(self).wf(),
        ensures
            final(self).wf(),
            final(self)@ == cells_insert(old(self)@, key@, value@),
    {
        let owned = key.to_owned();
        let mut i: usize = 0;
        while i < self.cells.len()
            invariant
                i <= self.cells@.len(),
                self == old(self),
                self.wf(),
                owned@ == key@,
                forall|j: int| 0 <= j < i ==> self@[j].0 != key@,
            decreases self.cells@.len() - i,
        {
            if self.cells[i].key == owned {
                proof {
                    lemma_find_is(self@, key@, i as int);
                }
                let cell = HashCell { key: owned, value: value.to_owned() };
                self.cells.set(i, cell);
                assert(self@ =~= old(self)@.update(i as int, (key@, value@)));
                assert forall|j: int| 0 <= j < self@.len() implies self@[j].0 == old(self)@[j].0 by {
                    assert(old(self)@[i as int].0 == key@);
                }
                return ;
            }
            i += 1;
        }
        proof {
            lemma_find_is(self@, key@, i as int);
        }
        self.cells.push(HashCell { key: owned, value: value.to_owned() });
        assert(self@ =~= old(self)@.push((key@, value@)));
    }

    /// A copy of the value of the first cell that holds `key`.
    pub fn get(&self, key: &str) -> (found: Option<String>)
        ensures
            match found {
                Some(value) => cells_get(self@, key@) == Some(value@),
                None => cells_get(self@, key@) is None,
            },
    {
        let owned = key.to_owned();
        let mut i: usize = 0;
        while i < self.cells.len()
            invariant
                i <= self.cells@.len(),
                owned@ == key@,
                forall|j: int| 0 <= j < i ==> self@[j].0 != key@,
            decreases self.cells@.len() - i,
        {
            if self.cells[i].key == owned {
                proof {
                    lemma_find_is(self@, key@, i as int);
                }
                return Some(self.cells[i].value.clone());
            }
            i += 1;
        }
        proof {
            lemma_find_is(self@, key@, i as int);
        }
        None
    }

    /// Removes the first cell that holds `key` and says whether there was one.
    pub fn delete(&mut self, key: &str) -> (removed: bool)
        requires
            old(self).wf(),
        ensures
            final(self).wf(),
            final(self)@ == cells_delete(old(self)@, key@),
            removed == (cells_get(old(self)@, key@) is Some),
    {
        let owned = key.to_owned();
        let mut i: usize = 0;
        while i < self.cells.len()
            invariant
                i <= self.cells@.len(),
                self == old(self),
                self.wf(),
                owned@ == key@,
                forall|j: int| 0 <= j < i ==> self@[j].0 != key@,
            decreases self.cells@.len() - i,
        {
            if self.cells[i].key == owned {
                proof {
                    lemma_find_is(self@, key@, i as int);
                }
                self.cells.remove(i);
                assert(self@ =~= old(self)@.remove(i as int));
                return true;
            }
            i += 1;
        }
        proof {
            lemma_find_is(self@, key@, i as int);
        }
        false
    }
}

/// What a lookup of `key` returns from a table given as its buckets.
pub open spec fn table_get(table: Buckets, key: Seq<char>) -> Option<Seq<char>> {
    cells_get(table[bucket_of(key, table.len())], key)
}

/// The buckets after `key` is set to `value`: only the key's own bucket
/// changes.
pub open spec fn table_insert(
    table: Buckets,
    key: Seq<char>,
    value: Seq<char>,
) -> Buckets {
    let b = bucket_of(key, table.len());
    table.update(b, cells_insert(table[b], key, value))
}

/// The buckets after `key` is deleted: only the key's own bucket changes.
pub open spec fn table_delete(table: Buckets, key: Seq<char>) -> Buckets {
    let b = bucket_of(key, table.len());
    table.update(b, cells_delete(table[b], key))
}

/// Every bucket holds at most one cell per key, and every cell stands in the
/// bucket that its key hashes to.
pub open spec fn table_wf(table: Buckets) -> bool {
    &&& forall|b: int| 0 <= b < table.len() ==> distinct_keys(#[trigger] table[b])
    &&& forall|b: int, i: int|
        0 <= b < table.len() && 0 <= i < table[b].len() ==> bucket_of(
            (#[trigger] table[b][i]).0,
            table.len(),
        ) == b
}

/// One more character folds into the reduced hash as it does into the hash
/// itself.
pub proof fn lemma_hash_step(prefix: Seq<char>, c: char, size: nat)
    requires
        size > 0,
    ensures
        hash_value(prefix.push(c)) % size == (31 * (hash_value(prefix) % size) + c as nat) % size,
{
    let h = hash_value(prefix) as int;
    let m = size as int;
    assert(prefix.push(c).drop_last() =~= prefix);
    assert(prefix.push(c).last() == c);
    assert(hash_value(prefix.push(c)) == 31 * h + c as nat);
    lemma_mul_mod_noop_left(h, 31, m);
    assert((h % m) * 31 % m == h * 31 % m);
    lemma_add_mod_noop((h % m) * 31, c as int, m);
    lemma_add_mod_noop(h * 31, c as int, m);
}

/// A character's code fits 32 bits.
proof fn lemma_char_fits(c: char)
    ensures
        c as u32 as nat == c as nat,
{
}

/// The index of the bucket that `key` belongs to among `size` buckets.
pub fn bucket_index(key: &str, size: usize) -> (index: usize)
    requires
        size > 0,
    ensures
        index == bucket_of(key@, size as nat),
        index < size,
{
    let mut h: usize = 0;
    proof {
        assert(key@.take(0) =~= Seq::<char>::empty());
        lemma_small_mod(0, size as nat);
    }
    for c in it: key.chars()
        invariant
            size > 0,
            it.seq() == key@,
            h < size,
            h == hash_value(key@.take(it.index() as int)) % (size as nat),
    {
        let wide: u128 = (h as u128) * 31 + (c as u32 as u128);
        proof {
            assert(key@.take(it.index() + 1) =~= key@.take(it.index() as int).push(c));
            lemma_hash_step(key@.take(it.index() as int), c, size as nat);
            lemma_char_fits(c);
        }
        h = (wide % (size as u128)) as usize;
    }
    proof {
        assert(key@.take(key@.len() as int) =~= key@);
    }
    h
}

/// An array of buckets; a key lives in the bucket that its hash selects.
pub struct HashTable {
    buckets: Vec<Bucket>,
    size: usize,
}

impl View for HashTable {
    type V = Buckets;

    closed spec fn view(&self) -> Buckets {
        Seq::new(self.buckets@.len(), |b: int| self.buckets@[b]@)
    }
}

impl HashTable {
    /// The number of buckets that the table was made with.
    pub closed spec fn spec_size(&self) -> nat {
        self.size as nat
    }

    /// The table has as many buckets as it was made with, and they obey
    /// `table_wf`.
    pub open spec fn wf(&self) -> bool {
        &&& self@.len() == self.spec_size()
        &&& table_wf(self@)
    }

    /// A table of `size` empty buckets.
    pub fn new(size: usize) -> (table: HashTable)
        ensures
            table.wf(),
            table.spec_size() == size,
            table@ == Seq::new(size as nat, |b: int| Cells::empty()),
    {
        let mut buckets: Vec<Bucket> = Vec::new();
        let mut i: usize = 0;
        while i < size
            invariant
                i <= size,
                buckets@.len() == i,
                forall|b: int| 0 <= b < i ==> (#[trigger] buckets@[b])@ == Cells::empty(),
            decreases size - i,
        {
            buckets.push(Bucket::new());
            i += 1;
        }
        let table = HashTable { buckets, size };
        assert(table@ =~= Seq::new(size as nat, |b: int| Cells::empty()));
        table
    }

    /// The number of buckets.
    pub fn size(&self) -> (n: usize)
        ensures
            n == self.spec_size(),
    {
        self.size
    }

    /// The reduced polynomial hash of `key`.
    pub fn hash(&self, key: &str) -> (index: usize)
        requires
            self.spec_size() > 0,
        ensures
            index == bucket_of(key@, self.spec_size()),
            index < self.spec_size(),
    {
        bucket_index(key, self.size)
    }

    /// The index of the bucket that `key` belongs to.
    pub fn get_bucket(&self, key: &str) -> (index: usize)
        requires
            self.spec_size() > 0,
        ensures
            index == bucket_of(key@, self.spec_size()),
            index < self.spec_size(),
    {
        self.hash(key)
    }

    /// Sets `key` to `value` in the key's bucket.
    pub fn insert(&mut self, key: &str, value: &str)
        requires
            old(self).wf(),
            old(self).spec_size() > 0,
        ensures
            final(self).wf(),
            final(self).spec_size() == old(self).spec_size(),
            final(self)@ == table_insert(old(self)@, key@, value@),
    {
        let index = self.get_bucket(key);
        proof {
            lemma_find_props(self@[index as int], key@);
        }
        self.buckets[index].insert(key, value);
        assert(self@ =~= table_insert(old(self)@, key@, value@));
    }

    /// A copy of the value stored under `key`.
    pub fn get(&self, key: &str) -> (found: Option<String>)
        requires
            self.wf(),
            self.spec_size() > 0,
        ensures
            match found {
                Some(value) => table_get(self@, key@) == Some(value@),
                None => table_get(self@, key@) is None,
            },
    {
        let index = self.get_bucket(key);
        self.buckets[index].get(key)
    }

    /// Removes the cell stored under `key` and says whether there was one.
    pub fn delete(&mut self, key: &str) -> (removed: bool)
        requires
            old(self).wf(),
            old(self).spec_size() > 0,
        ensures
            final(self).wf(),
            final(self).spec_size() == old(self).spec_size(),
            final(self)@ == table_delete(old(self)@, key@),
            removed == (table_get(old(self)@, key@) is Some),
    {
        let index = self.get_bucket(key);
        proof {
            lemma_find_props(self@[index as int], key@);
        }
        let removed = self.buckets[index].delete(key);
        assert(self@ =~= table_delete(old(self)@, key@));
        removed
    }
}

} // verus!
