//! The character index: for each code point, where its glyph is defined and
//! which atlas cell it gets. The table itself is an `ahash::AHashMap`.

use ahash::AHashMap;
use vstd::prelude::*;

verus! {

/// `ahash::AHashMap`: a hash map whose contents Verus reaches only through
/// the functions of this module.
#[verifier::external_type_specification]
#[verifier::external_body]
#[verifier::reject_recursive_types(K)]
#[verifier::reject_recursive_types(V)]
#[verifier::reject_recursive_types(S)]
pub struct ExAHashMap<K, V, S>(ahash::AHashMap<K, V, S>);

/// `ahash::RandomState`, the hasher state that an `AHashMap` carries by default.
#[verifier::external_type_specification]
#[verifier::external_body]
pub struct ExRandomState(ahash::RandomState);

/// The entries that a map from code point to `(offset, sequence)` holds.
pub uninterp spec fn index_entries(m: AHashMap<u32, (u32, usize)>) -> Map<u32, (u32, usize)>;

/// Calls `AHashMap::new`, which builds a map without entries.
#[verifier::external_body]
fn entries_new() -> (m: AHashMap<u32, (u32, usize)>)
    ensures
        index_entries(m) =~= Map::empty(),
{
    AHashMap::new()
}

/// Calls `HashMap::len` through `AHashMap`'s `Deref`: the number of entries.
#[verifier::external_body]
fn entries_len(m: &AHashMap<u32, (u32, usize)>) -> (n: usize)
    ensures
        n == index_entries(*m).dom().len(),
{
    m.len()
}

/// Calls `AHashMap::get`: the value stored under `key`, if there is one.
#[verifier::external_body]
fn entries_get(m: &AHashMap<u32, (u32, usize)>, key: u32) -> (r: Option<(u32, usize)>)
    ensures
        r == (if index_entries(*m).dom().contains(key) {
            Some(index_entries(*m)[key])
        } else {
            None
        }),
{
    m.get(&key).copied()
}

/// Calls `AHashMap::insert`: afterwards `key` maps to `value`, and every other
/// key maps to what it did before.
#[verifier::external_body]
fn entries_insert(m: &mut AHashMap<u32, (u32, usize)>, key: u32, value: (u32, usize))
    ensures
        index_entries(*final(m)) == index_entries(*old(m)).insert(key, value),
{
    m.insert(key, value);
}

/// One entry of a character index.
#[derive(Debug, Clone, Copy, PartialEq, Eq)]
pub struct IndexRecord {
    pub code_point: u32,
    /// Byte offset of the glyph definition from the start of the file.
    pub offset: u32,
    /// Number of the atlas cell of the glyph, counted row by row.
    pub sequence: usize,
}

/// Whether `records` names every entry of `m` exactly once, in whatever
/// order.
pub open spec fn lists_entries(records: Seq<IndexRecord>, m: Map<u32, (u32, usize)>) -> bool {
    &&& records.len() == m.dom().len()
    &&& forall|i: int|
        0 <= i < records.len() ==> m.contains_pair(
            (#[trigger] records[i]).code_point,
            (records[i].offset, records[i].sequence),
        )
    &&& forall|i: int, j: int|
        #![trigger records[i], records[j]]
        0 <= i < j < records.len() ==> records[i].code_point != records[j].code_point
    &&& forall|key: u32|
        m.dom().contains(key) ==> exists|i: int|
            0 <= i < records.len() && (#[trigger] records[i]).code_point == key
}

/// Walks the map with `AHashMap`'s `IntoIterator` for references, which
/// visits every entry exactly once, in an order that is not fixed.
#[verifier::external_body]
fn entries_list(m: &AHashMap<u32, (u32, usize)>) -> (records: Vec<IndexRecord>)
    ensures
        lists_entries(records@, index_entries(*m)),
{
    m.into_iter().map(
        |(key, value)| IndexRecord { code_point: *key, offset: value.0, sequence: value.1 },
    ).collect()
}

/// What a character index must satisfy: it has finitely many entries, and
/// their sequence numbers are distinct and all below the number of entries.
pub open spec fn index_wf(m: Map<u32, (u32, usize)>) -> bool {
    &&& m.dom().finite()
    &&& forall|cp: u32| #[trigger] m.dom().contains(cp) ==> m[cp].1 < m.dom().len()
    &&& forall|a: u32, b: u32|
        #![trigger m.dom().contains(a), m.dom().contains(b)]
        m.dom().contains(a) && m.dom().contains(b) && a != b ==> m[a].1 != m[b].1
}

/// The index after one more record `(code_point, offset)`. A code point seen
/// for the first time gets the next free sequence number. One seen before
/// keeps its sequence number and takes the new offset.
pub open spec fn index_insert(m: Map<u32, (u32, usize)>, code_point: u32, offset: u32) -> Map<
    u32,
    (u32, usize),
> {
    if m.dom().contains(code_point) {
        m.insert(code_point, (offset, m[code_point].1))
    } else {
        m.insert(code_point, (offset, m.dom().len() as usize))
    }
}

/// Inserting a record keeps an index well-formed, as long as the new
/// sequence number still fits the machine word.
pub proof fn lemma_index_insert_wf(m: Map<u32, (u32, usize)>, code_point: u32, offset: u32)
    requires
        index_wf(m),
        m.dom().len() <= usize::MAX,
    ensures
        index_wf(index_insert(m, code_point, offset)),
        index_insert(m, code_point, offset).dom() == m.dom().insert(code_point),
        m.dom().contains(code_point) ==> index_insert(m, code_point, offset).dom().len()
            == m.dom().len(),
        !m.dom().contains(code_point) ==> index_insert(m, code_point, offset).dom().len()
            == m.dom().len() + 1,
{
    let after = index_insert(m, code_point, offset);
    assert(after.dom() =~= m.dom().insert(code_point));
    if m.dom().contains(code_point) {
        assert(after.dom() =~= m.dom());
    }
    assert forall|cp: u32| #[trigger] after.dom().contains(cp) implies after[cp].1
        < after.dom().len() by {
        if cp != code_point {
            assert(m.dom().contains(cp));
        }
    }
    assert forall|a: u32, b: u32|
        #![trigger after.dom().contains(a), after.dom().contains(b)]
        after.dom().contains(a) && after.dom().contains(b) && a != b implies after[a].1
            != after[b].1 by {
        if a != code_point {
            assert(m.dom().contains(a));
        }
        if b != code_point {
            assert(m.dom().contains(b));
        }
    }
}

/// The character index of a font: for each code point the byte offset of its
/// glyph definition and its sequence number, which picks its atlas cell.
pub struct CharacterIndex {
    map: AHashMap<u32, (u32, usize)>,
}

impl View for CharacterIndex {
    type V = Map<u32, (u32, usize)>;

    closed spec fn view(&self) -> Map<u32, (u32, usize)> {
        index_entries(self.map)
    }
}

impl CharacterIndex {
    /// Whether the entries are numbered as an index's must be.
    pub open spec fn wf(&self) -> bool {
        index_wf(self@)
    }

    /// An index without entries.
    pub fn new() -> (index: CharacterIndex)
        ensures
            index@ =~= Map::empty(),
            index.wf(),
    {
        CharacterIndex { map: entries_new() }
    }

    /// The number of code points in the index.
    pub fn len(&self) -> (n: usize)
        ensures
            n == self@.dom().len(),
    {
        entries_len(&self.map)
    }

    /// The offset and sequence number stored for `code_point`, if it is in
    /// the index.
    pub fn get(&self, code_point: u32) -> (entry: Option<(u32, usize)>)
        ensures
            entry == (if self@.dom().contains(code_point) {
                Some(self@[code_point])
            } else {
                None
            }),
    {
        entries_get(&self.map, code_point)
    }

    /// Takes in one record of a character index section.
    pub fn insert(&mut self, code_point: u32, offset: u32)
        requires
            old(self).wf(),
        ensures
            final(self)@ == index_insert(old(self)@, code_point, offset),
            final(self).wf(),
    {
        let count: usize = entries_len(&self.map);
        let sequence: usize = match entries_get(&self.map, code_point) {
            Some(entry) => entry.1,
            None => count,
        };
        proof {
            lemma_index_insert_wf(index_entries(self.map), code_point, offset);
        }
        entries_insert(&mut self.map, code_point, (offset, sequence));
    }

    /// Every entry of the index, each exactly once. The order is that of
    /// the underlying hash map and may differ from one call to the next.
    pub fn records(&self) -> (records: Vec<IndexRecord>)
        ensures
            lists_entries(records@, self@),
    {
        entries_list(&self.map)
    }
}

} // verus!
