//! Sequence catalogs: the id -> (name, length, contig offset) tables for the
//! query and target sides, and the rule that merges embedded and external
//! tables into the pair a run works with.

use vstd::prelude::*;

verus! {

broadcast use vstd::seq_lib::group_to_multiset_ensures;

/// One sequence of a catalog.
#[derive(Debug)]
pub struct CatalogEntry {
    /// Integer identifier as the stream uses it; neither contiguous nor
    /// sorted.
    pub id: i64,
    pub name: String,
    /// Total sequence length.
    pub length: i64,
    /// Global start of this contig within its scaffold; meaningful only
    /// when the owning catalog carries an offset table.
    pub global_offset: i64,
    /// The contig's own length; meaningful only when the owning catalog
    /// carries an offset table.
    pub contig_length: i64,
}

/// Mathematical view of a catalog entry.
#[verifier::ext_equal]
pub ghost struct EntryV {
    pub id: int,
    pub name: Seq<char>,
    pub length: int,
    pub global_offset: int,
    pub contig_length: int,
}

impl View for CatalogEntry {
    type V = EntryV;

    open spec fn view(&self) -> EntryV {
        EntryV {
            id: self.id as int,
            name: self.name@,
            length: self.length as int,
            global_offset: self.global_offset as int,
            contig_length: self.contig_length as int,
        }
    }
}

/// One side's sequence catalog.
#[derive(Debug)]
pub struct SequenceCatalog {
    pub entries: Vec<CatalogEntry>,
    /// Whether a contig-offset table was resolved for this side; when
    /// false, normalization treats every global offset as zero and takes
    /// the sequence length for the contig length.
    pub has_offsets: bool,
}

/// Mathematical view of a catalog.
#[verifier::ext_equal]
pub ghost struct CatalogV {
    pub entries: Seq<EntryV>,
    pub has_offsets: bool,
}

/// Views a list of entries.
pub open spec fn entries_view(entries: Seq<CatalogEntry>) -> Seq<EntryV> {
    entries.map_values(|e: CatalogEntry| e@)
}

impl View for SequenceCatalog {
    type V = CatalogV;

    open spec fn view(&self) -> CatalogV {
        CatalogV { entries: entries_view(self.entries@), has_offsets: self.has_offsets }
    }
}

/// The first entry with the given id, if any.
pub open spec fn spec_find(entries: Seq<EntryV>, id: int) -> Option<EntryV>
    decreases entries.len(),
{
    if entries.len() == 0 {
        None
    } else if entries[0].id == id {
        Some(entries[0])
    } else {
        spec_find(entries.drop_first(), id)
    }
}

impl CatalogEntry {
    /// An owned copy equal to this entry.
    pub fn duplicate(&self) -> (r: CatalogEntry)
        ensures
            r == *self,
    {
        CatalogEntry {
            id: self.id,
            name: self.name.clone(),
            length: self.length,
            global_offset: self.global_offset,
            contig_length: self.contig_length,
        }
    }
}

impl SequenceCatalog {
    /// An empty catalog without an offset table.
    pub fn new() -> (c: SequenceCatalog)
        ensures
            c@.entries =~= Seq::<EntryV>::empty(),
            !c@.has_offsets,
    {
        SequenceCatalog { entries: Vec::new(), has_offsets: false }
    }

    /// Appends one entry.
    pub fn push_entry(&mut self, e: CatalogEntry)
        ensures
            final(self)@.entries =~= old(self)@.entries.push(e@),
            final(self)@.has_offsets == old(self)@.has_offsets,
    {
        self.entries.push(e);
        proof {
            assert(self@.entries =~= old(self)@.entries.push(e@));
        }
    }

    /// How many sequences the catalog holds.
    pub fn len(&self) -> (n: usize)
        ensures
            n == self@.entries.len(),
    {
        self.entries.len()
    }

    /// The first entry with the given id, if any.
    pub fn find(&self, id: i64) -> (r: Option<&CatalogEntry>)
        ensures
            match r {
                Some(e) => spec_find(self@.entries, id as int) == Some(e@),
                None => spec_find(self@.entries, id as int) is None,
            },
    {
        let ghost all = self@.entries;
        proof {
            assert(all.skip(0) =~= all);
        }
        let n = self.entries.len();
        let mut i: usize = 0;
        while i < n
            invariant
                i <= n,
                n == self.entries@.len(),
                all == self@.entries,
                spec_find(all, id as int) == spec_find(all.skip(i as int), id as int),
                all.len() == n,
            decreases n - i,
        {
            proof {
                assert(all.skip(i as int)[0] == all[i as int]);
                assert(all.skip(i as int).drop_first() =~= all.skip(i as int + 1));
            }
            if self.entries[i].id == id {
                return Some(&self.entries[i]);
            }
            i = i + 1;
        }
        proof {
            assert(all.skip(n as int) =~= Seq::<EntryV>::empty());
        }
        None
    }

    /// An owned copy equal by value to this catalog.
    pub fn duplicate(&self) -> (r: SequenceCatalog)
        ensures
            r@ == self@,
    {
        let mut entries: Vec<CatalogEntry> = Vec::new();
        let n = self.entries.len();
        let mut i: usize = 0;
        while i < n
            invariant
                i <= n,
                n == self.entries@.len(),
                entries@ =~= self.entries@.subrange(0, i as int),
            decreases n - i,
        {
            entries.push(self.entries[i].duplicate());
            i = i + 1;
        }
        proof {
            assert(entries@ =~= self.entries@);
        }
        let r = SequenceCatalog { entries, has_offsets: self.has_offsets };
        proof {
            assert(r@ =~= self@);
        }
        r
    }
}

/// Whether a list of entries is ordered by id.
pub open spec fn ids_sorted(entries: Seq<CatalogEntry>) -> bool {
    forall|i: int, j: int| 0 <= i < j < entries.len() ==> entries[i].id <= entries[j].id
}

/// The catalog's entries ordered by id, for deterministic display output.
pub fn sorted_by_id(entries: &Vec<CatalogEntry>) -> (r: Vec<CatalogEntry>)
    ensures
        ids_sorted(r@),
        r@.to_multiset() == entries@.to_multiset(),
        r@.len() == entries@.len(),
{
    let mut r: Vec<CatalogEntry> = Vec::new();
    let n = entries.len();
    let mut i: usize = 0;
    proof {
        assert(entries@.subrange(0, 0) =~= Seq::<CatalogEntry>::empty());
        assert(Seq::<CatalogEntry>::empty().to_multiset() =~= r@.to_multiset());
    }
    while i < n
        invariant
            i <= n,
            n == entries@.len(),
            ids_sorted(r@),
            r@.to_multiset() == entries@.subrange(0, i as int).to_multiset(),
            r@.len() == i,
        decreases n - i,
    {
        let e = entries[i].duplicate();
        let mut p: usize = 0;
        while p < r.len() && r[p].id <= e.id
            invariant
                p <= r@.len(),
                forall|q: int| 0 <= q < p ==> r@[q].id <= e.id,
                ids_sorted(r@),
            decreases r@.len() - p,
        {
            p = p + 1;
        }
        let ghost r_before = r@;
        r.insert(p, e);
        proof {
            assert(forall|q: int| 0 <= q < r@.len() && q != p ==> r@[q] == (if q < p {
                r_before[q]
            } else {
                r_before[q - 1]
            }));
            assert(ids_sorted(r@));
            assert(entries@.subrange(0, i as int + 1) =~= entries@.subrange(0, i as int).push(
                entries@[i as int],
            ));
        }
        i = i + 1;
    }
    proof {
        assert(entries@.subrange(0, n as int) =~= entries@);
    }
    r
}

/// Merges what resolution found into the (query, target) catalog pair:
/// an external target catalog wins over the embedded skeleton, which is
/// used only when it is non-empty; with no external query catalog the run
/// is a self-alignment and the query side equals the target side by value.
pub fn resolve_catalogs(
    embedded: Option<SequenceCatalog>,
    external_query: Option<SequenceCatalog>,
    external_target: Option<SequenceCatalog>,
) -> (r: (SequenceCatalog, SequenceCatalog))
    ensures
        (match external_target {
            Some(t) => r.1@ == t@,
            None => match embedded {
                Some(e) => if e@.entries.len() > 0 {
                    r.1@ == e@
                } else {
                    r.1@ == SequenceCatalog::new_spec()
                },
                None => r.1@ == SequenceCatalog::new_spec(),
            },
        }),
        (match external_query {
            Some(q) => r.0@ == q@,
            None => r.0@ == r.1@,
        }),
{
    let target = match external_target {
        Some(t) => t,
        None => match embedded {
            Some(e) => if e.len() > 0 {
                e
            } else {
                SequenceCatalog::new()
            },
            None => SequenceCatalog::new(),
        },
    };
    let query = match external_query {
        Some(q) => q,
        None => target.duplicate(),
    };
    (query, target)
}

impl SequenceCatalog {
    /// The value of an empty catalog.
    pub open spec fn new_spec() -> CatalogV {
        CatalogV { entries: Seq::empty(), has_offsets: false }
    }
}

} // verus!
