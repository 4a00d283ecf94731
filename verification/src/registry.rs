//! The site registry: a mapping from site identifier to the canonical root
//! path it serves. Registration is idempotent — re-adding a path that is
//! already registered returns the existing identifier and changes nothing —
//! and removal of an unregistered path is a no-op.

use vstd::prelude::*;

use crate::digits::hex_of;
use crate::fingerprints::{path_digest, site_id};

verus! {

/// One registered site: the identifier derived from the canonical root path,
/// and that path. The directory-serving handle rooted at the path lives in
/// the unverified shell, keyed by the same identifier.
pub struct Site {
    pub id: String,
    pub root: String,
}

/// Registered sites, keyed by identifier.
pub struct SiteRegistry {
    entries: Vec<Site>,
}

/// The identifier under which a canonical path is registered.
pub open spec fn spec_site_id(path: Seq<char>) -> Seq<char> {
    hex_of(path_digest(path) as nat)
}

/// The mapping a sequence of entries denotes, later entries winning.
pub open spec fn map_of(s: Seq<Site>) -> Map<Seq<char>, Seq<char>>
    decreases s.len(),
{
    if s.len() == 0 {
        Map::empty()
    } else {
        map_of(s.drop_last()).insert(s.last().id@, s.last().root@)
    }
}

/// Registering `path` into the mapping `m`: no change when the identifier is
/// already present, otherwise a new entry.
pub open spec fn spec_register(m: Map<Seq<char>, Seq<char>>, path: Seq<char>) -> Map<
    Seq<char>,
    Seq<char>,
> {
    if m.contains_key(spec_site_id(path)) {
        m
    } else {
        m.insert(spec_site_id(path), path)
    }
}

impl View for SiteRegistry {
    type V = Map<Seq<char>, Seq<char>>;

    closed spec fn view(&self) -> Map<Seq<char>, Seq<char>> {
        map_of(self.entries@)
    }
}

proof fn lemma_map_of_absent(s: Seq<Site>, k: Seq<char>)
    requires
        forall|i: int| 0 <= i < s.len() ==> (#[trigger] s[i].id)@ != k,
    ensures
        !map_of(s).contains_key(k),
    decreases s.len(),
{
    if s.len() > 0 {
        lemma_map_of_absent(s.drop_last(), k);
    }
}

proof fn lemma_map_of_found(s: Seq<Site>, i: int)
    requires
        0 <= i < s.len(),
        forall|j: int, l: int|
            0 <= j < s.len() && 0 <= l < s.len() && j != l ==> (#[trigger] s[j].id)@ != (
            #[trigger] s[l].id)@,
    ensures
        map_of(s).contains_key(s[i].id@),
        map_of(s)[s[i].id@] == s[i].root@,
    decreases s.len(),
{
    if i == s.len() - 1 {
    } else {
        lemma_map_of_found(s.drop_last(), i);
    }
}

proof fn lemma_map_of_remove(s: Seq<Site>, i: int)
    requires
        0 <= i < s.len(),
        forall|j: int, l: int|
            0 <= j < s.len() && 0 <= l < s.len() && j != l ==> (#[trigger] s[j].id)@ != (
            #[trigger] s[l].id)@,
    ensures
        map_of(s.remove(i)) == map_of(s).remove(s[i].id@),
    decreases s.len(),
{
    let k = s[i].id@;
    if i == s.len() - 1 {
        assert(s.remove(i) =~= s.drop_last());
        assert(forall|j: int| 0 <= j < s.drop_last().len() ==> (#[trigger] s.drop_last()[j].id)@ != k);
        lemma_map_of_absent(s.drop_last(), k);
        assert(map_of(s.drop_last()) =~= map_of(s).remove(k));
    } else {
        lemma_map_of_remove(s.drop_last(), i);
        assert(s.remove(i).drop_last() =~= s.drop_last().remove(i));
        assert(s.remove(i).last() == s.last());
        assert(map_of(s.remove(i)) =~= map_of(s).remove(k));
    }
}

impl SiteRegistry {
    /// Entries carry the identifier of their own root and identifiers are
    /// unique, so the entry list and the mapping agree.
    pub closed spec fn wf(&self) -> bool {
        &&& forall|i: int|
            0 <= i < self.entries@.len() ==> (#[trigger] self.entries@[i].id)@ == spec_site_id(
                self.entries@[i].root@,
            )
        &&& forall|j: int, l: int|
            0 <= j < self.entries@.len() && 0 <= l < self.entries@.len() && j != l ==> (
            #[trigger] self.entries@[j].id)@ != (#[trigger] self.entries@[l].id)@
    }

    /// An empty registry.
    pub fn new() -> (r: SiteRegistry)
        ensures
            r.wf(),
            r@ == Map::<Seq<char>, Seq<char>>::empty(),
    {
        SiteRegistry { entries: Vec::new() }
    }

    fn find(&self, id: &String) -> (r: Option<usize>)
        requires
            self.wf(),
        ensures
            match r {
                Some(i) => i < self.entries@.len() && self.entries@[i as int].id@ == id@,
                None => forall|i: int|
                    0 <= i < self.entries@.len() ==> (#[trigger] self.entries@[i].id)@ != id@,
            },
    {
        let mut i: usize = 0;
        while i < self.entries.len()
            invariant
                i <= self.entries@.len(),
                forall|j: int| 0 <= j < i ==> (#[trigger] self.entries@[j].id)@ != id@,
            decreases self.entries@.len() - i,
        {
            if self.entries[i].id == *id {
                return Some(i);
            }
            i = i + 1;
        }
        None
    }

    /// The canonical root path registered under `id`, if any.
    pub fn lookup(&self, id: &String) -> (r: Option<&String>)
        requires
            self.wf(),
        ensures
            match r {
                Some(root) => self@.contains_key(id@) && root@ == self@[id@],
                None => !self@.contains_key(id@),
            },
    {
        match self.find(id) {
            Some(i) => {
                proof {
                    lemma_map_of_found(self.entries@, i as int);
                }
                Some(&self.entries[i].root)
            },
            None => {
                proof {
                    lemma_map_of_absent(self.entries@, id@);
                }
                None
            },
        }
    }

    /// Registers a canonical path. Returns the site identifier and whether a
    /// new entry was created: re-adding an already registered path returns
    /// the existing identifier and leaves the registry unchanged.
    pub fn add(&mut self, canonical_path: &str) -> (r: (String, bool))
        requires
            old(self).wf(),
        ensures
            final(self).wf(),
            r.0@ == spec_site_id(canonical_path@),
            final(self)@ == spec_register(old(self)@, canonical_path@),
            r.1 <==> !old(self)@.contains_key(spec_site_id(canonical_path@)),
            !r.1 ==> final(self)@ == old(self)@,
    {
        let id = site_id(canonical_path);
        match self.find(&id) {
            Some(i) => {
                proof {
                    lemma_map_of_found(self.entries@, i as int);
                }
                (id, false)
            },
            None => {
                proof {
                    lemma_map_of_absent(self.entries@, id@);
                }
                let root = canonical_path.to_owned();
                let entry_id = id.clone();
                self.entries.push(Site { id: entry_id, root });
                proof {
                    assert(self.entries@.drop_last() =~= old(self).entries@);
                }
                (id, true)
            },
        }
    }

    /// Removes the site registered for this canonical path; removing a path
    /// that was never registered changes nothing.
    pub fn remove(&mut self, canonical_path: &str)
        requires
            old(self).wf(),
        ensures
            final(self).wf(),
            final(self)@ == old(self)@.remove(spec_site_id(canonical_path@)),
    {
        let id = site_id(canonical_path);
        match self.find(&id) {
            Some(i) => {
                proof {
                    lemma_map_of_remove(self.entries@, i as int);
                }
                self.entries.remove(i);
            },
            None => {
                proof {
                    lemma_map_of_absent(self.entries@, id@);
                    assert(self@ =~= old(self)@.remove(id@));
                }
            },
        }
    }

    /// How many sites are registered.
    pub fn len(&self) -> (r: usize)
        requires
            self.wf(),
        ensures
            r == self@.dom().len(),
    {
        proof {
            lemma_map_of_dom_len(self.entries@);
        }
        self.entries.len()
    }
}

proof fn lemma_map_of_dom_len(s: Seq<Site>)
    requires
        forall|j: int, l: int|
            0 <= j < s.len() && 0 <= l < s.len() && j != l ==> (#[trigger] s[j].id)@ != (
            #[trigger] s[l].id)@,
    ensures
        map_of(s).dom().len() == s.len(),
        map_of(s).dom().finite(),
    decreases s.len(),
{
    if s.len() > 0 {
        lemma_map_of_dom_len(s.drop_last());
        lemma_map_of_absent(s.drop_last(), s.last().id@);
        assert(map_of(s).dom() =~= map_of(s.drop_last()).dom().insert(s.last().id@));
        vstd::set::axiom_set_insert_len(map_of(s.drop_last()).dom(), s.last().id@);
    } else {
        assert(map_of(s).dom() =~= Set::<Seq<char>>::empty());
    }
}

/// Idempotent registration: registering a canonical path twice yields the
/// same identifier both times, and the second registration leaves the
/// mapping exactly as the first left it — one entry for that identifier.
pub proof fn lemma_register_idempotent(m: Map<Seq<char>, Seq<char>>, path: Seq<char>)
    ensures
        spec_register(spec_register(m, path), path) == spec_register(m, path),
        spec_register(m, path).contains_key(spec_site_id(path)),
{
}

/// Distinct registration: two canonical paths whose digests differ are
/// registered under different identifiers. The digest is a fixed-width hash,
/// so distinct paths with colliding digests are possible in principle; this
/// known limitation is the one case the premise excludes.
pub proof fn lemma_register_distinct(p1: Seq<char>, p2: Seq<char>)
    requires
        path_digest(p1) != path_digest(p2),
    ensures
        spec_site_id(p1) != spec_site_id(p2),
{
    crate::digits::lemma_hex_of_injective(path_digest(p1) as nat, path_digest(p2) as nat);
}

} // verus!
