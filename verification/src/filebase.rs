//! Definition cache: a lazily populated store mapping an identifier to
//! a parsed definition, loaded at most once per identifier and never
//! evicted for the lifetime of a run.
//!
//! The cache itself does no I/O. A query either serves the already
//! stored definition or reports the path the caller must load; the
//! caller parses that file once and stores the result with `insert`.
//! `insert` refuses an identifier that is already cached, so a second
//! parse of the same identifier can never be observed.

use vstd::prelude::*;
use crate::schema::{FunctionFile, MapFile};
use crate::text::str_eq;

verus! {

/// Which kind of definition an identifier names.
pub enum IdentifierType {
    Function,
    Mapping,
}

/// The cached entries as a map from identifier to definition; entries
/// to the right override earlier ones, though the cache never stores a
/// key twice.
pub open spec fn entries_map<T>(s: Seq<(String, T)>) -> Map<Seq<char>, T>
    decreases s.len(),
{
    if s.len() == 0 {
        Map::empty()
    } else {
        entries_map(s.drop_last()).insert(s.last().0@, s.last().1)
    }
}

/// No identifier occurs twice.
pub open spec fn distinct_keys<T>(s: Seq<(String, T)>) -> bool {
    forall|i: int, j: int| 0 <= i < j < s.len() ==> s[i].0@ != s[j].0@
}

pub proof fn lemma_entries_map_contains<T>(s: Seq<(String, T)>, k: Seq<char>)
    ensures
        entries_map(s).dom().contains(k) <==> (exists|i: int| 0 <= i < s.len() && s[i].0@ == k),
    decreases s.len(),
{
    if s.len() > 0 {
        lemma_entries_map_contains(s.drop_last(), k);
        if s.last().0@ == k {
            assert(s[s.len() - 1].0@ == k);
        } else {
            if entries_map(s).dom().contains(k) {
                let i = choose|i: int|
                    0 <= i < s.drop_last().len() && s.drop_last()[i].0@ == k;
                assert(s[i].0@ == k);
            }
            if exists|i: int| 0 <= i < s.len() && s[i].0@ == k {
                let i = choose|i: int| 0 <= i < s.len() && s[i].0@ == k;
                assert(s.drop_last()[i].0@ == k);
            }
        }
    }
}

pub proof fn lemma_entries_map_at<T>(s: Seq<(String, T)>, i: int)
    requires
        distinct_keys(s),
        0 <= i < s.len(),
    ensures
        entries_map(s).dom().contains(s[i].0@),
        entries_map(s)[s[i].0@] == s[i].1,
    decreases s.len(),
{
    if i == s.len() - 1 {
    } else {
        assert(s[i].0@ != s.last().0@);
        lemma_entries_map_at(s.drop_last(), i);
        assert(s.drop_last()[i] == s[i]);
    }
}

pub proof fn lemma_entries_map_finite<T>(s: Seq<(String, T)>)
    ensures
        entries_map(s).dom().finite(),
    decreases s.len(),
{
    if s.len() > 0 {
        lemma_entries_map_finite(s.drop_last());
    }
}

/// The path a definition is loaded from: `root/identifier.toml`.
pub open spec fn spec_definition_path(root: Seq<char>, identifier: Seq<char>) -> Seq<char> {
    root + "/"@ + identifier + ".toml"@
}

/// A cache miss: the caller must load and parse the file at `path`,
/// then store the result under `identifier`.
#[derive(Debug)]
pub struct QueryMiss {
    pub identifier: String,
    pub path: String,
}

/// The lazily populated store for one definition kind.
pub struct Filebase<T> {
    entries: Vec<(String, T)>,
    root: String,
}

impl<T> Filebase<T> {
    /// The cached definitions, by identifier.
    pub closed spec fn contents(&self) -> Map<Seq<char>, T> {
        entries_map(self.entries@)
    }

    /// The directory definitions are loaded from.
    pub closed spec fn root_spec(&self) -> Seq<char> {
        self.root@
    }

    /// Each identifier is stored at most once.
    pub closed spec fn wf(&self) -> bool {
        distinct_keys(self.entries@)
    }

    /// Whether a query for this identifier would require a load.
    pub open spec fn needs_load(&self, identifier: Seq<char>) -> bool {
        !self.contents().dom().contains(identifier)
    }

    /// An empty cache over a root directory.
    pub fn new(path_root: String) -> (fb: Self)
        ensures
            fb.wf(),
            fb.contents() == Map::<Seq<char>, T>::empty(),
            fb.root_spec() == path_root@,
    {
        let fb = Filebase { entries: Vec::new(), root: path_root };
        proof {
            assert(fb.entries@.len() == 0);
        }
        fb
    }

    /// Serves the stored definition, or reports the path to load. A
    /// cached identifier is never reported for loading again.
    pub fn query(&self, identifier: &str) -> (r: Result<&T, QueryMiss>)
        requires
            self.wf(),
        ensures
            match r {
                Ok(t) => self.contents().dom().contains(identifier@) && *t
                    == self.contents().index(identifier@),
                Err(m) => self.needs_load(identifier@) && m.identifier@ == identifier@ && m.path@
                    == spec_definition_path(self.root_spec(), identifier@),
            },
    {
        let mut i: usize = 0;
        while i < self.entries.len()
            invariant
                i <= self.entries.len(),
                self.wf(),
                forall|j: int| 0 <= j < i ==> self.entries@[j].0@ != identifier@,
            decreases self.entries.len() - i,
        {
            if str_eq(self.entries[i].0.as_str(), identifier) {
                proof {
                    lemma_entries_map_at(self.entries@, i as int);
                }
                return Ok(&self.entries[i].1);
            }
            i = i + 1;
        }
        proof {
            lemma_entries_map_contains(self.entries@, identifier@);
        }
        Err(QueryMiss { identifier: identifier.to_owned(), path: self.path_for(identifier) })
    }

    /// Stores a freshly parsed definition. Refusing an identifier that
    /// is already cached upholds the at-most-one-parse guarantee.
    pub fn insert(&mut self, identifier: String, value: T)
        requires
            old(self).wf(),
            old(self).needs_load(identifier@),
        ensures
            final(self).wf(),
            final(self).contents() == old(self).contents().insert(identifier@, value),
            final(self).root_spec() == old(self).root_spec(),
    {
        proof {
            lemma_entries_map_contains(self.entries@, identifier@);
        }
        let ghost pre = self.entries@;
        self.entries.push((identifier, value));
        proof {
            assert(self.entries@.drop_last() =~= pre);
            assert(forall|i: int, j: int|
                0 <= i < j < self.entries@.len() ==> self.entries@[i].0@ != self.entries@[j].0@);
        }
    }

    /// A cache holds finitely many definitions.
    pub proof fn lemma_contents_finite(&self)
        ensures
            self.contents().dom().finite(),
    {
        lemma_entries_map_finite(self.entries@);
    }

    /// The file path a definition of this identifier is loaded from.
    pub fn path_for(&self, identifier: &str) -> (p: String)
        ensures
            p@ == spec_definition_path(self.root_spec(), identifier@),
    {
        let mut p = self.root.clone();
        p.append("/");
        p.append(identifier);
        p.append(".toml");
        proof {
            assert(p@ =~= spec_definition_path(self.root_spec(), identifier@));
        }
        p
    }
}

/// At most one parse per identifier: once the first (and only
/// possible) load of an identifier is stored, the cache never again
/// asks for that identifier to be loaded, and every later query
/// observes exactly the definition that the one parse produced.
pub proof fn lemma_cache_single_parse<T>(
    before: Filebase<T>,
    after: Filebase<T>,
    identifier: Seq<char>,
    parsed: T,
)
    requires
        before.needs_load(identifier),
        after.contents() == before.contents().insert(identifier, parsed),
    ensures
        !after.needs_load(identifier),
        after.contents()[identifier] == parsed,
{
}

/// The process-local store of all definition kinds, each under its own
/// subdirectory of the configuration root.
pub struct AxbindFilebase {
    pub functions: Filebase<FunctionFile>,
    pub maps: Filebase<MapFile>,
}

impl AxbindFilebase {
    /// Empty caches rooted at `root/functions` and `root/maps`.
    pub fn new(root: &str) -> (fb: AxbindFilebase)
        ensures
            fb.functions.wf(),
            fb.functions.contents() == Map::<Seq<char>, FunctionFile>::empty(),
            fb.functions.root_spec() == root@ + "/functions"@,
            fb.maps.wf(),
            fb.maps.contents() == Map::<Seq<char>, MapFile>::empty(),
            fb.maps.root_spec() == root@ + "/maps"@,
    {
        let mut froot = root.to_owned();
        froot.append("/functions");
        let mut mroot = root.to_owned();
        mroot.append("/maps");
        AxbindFilebase { functions: Filebase::new(froot), maps: Filebase::new(mroot) }
    }
}

} // verus!
