//! Per-process frequency profiles and their in-memory store.
//!
//! The store keeps, keyed on the resolved process name, the frequency a
//! learning phase settled on together with its comfort score and sample
//! count. Reading the backing file and writing it back are the business
//! of the surrounding program; the store itself only answers lookups and
//! accepts updates.

use vstd::prelude::*;
use vstd::string::StrSliceExecFns;

verus! {

/// The learned optimum for one process: frequency in MHz, comfort in
/// hundredths of a point, and how many load samples backed the choice.
#[derive(Debug, Clone)]
pub struct ProcessProfile {
    pub name: String,
    pub optimal_freq: u16,
    pub comfort_score: u32,
    pub samples_count: usize,
}

impl ProcessProfile {
    /// A profile from its parts.
    pub fn new(name: String, freq: u16, comfort: u32, samples: usize) -> (r: Self)
        ensures
            r.name == name,
            r.optimal_freq == freq,
            r.comfort_score == comfort,
            r.samples_count == samples,
    {
        Self { name, optimal_freq: freq, comfort_score: comfort, samples_count: samples }
    }

    /// The stored numbers, as the map view carries them.
    pub open spec fn data(&self) -> (u16, u32, usize) {
        (self.optimal_freq, self.comfort_score, self.samples_count)
    }
}

/// The profiles a sequence of records stands for, later records winning.
pub open spec fn profiles_map(s: Seq<ProcessProfile>) -> Map<Seq<char>, (u16, u32, usize)>
    decreases s.len(),
{
    if s.len() == 0 {
        Map::empty()
    } else {
        profiles_map(s.drop_last()).insert(s.last().name@, s.last().data())
    }
}

/// No two records carry the same name.
pub open spec fn names_unique(s: Seq<ProcessProfile>) -> bool {
    forall|i: int, j: int| 0 <= i < j < s.len() ==> s[i].name@ != s[j].name@
}

/// A name is in the map exactly when some record carries it.
proof fn lemma_profiles_map_contains(s: Seq<ProcessProfile>, name: Seq<char>)
    ensures
        profiles_map(s).contains_key(name) <==> exists|i: int|
            0 <= i < s.len() && #[trigger] s[i].name@ == name,
    decreases s.len(),
{
    if s.len() > 0 {
        lemma_profiles_map_contains(s.drop_last(), name);
        if name == s.last().name@ {
            assert(s[s.len() - 1].name@ == name);
        } else {
            assert forall|i: int| 0 <= i < s.len() && #[trigger] s[i].name@ == name implies 0 <= i
                < s.len() - 1 && s.drop_last()[i].name@ == name by {}
        }
    }
}

/// With unique names, each record is what the map holds for its name.
proof fn lemma_profiles_map_at(s: Seq<ProcessProfile>, i: int)
    requires
        names_unique(s),
        0 <= i < s.len(),
    ensures
        profiles_map(s).contains_key(s[i].name@),
        profiles_map(s)[s[i].name@] == s[i].data(),
    decreases s.len(),
{
    if i == s.len() - 1 {
    } else {
        lemma_profiles_map_at(s.drop_last(), i);
        assert(s[i].name@ != s.last().name@);
    }
}

/// Replacing the record that holds a name updates just that name.
proof fn lemma_profiles_map_update(s: Seq<ProcessProfile>, i: int, p: ProcessProfile)
    requires
        names_unique(s),
        0 <= i < s.len(),
        p.name@ == s[i].name@,
    ensures
        profiles_map(s.update(i, p)) =~= profiles_map(s).insert(p.name@, p.data()),
    decreases s.len(),
{
    if i == s.len() - 1 {
        assert(s.update(i, p).drop_last() =~= s.drop_last());
        assert(s.update(i, p).last() == p);
    } else {
        assert(s.update(i, p).drop_last() =~= s.drop_last().update(i, p));
        assert(s.update(i, p).last() == s.last());
        lemma_profiles_map_update(s.drop_last(), i, p);
        assert(s[i].name@ != s.last().name@);
    }
}

/// Whether two names read the same.
pub(crate) fn str_eq(a: &str, b: &str) -> (r: bool)
    ensures
        r == (a@ == b@),
{
    let n = a.unicode_len();
    if n != b.unicode_len() {
        return false;
    }
    let mut i: usize = 0;
    while i < n
        invariant
            0 <= i <= n,
            n == a@.len(),
            n == b@.len(),
            forall|j: int| 0 <= j < i ==> a@[j] == b@[j],
        decreases n - i,
    {
        if a.get_char(i) != b.get_char(i) {
            return false;
        }
        i = i + 1;
    }
    proof {
        assert(a@ =~= b@);
    }
    true
}

/// The in-memory profile store, keyed on resolved process names.
pub struct ProcessDatabase {
    profiles: Vec<ProcessProfile>,
}

impl ProcessDatabase {
    /// The stored profiles as a map from name to data.
    pub closed spec fn view_map(&self) -> Map<Seq<char>, (u16, u32, usize)> {
        profiles_map(self.profiles@)
    }

    /// One record per name.
    pub closed spec fn wf(&self) -> bool {
        names_unique(self.profiles@)
    }

    /// An empty store. The surrounding program fills it from the backing
    /// file at startup, one `set` per record.
    pub fn new() -> (r: Self)
        ensures
            r.wf(),
            r.view_map() == Map::<Seq<char>, (u16, u32, usize)>::empty(),
    {
        Self { profiles: Vec::new() }
    }

    /// The profile stored for a name, if any.
    pub fn get(&self, process_name: &str) -> (r: Option<&ProcessProfile>)
        requires
            self.wf(),
        ensures
            r matches Some(p) ==> {
                &&& self.view_map().contains_key(process_name@)
                &&& self.view_map()[process_name@] == p.data()
                &&& p.name@ == process_name@
            },
            r is None ==> !self.view_map().contains_key(process_name@),
    {
        let n = self.profiles.len();
        let mut i: usize = 0;
        while i < n
            invariant
                0 <= i <= n,
                n == self.profiles@.len(),
                names_unique(self.profiles@),
                forall|j: int| 0 <= j < i ==> (#[trigger] self.profiles@[j].name@) != process_name@,
            decreases n - i,
        {
            if str_eq(self.profiles[i].name.as_str(), process_name) {
                proof {
                    lemma_profiles_map_at(self.profiles@, i as int);
                }
                return Some(&self.profiles[i]);
            }
            i = i + 1;
        }
        proof {
            lemma_profiles_map_contains(self.profiles@, process_name@);
        }
        None
    }

    /// Store a profile under its name, replacing any previous record.
    pub fn set(&mut self, profile: ProcessProfile)
        requires
            old(self).wf(),
        ensures
            final(self).wf(),
            final(self).view_map() == old(self).view_map().insert(profile.name@, profile.data()),
    {
        let n = self.profiles.len();
        let mut i: usize = 0;
        while i < n
            invariant
                0 <= i <= n,
                n == self.profiles@.len(),
                names_unique(self.profiles@),
                self.profiles@ == old(self).profiles@,
                forall|j: int| 0 <= j < i ==> (#[trigger] self.profiles@[j].name@) != profile.name@,
            decreases n - i,
        {
            if str_eq(self.profiles[i].name.as_str(), profile.name.as_str()) {
                proof {
                    lemma_profiles_map_update(self.profiles@, i as int, profile);
                    let updated = self.profiles@.update(i as int, profile);
                    assert forall|a: int, b: int| 0 <= a < b < updated.len() implies updated[a].name@
                        != updated[b].name@ by {
                        assert(self.profiles@[a].name@ != self.profiles@[b].name@);
                    }
                }
                self.profiles.set(i, profile);
                return ;
            }
            i = i + 1;
        }
        proof {
            let pushed = self.profiles@.push(profile);
            assert(pushed.drop_last() =~= self.profiles@);
            assert(pushed.last() == profile);
            assert forall|a: int, b: int| 0 <= a < b < pushed.len() implies pushed[a].name@
                != pushed[b].name@ by {
                if b < pushed.len() - 1 {
                    assert(self.profiles@[a].name@ != self.profiles@[b].name@);
                } else {
                    assert(pushed[a].name@ != profile.name@);
                }
            }
        }
        self.profiles.push(profile);
    }

    /// Number of stored profiles.
    pub fn len(&self) -> (r: usize)
        ensures
            r == self.stored_count(),
    {
        self.profiles.len()
    }

    /// The profile at a storage position, for walking the whole store.
    pub fn profile_at(&self, i: usize) -> (r: &ProcessProfile)
        requires
            i < self.stored_count(),
        ensures
            self.wf() ==> self.view_map().contains_key(r.name@) && self.view_map()[r.name@]
                == r.data(),
    {
        proof {
            if names_unique(self.profiles@) {
                lemma_profiles_map_at(self.profiles@, i as int);
            }
        }
        &self.profiles[i]
    }

    /// Number of stored records.
    pub open spec fn stored_count(&self) -> int {
        self.view_map_len()
    }

    /// Length of the backing record list.
    pub closed spec fn view_map_len(&self) -> int {
        self.profiles@.len() as int
    }
}

impl Default for ProcessDatabase {
    /// The default store is the empty one.
    fn default() -> (r: Self)
        ensures
            r.wf(),
            r.view_map() == Map::<Seq<char>, (u16, u32, usize)>::empty(),
    {
        Self::new()
    }
}

/// Law: a profile stored for a name is exactly what a lookup of that name
/// then finds, whatever the store held before.
pub proof fn lemma_store_round_trip(
    m: Map<Seq<char>, (u16, u32, usize)>,
    name: Seq<char>,
    data: (u16, u32, usize),
)
    ensures
        m.insert(name, data).contains_key(name),
        m.insert(name, data)[name] == data,
{
}

} // verus!
