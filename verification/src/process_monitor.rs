//! Tracking the dominant GPU-consuming process.
//!
//! Each scan of the process table yields, per process, the total cycles
//! its GPU descriptors have consumed. The monitor turns two successive
//! scans into per-process utilization, filters out the excluded desktop
//! processes and the ones below the interest threshold, and keeps the
//! heaviest consumer as the tracked process — displacing an incumbent
//! only for a markedly heavier newcomer. Scans are rate-limited; an
//! excluded process can never become tracked.

use crate::constants::{
    MIN_GPU_USAGE_PERCENT, PROCESS_STABILITY_US, PROCESS_SWITCH_RATIO, PROCESS_UPDATE_INTERVAL_US,
};
use crate::process_detection::{basename, is_excluded_name, is_excluded_process, GpuProcess};
use crate::profile_db::str_eq;
use vstd::prelude::*;

verus! {

/// Cycle totals keyed by process name.
pub open spec fn cycles_map(s: Seq<(String, u64)>) -> Map<Seq<char>, u64>
    decreases s.len(),
{
    if s.len() == 0 {
        Map::empty()
    } else {
        cycles_map(s.drop_last()).insert(s.last().0@, s.last().1)
    }
}

/// No two entries carry the same name.
pub open spec fn keys_unique(s: Seq<(String, u64)>) -> bool {
    forall|i: int, j: int| 0 <= i < j < s.len() ==> s[i].0@ != s[j].0@
}

/// A scan folded into the cycle totals, later entries winning.
pub open spec fn apply_scan(m: Map<Seq<char>, u64>, s: Seq<GpuProcess>) -> Map<Seq<char>, u64>
    decreases s.len(),
{
    if s.len() == 0 {
        m
    } else {
        apply_scan(m, s.drop_last()).insert(s.last().name@, s.last().total_cycles)
    }
}

/// The stored total for a name, 0 for a name never seen.
pub open spec fn lookup0(m: Map<Seq<char>, u64>, k: Seq<char>) -> u64 {
    if m.contains_key(k) {
        m[k]
    } else {
        0
    }
}

/// Subtraction floored at zero, as cycle counters may reset.
pub open spec fn sat_sub(a: u64, b: u64) -> u64 {
    if a >= b {
        (a - b) as u64
    } else {
        0
    }
}

/// Cycles each scan entry consumed since the totals `m` were recorded,
/// entry by entry in scan order.
pub open spec fn scan_deltas(m: Map<Seq<char>, u64>, s: Seq<GpuProcess>) -> Seq<u64>
    decreases s.len(),
{
    if s.len() == 0 {
        Seq::empty()
    } else {
        scan_deltas(m, s.drop_last()).push(
            sat_sub(s.last().total_cycles, lookup0(apply_scan(m, s.drop_last()), s.last().name@)),
        )
    }
}

/// A scan entry worth considering: not excluded, and its share of the
/// elapsed time reaches the interest threshold.
pub open spec fn entry_active(p: GpuProcess, delta: u64, elapsed_ns: int) -> bool {
    &&& delta * 100 >= MIN_GPU_USAGE_PERCENT * elapsed_ns
    &&& !is_excluded_name(basename(p.name@))
}

/// Utilization over an interval, in hundredths of a percent; above 10000
/// when several engines ran concurrently.
pub open spec fn usage_centi(delta: u64, elapsed_ns: int) -> int {
    delta * 10000 / elapsed_ns
}

/// Position `i` holds the heaviest active entry, the last such on ties.
pub open spec fn is_dominant(s: Seq<GpuProcess>, ds: Seq<u64>, elapsed_ns: int, i: int) -> bool {
    &&& 0 <= i < s.len()
    &&& entry_active(s[i], ds[i], elapsed_ns)
    &&& forall|j: int|
        0 <= j < s.len() && entry_active(s[j], #[trigger] ds[j], elapsed_ns) ==> ds[j] <= ds[i]
            && (ds[j] == ds[i] ==> j <= i)
}

/// The displacement rule: a newcomer with `dd` cycles ousts an incumbent
/// with `dc` cycles when the incumbent consumed nothing, or the newcomer's
/// utilization is at least the switch ratio times the incumbent's, the
/// incumbent's floored at a tenth of a percent.
pub open spec fn should_switch(dd: u64, dc: u64, elapsed_ns: int) -> bool {
    ||| dc == 0
    ||| dd * 1000 >= PROCESS_SWITCH_RATIO * (if dc * 1000 >= elapsed_ns {
        dc * 1000
    } else {
        elapsed_ns
    })
}

/// First position in the scan carrying a name, or -1.
pub open spec fn first_idx(s: Seq<GpuProcess>, name: Seq<char>) -> int
    decreases s.len(),
{
    if s.len() == 0 {
        -1
    } else if s[0].name@ == name {
        0
    } else {
        let r = first_idx(s.drop_first(), name);
        if r == -1 {
            -1
        } else {
            r + 1
        }
    }
}

/// The incumbent's delta: that of its first scan entry, 0 when absent.
pub open spec fn delta_of_name(s: Seq<GpuProcess>, ds: Seq<u64>, name: Seq<char>) -> u64 {
    if first_idx(s, name) >= 0 {
        ds[first_idx(s, name)]
    } else {
        0
    }
}

/// Everything one scan does to the monitor: the scan clock advances, the
/// totals fold in, the heaviest active entry is picked, and the incumbent
/// is displaced exactly under the switch rule. `pre` and `post` are the
/// monitor before and after; stated as one predicate so a caller folding
/// a scan in can be held to it.
pub open spec fn monitor_update_post(
    pre: ProcessMonitor,
    post: ProcessMonitor,
    scan: Seq<GpuProcess>,
    now_us: u64,
) -> bool {
    let el = (now_us - pre.last_update()) * 1000;
    let ds = scan_deltas(pre.cycles(), scan);
    &&& post.wf()
    &&& post.last_update() == now_us
    &&& (scan.len() == 0 ==> {
        &&& post.current_name() is None
        &&& post.started_at() is None
        &&& post.cycles() == pre.cycles()
        &&& post.usage() == pre.usage()
    })
    &&& (scan.len() > 0 ==> post.cycles() == apply_scan(pre.cycles(), scan))
    &&& (scan.len() > 0 && !(exists|i: int|
        0 <= i < scan.len() && entry_active(scan[i], #[trigger] ds[i], el)) ==> {
        &&& post.current_name() is None
        &&& post.started_at() is None
        &&& (pre.current_name() is Some ==> post.usage() == 0)
        &&& (pre.current_name() is None ==> post.usage() == pre.usage())
    })
    &&& forall|di: int|
        #![trigger scan[di]]
        is_dominant(scan, ds, el, di) ==> {
            let dname = scan[di].name@;
            let dusage = usage_centi(ds[di], el);
            if pre.current_name() is None {
                &&& post.current_name() == Some(dname)
                &&& post.started_at() == Some(now_us)
                &&& post.usage() == dusage
            } else if pre.current_name()->Some_0 == dname {
                &&& post.current_name() == pre.current_name()
                &&& post.started_at() == pre.started_at()
                &&& post.usage() == dusage
            } else if should_switch(
                ds[di],
                delta_of_name(scan, ds, pre.current_name()->Some_0),
                el,
            ) {
                &&& post.current_name() == Some(dname)
                &&& post.started_at() == Some(now_us)
                &&& post.usage() == dusage
            } else {
                &&& post.current_name() == pre.current_name()
                &&& post.started_at() == pre.started_at()
                &&& post.usage() == dusage
            }
        }
}

/// The monitor's own state between scans.
pub struct ProcessMonitor {
    current_process: Option<String>,
    process_start_us: Option<u64>,
    last_cycles: Vec<(String, u64)>,
    last_update_us: u64,
    current_process_usage_centi: u64,
}

impl ProcessMonitor {
    /// The tracked process's name, if one is tracked.
    pub closed spec fn current_name(&self) -> Option<Seq<char>> {
        match self.current_process {
            Some(ref n) => Some(n@),
            None => None,
        }
    }

    /// When the tracked process became dominant.
    pub closed spec fn started_at(&self) -> Option<u64> {
        self.process_start_us
    }

    /// The cycle totals recorded at the last scan.
    pub closed spec fn cycles(&self) -> Map<Seq<char>, u64> {
        cycles_map(self.last_cycles@)
    }

    /// When the last scan happened.
    pub closed spec fn last_update(&self) -> u64 {
        self.last_update_us
    }

    /// Utilization of the heaviest active process at the last scan,
    /// hundredths of a percent.
    pub closed spec fn usage(&self) -> u64 {
        self.current_process_usage_centi
    }

    /// Utilization of the heaviest active process at the last scan,
    /// hundredths of a percent.
    pub fn current_usage_centi(&self) -> (r: u64)
        ensures
            r == self.usage(),
    {
        self.current_process_usage_centi
    }

    /// One total per name, and the tracked process is never an excluded
    /// one.
    pub closed spec fn wf(&self) -> bool {
        &&& keys_unique(self.last_cycles@)
        &&& (self.current_name() matches Some(n) ==> !is_excluded_name(basename(n)))
    }

    /// Law: a well-formed monitor never names an excluded process as the
    /// tracked one, whatever scans it has digested.
    pub proof fn lemma_tracked_not_excluded(&self)
        requires
            self.wf(),
        ensures
            self.current_name() matches Some(n) ==> !is_excluded_name(basename(n)),
    {
    }

    /// A monitor that has seen nothing yet.
    pub fn new(now_us: u64) -> (r: Self)
        ensures
            r.wf(),
            r.current_name() is None,
            r.started_at() is None,
            r.cycles() == Map::<Seq<char>, u64>::empty(),
            r.last_update() == now_us,
            r.usage() == 0,
    {
        Self {
            current_process: None,
            process_start_us: None,
            last_cycles: Vec::new(),
            last_update_us: now_us,
            current_process_usage_centi: 0,
        }
    }

    /// Whether enough time has passed for a fresh scan to be meaningful.
    pub fn needs_scan(&self, now_us: u64) -> (r: bool)
        ensures
            r == (now_us >= self.last_update() + PROCESS_UPDATE_INTERVAL_US),
    {
        now_us >= self.last_update_us && now_us - self.last_update_us >= PROCESS_UPDATE_INTERVAL_US
    }

    /// The tracked process's name, cloned for the caller.
    pub fn current(&self) -> (r: Option<String>)
        ensures
            r.deep_view() == self.current_name(),
    {
        match &self.current_process {
            Some(n) => Some(clone_string(n)),
            None => None,
        }
    }

    /// Whether the tracked process has been dominant long enough to be
    /// trusted.
    pub fn is_process_stable(&self, now_us: u64) -> (r: bool)
        ensures
            r == (self.started_at() matches Some(t) && now_us >= t + PROCESS_STABILITY_US),
    {
        match self.process_start_us {
            Some(t) => now_us >= t && now_us - t >= PROCESS_STABILITY_US,
            None => false,
        }
    }

    /// Fold one scan into the monitor, as `monitor_update_post` states:
    /// record the new totals, pick the heaviest active process, and decide
    /// whether it displaces the incumbent. Yields the tracked process
    /// after the scan.
    pub fn update(&mut self, processes: &Vec<GpuProcess>, now_us: u64) -> (r: Option<String>)
        requires
            old(self).wf(),
            now_us >= old(self).last_update() + PROCESS_UPDATE_INTERVAL_US,
        ensures
            monitor_update_post(*old(self), *final(self), processes@, now_us),
            r.deep_view() == final(self).current_name(),
    {
        let ghost old_map = self.cycles();
        let elapsed_us: u64 = now_us - self.last_update_us;
        let ghost el = elapsed_us * 1000int;
        self.last_update_us = now_us;

        if processes.len() == 0 {
            self.current_process = None;
            self.process_start_us = None;
            return None;
        }
        // fold the scan into the totals, remembering each entry's delta
        let n = processes.len();
        let mut deltas: Vec<u64> = Vec::new();
        let mut k: usize = 0;
        while k < n
            invariant
                0 <= k <= n,
                n == processes@.len(),
                keys_unique(self.last_cycles@),
                cycles_map(self.last_cycles@) == apply_scan(
                    old_map,
                    processes@.subrange(0, k as int),
                ),
                deltas@ == scan_deltas(old_map, processes@.subrange(0, k as int)),
                deltas@.len() == k,
                self.last_update_us == now_us,
                self.current_process == old(self).current_process,
                self.process_start_us == old(self).process_start_us,
                self.current_process_usage_centi == old(self).current_process_usage_centi,
                old(self).wf(),
            decreases n - k,
        {
            proof {
                assert(processes@.subrange(0, k as int + 1).drop_last() =~= processes@.subrange(
                    0,
                    k as int,
                ));
                assert(processes@.subrange(0, k as int + 1).last() == processes@[k as int]);
            }
            let p = &processes[k];
            let prev = assoc_lookup(&self.last_cycles, p.name.as_str());
            let delta: u64 = if p.total_cycles >= prev {
                p.total_cycles - prev
            } else {
                0
            };
            deltas.push(delta);
            assoc_set(&mut self.last_cycles, &p.name, p.total_cycles);
            k = k + 1;
        }
        proof {
            assert(processes@.subrange(0, n as int) =~= processes@);
        }
        let ghost ds = scan_deltas(old_map, processes@);

        // find the heaviest active entry, the last such on ties
        let mut dom: Option<usize> = None;
        let mut i: usize = 0;
        while i < n
            invariant
                0 <= i <= n,
                n == processes@.len(),
                ds == scan_deltas(old_map, processes@),
                deltas@ == ds,
                ds.len() == n,
                el == elapsed_us * 1000,
                elapsed_us >= PROCESS_UPDATE_INTERVAL_US,
                dom is None ==> forall|j: int|
                    0 <= j < i ==> !entry_active(processes@[j], #[trigger] ds[j], el),
                dom matches Some(d) ==> {
                    &&& 0 <= d < i
                    &&& entry_active(processes@[d as int], ds[d as int], el)
                    &&& forall|j: int|
                        0 <= j < i && entry_active(processes@[j], #[trigger] ds[j], el) ==> ds[j]
                            <= ds[d as int] && (ds[j] == ds[d as int] ==> j <= d)
                },
            decreases n - i,
        {
            let p = &processes[i];
            let d = deltas[i];
            let active = usage_at_least(d, elapsed_us) && !is_excluded_process(p.name.as_str());
            if active {
                match dom {
                    None => {
                        dom = Some(i);
                    },
                    Some(b) => {
                        if d >= deltas[b] {
                            dom = Some(i);
                        }
                    },
                }
            }
            i = i + 1;
        }

        let di = match dom {
            None => {
                // nothing worth tracking remains
                if self.current_process.is_some() {
                    self.current_process = None;
                    self.process_start_us = None;
                    self.current_process_usage_centi = 0;
                } else {
                    self.current_process = None;
                    self.process_start_us = None;
                }
                return None;
            },
            Some(d) => d,
        };
        let dd = deltas[di];
        let dusage = usage_value(dd, elapsed_us);

        let should_change: bool = match &self.current_process {
            Some(cur) => {
                if !str_eq(cur.as_str(), processes[di].name.as_str()) {
                    let cur_delta = first_delta(processes, &deltas, cur.as_str());
                    switch_decision(dd, cur_delta, elapsed_us)
                } else {
                    false
                }
            },
            None => true,
        };

        proof {
            assert(is_dominant(processes@, ds, el, di as int));
        }
        if should_change {
            self.current_process = Some(clone_string(&processes[di].name));
            self.process_start_us = Some(now_us);
            self.current_process_usage_centi = dusage;
            proof {
                lemma_dominant_unique(processes@, ds, el);
            }
            Some(clone_string(&processes[di].name))
        } else {
            self.current_process_usage_centi = dusage;
            proof {
                lemma_dominant_unique(processes@, ds, el);
            }
            match &self.current_process {
                Some(cur) => Some(clone_string(cur)),
                None => None,
            }
        }
    }
}

/// Two positions can both be the dominant one only if they are the same.
proof fn lemma_dominant_unique(s: Seq<GpuProcess>, ds: Seq<u64>, el: int)
    ensures
        forall|a: int, b: int|
            #![trigger s[a], s[b]]
            is_dominant(s, ds, el, a) && is_dominant(s, ds, el, b) ==> a == b,
{
    assert forall|a: int, b: int|
        #![trigger s[a], s[b]]
        is_dominant(s, ds, el, a) && is_dominant(s, ds, el, b) implies a == b by {
        if a != b {
            assert(ds[a] <= ds[b] && ds[b] <= ds[a]);
        }
    }
}

/// A cloned `String` reads the same.
fn clone_string(s: &String) -> (r: String)
    ensures
        r@ == s@,
{
    s.clone()
}

/// The recorded total for a name, 0 when the name is new.
fn assoc_lookup(v: &Vec<(String, u64)>, name: &str) -> (r: u64)
    requires
        keys_unique(v@),
    ensures
        r == lookup0(cycles_map(v@), name@),
{
    let n = v.len();
    let mut i: usize = 0;
    while i < n
        invariant
            0 <= i <= n,
            n == v@.len(),
            keys_unique(v@),
            forall|j: int| 0 <= j < i ==> (#[trigger] v@[j].0@) != name@,
        decreases n - i,
    {
        if str_eq(v[i].0.as_str(), name) {
            proof {
                lemma_cycles_map_at(v@, i as int);
            }
            return v[i].1;
        }
        i = i + 1;
    }
    proof {
        lemma_cycles_map_contains(v@, name@);
    }
    0
}

/// Record a total under a name, replacing any previous entry.
fn assoc_set(v: &mut Vec<(String, u64)>, name: &String, value: u64)
    requires
        keys_unique(old(v)@),
    ensures
        keys_unique(final(v)@),
        cycles_map(final(v)@) == cycles_map(old(v)@).insert(name@, value),
{
    let n = v.len();
    let mut i: usize = 0;
    while i < n
        invariant
            0 <= i <= n,
            n == v@.len(),
            keys_unique(v@),
            v@ == old(v)@,
            forall|j: int| 0 <= j < i ==> (#[trigger] v@[j].0@) != name@,
        decreases n - i,
    {
        if str_eq(v[i].0.as_str(), name.as_str()) {
            let entry = (clone_string(name), value);
            proof {
                lemma_cycles_map_update(v@, i as int, entry);
                let updated = v@.update(i as int, entry);
                assert forall|a: int, b: int| 0 <= a < b < updated.len() implies updated[a].0@
                    != updated[b].0@ by {
                    assert(v@[a].0@ != v@[b].0@);
                }
            }
            v.set(i, entry);
            return ;
        }
        i = i + 1;
    }
    let entry = (clone_string(name), value);
    proof {
        let pushed = v@.push(entry);
        assert(pushed.drop_last() =~= v@);
        assert forall|a: int, b: int| 0 <= a < b < pushed.len() implies pushed[a].0@
            != pushed[b].0@ by {
            if b < pushed.len() - 1 {
                assert(v@[a].0@ != v@[b].0@);
            } else {
                assert(pushed[a].0@ != name@);
            }
        }
    }
    v.push(entry);
}

/// A name is in the totals exactly when some entry carries it.
proof fn lemma_cycles_map_contains(s: Seq<(String, u64)>, name: Seq<char>)
    ensures
        cycles_map(s).contains_key(name) <==> exists|i: int|
            0 <= i < s.len() && #[trigger] s[i].0@ == name,
    decreases s.len(),
{
    if s.len() > 0 {
        lemma_cycles_map_contains(s.drop_last(), name);
        if name == s.last().0@ {
            assert(s[s.len() - 1].0@ == name);
        } else {
            assert forall|i: int| 0 <= i < s.len() && #[trigger] s[i].0@ == name implies 0 <= i
                < s.len() - 1 && s.drop_last()[i].0@ == name by {}
        }
    }
}

/// With unique names, each entry is what the totals hold for its name.
proof fn lemma_cycles_map_at(s: Seq<(String, u64)>, i: int)
    requires
        keys_unique(s),
        0 <= i < s.len(),
    ensures
        cycles_map(s).contains_key(s[i].0@),
        cycles_map(s)[s[i].0@] == s[i].1,
    decreases s.len(),
{
    if i == s.len() - 1 {
    } else {
        lemma_cycles_map_at(s.drop_last(), i);
        assert(s[i].0@ != s.last().0@);
    }
}

/// Replacing the entry that holds a name updates just that name.
proof fn lemma_cycles_map_update(s: Seq<(String, u64)>, i: int, p: (String, u64))
    requires
        keys_unique(s),
        0 <= i < s.len(),
        p.0@ == s[i].0@,
    ensures
        cycles_map(s.update(i, p)) =~= cycles_map(s).insert(p.0@, p.1),
    decreases s.len(),
{
    if i == s.len() - 1 {
        assert(s.update(i, p).drop_last() =~= s.drop_last());
        assert(s.update(i, p).last() == p);
    } else {
        assert(s.update(i, p).drop_last() =~= s.drop_last().update(i, p));
        assert(s.update(i, p).last() == s.last());
        lemma_cycles_map_update(s.drop_last(), i, p);
        assert(s[i].0@ != s.last().0@);
    }
}

/// Whether `delta` cycles over `elapsed_us` microseconds reach the
/// interest threshold, compared exactly.
fn usage_at_least(delta: u64, elapsed_us: u64) -> (r: bool)
    ensures
        r == (delta * 100 >= MIN_GPU_USAGE_PERCENT * (elapsed_us * 1000)),
{
    (delta as u128) * 100 >= 5 * ((elapsed_us as u128) * 1000)
}

/// Utilization in hundredths of a percent.
fn usage_value(delta: u64, elapsed_us: u64) -> (r: u64)
    requires
        elapsed_us >= PROCESS_UPDATE_INTERVAL_US,
    ensures
        r == usage_centi(delta, elapsed_us * 1000),
{
    let el = (elapsed_us as u128) * 1000;
    let q = (delta as u128) * 10000 / el;
    proof {
        assert(q as int == (delta as int) * 10000 / (el as int));
        assert(q as int <= u64::MAX as int) by (nonlinear_arith)
            requires
                q as int == (delta as int) * 10000 / (el as int),
                el as int >= 1_000_000_000,
                0 <= delta as int <= u64::MAX as int,
        ;
    }
    q as u64
}

/// The displacement rule, compared exactly.
fn switch_decision(dd: u64, dc: u64, elapsed_us: u64) -> (r: bool)
    ensures
        r == should_switch(dd, dc, elapsed_us * 1000),
{
    if dc == 0 {
        return true;
    }
    let el = (elapsed_us as u128) * 1000;
    let floor = if (dc as u128) * 1000 >= el {
        (dc as u128) * 1000
    } else {
        el
    };
    proof {
        assert(PROCESS_SWITCH_RATIO == 2);
    }
    (dd as u128) * 1000 >= 2 * floor
}

/// The delta of the first scan entry carrying a name, 0 when none does.
fn first_delta(processes: &Vec<GpuProcess>, deltas: &Vec<u64>, name: &str) -> (r: u64)
    requires
        processes@.len() == deltas@.len(),
    ensures
        r == delta_of_name(processes@, deltas@, name@),
{
    let n = processes.len();
    let mut i: usize = 0;
    while i < n
        invariant
            0 <= i <= n,
            n == processes@.len(),
            n == deltas@.len(),
            forall|j: int| 0 <= j < i ==> (#[trigger] processes@[j].name@) != name@,
        decreases n - i,
    {
        if str_eq(processes[i].name.as_str(), name) {
            proof {
                lemma_first_idx_is(processes@, name@, i as int);
            }
            return deltas[i];
        }
        i = i + 1;
    }
    proof {
        lemma_first_idx_none(processes@, name@);
    }
    0
}

/// The first matching position is what `first_idx` names.
proof fn lemma_first_idx_is(s: Seq<GpuProcess>, name: Seq<char>, i: int)
    requires
        0 <= i < s.len(),
        s[i].name@ == name,
        forall|j: int| 0 <= j < i ==> (#[trigger] s[j].name@) != name,
    ensures
        first_idx(s, name) == i,
    decreases s.len(),
{
    if i == 0 {
    } else {
        assert(s[0].name@ != name);
        assert forall|j: int| 0 <= j < i - 1 implies (#[trigger] s.drop_first()[j].name@)
            != name by {
            assert(s.drop_first()[j] == s[j + 1]);
        }
        assert(s.drop_first()[i - 1].name@ == name);
        lemma_first_idx_is(s.drop_first(), name, i - 1);
    }
}

/// Without a matching entry, `first_idx` finds nothing.
proof fn lemma_first_idx_none(s: Seq<GpuProcess>, name: Seq<char>)
    requires
        forall|j: int| 0 <= j < s.len() ==> (#[trigger] s[j].name@) != name,
    ensures
        first_idx(s, name) == -1,
    decreases s.len(),
{
    if s.len() > 0 {
        assert forall|j: int| 0 <= j < s.len() - 1 implies (#[trigger] s.drop_first()[j].name@)
            != name by {
            assert(s.drop_first()[j] == s[j + 1]);
        }
        lemma_first_idx_none(s.drop_first(), name);
    }
}

} // verus!
