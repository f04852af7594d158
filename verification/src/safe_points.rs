//! Safe-point table: hardware-validated (frequency, voltage) pairs.
//!
//! The table is the actuator's lookup structure: for a requested frequency
//! it yields the voltage of the smallest safe point whose frequency is at
//! least the request. Validation at load enforces the data-model invariant:
//! non-empty, one voltage per frequency, and voltage non-decreasing in
//! frequency.

use vstd::prelude::*;

verus! {

/// One hardware-validated pair: `frequency` in MHz, `voltage` in mV.
#[derive(Clone, Copy, Debug, PartialEq, Eq, Structural)]
pub struct SafePoint {
    pub frequency: u16,
    pub voltage: u16,
}

/// Why a list of candidate safe points was rejected.
#[derive(Clone, Copy, Debug, PartialEq, Eq, Structural)]
pub enum SafePointError {
    /// The list held no point at all.
    Empty,
    /// Two points named the same frequency.
    DuplicateFrequency,
    /// A higher frequency was paired with a lower voltage.
    VoltageNotMonotonic,
}

/// Two entries claim the same frequency.
pub open spec fn has_duplicate_frequency(s: Seq<SafePoint>) -> bool {
    exists|i: int, j: int|
        0 <= i < j < s.len() && s[i].frequency == s[j].frequency
}

/// Somewhere a higher frequency is paired with a strictly lower voltage.
pub open spec fn has_voltage_inversion(s: Seq<SafePoint>) -> bool {
    exists|i: int, j: int|
        0 <= i < s.len() && 0 <= j < s.len() && s[i].frequency < s[j].frequency
            && s[i].voltage > s[j].voltage
}

/// Frequencies strictly increase and voltages never decrease along the table.
pub open spec fn table_ordered(s: Seq<SafePoint>) -> bool {
    forall|i: int, j: int|
        0 <= i < j < s.len() ==> s[i].frequency < s[j].frequency && s[i].voltage <= s[j].voltage
}

/// Index `i` holds the smallest frequency in `s` that is at least `f`.
pub open spec fn is_lowest_match(s: Seq<SafePoint>, f: u16, i: int) -> bool {
    &&& 0 <= i < s.len()
    &&& s[i].frequency >= f
    &&& forall|j: int| 0 <= j < i ==> s[j].frequency < f
}

/// Voltage of the smallest safe point whose frequency is at least `f`.
pub open spec fn spec_voltage_for(s: Seq<SafePoint>, f: u16) -> Option<u16>
    decreases s.len(),
{
    if s.len() == 0 {
        None
    } else if s[0].frequency >= f {
        Some(s[0].voltage)
    } else {
        spec_voltage_for(s.drop_first(), f)
    }
}

/// An exists-witness of a pairwise property survives any reordering.
proof fn lemma_inversion_permutes(s: Seq<SafePoint>, t: Seq<SafePoint>)
    requires
        s.to_multiset() == t.to_multiset(),
        has_voltage_inversion(s),
    ensures
        has_voltage_inversion(t),
{
    broadcast use vstd::seq_lib::group_to_multiset_ensures;

    let (i, j) = choose|i: int, j: int|
        0 <= i < s.len() && 0 <= j < s.len() && s[i].frequency < s[j].frequency && s[i].voltage
            > s[j].voltage;
    let a = s[i];
    let b = s[j];
    assert(s.contains(a) && s.contains(b));
    assert(s.to_multiset().count(a) > 0 && s.to_multiset().count(b) > 0);
    assert(t.to_multiset().count(a) > 0 && t.to_multiset().count(b) > 0);
    assert(t.contains(a) && t.contains(b));
    let ti = choose|ti: int| 0 <= ti < t.len() && t[ti] == a;
    let tj = choose|tj: int| 0 <= tj < t.len() && t[tj] == b;
    assert(t[ti].frequency < t[tj].frequency && t[ti].voltage > t[tj].voltage);
}

/// The ordered, validated table of safe points.
#[derive(Debug)]
pub struct SafePoints {
    points: Vec<SafePoint>,
}

impl SafePoints {
    /// The points, in order of increasing frequency.
    pub closed spec fn points(&self) -> Seq<SafePoint> {
        self.points@
    }

    /// Table invariant: non-empty and ordered.
    pub closed spec fn wf(&self) -> bool {
        &&& self.points@.len() >= 1
        &&& table_ordered(self.points@)
    }

    /// Validate a candidate list and order it by frequency.
    ///
    /// Accepts exactly the lists the data model allows: at least one point,
    /// no two points for one frequency, and no voltage inversion. The
    /// resulting table holds the same points, ordered.
    pub fn try_new(pairs: Vec<SafePoint>) -> (r: Result<SafePoints, SafePointError>)
        ensures
            pairs@.len() == 0 <==> r == Err::<SafePoints, SafePointError>(SafePointError::Empty),
            pairs@.len() > 0 ==> (r == Err::<SafePoints, SafePointError>(
                SafePointError::DuplicateFrequency,
            ) <==> has_duplicate_frequency(pairs@)),
            pairs@.len() > 0 && !has_duplicate_frequency(pairs@) ==> (r == Err::<
                SafePoints,
                SafePointError,
            >(SafePointError::VoltageNotMonotonic) <==> has_voltage_inversion(pairs@)),
            r matches Ok(sp) ==> {
                &&& sp.wf()
                &&& sp.points().to_multiset() == pairs@.to_multiset()
                &&& sp.points().len() == pairs@.len()
            },
    {
        broadcast use vstd::seq_lib::group_to_multiset_ensures;

        if pairs.len() == 0 {
            return Err(SafePointError::Empty);
        }
        let mut sorted: Vec<SafePoint> = Vec::new();
        let mut k: usize = 0;
        while k < pairs.len()
            invariant
                0 <= k <= pairs@.len(),
                sorted@.to_multiset() == pairs@.subrange(0, k as int).to_multiset(),
                sorted@.len() == k,
                forall|i: int, j: int|
                    0 <= i < j < sorted@.len() ==> sorted@[i].frequency < sorted@[j].frequency,
                !has_duplicate_frequency(pairs@.subrange(0, k as int)),
            decreases pairs@.len() - k,
        {
            let p = pairs[k];
            proof {
                assert(pairs@.subrange(0, k as int + 1).drop_last() =~= pairs@.subrange(
                    0,
                    k as int,
                ));
                assert(pairs@.subrange(0, k as int + 1).last() == p);
            }
            // find the insertion position: first index with frequency >= p.frequency
            let mut pos: usize = 0;
            while pos < sorted.len() && sorted[pos].frequency < p.frequency
                invariant
                    0 <= pos <= sorted@.len(),
                    forall|j: int| 0 <= j < pos ==> sorted@[j].frequency < p.frequency,
                decreases sorted@.len() - pos,
            {
                pos = pos + 1;
            }
            if pos < sorted.len() && sorted[pos].frequency == p.frequency {
                // the matching entry came from the prefix: a duplicate exists
                proof {
                    broadcast use vstd::seq_lib::group_to_multiset_ensures;

                    let a = sorted@[pos as int];
                    assert(sorted@.contains(a));
                    assert(sorted@.to_multiset().count(a) > 0);
                    assert(pairs@.subrange(0, k as int).to_multiset().count(a) > 0);
                    assert(pairs@.subrange(0, k as int).contains(a));
                    let wi = choose|wi: int|
                        0 <= wi < k && pairs@.subrange(0, k as int)[wi] == a;
                    assert(pairs@[wi] == a);
                    assert(pairs@[wi].frequency == pairs@[k as int].frequency);
                    assert(has_duplicate_frequency(pairs@));
                }
                return Err(SafePointError::DuplicateFrequency);
            }
            proof {
                broadcast use vstd::seq_lib::group_to_multiset_ensures;

                // frequencies beyond pos are strictly above p's, earlier strictly below
                assert forall|j: int|
                    pos <= j < sorted@.len() implies sorted@[j].frequency > p.frequency by {
                    if j > pos {
                        assert(sorted@[pos as int].frequency < sorted@[j].frequency);
                    }
                }
                // no element of the prefix carries p's frequency
                assert forall|j: int| 0 <= j < k implies pairs@[j].frequency != p.frequency by {
                    if pairs@[j].frequency == p.frequency {
                        let a = pairs@.subrange(0, k as int)[j];
                        assert(pairs@.subrange(0, k as int).contains(a));
                        assert(pairs@.subrange(0, k as int).to_multiset().count(a) > 0);
                        assert(sorted@.to_multiset().count(a) > 0);
                        assert(sorted@.contains(a));
                        let si = choose|si: int| 0 <= si < sorted@.len() && sorted@[si] == a;
                        assert(false);
                    }
                }
                if has_duplicate_frequency(pairs@.subrange(0, k as int + 1)) {
                    let sub = pairs@.subrange(0, k as int + 1);
                    let (i2, j2) = choose|i2: int, j2: int|
                        0 <= i2 < j2 < sub.len() && sub[i2].frequency == sub[j2].frequency;
                    if j2 < k {
                        assert(pairs@.subrange(0, k as int)[i2] == sub[i2]);
                        assert(pairs@.subrange(0, k as int)[j2] == sub[j2]);
                        assert(has_duplicate_frequency(pairs@.subrange(0, k as int)));
                    } else {
                        assert(pairs@[i2].frequency == p.frequency);
                    }
                    assert(false);
                }
            }
            let ghost presorted = sorted@;
            sorted.insert(pos, p);
            proof {
                broadcast use vstd::seq_lib::group_to_multiset_ensures;

                vstd::seq_lib::to_multiset_insert(presorted, pos as int, p);
                assert(pairs@.subrange(0, k as int + 1) =~= pairs@.subrange(0, k as int).push(p));
                assert(pairs@.subrange(0, k as int).push(p).to_multiset() =~= pairs@.subrange(
                    0,
                    k as int,
                ).to_multiset().insert(p));
                assert(sorted@.to_multiset() == pairs@.subrange(0, k as int + 1).to_multiset());
            }
            k = k + 1;
        }
        proof {
            assert(pairs@.subrange(0, pairs@.len() as int) =~= pairs@);
        }
        // the table is ordered by frequency; now check the voltages
        let mut i: usize = 1;
        while i < sorted.len()
            invariant
                1 <= i <= sorted@.len(),
                sorted@.len() >= 1,
                sorted@.to_multiset() == pairs@.to_multiset(),
                sorted@.len() == pairs@.len(),
                forall|a: int, b: int|
                    0 <= a < b < sorted@.len() ==> sorted@[a].frequency < sorted@[b].frequency,
                forall|a: int| 0 <= a < i - 1 ==> #[trigger] sorted@[a].voltage <= sorted@[a + 1].voltage,
                !has_duplicate_frequency(pairs@),
            decreases sorted@.len() - i,
        {
            if sorted[i - 1].voltage > sorted[i].voltage {
                proof {
                    assert(has_voltage_inversion(sorted@));
                    lemma_inversion_permutes(sorted@, pairs@);
                }
                return Err(SafePointError::VoltageNotMonotonic);
            }
            i = i + 1;
        }
        proof {
            // adjacent monotonicity gives the pairwise form
            assert forall|a: int, b: int|
                0 <= a < b < sorted@.len() implies sorted@[a].voltage <= sorted@[b].voltage by {
                lemma_adjacent_to_pairwise(sorted@, a, b);
            }
            if has_voltage_inversion(pairs@) {
                lemma_inversion_permutes(pairs@, sorted@);
                assert(false);
            }
        }
        Ok(SafePoints { points: sorted })
    }

    /// Voltage of the smallest safe point whose frequency is at least `freq`,
    /// or nothing when `freq` lies above the whole table.
    pub fn voltage_for(&self, freq: u16) -> (r: Option<u16>)
        requires
            self.wf(),
        ensures
            r == spec_voltage_for(self.points(), freq),
            r matches Some(v) ==> exists|i: int|
                is_lowest_match(self.points(), freq, i) && v == self.points()[i].voltage,
            r is None <==> freq > self.max_freq(),
    {
        proof {
            lemma_voltage_for_is_lowest(self.points@, freq);
            assert(self.points@.skip(0) =~= self.points@);
        }
        let mut i: usize = 0;
        while i < self.points.len()
            invariant
                self.wf(),
                0 <= i <= self.points@.len(),
                forall|j: int| 0 <= j < i ==> self.points@[j].frequency < freq,
                spec_voltage_for(self.points@, freq) == spec_voltage_for(
                    self.points@.skip(i as int),
                    freq,
                ),
            decreases self.points@.len() - i,
        {
            proof {
                assert(self.points@.skip(i as int)[0] == self.points@[i as int]);
                assert(self.points@.skip(i as int).drop_first() =~= self.points@.skip(
                    i as int + 1,
                ));
            }
            if self.points[i].frequency >= freq {
                proof {
                    assert(is_lowest_match(self.points@, freq, i as int));
                    let last = self.points@.len() - 1;
                    if (i as int) < last {
                        assert(self.points@[i as int].frequency <= self.points@[last].frequency);
                    }
                }
                return Some(self.points[i].voltage);
            }
            i = i + 1;
        }
        proof {
            assert(self.points@.skip(self.points@.len() as int) =~= Seq::<SafePoint>::empty());
        }
        None
    }

    /// Lowest frequency in the table, MHz.
    pub open spec fn min_freq(&self) -> u16 {
        self.points()[0].frequency
    }

    /// Highest frequency in the table, MHz.
    pub open spec fn max_freq(&self) -> u16 {
        self.points()[self.points().len() - 1].frequency
    }

    /// Lowest frequency in the table, MHz.
    pub fn lowest_freq(&self) -> (r: u16)
        requires
            self.wf(),
        ensures
            r == self.min_freq(),
            forall|i: int| 0 <= i < self.points().len() ==> r <= self.points()[i].frequency,
    {
        self.points[0].frequency
    }

    /// Highest frequency in the table, MHz.
    pub fn highest_freq(&self) -> (r: u16)
        requires
            self.wf(),
        ensures
            r == self.max_freq(),
            forall|i: int| 0 <= i < self.points().len() ==> r >= self.points()[i].frequency,
    {
        self.points[self.points.len() - 1].frequency
    }

    /// Number of points in the table.
    pub fn len(&self) -> (r: usize)
        ensures
            r == self.points().len(),
    {
        self.points.len()
    }

    /// The point at a given position, lowest frequency first.
    pub fn point_at(&self, i: usize) -> (r: SafePoint)
        requires
            i < self.points().len(),
        ensures
            r == self.points()[i as int],
    {
        self.points[i]
    }
}

/// In an ordered table, adjacent voltage monotonicity implies the pairwise form.
proof fn lemma_adjacent_to_pairwise(s: Seq<SafePoint>, a: int, b: int)
    requires
        0 <= a < b < s.len(),
        forall|k: int| 0 <= k < s.len() - 1 ==> #[trigger] s[k].voltage <= s[k + 1].voltage,
    ensures
        s[a].voltage <= s[b].voltage,
    decreases b - a,
{
    if b == a + 1 {
    } else {
        lemma_adjacent_to_pairwise(s, a, b - 1);
    }
}

/// `spec_voltage_for` picks exactly the lowest match, and misses exactly when
/// every frequency in the table lies below the request.
pub proof fn lemma_voltage_for_is_lowest(s: Seq<SafePoint>, f: u16)
    ensures
        spec_voltage_for(s, f) matches Some(v) ==> exists|i: int|
            is_lowest_match(s, f, i) && v == s[i].voltage,
        spec_voltage_for(s, f) is None <==> forall|i: int|
            0 <= i < s.len() ==> s[i].frequency < f,
    decreases s.len(),
{
    if s.len() == 0 {
    } else if s[0].frequency >= f {
        assert(is_lowest_match(s, f, 0));
    } else {
        lemma_voltage_for_is_lowest(s.drop_first(), f);
        let t = s.drop_first();
        assert(forall|j: int| 0 <= j < t.len() ==> t[j] == s[j + 1]);
        if spec_voltage_for(t, f) is Some {
            let v = spec_voltage_for(t, f)->Some_0;
            let i = choose|i: int| is_lowest_match(t, f, i) && v == t[i].voltage;
            assert(s[i + 1].frequency >= f);
            assert forall|j: int| 0 <= j < i + 1 implies s[j].frequency < f by {
                if j > 0 {
                    assert(t[j - 1].frequency < f);
                }
            }
            assert(is_lowest_match(s, f, i + 1));
        } else {
            assert forall|i: int| 0 <= i < s.len() implies s[i].frequency < f by {
                if i > 0 {
                    assert(t[i - 1].frequency < f);
                }
            }
        }
    }
}

/// Law: with an ordered table the selected voltage is monotone in the
/// requested frequency. Whenever both requests are answered, the lower
/// request never receives the higher voltage.
pub proof fn lemma_voltage_monotonic(sp: &SafePoints, f1: u16, f2: u16, v1: u16, v2: u16)
    requires
        sp.wf(),
        f1 <= f2,
        spec_voltage_for(sp.points(), f1) == Some(v1),
        spec_voltage_for(sp.points(), f2) == Some(v2),
    ensures
        v1 <= v2,
{
    lemma_voltage_for_is_lowest(sp.points(), f1);
    lemma_voltage_for_is_lowest(sp.points(), f2);
    let i1 = choose|i: int| is_lowest_match(sp.points(), f1, i) && v1 == sp.points()[i].voltage;
    let i2 = choose|i: int| is_lowest_match(sp.points(), f2, i) && v2 == sp.points()[i].voltage;
    if i1 > i2 {
        assert(sp.points()[i2].frequency < f1);
        assert(sp.points()[i2].frequency >= f2);
    }
    if i1 < i2 {
        assert(sp.points()[i1].voltage <= sp.points()[i2].voltage);
    }
}

} // verus!
