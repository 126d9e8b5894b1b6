//! The hot-spot profiler: per-function and per-loop execution counts,
//! per-site type and branch profiles, per-instruction execution counts,
//! and deoptimisation records, with the queries a compilation tier would
//! ask of them.

use vstd::prelude::*;
use crate::value::Value;
use crate::instruction::Opcode;
use crate::assoc::{KeyMap, lemma_update_value};

verus! {

/// A counter increment that can never fail: it sticks at the top.
pub open spec fn bump64(n: u64) -> u64 {
    if n < u64::MAX {
        (n + 1) as u64
    } else {
        n
    }
}

/// A counter increment that can never fail: it sticks at the top.
pub open spec fn bump32(n: u32) -> u32 {
    if n < u32::MAX {
        (n + 1) as u32
    } else {
        n
    }
}

/// The count a possibly-absent type profile records for a name.
pub open spec fn profile_count(q: Option<TypeProfile>, n: Seq<char>) -> u64 {
    match q {
        Some(p) => count_for(p.type_counts@, n),
        None => 0,
    }
}

/// The count stored under `k`, with absent keys counting zero.
pub open spec fn count_at(m: KeyMap<u64>, k: usize) -> u64 {
    match m.get_spec(k) {
        Some(c) => c,
        None => 0,
    }
}

/// Optimisation tiers a profile can suggest.
#[derive(Clone, Copy, Debug, PartialEq, Eq, Structural)]
pub enum OptimizationLevel {
    O0,
    O1,
    O2,
    O3,
}

/// First index of an entry named `name` in `s` at or after `i`, or -1.
pub open spec fn find_name_from(s: Seq<(String, u64)>, name: Seq<char>, i: int) -> int
    decreases s.len() - i,
{
    if 0 <= i < s.len() {
        if s[i].0@ == name {
            i
        } else {
            find_name_from(s, name, i + 1)
        }
    } else {
        -1
    }
}

/// The count recorded under `name`, with absent names counting zero.
pub open spec fn count_for(s: Seq<(String, u64)>, name: Seq<char>) -> u64 {
    let i = find_name_from(s, name, 0);
    if i >= 0 {
        s[i].1
    } else {
        0
    }
}

/// Names are pairwise distinct.
pub open spec fn distinct_names(s: Seq<(String, u64)>) -> bool {
    forall|i: int, j: int| 0 <= i < j < s.len() ==> (#[trigger] s[i]).0@ != (#[trigger] s[j]).0@
}

/// The largest count in `s` at or after `i`.
pub open spec fn max_count_from(s: Seq<(String, u64)>, i: int) -> u64
    decreases s.len() - i,
{
    if 0 <= i < s.len() {
        let rest = max_count_from(s, i + 1);
        if s[i].1 >= rest {
            s[i].1
        } else {
            rest
        }
    } else {
        0
    }
}

/// `find_name_from` finds the first match at or after `i`, or nothing.
pub proof fn lemma_find_name_from(s: Seq<(String, u64)>, name: Seq<char>, i: int)
    requires
        0 <= i <= s.len(),
    ensures
        ({
            let r = find_name_from(s, name, i);
            &&& (r == -1 ==> forall|j: int| i <= j < s.len() ==> (#[trigger] s[j]).0@ != name)
            &&& (r != -1 ==> i <= r < s.len() && s[r].0@ == name && forall|j: int|
                i <= j < r ==> (#[trigger] s[j]).0@ != name)
        }),
    decreases s.len() - i,
{
    if i < s.len() && s[i].0@ != name {
        lemma_find_name_from(s, name, i + 1);
    }
}

/// Lookups by name depend only on the name views at each index.
pub proof fn lemma_find_name_same(s1: Seq<(String, u64)>, s2: Seq<(String, u64)>, name: Seq<
    char,
>, i: int)
    requires
        0 <= i <= s1.len(),
        s1.len() == s2.len(),
        forall|j: int| 0 <= j < s1.len() ==> (#[trigger] s1[j]).0@ == s2[j].0@,
    ensures
        find_name_from(s2, name, i) == find_name_from(s1, name, i),
    decreases s1.len() - i,
{
    if i < s1.len() && s1[i].0@ != name {
        lemma_find_name_same(s1, s2, name, i + 1);
    }
}

/// Looking a name up in a list extended by one entry.
pub proof fn lemma_find_name_push(s: Seq<(String, u64)>, e: (String, u64), name: Seq<
    char,
>, i: int)
    requires
        0 <= i <= s.len(),
    ensures
        find_name_from(s.push(e), name, i) == if find_name_from(s, name, i) >= 0 {
            find_name_from(s, name, i)
        } else {
            if e.0@ == name {
                s.len() as int
            } else {
                -1
            }
        },
    decreases s.len() - i,
{
    assert(s.push(e).len() == s.len() + 1);
    assert(s.push(e)[s.len() as int] == e);
    if i < s.len() {
        assert(s.push(e)[i] == s[i]);
        if s[i].0@ != name {
            lemma_find_name_push(s, e, name, i + 1);
        }
    } else {
        assert(i == s.len());
        assert(find_name_from(s, name, i) == -1);
        if e.0@ == name {
            assert(find_name_from(s.push(e), name, i) == i);
        } else {
            assert(find_name_from(s.push(e), name, i + 1) == -1);
            assert(find_name_from(s.push(e), name, i) == -1);
        }
    }
}

/// A per-site record of the value types observed there.
pub struct TypeProfile {
    pub type_counts: Vec<(String, u64)>,
    pub total_observations: u64,
}

impl TypeProfile {
    /// Type names stay pairwise distinct.
    pub open spec fn wf(self) -> bool {
        distinct_names(self.type_counts@)
    }

    /// A profile with no observations.
    pub fn new() -> (r: Self)
        ensures
            r.wf(),
            r.type_counts@ == Seq::<(String, u64)>::empty(),
            r.total_observations == 0,
    {
        TypeProfile { type_counts: Vec::new(), total_observations: 0 }
    }

    /// Record one observation of `tname`: its count and the total both
    /// rise by one (sticking at the counter's top).
    pub fn record_observation(&mut self, tname: &str)
        requires
            old(self).wf(),
        ensures
            final(self).wf(),
            final(self).total_observations == bump64(old(self).total_observations),
            forall|n2: Seq<char>|
                #![auto]
                count_for(final(self).type_counts@, n2) == if n2 == tname@ {
                    bump64(count_for(old(self).type_counts@, n2))
                } else {
                    count_for(old(self).type_counts@, n2)
                },
    {
        let ghost s0 = self.type_counts@;
        let name_owned: String = tname.to_owned();
        let n = self.type_counts.len();
        let mut i: usize = 0;
        while i < n
            invariant
                s0 == old(self).type_counts@,
                distinct_names(s0),
                self.type_counts@ == s0,
                self.total_observations == old(self).total_observations,
                name_owned@ == tname@,
                n == s0.len(),
                0 <= i <= n,
                forall|j: int| 0 <= j < i ==> (#[trigger] s0[j]).0@ != tname@,
            decreases n - i,
        {
            if self.type_counts[i].0 == name_owned {
                proof {
                    lemma_find_name_from(s0, tname@, 0);
                }
                let stored = self.type_counts[i].0.clone();
                let c = self.type_counts[i].1;
                let c2: u64 = if c < u64::MAX {
                    c + 1
                } else {
                    c
                };
                self.type_counts[i] = (stored, c2);
                let t = self.total_observations;
                self.total_observations = if t < u64::MAX {
                    t + 1
                } else {
                    t
                };
                proof {
                    let s1 = self.type_counts@;
                    assert(s1 =~= s0.update(i as int, (s0[i as int].0, c2)));
                    assert forall|j: int| 0 <= j < s1.len() implies (#[trigger] s1[j]).0@
                        == s0[j].0@ by {
                        if j != i {
                            assert(s1[j] == s0[j]);
                        }
                    }
                    assert forall|i2: int, j2: int|
                        0 <= i2 < j2 < s1.len() implies (#[trigger] s1[i2]).0@ != (
                    #[trigger] s1[j2]).0@ by {
                        assert(s1[i2].0@ == s0[i2].0@);
                        assert(s1[j2].0@ == s0[j2].0@);
                    }
                    assert(find_name_from(s0, tname@, 0) == i);
                    assert forall|n2: Seq<char>|
                        #![auto]
                        count_for(s1, n2) == (if n2 == tname@ {
                            bump64(count_for(s0, n2))
                        } else {
                            count_for(s0, n2)
                        }) by {
                        lemma_find_name_same(s0, s1, n2, 0);
                        lemma_find_name_from(s1, n2, 0);
                        let f = find_name_from(s1, n2, 0);
                        if n2 == tname@ {
                            assert(f == i);
                        } else if f >= 0 {
                            assert(s1[f].0@ == n2);
                            assert(f != i);
                            assert(s1[f] == s0[f]);
                        }
                    }
                }
                return ;
            }
            i += 1;
        }
        proof {
            lemma_find_name_from(s0, tname@, 0);
        }
        self.type_counts.push((name_owned, 1));
        let t = self.total_observations;
        self.total_observations = if t < u64::MAX {
            t + 1
        } else {
            t
        };
        proof {
            let s1 = self.type_counts@;
            let e = (name_owned, 1u64);
            assert(s1 == s0.push(e));
            assert forall|n2: Seq<char>|
                #![auto]
                count_for(s1, n2) == (if n2 == tname@ {
                    bump64(count_for(s0, n2))
                } else {
                    count_for(s0, n2)
                }) by {
                lemma_find_name_push(s0, e, n2, 0);
                lemma_find_name_from(s0, n2, 0);
                let f0 = find_name_from(s0, n2, 0);
                if f0 >= 0 {
                    assert(s1[f0] == s0[f0]);
                } else if n2 == tname@ {
                    assert(find_name_from(s1, n2, 0) == s0.len());
                    assert(s1[s0.len() as int].1 == 1);
                    assert(count_for(s0, n2) == 0);
                }
            }
            assert forall|i2: int, j2: int|
                0 <= i2 < j2 < s1.len() implies (#[trigger] s1[i2]).0@ != (#[trigger] s1[j2]).0@
                by {
                if j2 == s1.len() - 1 {
                    lemma_find_name_from(s0, tname@, 0);
                    assert(s1[i2] == s0[i2]);
                }
            }
        }
    }

    /// The number of observations recorded.
    pub fn total_observations(&self) -> (r: u64)
        ensures
            r == self.total_observations,
    {
        self.total_observations
    }

    /// How often `tname` was observed.
    pub fn get_type_frequency(&self, tname: &str) -> (r: u64)
        ensures
            r == count_for(self.type_counts@, tname@),
    {
        proof {
            lemma_find_name_from(self.type_counts@, tname@, 0);
        }
        let name_owned: String = tname.to_owned();
        let n = self.type_counts.len();
        let mut i: usize = 0;
        while i < n
            invariant
                name_owned@ == tname@,
                n == self.type_counts@.len(),
                0 <= i <= n,
                forall|j: int| 0 <= j < i ==> (#[trigger] self.type_counts@[j]).0@ != tname@,
            decreases n - i,
        {
            if self.type_counts[i].0 == name_owned {
                proof {
                    lemma_find_name_from(self.type_counts@, tname@, 0);
                }
                return self.type_counts[i].1;
            }
            i += 1;
        }
        proof {
            lemma_find_name_from(self.type_counts@, tname@, 0);
        }
        0
    }

    /// Whether one type dominates: the most-observed type's share of all
    /// observations is at least `threshold_num / threshold_den`. A profile
    /// with no observations is never monomorphic.
    pub fn is_monomorphic(&self, threshold_num: u64, threshold_den: u64) -> (r: bool)
        ensures
            r == (self.total_observations != 0 && threshold_den != 0 && max_count_from(
                self.type_counts@,
                0,
            ) as int * threshold_den as int >= threshold_num as int * self.total_observations
                as int),
    {
        if self.total_observations == 0 || threshold_den == 0 {
            return false;
        }
        let n = self.type_counts.len();
        let mut max_count: u64 = 0;
        let mut i: usize = n;
        while i > 0
            invariant
                n == self.type_counts@.len(),
                0 <= i <= n,
                max_count == max_count_from(self.type_counts@, i as int),
            decreases i,
        {
            i = i - 1;
            let c = self.type_counts[i].1;
            if c >= max_count {
                max_count = c;
            }
        }
        proof {
            assert((max_count as int) * (threshold_den as int) <= (u64::MAX as int) * (
            u64::MAX as int) && (threshold_num as int) * (self.total_observations as int) <= (
            u64::MAX as int) * (u64::MAX as int)) by (nonlinear_arith)
                requires
                    max_count <= u64::MAX,
                    threshold_den <= u64::MAX,
                    threshold_num <= u64::MAX,
                    self.total_observations <= u64::MAX,
            ;
        }
        (max_count as u128) * (threshold_den as u128) >= (threshold_num as u128)
            * (self.total_observations as u128)
    }
}

impl Default for TypeProfile {
    fn default() -> (r: Self)
        ensures
            r.wf(),
            r.type_counts@ == Seq::<(String, u64)>::empty(),
            r.total_observations == 0,
    {
        Self::new()
    }
}

/// A per-site record of how a conditional branch went.
pub struct BranchProfile {
    pub taken_count: u64,
    pub not_taken_count: u64,
}

impl BranchProfile {
    /// A profile with no recorded branches.
    pub fn new() -> (r: Self)
        ensures
            r.taken_count == 0,
            r.not_taken_count == 0,
    {
        BranchProfile { taken_count: 0, not_taken_count: 0 }
    }

    /// Record one outcome.
    pub fn record_branch(&mut self, taken: bool)
        ensures
            taken ==> *final(self) == (BranchProfile {
                taken_count: bump64(old(self).taken_count),
                ..*old(self)
            }),
            !taken ==> *final(self) == (BranchProfile {
                not_taken_count: bump64(old(self).not_taken_count),
                ..*old(self)
            }),
    {
        if taken {
            if self.taken_count < u64::MAX {
                self.taken_count = self.taken_count + 1;
            }
        } else {
            if self.not_taken_count < u64::MAX {
                self.not_taken_count = self.not_taken_count + 1;
            }
        }
    }

    /// The number of branches recorded, sticking at the counter's top.
    pub fn total_branches(&self) -> (r: u64)
        ensures
            r as int == if self.taken_count + self.not_taken_count <= u64::MAX {
                self.taken_count + self.not_taken_count
            } else {
                u64::MAX as int
            },
    {
        match self.taken_count.checked_add(self.not_taken_count) {
            Some(t) => t,
            None => u64::MAX,
        }
    }

    pub fn taken_count(&self) -> (r: u64)
        ensures
            r == self.taken_count,
    {
        self.taken_count
    }

    pub fn not_taken_count(&self) -> (r: u64)
        ensures
            r == self.not_taken_count,
    {
        self.not_taken_count
    }

    /// Predict taken exactly when strictly more than half the recorded
    /// branches were taken.
    pub fn predict_taken(&self) -> (r: bool)
        ensures
            r == (2 * self.taken_count > self.taken_count + self.not_taken_count),
    {
        (2 as u128) * (self.taken_count as u128) > (self.taken_count as u128) + (
        self.not_taken_count as u128)
    }
}

impl Default for BranchProfile {
    fn default() -> (r: Self)
        ensures
            r.taken_count == 0,
            r.not_taken_count == 0,
    {
        Self::new()
    }
}

/// Per-instruction profile: where it stands, what it is, how often it ran.
#[derive(Clone, Copy, Debug, PartialEq, Eq, Structural)]
pub struct ProfiledInstruction {
    pub pc: usize,
    pub opcode: Opcode,
    pub execution_count: u64,
}

impl ProfiledInstruction {
    pub fn new(pc: usize, opcode: Opcode) -> (r: Self)
        ensures
            r.pc == pc,
            r.opcode == opcode,
            r.execution_count == 0,
    {
        ProfiledInstruction { pc, opcode, execution_count: 0 }
    }
}

/// The keys in `s` from `i` on whose count reaches `threshold`, in order.
pub open spec fn hot_keys_from(s: Seq<(usize, u64)>, threshold: u64, i: int) -> Seq<usize>
    decreases s.len() - i,
{
    if 0 <= i < s.len() {
        if s[i].1 >= threshold {
            seq![s[i].0] + hot_keys_from(s, threshold, i + 1)
        } else {
            hot_keys_from(s, threshold, i + 1)
        }
    } else {
        Seq::empty()
    }
}

/// The profiles in `s` from `i` on whose execution count reaches
/// `threshold`, in order.
pub open spec fn hot_instructions_from(
    s: Seq<(usize, ProfiledInstruction)>,
    threshold: u64,
    i: int,
) -> Seq<ProfiledInstruction>
    decreases s.len() - i,
{
    if 0 <= i < s.len() {
        if s[i].1.execution_count >= threshold {
            seq![s[i].1] + hot_instructions_from(s, threshold, i + 1)
        } else {
            hot_instructions_from(s, threshold, i + 1)
        }
    } else {
        Seq::empty()
    }
}

/// The hot-spot profiler.
pub struct HotSpotProfiler {
    pub function_counts: KeyMap<u64>,
    pub function_threshold: u64,
    pub loop_counts: KeyMap<u64>,
    pub loop_threshold: u64,
    pub type_profiles: KeyMap<TypeProfile>,
    pub branch_profiles: KeyMap<BranchProfile>,
    pub instruction_profiles: KeyMap<ProfiledInstruction>,
    pub deoptimization_counts: KeyMap<u32>,
    pub deoptimization_reasons: KeyMap<Vec<String>>,
    pub total_executions: u64,
}

/// The default threshold above which a function counts as hot.
pub const DEFAULT_FUNCTION_THRESHOLD: u64 = 1000;

/// The default threshold above which a loop counts as hot.
pub const DEFAULT_LOOP_THRESHOLD: u64 = 10_000;

impl HotSpotProfiler {
    /// Every table keeps distinct keys, and every stored type profile
    /// keeps distinct type names.
    pub open spec fn wf(self) -> bool {
        &&& self.function_counts.wf()
        &&& self.loop_counts.wf()
        &&& self.type_profiles.wf()
        &&& self.branch_profiles.wf()
        &&& self.instruction_profiles.wf()
        &&& self.deoptimization_counts.wf()
        &&& self.deoptimization_reasons.wf()
        &&& forall|pc: usize|
            (#[trigger] self.type_profiles.get_spec(pc)) matches Some(p) ==> p.wf()
    }

    /// Whether no data has been recorded or imported.
    pub open spec fn is_clear(self) -> bool {
        &&& self.function_counts.entries@.len() == 0
        &&& self.loop_counts.entries@.len() == 0
        &&& self.type_profiles.entries@.len() == 0
        &&& self.branch_profiles.entries@.len() == 0
        &&& self.instruction_profiles.entries@.len() == 0
        &&& self.deoptimization_counts.entries@.len() == 0
        &&& self.deoptimization_reasons.entries@.len() == 0
        &&& self.total_executions == 0
    }

    /// A fresh profiler with the default thresholds.
    pub fn new() -> (r: Self)
        ensures
            r.wf(),
            r.is_clear(),
            r.function_threshold == DEFAULT_FUNCTION_THRESHOLD,
            r.loop_threshold == DEFAULT_LOOP_THRESHOLD,
    {
        HotSpotProfiler {
            function_counts: KeyMap::new(),
            function_threshold: DEFAULT_FUNCTION_THRESHOLD,
            loop_counts: KeyMap::new(),
            loop_threshold: DEFAULT_LOOP_THRESHOLD,
            type_profiles: KeyMap::new(),
            branch_profiles: KeyMap::new(),
            instruction_profiles: KeyMap::new(),
            deoptimization_counts: KeyMap::new(),
            deoptimization_reasons: KeyMap::new(),
            total_executions: 0,
        }
    }

    /// A fresh profiler with the given hotness thresholds.
    pub fn with_thresholds(function_threshold: u64, loop_threshold: u64) -> (r: Self)
        ensures
            r.wf(),
            r.is_clear(),
            r.function_threshold == function_threshold,
            r.loop_threshold == loop_threshold,
    {
        HotSpotProfiler {
            function_counts: KeyMap::new(),
            function_threshold,
            loop_counts: KeyMap::new(),
            loop_threshold,
            type_profiles: KeyMap::new(),
            branch_profiles: KeyMap::new(),
            instruction_profiles: KeyMap::new(),
            deoptimization_counts: KeyMap::new(),
            deoptimization_reasons: KeyMap::new(),
            total_executions: 0,
        }
    }

    /// Record one entry of the function `function_id`.
    pub fn record_function_entry(&mut self, function_id: usize)
        requires
            old(self).wf(),
        ensures
            final(self).wf(),
            count_at(final(self).function_counts, function_id) == bump64(
                count_at(old(self).function_counts, function_id),
            ),
            forall|k2: usize|
                k2 != function_id ==> count_at(final(self).function_counts, k2) == count_at(
                    old(self).function_counts,
                    k2,
                ),
            final(self).total_executions == bump64(old(self).total_executions),
            *final(self) == (HotSpotProfiler {
                function_counts: final(self).function_counts,
                total_executions: final(self).total_executions,
                ..*old(self)
            }),
    {
        let c = match self.function_counts.get(function_id) {
            Some(c) => *c,
            None => 0,
        };
        let c2: u64 = if c < u64::MAX {
            c + 1
        } else {
            c
        };
        self.function_counts.insert(function_id, c2);
        let t = self.total_executions;
        self.total_executions = if t < u64::MAX {
            t + 1
        } else {
            t
        };
    }

    /// How often the function `function_id` was entered.
    pub fn get_function_count(&self, function_id: usize) -> (r: u64)
        ensures
            r == count_at(self.function_counts, function_id),
    {
        match self.function_counts.get(function_id) {
            Some(c) => *c,
            None => 0,
        }
    }

    /// The functions whose entry count reaches the function threshold, in
    /// the order their counters were first created.
    pub fn hot_functions(&self) -> (r: Vec<usize>)
        ensures
            r@ == hot_keys_from(self.function_counts.entries@, self.function_threshold, 0),
    {
        hot_keys(&self.function_counts, self.function_threshold)
    }

    /// Record one iteration of the loop headed at `loop_pc`.
    pub fn record_loop_iteration(&mut self, loop_pc: usize)
        requires
            old(self).wf(),
        ensures
            final(self).wf(),
            count_at(final(self).loop_counts, loop_pc) == bump64(
                count_at(old(self).loop_counts, loop_pc),
            ),
            forall|k2: usize|
                k2 != loop_pc ==> count_at(final(self).loop_counts, k2) == count_at(
                    old(self).loop_counts,
                    k2,
                ),
            final(self).total_executions == bump64(old(self).total_executions),
            *final(self) == (HotSpotProfiler {
                loop_counts: final(self).loop_counts,
                total_executions: final(self).total_executions,
                ..*old(self)
            }),
    {
        let c = match self.loop_counts.get(loop_pc) {
            Some(c) => *c,
            None => 0,
        };
        let c2: u64 = if c < u64::MAX {
            c + 1
        } else {
            c
        };
        self.loop_counts.insert(loop_pc, c2);
        let t = self.total_executions;
        self.total_executions = if t < u64::MAX {
            t + 1
        } else {
            t
        };
    }

    /// How often the loop headed at `loop_pc` iterated.
    pub fn get_loop_count(&self, loop_pc: usize) -> (r: u64)
        ensures
            r == count_at(self.loop_counts, loop_pc),
    {
        match self.loop_counts.get(loop_pc) {
            Some(c) => *c,
            None => 0,
        }
    }

    /// The loops whose iteration count reaches the loop threshold, in the
    /// order their counters were first created.
    pub fn hot_loops(&self) -> (r: Vec<usize>)
        ensures
            r@ == hot_keys_from(self.loop_counts.entries@, self.loop_threshold, 0),
    {
        hot_keys(&self.loop_counts, self.loop_threshold)
    }

    /// Record the type of `value` as observed at `pc`.
    pub fn record_type_observation(&mut self, pc: usize, value: &Value)
        requires
            old(self).wf(),
        ensures
            final(self).wf(),
            final(self).type_profiles.get_spec(pc) matches Some(p) && {
                &&& p.total_observations == bump64(
                    match old(self).type_profiles.get_spec(pc) {
                        Some(q) => q.total_observations,
                        None => 0,
                    },
                )
                &&& count_for(p.type_counts@, value.abs().type_label_spec()) == bump64(
                    match old(self).type_profiles.get_spec(pc) {
                        Some(q) => count_for(q.type_counts@, value.abs().type_label_spec()),
                        None => 0,
                    },
                )
                &&& forall|n2: Seq<char>|
                    n2 != value.abs().type_label_spec() ==> #[trigger] count_for(
                        p.type_counts@,
                        n2,
                    ) == profile_count(old(self).type_profiles.get_spec(pc), n2)
            },
            forall|pc2: usize|
                pc2 != pc ==> final(self).type_profiles.get_spec(pc2) == old(
                    self,
                ).type_profiles.get_spec(pc2),
            *final(self) == (HotSpotProfiler {
                type_profiles: final(self).type_profiles,
                ..*old(self)
            }),
    {
        let tname = value.type_label();
        if !self.type_profiles.contains_key(pc) {
            self.type_profiles.insert(pc, TypeProfile::new());
        }
        let i = self.type_profiles.index_of(pc);
        let ghost s0 = self.type_profiles.entries@;
        proof {
            assert(self.type_profiles.get_spec(pc) == Some(s0[i as int].1));
        }
        let ghost m1 = self.type_profiles;
        let entry = &mut self.type_profiles.entries[i];
        entry.1.record_observation(tname);
        proof {
            let s1 = self.type_profiles.entries@;
            lemma_update_value(s0, i as int, pc, s1[i as int].1);
            assert(s1 =~= s0.update(i as int, (pc, s1[i as int].1)));
            assert(s1[i as int].1.wf());
            assert forall|pc2: usize|
                ((#[trigger] self.type_profiles.get_spec(pc2)) matches Some(p) ==> p.wf()) by {
                if pc2 == pc {
                    assert(self.type_profiles.get_spec(pc) == Some(s1[i as int].1));
                } else {
                    assert(self.type_profiles.get_spec(pc2) == m1.get_spec(pc2));
                }
            }
        }
    }

    /// The type profile recorded at `pc`, if any.
    pub fn get_type_profile(&self, pc: usize) -> (r: Option<&TypeProfile>)
        ensures
            match r {
                Some(p) => self.type_profiles.get_spec(pc) matches Some(q) && *p == q,
                None => self.type_profiles.get_spec(pc) is None,
            },
    {
        self.type_profiles.get(pc)
    }

    /// Record how the branch at `pc` went.
    pub fn record_branch_taken(&mut self, pc: usize, taken: bool)
        requires
            old(self).wf(),
        ensures
            final(self).wf(),
            final(self).branch_profiles.get_spec(pc) matches Some(p) && {
                let q0 = match old(self).branch_profiles.get_spec(pc) {
                    Some(q) => q,
                    None => BranchProfile { taken_count: 0, not_taken_count: 0 },
                };
                &&& p.taken_count == if taken {
                    bump64(q0.taken_count)
                } else {
                    q0.taken_count
                }
                &&& p.not_taken_count == if taken {
                    q0.not_taken_count
                } else {
                    bump64(q0.not_taken_count)
                }
            },
            forall|pc2: usize|
                pc2 != pc ==> final(self).branch_profiles.get_spec(pc2) == old(
                    self,
                ).branch_profiles.get_spec(pc2),
            *final(self) == (HotSpotProfiler {
                branch_profiles: final(self).branch_profiles,
                ..*old(self)
            }),
    {
        if !self.branch_profiles.contains_key(pc) {
            self.branch_profiles.insert(pc, BranchProfile::new());
        }
        let i = self.branch_profiles.index_of(pc);
        let ghost s0 = self.branch_profiles.entries@;
        let entry = &mut self.branch_profiles.entries[i];
        entry.1.record_branch(taken);
        proof {
            let s1 = self.branch_profiles.entries@;
            lemma_update_value(s0, i as int, pc, s1[i as int].1);
            assert(s1 =~= s0.update(i as int, (pc, s1[i as int].1)));
        }
    }

    /// The branch profile recorded at `pc`, if any.
    pub fn get_branch_profile(&self, pc: usize) -> (r: Option<&BranchProfile>)
        ensures
            match r {
                Some(p) => self.branch_profiles.get_spec(pc) matches Some(q) && *p == q,
                None => self.branch_profiles.get_spec(pc) is None,
            },
    {
        self.branch_profiles.get(pc)
    }

    /// Record one execution of the instruction at `pc`. The first record
    /// at a site fixes the opcode stored for it.
    pub fn record_instruction_execution(&mut self, pc: usize, opcode: Opcode)
        requires
            old(self).wf(),
        ensures
            final(self).wf(),
            final(self).instruction_profiles.get_spec(pc) matches Some(p) && {
                let q0 = match old(self).instruction_profiles.get_spec(pc) {
                    Some(q) => q,
                    None => ProfiledInstruction { pc, opcode, execution_count: 0 },
                };
                p == (ProfiledInstruction { execution_count: bump64(q0.execution_count), ..q0 })
            },
            forall|pc2: usize|
                pc2 != pc ==> final(self).instruction_profiles.get_spec(pc2) == old(
                    self,
                ).instruction_profiles.get_spec(pc2),
            *final(self) == (HotSpotProfiler {
                instruction_profiles: final(self).instruction_profiles,
                ..*old(self)
            }),
    {
        let p = match self.instruction_profiles.get(pc) {
            Some(p) => *p,
            None => ProfiledInstruction::new(pc, opcode),
        };
        let c2: u64 = if p.execution_count < u64::MAX {
            p.execution_count + 1
        } else {
            p.execution_count
        };
        self.instruction_profiles.insert(
            pc,
            ProfiledInstruction { execution_count: c2, ..p },
        );
    }

    /// The instruction profile recorded at `pc`, if any.
    pub fn get_instruction_profile(&self, pc: usize) -> (r: Option<&ProfiledInstruction>)
        ensures
            match r {
                Some(p) => self.instruction_profiles.get_spec(pc) matches Some(q) && *p == q,
                None => self.instruction_profiles.get_spec(pc) is None,
            },
    {
        self.instruction_profiles.get(pc)
    }

    /// The profiles whose execution count reaches `threshold`, in the
    /// order their sites were first recorded.
    pub fn get_hot_instructions(&self, threshold: u64) -> (r: Vec<ProfiledInstruction>)
        ensures
            r@ == hot_instructions_from(self.instruction_profiles.entries@, threshold, 0),
    {
        let n = self.instruction_profiles.len();
        let mut r: Vec<ProfiledInstruction> = Vec::new();
        let ghost s = self.instruction_profiles.entries@;
        let mut i: usize = n;
        while i > 0
            invariant
                n == s.len(),
                s == self.instruction_profiles.entries@,
                0 <= i <= n,
                r@ == hot_instructions_from(s, threshold, i as int),
            decreases i,
        {
            i = i - 1;
            let e = &self.instruction_profiles.entries[i];
            if e.1.execution_count >= threshold {
                let ghost r_old = r@;
                r.insert(0, e.1);
                proof {
                    assert(r@ =~= seq![s[i as int].1] + r_old);
                }
            }
        }
        r
    }

    /// The optimisation tier suggested for a function by its entry count:
    /// up to 50 none, up to 500 the first tier, up to 5000 the second,
    /// beyond that the third.
    pub fn suggested_optimization_level(&self, function_id: usize) -> (r: OptimizationLevel)
        ensures
            ({
                let c = count_at(self.function_counts, function_id);
                &&& c <= 50 ==> r == OptimizationLevel::O0
                &&& 50 < c <= 500 ==> r == OptimizationLevel::O1
                &&& 500 < c <= 5000 ==> r == OptimizationLevel::O2
                &&& c > 5000 ==> r == OptimizationLevel::O3
            }),
    {
        let count = self.get_function_count(function_id);
        if count <= 50 {
            OptimizationLevel::O0
        } else if count <= 500 {
            OptimizationLevel::O1
        } else if count <= 5000 {
            OptimizationLevel::O2
        } else {
            OptimizationLevel::O3
        }
    }

    /// Record that a speculative assumption at `pc` was violated, with the
    /// reason.
    pub fn record_deoptimization(&mut self, pc: usize, reason: &str)
        requires
            old(self).wf(),
        ensures
            final(self).wf(),
            final(self).deoptimization_counts.get_spec(pc) == Some(
                bump32(
                    match old(self).deoptimization_counts.get_spec(pc) {
                        Some(c) => c,
                        None => 0,
                    },
                ),
            ),
            forall|pc2: usize|
                pc2 != pc ==> final(self).deoptimization_counts.get_spec(pc2) == old(
                    self,
                ).deoptimization_counts.get_spec(pc2),
            final(self).deoptimization_reasons.get_spec(pc) matches Some(v) && v.deep_view() == (
                match old(self).deoptimization_reasons.get_spec(pc) {
                    Some(v0) => v0.deep_view(),
                    None => Seq::<Seq<char>>::empty(),
                }).push(reason@),
            forall|pc2: usize|
                pc2 != pc ==> final(self).deoptimization_reasons.get_spec(pc2) == old(
                    self,
                ).deoptimization_reasons.get_spec(pc2),
            *final(self) == (HotSpotProfiler {
                deoptimization_counts: final(self).deoptimization_counts,
                deoptimization_reasons: final(self).deoptimization_reasons,
                ..*old(self)
            }),
    {
        let c = match self.deoptimization_counts.get(pc) {
            Some(c) => *c,
            None => 0,
        };
        let c2: u32 = if c < u32::MAX {
            c + 1
        } else {
            c
        };
        self.deoptimization_counts.insert(pc, c2);
        if !self.deoptimization_reasons.contains_key(pc) {
            self.deoptimization_reasons.insert(pc, Vec::new());
        }
        let i = self.deoptimization_reasons.index_of(pc);
        let ghost s0 = self.deoptimization_reasons.entries@;
        let entry = &mut self.deoptimization_reasons.entries[i];
        entry.1.push(reason.to_owned());
        proof {
            let s1 = self.deoptimization_reasons.entries@;
            lemma_update_value(s0, i as int, pc, s1[i as int].1);
            assert(s1 =~= s0.update(i as int, (pc, s1[i as int].1)));
            assert(s1[i as int].1.deep_view() =~= s0[i as int].1.deep_view().push(reason@));
        }
    }

    /// How often the site at `pc` deoptimised.
    pub fn get_deoptimization_count(&self, pc: usize) -> (r: u32)
        ensures
            r == (match self.deoptimization_counts.get_spec(pc) {
                Some(c) => c,
                None => 0,
            }),
    {
        match self.deoptimization_counts.get(pc) {
            Some(c) => *c,
            None => 0,
        }
    }

    /// Whether the site at `pc` deoptimised at least `threshold` times and
    /// should not be optimised aggressively.
    pub fn should_avoid_optimization(&self, pc: usize, threshold: u32) -> (r: bool)
        ensures
            r == ((match self.deoptimization_counts.get_spec(pc) {
                Some(c) => c,
                None => 0,
            }) >= threshold),
    {
        self.get_deoptimization_count(pc) >= threshold
    }

    /// The number of recorded function entries and loop iterations.
    pub fn total_executions(&self) -> (r: u64)
        ensures
            r == self.total_executions,
    {
        self.total_executions
    }

    /// Forget all recorded data; the thresholds stay.
    pub fn reset(&mut self)
        ensures
            final(self).wf(),
            final(self).is_clear(),
            final(self).function_threshold == old(self).function_threshold,
            final(self).loop_threshold == old(self).loop_threshold,
    {
        self.function_counts.clear();
        self.loop_counts.clear();
        self.type_profiles.clear();
        self.branch_profiles.clear();
        self.instruction_profiles.clear();
        self.deoptimization_counts.clear();
        self.deoptimization_reasons.clear();
        self.total_executions = 0;
    }
}

impl Default for HotSpotProfiler {
    fn default() -> (r: Self)
        ensures
            r.wf(),
            r.is_clear(),
            r.function_threshold == DEFAULT_FUNCTION_THRESHOLD,
            r.loop_threshold == DEFAULT_LOOP_THRESHOLD,
    {
        Self::new()
    }
}

/// The keys of `m` whose count reaches `threshold`, in stored order.
fn hot_keys(m: &KeyMap<u64>, threshold: u64) -> (r: Vec<usize>)
    ensures
        r@ == hot_keys_from(m.entries@, threshold, 0),
{
    let n = m.len();
    let mut r: Vec<usize> = Vec::new();
    let ghost s = m.entries@;
    let mut i: usize = n;
    while i > 0
        invariant
            n == s.len(),
            s == m.entries@,
            0 <= i <= n,
            r@ == hot_keys_from(s, threshold, i as int),
        decreases i,
    {
        i = i - 1;
        let e = &m.entries[i];
        if e.1 >= threshold {
            let ghost r_old = r@;
            r.insert(0, e.0);
            proof {
                assert(r@ =~= seq![s[i as int].0] + r_old);
            }
        }
    }
    r
}

} // verus!
