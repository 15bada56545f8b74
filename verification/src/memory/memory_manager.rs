//! Memory budget tracking and accounting per subsystem.

use vstd::prelude::*;

verus! {

/// Subsystem identifier for memory tracking.
#[derive(Clone, Copy, Debug, PartialEq, Eq, Hash, Structural)]
pub enum Subsystem {
    Physics,
    AI,
    World,
    Graphics,
    Audio,
    Content,
    Streaming,
    ECS,
    Other,
}

/// The default budget of each subsystem, in bytes.
pub open spec fn spec_default_budget(s: Subsystem) -> u64 {
    match s {
        Subsystem::Physics => 67108864u64,
        Subsystem::AI => 33554432u64,
        Subsystem::World => 134217728u64,
        Subsystem::Graphics => 536870912u64,
        Subsystem::Audio => 67108864u64,
        Subsystem::Content => 268435456u64,
        Subsystem::Streaming => 134217728u64,
        Subsystem::ECS => 67108864u64,
        Subsystem::Other => 33554432u64,
    }
}

/// The position of each subsystem in the tracking table.
pub open spec fn subsystem_slot(s: Subsystem) -> int {
    match s {
        Subsystem::Physics => 0,
        Subsystem::AI => 1,
        Subsystem::World => 2,
        Subsystem::Graphics => 3,
        Subsystem::Audio => 4,
        Subsystem::Content => 5,
        Subsystem::Streaming => 6,
        Subsystem::ECS => 7,
        Subsystem::Other => 8,
    }
}

/// The subsystems in table order.
pub open spec fn all_subsystems() -> Seq<Subsystem> {
    seq![
        Subsystem::Physics,
        Subsystem::AI,
        Subsystem::World,
        Subsystem::Graphics,
        Subsystem::Audio,
        Subsystem::Content,
        Subsystem::Streaming,
        Subsystem::ECS,
        Subsystem::Other,
    ]
}

impl Subsystem {
    /// Get default budget in bytes for this subsystem.
    pub fn default_budget(&self) -> (budget: u64)
        ensures
            budget == spec_default_budget(*self),
    {
        match self {
            Subsystem::Physics => 64 * 1024 * 1024,
            Subsystem::AI => 32 * 1024 * 1024,
            Subsystem::World => 128 * 1024 * 1024,
            Subsystem::Graphics => 512 * 1024 * 1024,
            Subsystem::Audio => 64 * 1024 * 1024,
            Subsystem::Content => 256 * 1024 * 1024,
            Subsystem::Streaming => 128 * 1024 * 1024,
            Subsystem::ECS => 64 * 1024 * 1024,
            Subsystem::Other => 32 * 1024 * 1024,
        }
    }

    /// Get subsystem name as string.
    pub fn name(&self) -> (name: &'static str)
        ensures
            name@ == (match *self {
                Subsystem::Physics => "physics"@,
                Subsystem::AI => "ai"@,
                Subsystem::World => "world"@,
                Subsystem::Graphics => "graphics"@,
                Subsystem::Audio => "audio"@,
                Subsystem::Content => "content"@,
                Subsystem::Streaming => "streaming"@,
                Subsystem::ECS => "ecs"@,
                Subsystem::Other => "other"@,
            }),
    {
        match self {
            Subsystem::Physics => "physics",
            Subsystem::AI => "ai",
            Subsystem::World => "world",
            Subsystem::Graphics => "graphics",
            Subsystem::Audio => "audio",
            Subsystem::Content => "content",
            Subsystem::Streaming => "streaming",
            Subsystem::ECS => "ecs",
            Subsystem::Other => "other",
        }
    }

    fn slot(&self) -> (i: usize)
        ensures
            i == subsystem_slot(*self),
    {
        match self {
            Subsystem::Physics => 0,
            Subsystem::AI => 1,
            Subsystem::World => 2,
            Subsystem::Graphics => 3,
            Subsystem::Audio => 4,
            Subsystem::Content => 5,
            Subsystem::Streaming => 6,
            Subsystem::ECS => 7,
            Subsystem::Other => 8,
        }
    }
}

/// Per-subsystem memory statistics.
#[derive(Clone, Copy, Debug)]
pub struct SubsystemStats {
    pub current_bytes: u64,
    pub peak_bytes: u64,
    pub alloc_count: u64,
    pub free_count: u64,
    pub budget_bytes: u64,
}

impl SubsystemStats {
    pub fn new(budget: u64) -> (stats: Self)
        ensures
            stats == (SubsystemStats {
                current_bytes: 0,
                peak_bytes: 0,
                alloc_count: 0,
                free_count: 0,
                budget_bytes: budget,
            }),
    {
        SubsystemStats {
            current_bytes: 0,
            peak_bytes: 0,
            alloc_count: 0,
            free_count: 0,
            budget_bytes: budget,
        }
    }

    fn record_alloc(&mut self, bytes: u64)
        ensures
            final(self).current_bytes == old(self).current_bytes.wrapping_add(bytes),
            final(self).alloc_count == old(self).alloc_count.wrapping_add(1),
            final(self).peak_bytes == (if final(self).current_bytes > old(self).peak_bytes {
                final(self).current_bytes
            } else {
                old(self).peak_bytes
            }),
            final(self).free_count == old(self).free_count,
            final(self).budget_bytes == old(self).budget_bytes,
    {
        self.current_bytes = self.current_bytes.wrapping_add(bytes);
        self.alloc_count = self.alloc_count.wrapping_add(1);
        if self.current_bytes > self.peak_bytes {
            self.peak_bytes = self.current_bytes;
        }
    }

    fn record_free(&mut self, bytes: u64)
        ensures
            final(self).current_bytes == old(self).current_bytes.wrapping_sub(bytes),
            final(self).free_count == old(self).free_count.wrapping_add(1),
            final(self).peak_bytes == old(self).peak_bytes,
            final(self).alloc_count == old(self).alloc_count,
            final(self).budget_bytes == old(self).budget_bytes,
    {
        self.current_bytes = self.current_bytes.wrapping_sub(bytes);
        self.free_count = self.free_count.wrapping_add(1);
    }

    fn current_usage(&self) -> (bytes: u64)
        ensures
            bytes == self.current_bytes,
    {
        self.current_bytes
    }

    fn is_over_budget(&self) -> (over: bool)
        ensures
            over == (self.current_bytes > self.budget_bytes),
    {
        self.current_usage() > self.budget_bytes
    }
}

/// Memory accounting for every subsystem.
pub struct MemoryManager {
    subsystems: Vec<SubsystemStats>,
    total_allocated: u64,
    total_freed: u64,
}

/// Report for a single subsystem.
#[derive(Debug, Clone)]
pub struct SubsystemReport {
    pub subsystem: Subsystem,
    pub current_bytes: u64,
    pub peak_bytes: u64,
    pub budget_bytes: u64,
    pub alloc_count: u64,
    pub free_count: u64,
}

/// Full memory report.
#[derive(Debug, Clone)]
pub struct MemoryReport {
    pub total_allocated: u64,
    pub total_freed: u64,
    pub current_total: u64,
    pub subsystems: Vec<SubsystemReport>,
}

impl MemoryManager {
    /// The statistics of subsystem `s`.
    pub closed spec fn stats(&self, s: Subsystem) -> SubsystemStats {
        self.subsystems@[subsystem_slot(s)]
    }

    pub closed spec fn spec_total_allocated(&self) -> u64 {
        self.total_allocated
    }

    pub closed spec fn spec_total_freed(&self) -> u64 {
        self.total_freed
    }

    /// Well-formedness: one statistics record per subsystem.
    pub closed spec fn wf(&self) -> bool {
        self.subsystems@.len() == 9
    }

    /// Create a new memory manager with default budgets.
    pub fn new() -> (manager: Self)
        ensures
            manager.wf(),
            manager.spec_total_allocated() == 0,
            manager.spec_total_freed() == 0,
            forall|s: Subsystem| #[trigger] manager.stats(s) == SubsystemStats::new_spec(spec_default_budget(s)),
    {
        let mut subsystems: Vec<SubsystemStats> = Vec::new();
        subsystems.push(SubsystemStats::new(Subsystem::Physics.default_budget()));
        subsystems.push(SubsystemStats::new(Subsystem::AI.default_budget()));
        subsystems.push(SubsystemStats::new(Subsystem::World.default_budget()));
        subsystems.push(SubsystemStats::new(Subsystem::Graphics.default_budget()));
        subsystems.push(SubsystemStats::new(Subsystem::Audio.default_budget()));
        subsystems.push(SubsystemStats::new(Subsystem::Content.default_budget()));
        subsystems.push(SubsystemStats::new(Subsystem::Streaming.default_budget()));
        subsystems.push(SubsystemStats::new(Subsystem::ECS.default_budget()));
        subsystems.push(SubsystemStats::new(Subsystem::Other.default_budget()));
        MemoryManager { subsystems, total_allocated: 0, total_freed: 0 }
    }

    /// Record an allocation for a subsystem.
    pub fn record_alloc(&mut self, subsystem: Subsystem, bytes: u64)
        requires
            old(self).wf(),
        ensures
            final(self).wf(),
            ({
                let o = old(self).stats(subsystem);
                let n = final(self).stats(subsystem);
                &&& n.current_bytes == o.current_bytes.wrapping_add(bytes)
                &&& n.alloc_count == o.alloc_count.wrapping_add(1)
                &&& n.peak_bytes == (if n.current_bytes > o.peak_bytes {
                    n.current_bytes
                } else {
                    o.peak_bytes
                })
                &&& n.free_count == o.free_count
                &&& n.budget_bytes == o.budget_bytes
            }),
            forall|s: Subsystem| s != subsystem ==> #[trigger] final(self).stats(s) == old(self).stats(s),
            final(self).spec_total_allocated() == old(self).spec_total_allocated().wrapping_add(bytes),
            final(self).spec_total_freed() == old(self).spec_total_freed(),
    {
        let i = subsystem.slot();
        let mut stats = self.subsystems[i];
        stats.record_alloc(bytes);
        self.subsystems.set(i, stats);
        self.total_allocated = self.total_allocated.wrapping_add(bytes);
    }

    /// Record a deallocation for a subsystem.
    pub fn record_free(&mut self, subsystem: Subsystem, bytes: u64)
        requires
            old(self).wf(),
        ensures
            final(self).wf(),
            ({
                let o = old(self).stats(subsystem);
                let n = final(self).stats(subsystem);
                &&& n.current_bytes == o.current_bytes.wrapping_sub(bytes)
                &&& n.free_count == o.free_count.wrapping_add(1)
                &&& n.peak_bytes == o.peak_bytes
                &&& n.alloc_count == o.alloc_count
                &&& n.budget_bytes == o.budget_bytes
            }),
            forall|s: Subsystem| s != subsystem ==> #[trigger] final(self).stats(s) == old(self).stats(s),
            final(self).spec_total_allocated() == old(self).spec_total_allocated(),
            final(self).spec_total_freed() == old(self).spec_total_freed().wrapping_add(bytes),
    {
        let i = subsystem.slot();
        let mut stats = self.subsystems[i];
        stats.record_free(bytes);
        self.subsystems.set(i, stats);
        self.total_freed = self.total_freed.wrapping_add(bytes);
    }

    /// Get current memory usage for a subsystem.
    pub fn current_usage(&self, subsystem: Subsystem) -> (bytes: u64)
        requires
            self.wf(),
        ensures
            bytes == self.stats(subsystem).current_bytes,
    {
        self.subsystems[subsystem.slot()].current_usage()
    }

    /// The statistics of `subsystem`.
    pub fn subsystem_stats(&self, subsystem: Subsystem) -> (stats: SubsystemStats)
        requires
            self.wf(),
        ensures
            stats == self.stats(subsystem),
    {
        self.subsystems[subsystem.slot()]
    }

    /// The bytes recorded as allocated, over all subsystems.
    pub fn total_allocated(&self) -> (bytes: u64)
        ensures
            bytes == self.spec_total_allocated(),
    {
        self.total_allocated
    }

    /// The bytes recorded as freed, over all subsystems.
    pub fn total_freed(&self) -> (bytes: u64)
        ensures
            bytes == self.spec_total_freed(),
    {
        self.total_freed
    }

    /// Get total memory usage across all subsystems.
    pub fn total_usage(&self) -> (bytes: u64)
        requires
            self.spec_total_freed() <= self.spec_total_allocated(),
        ensures
            bytes == self.spec_total_allocated() - self.spec_total_freed(),
    {
        self.total_allocated - self.total_freed
    }

    /// Check if any subsystem is over budget.
    pub fn has_over_budget(&self) -> (over: bool)
        requires
            self.wf(),
        ensures
            over == exists|s: Subsystem| #[trigger] self.stats(s).current_bytes > self.stats(s).budget_bytes,
    {
        let mut i: usize = 0;
        while i < 9
            invariant
                self.wf(),
                0 <= i <= 9,
                forall|j: int| 0 <= j < i ==> self.subsystems@[j].current_bytes <= self.subsystems@[j].budget_bytes,
            decreases 9 - i,
        {
            if self.subsystems[i].is_over_budget() {
                proof {
                    let s = all_subsystems()[i as int];
                    assert(subsystem_slot(s) == i);
                    assert(self.stats(s).current_bytes > self.stats(s).budget_bytes);
                }
                return true;
            }
            i = i + 1;
        }
        proof {
            assert forall|s: Subsystem| !(#[trigger] self.stats(s).current_bytes > self.stats(s).budget_bytes) by {
                assert(0 <= subsystem_slot(s) < 9);
            }
        }
        false
    }

    /// Get list of subsystems over budget, in table order.
    pub fn over_budget_subsystems(&self) -> (over: Vec<Subsystem>)
        requires
            self.wf(),
        ensures
            over@ == all_subsystems().filter(|s: Subsystem| self.stats(s).current_bytes > self.stats(s).budget_bytes),
    {
        let ghost over_pred = |s: Subsystem| self.stats(s).current_bytes > self.stats(s).budget_bytes;
        let mut out: Vec<Subsystem> = Vec::new();
        let mut i: usize = 0;
        while i < 9
            invariant
                self.wf(),
                0 <= i <= 9,
                over_pred == (|s: Subsystem| self.stats(s).current_bytes > self.stats(s).budget_bytes),
                out@ == all_subsystems().take(i as int).filter(over_pred),
            decreases 9 - i,
        {
            let s = Self::subsystem_at(i);
            assert(all_subsystems().take(i + 1).drop_last() =~= all_subsystems().take(i as int));
            reveal_with_fuel(Seq::filter, 1);
            if self.subsystems[i].is_over_budget() {
                out.push(s);
            }
            i = i + 1;
        }
        assert(all_subsystems().take(9) =~= all_subsystems());
        out
    }

    fn subsystem_at(i: usize) -> (s: Subsystem)
        requires
            i < 9,
        ensures
            s == all_subsystems()[i as int],
            subsystem_slot(s) == i,
    {
        match i {
            0 => Subsystem::Physics,
            1 => Subsystem::AI,
            2 => Subsystem::World,
            3 => Subsystem::Graphics,
            4 => Subsystem::Audio,
            5 => Subsystem::Content,
            6 => Subsystem::Streaming,
            7 => Subsystem::ECS,
            _ => Subsystem::Other,
        }
    }

    /// Generate a memory report, subsystems in table order.
    pub fn report(&self) -> (report: MemoryReport)
        requires
            self.wf(),
            self.spec_total_freed() <= self.spec_total_allocated(),
        ensures
            report.total_allocated == self.spec_total_allocated(),
            report.total_freed == self.spec_total_freed(),
            report.current_total == self.spec_total_allocated() - self.spec_total_freed(),
            report.subsystems@.len() == 9,
            forall|i: int|
                0 <= i < 9 ==> {
                    let r = #[trigger] report.subsystems@[i];
                    let s = all_subsystems()[i];
                    &&& r.subsystem == s
                    &&& r.current_bytes == self.stats(s).current_bytes
                    &&& r.peak_bytes == self.stats(s).peak_bytes
                    &&& r.budget_bytes == self.stats(s).budget_bytes
                    &&& r.alloc_count == self.stats(s).alloc_count
                    &&& r.free_count == self.stats(s).free_count
                },
    {
        let mut entries: Vec<SubsystemReport> = Vec::new();
        let mut i: usize = 0;
        while i < 9
            invariant
                self.wf(),
                0 <= i <= 9,
                entries@.len() == i,
                forall|j: int|
                    0 <= j < i ==> {
                        let r = #[trigger] entries@[j];
                        let s = all_subsystems()[j];
                        &&& r.subsystem == s
                        &&& r.current_bytes == self.stats(s).current_bytes
                        &&& r.peak_bytes == self.stats(s).peak_bytes
                        &&& r.budget_bytes == self.stats(s).budget_bytes
                        &&& r.alloc_count == self.stats(s).alloc_count
                        &&& r.free_count == self.stats(s).free_count
                    },
            decreases 9 - i,
        {
            let s = Self::subsystem_at(i);
            let stats = &self.subsystems[i];
            entries.push(
                SubsystemReport {
                    subsystem: s,
                    current_bytes: stats.current_usage(),
                    peak_bytes: stats.peak_bytes,
                    budget_bytes: stats.budget_bytes,
                    alloc_count: stats.alloc_count,
                    free_count: stats.free_count,
                },
            );
            i = i + 1;
        }
        MemoryReport {
            total_allocated: self.total_allocated,
            total_freed: self.total_freed,
            current_total: self.total_usage(),
            subsystems: entries,
        }
    }

    /// Set budget for a subsystem.
    pub fn set_budget(&mut self, subsystem: Subsystem, bytes: u64)
        requires
            old(self).wf(),
        ensures
            final(self).wf(),
            final(self).stats(subsystem) == (SubsystemStats { budget_bytes: bytes, ..old(self).stats(subsystem) }),
            forall|s: Subsystem| s != subsystem ==> #[trigger] final(self).stats(s) == old(self).stats(s),
            final(self).spec_total_allocated() == old(self).spec_total_allocated(),
            final(self).spec_total_freed() == old(self).spec_total_freed(),
    {
        let i = subsystem.slot();
        let mut stats = self.subsystems[i];
        stats.budget_bytes = bytes;
        self.subsystems.set(i, stats);
    }
}

impl SubsystemStats {
    pub open spec fn new_spec(budget: u64) -> SubsystemStats {
        SubsystemStats {
            current_bytes: 0,
            peak_bytes: 0,
            alloc_count: 0,
            free_count: 0,
            budget_bytes: budget,
        }
    }
}

impl Default for MemoryManager {
    fn default() -> (manager: Self)
        ensures
            manager.wf(),
            manager.spec_total_allocated() == 0,
            manager.spec_total_freed() == 0,
            forall|s: Subsystem| #[trigger] manager.stats(s) == SubsystemStats::new_spec(spec_default_budget(s)),
    {
        Self::new()
    }
}

/// Freeing what was allocated restores a subsystem's usage, whatever the
/// counters' wrap-around did in between.
pub proof fn lemma_free_undoes_alloc(current: u64, bytes: u64)
    ensures
        current.wrapping_add(bytes).wrapping_sub(bytes) == current,
{
    assert(current.wrapping_add(bytes).wrapping_sub(bytes) == current) by (bit_vector);
}

/// The documented default budgets of a fresh manager, in bytes: physics
/// 64 MiB, AI 32 MiB, world 128 MiB, graphics 512 MiB, audio 64 MiB, content
/// 256 MiB, streaming 128 MiB, ECS 64 MiB, other 32 MiB.
pub proof fn lemma_default_budgets()
    ensures
        spec_default_budget(Subsystem::Physics) == 64 * 1048576,
        spec_default_budget(Subsystem::AI) == 32 * 1048576,
        spec_default_budget(Subsystem::World) == 128 * 1048576,
        spec_default_budget(Subsystem::Graphics) == 512 * 1048576,
        spec_default_budget(Subsystem::Audio) == 64 * 1048576,
        spec_default_budget(Subsystem::Content) == 256 * 1048576,
        spec_default_budget(Subsystem::Streaming) == 134217728,
        spec_default_budget(Subsystem::ECS) == 64 * 1048576,
        spec_default_budget(Subsystem::Other) == 32 * 1048576,
{
}

} // verus!
