//! Assignment of CPU cores to named workers.
//!
//! The allocator keeps the cores the platform offers, a log of every
//! assignment grouped by core (conflicting ones as well), and the position
//! of the round-robin cursor used by `Auto` requests.

use vstd::prelude::*;
use crate::text::{
    decimal,
    list_text,
    names_text,
    push_decimal,
    push_list,
    push_names,
};

verus! {

/// How a worker, or each instance of a worker group, asks to be pinned.
#[derive(Debug, Clone, Copy, PartialEq, Eq, Structural)]
pub enum CoreAffinityConfig {
    /// No pinning: the operating system schedules freely.
    Unpinned,
    /// Pin to the core with this id.
    Fixed(usize),
    /// Pin to a core whose id lies in `start..=end`.
    Range { start: usize, end: usize },
    /// Pick cores round-robin over all available cores.
    Auto,
}

/// The abstract state of a [`CoreAllocator`].
pub struct AllocatorView {
    /// Core ids offered by the platform, in the order it reported them.
    pub available: Seq<usize>,
    /// One entry per core that received an assignment, by ascending core id,
    /// with the names assigned to it in assignment order.
    pub usage: Seq<(usize, Seq<Seq<char>>)>,
    /// How many `Auto` requests were served so far: a cursor that only
    /// grows. The next `Auto` request gets the available core at this count
    /// modulo the number of available cores.
    pub cursor: nat,
}

/// Entries ordered by strictly ascending core id.
pub open spec fn usage_sorted(usage: Seq<(usize, Seq<Seq<char>>)>) -> bool {
    forall|i: int, j: int| 0 <= i < j < usage.len() ==> usage[i].0 < usage[j].0
}

impl AllocatorView {
    pub open spec fn well_formed(self) -> bool {
        &&& usage_sorted(self.usage)
        &&& forall|i: int| 0 <= i < self.usage.len() ==> #[trigger] self.usage[i].1.len() > 0
        &&& forall|i: int|
            0 <= i < self.usage.len() ==> self.available.contains(#[trigger] self.usage[i].0)
    }
}

/// The names assigned to `core` so far, in assignment order.
pub open spec fn names_on(usage: Seq<(usize, Seq<Seq<char>>)>, core: usize) -> Seq<Seq<char>> {
    if exists|i: int| 0 <= i < usage.len() && usage[i].0 == core {
        usage[choose|i: int| 0 <= i < usage.len() && usage[i].0 == core].1
    } else {
        Seq::empty()
    }
}

/// `after` is `before` with `name` added to the end of the names of `core`.
pub open spec fn records(
    before: Seq<(usize, Seq<Seq<char>>)>,
    after: Seq<(usize, Seq<Seq<char>>)>,
    core: usize,
    name: Seq<char>,
) -> bool {
    &&& usage_sorted(after)
    &&& forall|i: int| 0 <= i < after.len() ==> #[trigger] after[i].1.len() > 0
    &&& forall|c: usize|
        #[trigger] names_on(after, c) == if c == core {
            names_on(before, c).push(name)
        } else {
            names_on(before, c)
        }
}

/// The available cores whose id lies in `start..=end`, in available order.
pub open spec fn cores_in_range(available: Seq<usize>, start: usize, end: usize) -> Seq<usize> {
    available.filter(|c: usize| start <= c && c <= end)
}

pub open spec fn unavailable_core_text(name: Seq<char>, id: usize, available: Seq<usize>) -> Seq<
    char,
> {
    "Core "@ + decimal(id as nat) + " requested by task '"@ + name
        + "' is not available. Available cores: "@ + list_text(available)
}

pub open spec fn empty_range_text(
    name: Seq<char>,
    start: usize,
    end: usize,
    available: Seq<usize>,
) -> Seq<char> {
    "No cores available in range "@ + decimal(start as nat) + "-"@ + decimal(end as nat)
        + " for task '"@ + name + "'. Available cores: "@ + list_text(available)
}

pub open spec fn auto_single_text(name: Seq<char>) -> Seq<char> {
    "Auto affinity not supported for single instance task '"@ + name
        + "'. Use Fixed or Range instead."@
}

/// The core an `Auto` request gets with the cursor at `cursor`.
pub open spec fn auto_pick(available: Seq<usize>, cursor: nat) -> usize {
    available[(cursor % available.len()) as int]
}

/// What `allocate(name, affinity, instance_index)` returns over the cores
/// `available`, with the round-robin cursor at `cursor`. The names recorded
/// so far play no part.
pub open spec fn allocation_result(
    available: Seq<usize>,
    cursor: nat,
    name: Seq<char>,
    affinity: CoreAffinityConfig,
    instance_index: Option<usize>,
) -> Result<Option<usize>, Seq<char>> {
    if available.len() == 0 {
        Ok(None)
    } else {
        match affinity {
            CoreAffinityConfig::Unpinned => Ok(None),
            CoreAffinityConfig::Fixed(id) => {
                if available.contains(id) {
                    Ok(Some(id))
                } else {
                    Err(unavailable_core_text(name, id, available))
                }
            },
            CoreAffinityConfig::Range { start, end } => {
                let range = cores_in_range(available, start, end);
                if range.len() == 0 {
                    Err(empty_range_text(name, start, end, available))
                } else {
                    match instance_index {
                        Some(i) => Ok(Some(range[(i as int) % (range.len() as int)])),
                        None => Ok(Some(range[0])),
                    }
                }
            },
            CoreAffinityConfig::Auto => {
                match instance_index {
                    Some(_) => Ok(Some(auto_pick(available, cursor))),
                    None => Err(auto_single_text(name)),
                }
            },
        }
    }
}

/// The cursor after `allocate(_, affinity, instance_index)`: it grows by
/// one exactly when an `Auto` request is served.
pub open spec fn cursor_after(
    available: Seq<usize>,
    cursor: nat,
    affinity: CoreAffinityConfig,
    instance_index: Option<usize>,
) -> nat {
    if available.len() > 0 && affinity is Auto && instance_index is Some {
        cursor + 1
    } else {
        cursor
    }
}

pub open spec fn result_view(r: Result<Option<usize>, String>) -> Result<Option<usize>, Seq<char>> {
    match r {
        Ok(c) => Ok(c),
        Err(m) => Err(m@),
    }
}

/// The lines listing `names` in a report, one per name.
pub open spec fn name_lines(names: Seq<Seq<char>>) -> Seq<char>
    decreases names.len(),
{
    if names.len() == 0 {
        Seq::empty()
    } else {
        name_lines(names.drop_last()) + "    - "@ + names.last() + "\n"@
    }
}

/// The part of a report about one core.
pub open spec fn entry_text(e: (usize, Seq<Seq<char>>)) -> Seq<char> {
    "  Core "@ + decimal(e.0 as nat) + ": "@ + decimal(e.1.len()) + " task(s)\n"@ + name_lines(e.1)
}

pub open spec fn entries_text(usage: Seq<(usize, Seq<Seq<char>>)>) -> Seq<char>
    decreases usage.len(),
{
    if usage.len() == 0 {
        Seq::empty()
    } else {
        entries_text(usage.drop_last()) + entry_text(usage.last())
    }
}

/// The human-readable summary of the assignments, core by core.
pub open spec fn report_text(usage: Seq<(usize, Seq<Seq<char>>)>) -> Seq<char> {
    if usage.len() == 0 {
        "No core allocations made"@
    } else {
        "Core Allocation Report:\n"@ + entries_text(usage)
    }
}

/// The entries of cores that received two names or more.
pub open spec fn conflict_entries(usage: Seq<(usize, Seq<Seq<char>>)>) -> Seq<
    (usize, Seq<Seq<char>>),
> {
    usage.filter(|e: (usize, Seq<Seq<char>>)| e.1.len() >= 2)
}

/// The warning for one shared core.
pub open spec fn conflict_text(e: (usize, Seq<Seq<char>>)) -> Seq<char> {
    "Core "@ + decimal(e.0 as nat) + " conflict: "@ + decimal(e.1.len())
        + " tasks pinned to same core: "@ + names_text(e.1)
}

/// The round-robin position of `Auto` requests.
struct AutoCursor {
    /// Index into `available_cores` of the next core for `Auto`.
    next: usize,
    /// How many `Auto` requests were served so far.
    served: Ghost<nat>,
}

/// Assigns CPU cores to workers and records every assignment.
pub struct CoreAllocator {
    /// One entry per used core, with the task names in assignment order.
    /// A vector kept sorted by core id, rather than a hash map, so that the
    /// conflicts and the report come out in a fixed order: ascending core id.
    core_usage: Vec<(usize, Vec<String>)>,
    /// Cores available for use.
    available_cores: Vec<usize>,
    /// Where the next `Auto` request is served.
    auto_cursor: AutoCursor,
}

impl View for CoreAllocator {
    type V = AllocatorView;

    closed spec fn view(&self) -> AllocatorView {
        AllocatorView {
            available: self.available_cores@,
            usage: self.core_usage.deep_view(),
            cursor: self.auto_cursor.served@,
        }
    }
}

/// Relies on core_affinity::get_core_ids: the ids of the cores this process
/// may run on, or `None` where the platform does not report them. Which ids
/// come depends on the machine; every platform lists them in strictly
/// ascending order, as it scans its core mask or counts its cores upwards.
#[verifier::external_body]
fn platform_core_ids() -> (r: Option<Vec<usize>>)
    ensures
        match r {
            Some(ids) => forall|i: int, j: int| 0 <= i < j < ids@.len() ==> ids@[i] < ids@[j],
            None => true,
        },
{
    core_affinity::get_core_ids().map(|cores| cores.iter().map(|c| c.id).collect())
}

pub(crate) fn has_core(cores: &Vec<usize>, id: usize) -> (r: bool)
    ensures
        r == cores@.contains(id),
{
    let mut i: usize = 0;
    while i < cores.len()
        invariant
            i <= cores.len(),
            forall|k: int| 0 <= k < i ==> cores@[k] != id,
        decreases cores.len() - i,
    {
        if cores[i] == id {
            assert(cores@[i as int] == id);
            return true;
        }
        i = i + 1;
    }
    false
}

pub(crate) fn cores_between(cores: &Vec<usize>, start: usize, end: usize) -> (r: Vec<usize>)
    ensures
        r@ == cores_in_range(cores@, start, end),
{
    let mut r: Vec<usize> = Vec::new();
    let mut i: usize = 0;
    while i < cores.len()
        invariant
            i <= cores.len(),
            r@ == cores_in_range(cores@.subrange(0, i as int), start, end),
        decreases cores.len() - i,
    {
        proof {
            reveal(Seq::filter);
            assert(cores@.subrange(0, i + 1).drop_last() =~= cores@.subrange(0, i as int));
        }
        if start <= cores[i] && cores[i] <= end {
            r.push(cores[i]);
        }
        i = i + 1;
    }
    assert(cores@.subrange(0, cores@.len() as int) =~= cores@);
    r
}

fn unavailable_core_message(task_name: &str, id: usize, available: &Vec<usize>) -> (r: String)
    ensures
        r@ == unavailable_core_text(task_name@, id, available@),
{
    let mut m = String::from_str("Core ");
    push_decimal(&mut m, id);
    m.append(" requested by task '");
    m.append(task_name);
    m.append("' is not available. Available cores: ");
    push_list(&mut m, available);
    m
}

fn empty_range_message(task_name: &str, start: usize, end: usize, available: &Vec<usize>) -> (r:
    String)
    ensures
        r@ == empty_range_text(task_name@, start, end, available@),
{
    let mut m = String::from_str("No cores available in range ");
    push_decimal(&mut m, start);
    m.append("-");
    push_decimal(&mut m, end);
    m.append(" for task '");
    m.append(task_name);
    m.append("'. Available cores: ");
    push_list(&mut m, available);
    m
}

fn auto_single_message(task_name: &str) -> (r: String)
    ensures
        r@ == auto_single_text(task_name@),
{
    let mut m = String::from_str("Auto affinity not supported for single instance task '");
    m.append(task_name);
    m.append("'. Use Fixed or Range instead.");
    m
}

/// With ascending core ids, the entry at `i` holds the names of its core.
pub proof fn lemma_names_on_entry(usage: Seq<(usize, Seq<Seq<char>>)>, i: int)
    requires
        usage_sorted(usage),
        0 <= i < usage.len(),
    ensures
        names_on(usage, usage[i].0) == usage[i].1,
{
    let c = usage[i].0;
    assert(exists|k: int| 0 <= k < usage.len() && usage[k].0 == c);
    let k = choose|k: int| 0 <= k < usage.len() && usage[k].0 == c;
    if k < i {
        assert(usage[k].0 < usage[i].0);
    } else if i < k {
        assert(usage[i].0 < usage[k].0);
    }
}

/// A core with no entry has no names.
pub proof fn lemma_names_on_absent(usage: Seq<(usize, Seq<Seq<char>>)>, c: usize)
    requires
        forall|i: int| 0 <= i < usage.len() ==> usage[i].0 != c,
    ensures
        names_on(usage, c) == Seq::<Seq<char>>::empty(),
{
}

impl CoreAllocator {
    #[verifier::type_invariant]
    spec fn inv(self) -> bool {
        &&& self@.well_formed()
        &&& if self.available_cores@.len() == 0 {
            self.auto_cursor.next == 0
        } else {
            self.auto_cursor.next == self.auto_cursor.served@ % (self.available_cores@.len() as nat)
        }
    }

    /// Makes the invariant of an allocator known outside this module.
    pub(crate) fn note_well_formed(&self)
        ensures
            self@.well_formed(),
    {
        proof {
            use_type_invariant(self);
        }
    }

    /// An allocator over the cores this process may run on; where the
    /// platform reports none, every request degrades to "no pinning".
    pub fn new() -> (r: Self)
        ensures
            r@.usage.len() == 0,
            r@.cursor == 0,
            r@.well_formed(),
            forall|i: int, j: int|
                0 <= i < j < r@.available.len() ==> r@.available[i] < r@.available[j],
            r@.available.no_duplicates(),
    {
        let cores = match platform_core_ids() {
            Some(ids) => ids,
            None => Vec::new(),
        };
        Self::from_cores(cores)
    }

    /// An allocator over the given core ids, with no assignment made.
    pub fn from_cores(available_cores: Vec<usize>) -> (r: Self)
        ensures
            r@.available == available_cores@,
            r@.usage.len() == 0,
            r@.cursor == 0,
            r@.well_formed(),
    {
        let r = CoreAllocator {
            core_usage: Vec::new(),
            available_cores,
            auto_cursor: AutoCursor { next: 0, served: Ghost(0) },
        };
        assert(r@.usage =~= Seq::<(usize, Seq<Seq<char>>)>::empty());
        r
    }

    /// Adds `task_name` to the end of the names recorded for `core_id`.
    fn record(&mut self, core_id: usize, task_name: &str)
        requires
            old(self)@.available.contains(core_id),
        ensures
            final(self)@.available == old(self)@.available,
            final(self)@.cursor == old(self)@.cursor,
            records(old(self)@.usage, final(self)@.usage, core_id, task_name@),
    {
        proof {
            use_type_invariant(&*self);
        }
        let ghost before = self@.usage;
        let mut usage: Vec<(usize, Vec<String>)> = Vec::new();
        std::mem::swap(&mut usage, &mut self.core_usage);
        assert(usage.deep_view() == before);
        let mut i: usize = 0;
        while i < usage.len() && usage[i].0 < core_id
            invariant
                i <= usage.len(),
                usage.deep_view() == before,
                forall|k: int| 0 <= k < i ==> before[k].0 < core_id,
            decreases usage.len() - i,
        {
            i = i + 1;
        }
        if i < usage.len() && usage[i].0 == core_id {
            let ghost v0 = usage@;
            let (c, mut names) = usage.remove(i);
            let ghost n0 = names.deep_view();
            assert(n0 == before[i as int].1);
            names.push(String::from_str(task_name));
            assert(names.deep_view() =~= n0.push(task_name@));
            usage.insert(i, (c, names));
            proof {
                let after = usage.deep_view();
                assert(usage@ =~= v0.update(i as int, (c, names)));
                assert(after =~= before.update(i as int, (core_id, before[i as int].1.push(task_name@))));
                assert forall|c: usize|
                    #[trigger] names_on(after, c) == if c == core_id {
                        names_on(before, c).push(task_name@)
                    } else {
                        names_on(before, c)
                    } by {
                    if exists|k: int| 0 <= k < before.len() && before[k].0 == c {
                        let k = choose|k: int| 0 <= k < before.len() && before[k].0 == c;
                        lemma_names_on_entry(before, k);
                        lemma_names_on_entry(after, k);
                        if c == core_id {
                            if k < i {
                                assert(before[k].0 < before[i as int].0);
                            } else if i < k {
                                assert(before[i as int].0 < before[k].0);
                            }
                        }
                    } else {
                        lemma_names_on_absent(before, c);
                        lemma_names_on_absent(after, c);
                    }
                }
            }
        } else {
            let ghost v0 = usage@;
            let mut names: Vec<String> = Vec::new();
            names.push(String::from_str(task_name));
            assert(names.deep_view() =~= seq![task_name@]);
            usage.insert(i, (core_id, names));
            proof {
                assert(usage@ =~= v0.insert(i as int, (core_id, names)));
                let after = usage.deep_view();
                assert(after =~= before.insert(i as int, (core_id, seq![task_name@])));
                assert forall|k: int| i <= k < before.len() implies core_id < before[k].0 by {
                    if i < k {
                        assert(before[i as int].0 < before[k].0);
                    }
                }
                assert forall|c: usize|
                    #[trigger] names_on(after, c) == if c == core_id {
                        names_on(before, c).push(task_name@)
                    } else {
                        names_on(before, c)
                    } by {
                    if c == core_id {
                        lemma_names_on_absent(before, c);
                        lemma_names_on_entry(after, i as int);
                        assert(seq![task_name@] =~= Seq::<Seq<char>>::empty().push(task_name@));
                    } else if exists|k: int| 0 <= k < before.len() && before[k].0 == c {
                        let k = choose|k: int| 0 <= k < before.len() && before[k].0 == c;
                        lemma_names_on_entry(before, k);
                        if k < i {
                            lemma_names_on_entry(after, k);
                        } else {
                            lemma_names_on_entry(after, k + 1);
                        }
                    } else {
                        lemma_names_on_absent(before, c);
                        lemma_names_on_absent(after, c);
                    }
                }
            }
        }
        self.core_usage = usage;
    }
}

impl CoreAllocator {
    /// Serves one pinning request for `task_name` and records the core it
    /// gets. `instance_index` is the instance's index within its worker group,
    /// `None` for a single worker.
    pub fn allocate(
        &mut self,
        task_name: &str,
        affinity: &CoreAffinityConfig,
        instance_index: Option<usize>,
    ) -> (r: Result<Option<usize>, String>)
        ensures
            result_view(r) == allocation_result(
                old(self)@.available,
                old(self)@.cursor,
                task_name@,
                *affinity,
                instance_index,
            ),
            final(self)@.available == old(self)@.available,
            final(self)@.cursor == cursor_after(
                old(self)@.available,
                old(self)@.cursor,
                *affinity,
                instance_index,
            ),
            final(self)@.well_formed(),
            match r {
                Ok(Some(core)) => records(old(self)@.usage, final(self)@.usage, core, task_name@),
                _ => final(self)@.usage == old(self)@.usage,
            },
    {
        proof {
            use_type_invariant(&*self);
        }
        if self.available_cores.len() == 0 {
            return Ok(None);
        }
        let core_id: usize = match affinity {
            CoreAffinityConfig::Unpinned => {
                return Ok(None);
            },
            CoreAffinityConfig::Fixed(id) => {
                if !has_core(&self.available_cores, *id) {
                    return Err(unavailable_core_message(task_name, *id, &self.available_cores));
                }
                *id
            },
            CoreAffinityConfig::Range { start, end } => {
                let range = cores_between(&self.available_cores, *start, *end);
                if range.len() == 0 {
                    return Err(empty_range_message(task_name, *start, *end, &self.available_cores));
                }
                proof {
                    let pred = |c: usize| *start <= c && c <= *end;
                    assert forall|k: int| 0 <= k < range@.len() implies self@.available.contains(
                        #[trigger] range@[k],
                    ) by {
                        assert(range@.contains(range@[k]));
                        self@.available.lemma_filter_contains_rev(pred, range@[k]);
                    }
                }
                match instance_index {
                    Some(i) => range[i % range.len()],
                    None => range[0],
                }
            },
            CoreAffinityConfig::Auto => {
                if instance_index.is_none() {
                    return Err(auto_single_message(task_name));
                }
                let n = self.available_cores.len();
                let next = self.auto_cursor.next;
                let core_id = self.available_cores[next];
                let ghost served = self.auto_cursor.served@;
                proof {
                    vstd::arithmetic::div_mod::lemma_add_mod_noop_right(1, served as int, n as int);
                }
                self.auto_cursor = AutoCursor { next: (next + 1) % n, served: Ghost(served + 1) };
                core_id
            },
        };
        self.record(core_id, task_name);
        proof {
            use_type_invariant(&*self);
        }
        Ok(Some(core_id))
    }
}

impl CoreAllocator {
    /// A summary of the assignments made so far, by ascending core id.
    pub fn get_allocation_report(&self) -> (r: String)
        ensures
            r@ == report_text(self@.usage),
    {
        if self.core_usage.len() == 0 {
            return String::from_str("No core allocations made");
        }
        let ghost usage = self@.usage;
        let mut report = String::from_str("Core Allocation Report:\n");
        let ghost head = report@;
        let mut i: usize = 0;
        while i < self.core_usage.len()
            invariant
                i <= self.core_usage.len(),
                usage == self@.usage,
                report@ == head + entries_text(usage.subrange(0, i as int)),
            decreases self.core_usage.len() - i,
        {
            let ghost before = report@;
            let core_id = self.core_usage[i].0;
            let names = &self.core_usage[i].1;
            report.append("  Core ");
            push_decimal(&mut report, core_id);
            report.append(": ");
            push_decimal(&mut report, names.len());
            report.append(" task(s)\n");
            let ghost lines_start = report@;
            let mut j: usize = 0;
            while j < names.len()
                invariant
                    j <= names.len(),
                    report@ == lines_start + name_lines(names.deep_view().subrange(0, j as int)),
                decreases names.len() - j,
            {
                report.append("    - ");
                report.append(names[j].as_str());
                report.append("\n");
                assert(names.deep_view().subrange(0, j + 1).drop_last() =~= names.deep_view().subrange(
                    0,
                    j as int,
                ));
                j = j + 1;
            }
            proof {
                assert(names.deep_view().subrange(0, names@.len() as int) =~= names.deep_view());
                assert(usage[i as int] == (core_id, names.deep_view()));
                assert(usage.subrange(0, i + 1).drop_last() =~= usage.subrange(0, i as int));
                assert(report@ =~= before + entry_text(usage[i as int]));
            }
            i = i + 1;
        }
        assert(usage.subrange(0, usage.len() as int) =~= usage);
        report
    }

    /// Every core that received two names or more, with all its names in
    /// assignment order, by ascending core id.
    pub fn get_conflicts(&self) -> (r: Vec<(usize, Vec<String>)>)
        ensures
            r.deep_view() == conflict_entries(self@.usage),
    {
        let ghost usage = self@.usage;
        let mut r: Vec<(usize, Vec<String>)> = Vec::new();
        let mut i: usize = 0;
        while i < self.core_usage.len()
            invariant
                i <= self.core_usage.len(),
                usage == self@.usage,
                r.deep_view() == conflict_entries(usage.subrange(0, i as int)),
            decreases self.core_usage.len() - i,
        {
            proof {
                reveal(Seq::filter);
                assert(usage.subrange(0, i + 1).drop_last() =~= usage.subrange(0, i as int));
            }
            if self.core_usage[i].1.len() > 1 {
                let ghost r0 = r.deep_view();
                let names = self.core_usage[i].1.clone();
                assert(names.deep_view() == self.core_usage[i as int].1.deep_view());
                r.push((self.core_usage[i].0, names));
                assert(r.deep_view() =~= r0.push(usage[i as int]));
            }
            i = i + 1;
        }
        assert(usage.subrange(0, usage.len() as int) =~= usage);
        r
    }

    /// The conflicts as warnings, one per shared core. A conflict is advice:
    /// sharing a core costs performance, it does not make a plan invalid.
    pub fn validate(&self) -> (r: Result<(), Vec<String>>)
        ensures
            match r {
                Ok(()) => conflict_entries(self@.usage).len() == 0,
                Err(msgs) => {
                    &&& conflict_entries(self@.usage).len() > 0
                    &&& msgs.deep_view() == conflict_entries(self@.usage).map_values(
                        |e: (usize, Seq<Seq<char>>)| conflict_text(e),
                    )
                },
            },
    {
        let conflicts = self.get_conflicts();
        if conflicts.len() == 0 {
            return Ok(());
        }
        let ghost cv = conflicts.deep_view();
        let mut errors: Vec<String> = Vec::new();
        let mut i: usize = 0;
        while i < conflicts.len()
            invariant
                i <= conflicts.len(),
                cv == conflicts.deep_view(),
                errors.deep_view() == cv.subrange(0, i as int).map_values(
                    |e: (usize, Seq<Seq<char>>)| conflict_text(e),
                ),
            decreases conflicts.len() - i,
        {
            let ghost e0 = errors.deep_view();
            let names = &conflicts[i].1;
            let mut m = String::from_str("Core ");
            push_decimal(&mut m, conflicts[i].0);
            m.append(" conflict: ");
            push_decimal(&mut m, names.len());
            m.append(" tasks pinned to same core: ");
            push_names(&mut m, names);
            assert(cv[i as int] == (conflicts[i as int].0, names.deep_view()));
            assert(m@ =~= conflict_text(cv[i as int]));
            errors.push(m);
            assert(errors.deep_view() =~= e0.push(conflict_text(cv[i as int])));
            assert(errors.deep_view() =~= cv.subrange(0, i + 1).map_values(
                |e: (usize, Seq<Seq<char>>)| conflict_text(e),
            ));
            i = i + 1;
        }
        assert(cv.subrange(0, cv.len() as int) =~= cv);
        Err(errors)
    }
}

impl Default for CoreAllocator {
    fn default() -> (r: Self)
        ensures
            r@.usage.len() == 0,
            r@.cursor == 0,
            r@.well_formed(),
            r@.available.no_duplicates(),
    {
        Self::new()
    }
}

} // verus!
