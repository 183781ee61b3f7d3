//! The supervisor's decisions: what is launched, whether the pre-flight core
//! allocation admits the run, and how the run's end becomes its result.

use std::time::Duration;
use vstd::prelude::*;
use crate::core_allocator::{
    allocation_result,
    cores_between,
    cores_in_range,
    has_core,
    cursor_after,
    names_on,
    CoreAffinityConfig,
    CoreAllocator,
};
use crate::error::{ShutdownError, ShutdownResult, TaskError, TaskErrorKind};
use crate::text::{decimal, push_decimal};

verus! {

/// Settings of one supervised run.
#[derive(Debug, Clone, Copy)]
pub struct TaskManagerConfig {
    /// How long to wait for executions to finish once shutdown has begun.
    pub shutdown_timeout: Duration,
    /// Whether termination signals of the platform start a shutdown.
    pub catch_signals: bool,
    /// Whether a failing execution makes the run fail and stops the others.
    pub shutdown_on_error: bool,
    /// Whether core allocation is checked before any execution starts.
    pub validate_core_allocation: bool,
}

pub const DEFAULT_SHUTDOWN_TIMEOUT_SECS: u64 = 30;

/// Relies on std::time::Duration::from_secs, to build a duration of whole
/// seconds.
#[verifier::external_body]
fn seconds(secs: u64) -> (r: Duration) {
    Duration::from_secs(secs)
}

impl Default for TaskManagerConfig {
    /// Thirty seconds to shut down; signals caught, failures propagated and
    /// core allocation checked.
    fn default() -> (r: Self)
        ensures
            r.catch_signals,
            r.shutdown_on_error,
            r.validate_core_allocation,
    {
        TaskManagerConfig {
            shutdown_timeout: seconds(DEFAULT_SHUTDOWN_TIMEOUT_SECS),
            catch_signals: true,
            shutdown_on_error: true,
            validate_core_allocation: true,
        }
    }
}

/// One execution to start: the name it runs under, its pinning request and,
/// for an instance of a worker group, its index in the group.
#[derive(Debug)]
pub struct Launch {
    pub name: String,
    pub affinity: CoreAffinityConfig,
    pub instance_index: Option<usize>,
}

/// A launch as the contracts see it.
pub type LaunchView = (Seq<char>, CoreAffinityConfig, Option<usize>);

impl View for Launch {
    type V = LaunchView;

    open spec fn view(&self) -> LaunchView {
        (self.name@, self.affinity, self.instance_index)
    }
}

/// A worker group: `instances` executions named `<name>-<i>` sharing one
/// pinning request.
#[derive(Debug)]
pub struct WorkerGroup {
    pub name: String,
    pub instances: usize,
    pub affinity: CoreAffinityConfig,
}

/// The name of instance `i` of the group `group`.
pub open spec fn instance_name(group: Seq<char>, i: nat) -> Seq<char> {
    group + "-"@ + decimal(i)
}

/// The launches of a group, instance by instance.
pub open spec fn group_launches(g: (Seq<char>, usize, CoreAffinityConfig)) -> Seq<LaunchView> {
    Seq::new(g.1 as nat, |i: int| (instance_name(g.0, i as nat), g.2, Some(i as usize)))
}

/// All launches of the groups, group by group.
pub open spec fn groups_launches(groups: Seq<(Seq<char>, usize, CoreAffinityConfig)>) -> Seq<
    LaunchView,
>
    decreases groups.len(),
{
    if groups.len() == 0 {
        Seq::empty()
    } else {
        groups_launches(groups.drop_last()) + group_launches(groups.last())
    }
}

/// The workers and worker groups registered for a run, in registration order.
#[derive(Debug)]
pub struct Registrations {
    singles: Vec<(String, CoreAffinityConfig)>,
    groups: Vec<WorkerGroup>,
}

/// The registrations as the contracts see them.
pub struct RegistrationsView {
    /// Single workers: name and pinning request.
    pub singles: Seq<(Seq<char>, CoreAffinityConfig)>,
    /// Worker groups: name, number of instances and pinning request.
    pub groups: Seq<(Seq<char>, usize, CoreAffinityConfig)>,
}

impl View for Registrations {
    type V = RegistrationsView;

    closed spec fn view(&self) -> RegistrationsView {
        RegistrationsView {
            singles: Seq::new(
                self.singles@.len(),
                |i: int| (self.singles@[i].0@, self.singles@[i].1),
            ),
            groups: Seq::new(
                self.groups@.len(),
                |i: int| (self.groups@[i].name@, self.groups@[i].instances, self.groups@[i].affinity),
            ),
        }
    }
}

impl RegistrationsView {
    /// Every execution of the run, in start order: single workers first, with
    /// no instance index, then each group's instances.
    pub open spec fn launches(self) -> Seq<LaunchView> {
        Seq::new(self.singles.len(), |i: int| (self.singles[i].0, self.singles[i].1, None))
            + groups_launches(self.groups)
    }
}

pub open spec fn launch_views(v: Seq<Launch>) -> Seq<LaunchView> {
    Seq::new(v.len(), |i: int| v[i]@)
}

/// The message with which the request of `l` fails over the cores
/// `available`, if it fails; whether it fails does not depend on the cursor.
pub open spec fn request_error(available: Seq<usize>, l: LaunchView) -> Option<Seq<char>> {
    match allocation_result(available, 0, l.0, l.1, l.2) {
        Err(m) => Some(m),
        Ok(_) => None,
    }
}

/// Whether a request fails, and with which message, does not depend on
/// the cursor.
pub proof fn lemma_failure_ignores_cursor(
    available: Seq<usize>,
    c1: nat,
    c2: nat,
    name: Seq<char>,
    affinity: CoreAffinityConfig,
    instance_index: Option<usize>,
)
    ensures
        allocation_result(available, c1, name, affinity, instance_index) is Err
            <==> allocation_result(available, c2, name, affinity, instance_index) is Err,
        allocation_result(available, c1, name, affinity, instance_index) is Err
            ==> allocation_result(available, c1, name, affinity, instance_index)
            == allocation_result(available, c2, name, affinity, instance_index),
{
}

/// The cursor after serving the requests of `ls` in order from `cursor`.
pub open spec fn cursor_through(available: Seq<usize>, cursor: nat, ls: Seq<LaunchView>) -> nat
    decreases ls.len(),
{
    if ls.len() == 0 {
        cursor
    } else {
        let l = ls.last();
        cursor_after(available, cursor_through(available, cursor, ls.drop_last()), l.1, l.2)
    }
}

/// The names, in order, of the requests of `ls` served with core `c` when
/// served in order from `cursor`.
pub open spec fn assigned_names(
    available: Seq<usize>,
    cursor: nat,
    ls: Seq<LaunchView>,
    c: usize,
) -> Seq<Seq<char>>
    decreases ls.len(),
{
    if ls.len() == 0 {
        Seq::empty()
    } else {
        let l = ls.last();
        let before = assigned_names(available, cursor, ls.drop_last(), c);
        let at = cursor_through(available, cursor, ls.drop_last());
        if allocation_result(available, at, l.0, l.1, l.2) == Ok::<Option<usize>, Seq<char>>(
            Some(c),
        ) {
            before.push(l.0)
        } else {
            before
        }
    }
}

/// The request at `k` is the first of `ls` that fails.
pub open spec fn first_failure_at(available: Seq<usize>, ls: Seq<LaunchView>, k: int) -> bool {
    &&& 0 <= k < ls.len()
    &&& request_error(available, ls[k]) is Some
    &&& forall|j: int| 0 <= j < k ==> request_error(available, #[trigger] ls[j]) is None
}

/// `r` is the outcome of the pre-flight pass of the requests of `ls` through
/// an allocator that starts in `start`.
pub open spec fn validation_outcome(
    start: crate::core_allocator::AllocatorView,
    ls: Seq<LaunchView>,
    r: Result<crate::core_allocator::AllocatorView, ShutdownError>,
) -> bool {
    match r {
        Ok(a) => {
            &&& forall|k: int| 0 <= k < ls.len() ==> request_error(start.available, #[trigger] ls[k]) is None
            &&& a.well_formed()
            &&& a.available == start.available
            &&& a.cursor == cursor_through(start.available, start.cursor, ls)
            &&& forall|c: usize|
                #[trigger] names_on(a.usage, c) == names_on(start.usage, c) + assigned_names(
                    start.available,
                    start.cursor,
                    ls,
                    c,
                )
        },
        Err(ShutdownError::InvalidCoreAllocation { message }) => exists|k: int|
            first_failure_at(start.available, ls, k) && request_error(start.available, ls[k])
                == Some(message@),
        Err(_) => false,
    }
}

pub open spec fn allocator_result_view(r: Result<CoreAllocator, ShutdownError>) -> Result<
    crate::core_allocator::AllocatorView,
    ShutdownError,
> {
    match r {
        Ok(a) => Ok(a@),
        Err(e) => Err(e),
    }
}

impl Registrations {
    pub fn new() -> (r: Self)
        ensures
            r@.singles.len() == 0,
            r@.groups.len() == 0,
    {
        Registrations { singles: Vec::new(), groups: Vec::new() }
    }

    /// Registers a single worker named `name`.
    pub fn register(&mut self, name: &str, affinity: CoreAffinityConfig)
        ensures
            final(self)@.singles == old(self)@.singles.push((name@, affinity)),
            final(self)@.groups == old(self)@.groups,
    {
        self.singles.push((String::from_str(name), affinity));
        assert(self@.singles =~= old(self)@.singles.push((name@, affinity)));
        assert(self@.groups =~= old(self)@.groups);
    }

    /// Registers a group of `instances` workers named `<name>-<i>`.
    pub fn register_group(&mut self, name: &str, instances: usize, affinity: CoreAffinityConfig)
        ensures
            final(self)@.singles == old(self)@.singles,
            final(self)@.groups == old(self)@.groups.push((name@, instances, affinity)),
    {
        self.groups.push(WorkerGroup { name: String::from_str(name), instances, affinity });
        assert(self@.singles =~= old(self)@.singles);
        assert(self@.groups =~= old(self)@.groups.push((name@, instances, affinity)));
    }

    /// Every execution of the run, in start order: single workers first,
    /// then each group's instances.
    pub fn launches(&self) -> (r: Vec<Launch>)
        ensures
            launch_views(r@) == self@.launches(),
    {
        let ghost v = self@;
        let ghost singles_part = Seq::new(
            v.singles.len(),
            |i: int| (v.singles[i].0, v.singles[i].1, None::<usize>),
        );
        let mut r: Vec<Launch> = Vec::new();
        let mut s: usize = 0;
        while s < self.singles.len()
            invariant
                v == self@,
                singles_part.len() == self.singles@.len(),
                forall|i: int|
                    0 <= i < self.singles@.len() ==> #[trigger] singles_part[i] == (
                        self.singles@[i].0@,
                        self.singles@[i].1,
                        None::<usize>,
                    ),
                s <= self.singles.len(),
                launch_views(r@) == singles_part.subrange(0, s as int),
            decreases self.singles.len() - s,
        {
            let ghost before = launch_views(r@);
            r.push(
                Launch {
                    name: self.singles[s].0.clone(),
                    affinity: self.singles[s].1,
                    instance_index: None,
                },
            );
            assert(launch_views(r@) =~= before.push(singles_part[s as int]));
            assert(singles_part.subrange(0, s + 1) =~= singles_part.subrange(0, s as int).push(
                singles_part[s as int],
            ));
            s = s + 1;
        }
        assert(singles_part.subrange(0, s as int) =~= singles_part);
        assert(groups_launches(v.groups.subrange(0, 0)) =~= Seq::<LaunchView>::empty());
        assert(launch_views(r@) =~= singles_part + groups_launches(v.groups.subrange(0, 0)));
        let mut g: usize = 0;
        while g < self.groups.len()
            invariant
                v == self@,
                g <= self.groups.len(),
                launch_views(r@) == singles_part + groups_launches(v.groups.subrange(0, g as int)),
            decreases self.groups.len() - g,
        {
            let group = &self.groups[g];
            let ghost gv = v.groups[g as int];
            assert(gv == (group.name@, group.instances, group.affinity));
            let ghost head = launch_views(r@);
            let mut i: usize = 0;
            while i < group.instances
                invariant
                    i <= group.instances,
                    gv == (group.name@, group.instances, group.affinity),
                    launch_views(r@) == head + group_launches(gv).subrange(0, i as int),
                decreases group.instances - i,
            {
                let ghost before = launch_views(r@);
                let mut name = group.name.clone();
                name.append("-");
                push_decimal(&mut name, i);
                r.push(Launch { name, affinity: group.affinity, instance_index: Some(i) });
                assert(launch_views(r@) =~= before.push(group_launches(gv)[i as int]));
                assert(group_launches(gv).subrange(0, i + 1) =~= group_launches(gv).subrange(
                    0,
                    i as int,
                ).push(group_launches(gv)[i as int]));
                i = i + 1;
            }
            assert(group_launches(gv).subrange(0, i as int) =~= group_launches(gv));
            assert(v.groups.subrange(0, g + 1).drop_last() =~= v.groups.subrange(0, g as int));
            assert(launch_views(r@) =~= singles_part + groups_launches(v.groups.subrange(0, g + 1)));
            g = g + 1;
        }
        assert(v.groups.subrange(0, g as int) =~= v.groups);
        r
    }

    /// The pre-flight pass: serves every launch's request through `allocator`,
    /// in start order, and stops at the first request that cannot be served.
    /// Cores shared by several executions are not an error here.
    pub fn validate_allocations(&self, allocator: CoreAllocator) -> (r: Result<
        CoreAllocator,
        ShutdownError,
    >)
        ensures
            validation_outcome(allocator@, self@.launches(), allocator_result_view(r)),
    {
        let launches = self.launches();
        validate_launches(&launches, allocator)
    }
}

/// Serves the requests of `launches` in order through `allocator`.
pub fn validate_launches(launches: &Vec<Launch>, allocator: CoreAllocator) -> (r: Result<
    CoreAllocator,
    ShutdownError,
>)
    ensures
        validation_outcome(allocator@, launch_views(launches@), allocator_result_view(r)),
{
    let ghost start = allocator@;
    let ghost ls = launch_views(launches@);
    let mut current = allocator;
    let mut k: usize = 0;
    while k < launches.len()
        invariant
            k <= launches.len(),
            start == allocator@,
            ls == launch_views(launches@),
            current@.available == start.available,
            current@.cursor == cursor_through(start.available, start.cursor, ls.subrange(0, k as int)),
            forall|j: int| 0 <= j < k ==> request_error(start.available, #[trigger] ls[j]) is None,
            forall|c: usize|
                #[trigger] names_on(current@.usage, c) == names_on(start.usage, c) + assigned_names(
                    start.available,
                    start.cursor,
                    ls.subrange(0, k as int),
                    c,
                ),
        decreases launches.len() - k,
    {
        let l = &launches[k];
        let ghost before = current@;
        let ghost prefix = ls.subrange(0, k as int);
        let ghost next = ls.subrange(0, k + 1);
        assert(next.drop_last() =~= prefix);
        assert(next.last() == ls[k as int]);
        match current.allocate(l.name.as_str(), &l.affinity, l.instance_index) {
            Err(message) => {
                proof {
                    lemma_failure_ignores_cursor(
                        start.available,
                        before.cursor,
                        0,
                        ls[k as int].0,
                        ls[k as int].1,
                        ls[k as int].2,
                    );
                }
                let ghost m = message@;
                assert(request_error(start.available, ls[k as int]) == Some(m));
                let r = Err(ShutdownError::invalid_core_allocation(message));
                assert(first_failure_at(start.available, ls, k as int));
                assert(validation_outcome(start, ls, allocator_result_view(r)));
                return r;
            },
            Ok(core) => {
                proof {
                    lemma_failure_ignores_cursor(
                        start.available,
                        before.cursor,
                        0,
                        ls[k as int].0,
                        ls[k as int].1,
                        ls[k as int].2,
                    );
                    assert forall|c: usize|
                        #[trigger] names_on(current@.usage, c) == names_on(start.usage, c)
                            + assigned_names(start.available, start.cursor, next, c) by {
                        let prev = assigned_names(start.available, start.cursor, prefix, c);
                        match core {
                            Some(x) => {
                                if x == c {
                                    assert(names_on(start.usage, c) + prev.push(ls[k as int].0)
                                        =~= (names_on(start.usage, c) + prev).push(ls[k as int].0));
                                }
                            },
                            None => {},
                        }
                    }
                }
            },
        }
        k = k + 1;
    }
    assert(ls.subrange(0, k as int) =~= ls);
    current.note_well_formed();
    Ok(current)
}

/// What a run starts with once the pre-flight pass admitted it: the
/// executions to start and, where core allocation was checked, the
/// allocator that holds the planned assignments.
pub struct RunPlan {
    pub launches: Vec<Launch>,
    pub allocator: Option<CoreAllocator>,
}

impl Registrations {
    /// Decides whether the run may start. With core allocation checked, a
    /// request that cannot be served aborts the run before any execution
    /// starts; otherwise every launch is started.
    pub fn plan(&self, config: &TaskManagerConfig, allocator: CoreAllocator) -> (r: Result<
        RunPlan,
        ShutdownError,
    >)
        ensures
            match r {
                Ok(p) => {
                    &&& launch_views(p.launches@) == self@.launches()
                    &&& config.validate_core_allocation ==> p.allocator is Some
                        && validation_outcome(
                        allocator@,
                        self@.launches(),
                        Ok(p.allocator->0@),
                    )
                    &&& !config.validate_core_allocation ==> p.allocator is None
                },
                Err(e) => {
                    &&& config.validate_core_allocation
                    &&& validation_outcome(allocator@, self@.launches(), Err(e))
                },
            },
    {
        if config.validate_core_allocation {
            match self.validate_allocations(allocator) {
                Ok(a) => Ok(RunPlan { launches: self.launches(), allocator: Some(a) }),
                Err(e) => Err(e),
            }
        } else {
            Ok(RunPlan { launches: self.launches(), allocator: None })
        }
    }
}

/// How an execution pins itself before its main routine runs.
#[derive(Debug, Clone, Copy, PartialEq, Eq, Structural)]
pub enum PinDecision {
    /// No pinning: none was asked for, or the platform reports no cores.
    Leave,
    /// Pin the carrying thread to this core.
    Pin(usize),
    /// The request names no reported core; the execution runs unpinned.
    Unservable,
}

/// The pinning of an execution over the cores `cores` the platform reports.
/// Instances of `Auto` groups take the core at their index, round-robin.
pub open spec fn pin_decision_of(
    cores: Seq<usize>,
    affinity: CoreAffinityConfig,
    instance_index: Option<usize>,
) -> PinDecision {
    if cores.len() == 0 {
        PinDecision::Leave
    } else {
        match affinity {
            CoreAffinityConfig::Unpinned => PinDecision::Leave,
            CoreAffinityConfig::Fixed(id) => {
                if cores.contains(id) {
                    PinDecision::Pin(id)
                } else {
                    PinDecision::Unservable
                }
            },
            CoreAffinityConfig::Range { start, end } => {
                let range = cores_in_range(cores, start, end);
                if range.len() == 0 {
                    PinDecision::Unservable
                } else {
                    match instance_index {
                        Some(i) => PinDecision::Pin(range[(i as int) % (range.len() as int)]),
                        None => PinDecision::Pin(range[0]),
                    }
                }
            },
            CoreAffinityConfig::Auto => {
                match instance_index {
                    Some(i) => PinDecision::Pin(cores[(i as int) % (cores.len() as int)]),
                    None => PinDecision::Unservable,
                }
            },
        }
    }
}

/// Decides the pinning of an execution from the cores the platform reports.
pub fn pin_decision(
    cores: &Vec<usize>,
    affinity: &CoreAffinityConfig,
    instance_index: Option<usize>,
) -> (r: PinDecision)
    ensures
        r == pin_decision_of(cores@, *affinity, instance_index),
{
    if cores.len() == 0 {
        return PinDecision::Leave;
    }
    match affinity {
        CoreAffinityConfig::Unpinned => PinDecision::Leave,
        CoreAffinityConfig::Fixed(id) => {
            if has_core(cores, *id) {
                PinDecision::Pin(*id)
            } else {
                PinDecision::Unservable
            }
        },
        CoreAffinityConfig::Range { start, end } => {
            let range = cores_between(cores, *start, *end);
            if range.len() == 0 {
                PinDecision::Unservable
            } else {
                match instance_index {
                    Some(i) => PinDecision::Pin(range[i % range.len()]),
                    None => PinDecision::Pin(range[0]),
                }
            }
        },
        CoreAffinityConfig::Auto => {
            match instance_index {
                Some(i) => PinDecision::Pin(cores[i % cores.len()]),
                None => PinDecision::Unservable,
            }
        },
    }
}

/// How the runtime reported the end of a run.
#[derive(Debug)]
pub enum RunEnd {
    /// Every execution finished in time and none propagated a failure.
    Finished,
    /// The shutdown deadline passed with executions still running.
    DeadlineExceeded,
    /// Executions propagated failures: the errors they reported, in the
    /// order the runtime collected them.
    Failed(Vec<TaskError>),
}

/// The result of a run from the way it ended.
pub fn run_result(config: &TaskManagerConfig, end: RunEnd) -> (r: ShutdownResult<()>)
    ensures
        match end {
            RunEnd::Finished => r is Ok,
            RunEnd::DeadlineExceeded => r == Err::<(), ShutdownError>(
                ShutdownError::Timeout { timeout: config.shutdown_timeout },
            ),
            RunEnd::Failed(fs) => r == Err::<(), ShutdownError>(
                ShutdownError::SubsystemsFailed { failures: fs },
            ),
        },
{
    match end {
        RunEnd::Finished => Ok(()),
        RunEnd::DeadlineExceeded => Err(ShutdownError::timeout(config.shutdown_timeout)),
        RunEnd::Failed(fs) => Err(ShutdownError::subsystems_failed(fs)),
    }
}

} // verus!
