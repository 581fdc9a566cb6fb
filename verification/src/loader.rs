use vstd::prelude::*;

use crate::errors::HostError;
use crate::host::copy_bytes;
use crate::host::request_triple;
use crate::host::request_triple_x86;
use crate::host::SboxHost;
use crate::host::SboxHostX86;

verus! {

/// ".Addon", appended to a candidate's file stem to name the managed class
/// that holds its entry point, as bytes.
pub open spec fn addon_suffix() -> Seq<u8> {
    seq![46u8, 65u8, 100u8, 100u8, 111u8, 110u8]
}

/// "Main", the fixed name of the managed entry-point method, as bytes.
pub open spec fn main_method() -> Seq<u8> {
    seq![77u8, 97u8, 105u8, 110u8]
}

/// A directory entry is a candidate component iff its name is a nonempty stem
/// followed by ".dll".
pub open spec fn is_candidate_spec(name: Seq<u8>) -> bool {
    &&& name.len() >= 5
    &&& name[name.len() - 4] == 46u8
    &&& name[name.len() - 3] == 100u8
    &&& name[name.len() - 2] == 108u8
    &&& name[name.len() - 1] == 108u8
}

/// The file stem of a candidate: its name without the trailing ".dll".
pub open spec fn stem_spec(name: Seq<u8>) -> Seq<u8> {
    name.take(name.len() - 4)
}

/// The managed class addressed for a stem: the stem followed by ".Addon".
pub open spec fn class_name_spec(stem: Seq<u8>) -> Seq<u8> {
    stem + addon_suffix()
}

/// Whether `name` names a candidate component: a name ending in ".dll" with
/// at least one byte of stem before the extension.
pub fn is_candidate(name: &Vec<u8>) -> (b: bool)
    ensures
        b == is_candidate_spec(name@),
{
    if name.len() < 5 {
        return false;
    }
    let n = name.len();
    name[n - 4] == 46u8 && name[n - 3] == 100u8 && name[n - 2] == 108u8 && name[n - 1] == 108u8
}

/// The file stem of a candidate name.
pub fn stem_of(name: &Vec<u8>) -> (r: Vec<u8>)
    requires
        is_candidate_spec(name@),
    ensures
        r@ == stem_spec(name@),
{
    let mut r: Vec<u8> = Vec::new();
    let end = name.len() - 4;
    let mut i: usize = 0;
    while i < end
        invariant
            i <= end,
            end == name@.len() - 4,
            r@ == name@.take(i as int),
        decreases end - i,
    {
        r.push(name[i]);
        proof {
            assert(name@.take(i as int).push(name@[i as int]) =~= name@.take(i + 1));
        }
        i += 1;
    }
    r
}

/// The managed class name derived from a file stem.
pub fn class_name_of(stem: &Vec<u8>) -> (r: Vec<u8>)
    ensures
        r@ == class_name_spec(stem@),
{
    let mut r = copy_bytes(stem);
    r.push(46u8);
    r.push(65u8);
    r.push(100u8);
    r.push(100u8);
    r.push(111u8);
    r.push(110u8);
    proof {
        assert(r@ =~= stem@ + addon_suffix());
    }
    r
}

/// The fixed entry-point method name, "Main", as bytes.
pub fn main_method_name() -> (r: Vec<u8>)
    ensures
        r@ == main_method(),
{
    let mut r: Vec<u8> = Vec::new();
    r.push(77u8);
    r.push(97u8);
    r.push(105u8);
    r.push(110u8);
    proof {
        assert(r@ =~= main_method());
    }
    r
}

/// The per-scan record of one candidate component, derived from a directory
/// entry and discarded after its load attempt.
#[derive(Debug, PartialEq, Eq)]
pub struct ComponentDescriptor {
    /// The entry's file stem, which names the assembly to load.
    pub stem: Vec<u8>,
    /// The entry's full file name, under which the file is staged.
    pub file_name: Vec<u8>,
    /// The entry's path inside the source directory.
    pub source_path: Vec<u8>,
}

/// Mathematical image of a [`ComponentDescriptor`].
#[verifier::ext_equal]
pub struct ComponentDescriptorView {
    pub stem: Seq<u8>,
    pub file_name: Seq<u8>,
    pub source_path: Seq<u8>,
}

impl View for ComponentDescriptor {
    type V = ComponentDescriptorView;

    open spec fn view(&self) -> ComponentDescriptorView {
        ComponentDescriptorView {
            stem: self.stem@,
            file_name: self.file_name@,
            source_path: self.source_path@,
        }
    }
}

/// `dir` and `name` joined with the path separator.
pub open spec fn join_spec(dir: Seq<u8>, name: Seq<u8>) -> Seq<u8> {
    dir + seq![47u8] + name
}

/// The descriptor derived for candidate `name` found in `dir`.
pub open spec fn descriptor_spec(dir: Seq<u8>, name: Seq<u8>) -> ComponentDescriptorView {
    ComponentDescriptorView {
        stem: stem_spec(name),
        file_name: name,
        source_path: join_spec(dir, name),
    }
}

/// The images of a sequence of descriptors.
pub open spec fn views_of(p: Seq<ComponentDescriptor>) -> Seq<ComponentDescriptorView> {
    p.map_values(|d: ComponentDescriptor| d@)
}

/// The images of a sequence of byte vectors.
pub open spec fn seqs_of(entries: Seq<Vec<u8>>) -> Seq<Seq<u8>> {
    entries.map_values(|e: Vec<u8>| e@)
}

/// The plan a scan of `entries` in `dir` yields: one descriptor per
/// candidate, in the order the entries were produced; every other entry
/// contributes nothing.
pub open spec fn plan_spec(dir: Seq<u8>, entries: Seq<Seq<u8>>) -> Seq<ComponentDescriptorView>
    decreases entries.len(),
{
    if entries.len() == 0 {
        Seq::empty()
    } else {
        let rest = plan_spec(dir, entries.drop_last());
        if is_candidate_spec(entries.last()) {
            rest.push(descriptor_spec(dir, entries.last()))
        } else {
            rest
        }
    }
}

/// `dir` and `name` joined with the path separator.
pub fn join_path(dir: &Vec<u8>, name: &Vec<u8>) -> (r: Vec<u8>)
    ensures
        r@ == join_spec(dir@, name@),
{
    let mut r = copy_bytes(dir);
    r.push(47u8);
    let mut i: usize = 0;
    while i < name.len()
        invariant
            i <= name.len(),
            r@ == dir@ + seq![47u8] + name@.take(i as int),
        decreases name.len() - i,
    {
        r.push(name[i]);
        proof {
            assert((dir@ + seq![47u8] + name@.take(i as int)).push(name@[i as int]) =~= dir@
                + seq![47u8] + name@.take(i + 1));
        }
        i += 1;
    }
    proof {
        assert(r@ =~= join_spec(dir@, name@));
    }
    r
}

/// The descriptor for candidate `name` found in `dir`.
pub fn descriptor_for(dir: &Vec<u8>, name: &Vec<u8>) -> (d: ComponentDescriptor)
    requires
        is_candidate_spec(name@),
    ensures
        d@ == descriptor_spec(dir@, name@),
{
    ComponentDescriptor {
        stem: stem_of(name),
        file_name: copy_bytes(name),
        source_path: join_path(dir, name),
    }
}

/// Copies a descriptor.
pub fn copy_descriptor(d: &ComponentDescriptor) -> (r: ComponentDescriptor)
    ensures
        r@ == d@,
{
    ComponentDescriptor {
        stem: copy_bytes(&d.stem),
        file_name: copy_bytes(&d.file_name),
        source_path: copy_bytes(&d.source_path),
    }
}

/// Scans the entries of source directory `dir` once and derives the plan of
/// the run: one descriptor per entry whose name ends in ".dll", in the order
/// the entries came, and nothing for any other entry.
pub fn plan(dir: &Vec<u8>, entries: &Vec<Vec<u8>>) -> (p: Vec<ComponentDescriptor>)
    ensures
        views_of(p@) == plan_spec(dir@, seqs_of(entries@)),
{
    let mut p: Vec<ComponentDescriptor> = Vec::new();
    let mut i: usize = 0;
    while i < entries.len()
        invariant
            i <= entries.len(),
            views_of(p@) == plan_spec(dir@, seqs_of(entries@).take(i as int)),
        decreases entries.len() - i,
    {
        let ghost pre = p@;
        let entry = &entries[i];
        if is_candidate(entry) {
            p.push(descriptor_for(dir, entry));
            proof {
                assert(views_of(p@) =~= views_of(pre).push(p@.last()@));
            }
        }
        proof {
            let all = seqs_of(entries@);
            assert(all.take(i + 1).drop_last() =~= all.take(i as int));
            assert(all.take(i + 1).last() == entry@);
            assert(views_of(p@) =~= plan_spec(dir@, all.take(i + 1)));
        }
        i += 1;
    }
    proof {
        assert(seqs_of(entries@).take(entries@.len() as int) =~= seqs_of(entries@));
    }
    p
}

/// One candidate's recorded outcome: the descriptor it was derived from and
/// the result of asking the host to bind and run its entry point.
#[derive(Debug, PartialEq, Eq)]
pub struct LoadOutcome {
    /// The candidate the attempt was made for.
    pub descriptor: ComponentDescriptor,
    /// `Ok` when the host bound the callable; otherwise the error carrying
    /// the host's status code.
    pub result: Result<(), HostError>,
}

/// Mathematical image of a [`LoadOutcome`].
#[verifier::ext_equal]
pub struct LoadOutcomeView {
    pub descriptor: ComponentDescriptorView,
    pub result: Result<(), HostError>,
}

impl View for LoadOutcome {
    type V = LoadOutcomeView;

    open spec fn view(&self) -> LoadOutcomeView {
        LoadOutcomeView { descriptor: self.descriptor@, result: self.result }
    }
}

/// The images of a sequence of outcomes.
pub open spec fn outcome_views_of(s: Seq<LoadOutcome>) -> Seq<LoadOutcomeView> {
    s.map_values(|o: LoadOutcome| o@)
}

/// Where a run stands between two pieces of outside work.
#[derive(Clone, Copy, Debug, PartialEq, Eq, Structural)]
pub enum RunPhase {
    /// The trusted directory is being created.
    AwaitDir,
    /// The source directory is being enumerated.
    AwaitEntries,
    /// The current candidate is being staged into the trusted directory.
    AwaitCopy,
    /// The current candidate's entry point is being bound and invoked.
    AwaitLoad,
    /// Every candidate was attempted; the outcomes are complete.
    Finished,
    /// A fatal failure ended the run.
    Failed(HostError),
}

/// What the outside world reports back to the run.
#[derive(Debug, PartialEq, Eq)]
pub enum RunEvent {
    /// Whether the trusted directory now exists.
    DirEnsured(bool),
    /// The entries of the source directory, in whatever order the storage
    /// yielded them, or nothing when the directory could not be enumerated.
    Enumerated(Option<Vec<Vec<u8>>>),
    /// Whether staging the current candidate's file succeeded.
    Copied(bool),
    /// The status code the host's create-delegate slot returned for the
    /// current candidate.
    DelegateResult(i32),
}

/// Mathematical image of a [`RunEvent`].
#[verifier::ext_equal]
pub enum RunEventView {
    DirEnsured(bool),
    Enumerated(Option<Seq<Seq<u8>>>),
    Copied(bool),
    DelegateResult(i32),
}

impl View for RunEvent {
    type V = RunEventView;

    open spec fn view(&self) -> RunEventView {
        match self {
            RunEvent::DirEnsured(ok) => RunEventView::DirEnsured(*ok),
            RunEvent::Enumerated(opt) => RunEventView::Enumerated(
                match opt {
                    Option::None => Option::None,
                    Option::Some(entries) => Option::Some(seqs_of(entries@)),
                },
            ),
            RunEvent::Copied(ok) => RunEventView::Copied(*ok),
            RunEvent::DelegateResult(hr) => RunEventView::DelegateResult(*hr),
        }
    }
}

/// The piece of outside work the run asks for next.
#[derive(Debug, PartialEq, Eq)]
pub enum RunAction {
    /// Create this directory and any missing ancestors.
    EnsureDir(Vec<u8>),
    /// Enumerate the entries of this directory.
    Enumerate(Vec<u8>),
    /// Stage this candidate's file under the given destination path,
    /// overwriting any existing file.
    Copy(ComponentDescriptor, Vec<u8>),
    /// Ask the host to bind and invoke the entry point named by this
    /// (assembly, class, method) triple.
    Load(Vec<u8>, Vec<u8>, Vec<u8>),
    /// The run is complete; the state's outcomes list every attempt.
    Done,
    /// The run failed fatally with this error.
    Fail(HostError),
}

/// Mathematical image of a [`RunAction`].
#[verifier::ext_equal]
pub enum RunActionView {
    EnsureDir(Seq<u8>),
    Enumerate(Seq<u8>),
    Copy(ComponentDescriptorView, Seq<u8>),
    Load(Seq<u8>, Seq<u8>, Seq<u8>),
    Done,
    Fail(HostError),
}

impl View for RunAction {
    type V = RunActionView;

    open spec fn view(&self) -> RunActionView {
        match self {
            RunAction::EnsureDir(dir) => RunActionView::EnsureDir(dir@),
            RunAction::Enumerate(dir) => RunActionView::Enumerate(dir@),
            RunAction::Copy(d, dest) => RunActionView::Copy(d@, dest@),
            RunAction::Load(a, c, m) => RunActionView::Load(a@, c@, m@),
            RunAction::Done => RunActionView::Done,
            RunAction::Fail(e) => RunActionView::Fail(*e),
        }
    }
}

/// The whole standing of one run: the two directories it was started with,
/// its phase, the plan its scan produced, the index of the candidate being
/// worked on, and the outcomes recorded so far.
#[derive(Debug, PartialEq, Eq)]
pub struct RunState {
    /// The directory whose entries are scanned.
    pub source_dir: Vec<u8>,
    /// The directory candidates are staged into.
    pub trusted_dir: Vec<u8>,
    /// Where the run stands.
    pub phase: RunPhase,
    /// The candidates of this run, fixed by the one scan.
    pub plan: Vec<ComponentDescriptor>,
    /// The index into the plan of the candidate being worked on.
    pub next: usize,
    /// One recorded outcome per attempted candidate, in plan order.
    pub outcomes: Vec<LoadOutcome>,
}

/// Mathematical image of a [`RunState`].
#[verifier::ext_equal]
pub struct RunStateView {
    pub source_dir: Seq<u8>,
    pub trusted_dir: Seq<u8>,
    pub phase: RunPhase,
    pub plan: Seq<ComponentDescriptorView>,
    pub next: int,
    pub outcomes: Seq<LoadOutcomeView>,
}

impl View for RunState {
    type V = RunStateView;

    open spec fn view(&self) -> RunStateView {
        RunStateView {
            source_dir: self.source_dir@,
            trusted_dir: self.trusted_dir@,
            phase: self.phase,
            plan: views_of(self.plan@),
            next: self.next as int,
            outcomes: outcome_views_of(self.outcomes@),
        }
    }
}

impl RunStateView {
    /// Well-formedness: the index and the outcomes track the plan, and each
    /// phase stands at the position it claims.
    pub open spec fn wf(self) -> bool {
        &&& 0 <= self.next <= self.plan.len()
        &&& self.outcomes.len() == self.next
        &&& (self.phase is AwaitDir ==> self.plan.len() == 0 && self.next == 0)
        &&& (self.phase is AwaitEntries ==> self.plan.len() == 0 && self.next == 0)
        &&& (self.phase is AwaitCopy ==> self.next < self.plan.len())
        &&& (self.phase is AwaitLoad ==> self.next < self.plan.len())
        &&& (self.phase is Finished ==> self.next == self.plan.len())
    }
}

/// The state a run starts from, before any outside work.
pub open spec fn init_spec(source_dir: Seq<u8>, trusted_dir: Seq<u8>) -> RunStateView {
    RunStateView {
        source_dir,
        trusted_dir,
        phase: RunPhase::AwaitDir,
        plan: Seq::empty(),
        next: 0,
        outcomes: Seq::empty(),
    }
}

/// `s` moved to the failed phase with error `e`.
pub open spec fn failed_spec(s: RunStateView, e: HostError) -> RunStateView {
    RunStateView { phase: RunPhase::Failed(e), ..s }
}

/// What one event does to a run: the state it leaves and the action it asks
/// for, or nothing when the event does not answer the work the phase is
/// waiting on.
pub open spec fn step_spec(s: RunStateView, e: RunEventView) -> Option<
    (RunStateView, RunActionView),
> {
    match (s.phase, e) {
        (RunPhase::AwaitDir, RunEventView::DirEnsured(ok)) => if ok {
            Some(
                (
                    RunStateView { phase: RunPhase::AwaitEntries, ..s },
                    RunActionView::Enumerate(s.source_dir),
                ),
            )
        } else {
            Some((failed_spec(s, HostError::IoError), RunActionView::Fail(HostError::IoError)))
        },
        (RunPhase::AwaitEntries, RunEventView::Enumerated(opt)) => match opt {
            Option::None => Some(
                (failed_spec(s, HostError::IoError), RunActionView::Fail(HostError::IoError)),
            ),
            Option::Some(entries) => {
                let scan = plan_spec(s.source_dir, entries);
                if scan.len() == 0 {
                    Some(
                        (
                            RunStateView { phase: RunPhase::Finished, plan: scan, ..s },
                            RunActionView::Done,
                        ),
                    )
                } else {
                    Some(
                        (
                            RunStateView { phase: RunPhase::AwaitCopy, plan: scan, next: 0, ..s },
                            RunActionView::Copy(
                                scan[0],
                                join_spec(s.trusted_dir, scan[0].file_name),
                            ),
                        ),
                    )
                }
            },
        },
        (RunPhase::AwaitCopy, RunEventView::Copied(ok)) => if ok {
            Some(
                (
                    RunStateView { phase: RunPhase::AwaitLoad, ..s },
                    RunActionView::Load(
                        s.plan[s.next].stem,
                        class_name_spec(s.plan[s.next].stem),
                        main_method(),
                    ),
                ),
            )
        } else {
            Some((failed_spec(s, HostError::IoError), RunActionView::Fail(HostError::IoError)))
        },
        (RunPhase::AwaitLoad, RunEventView::DelegateResult(hr)) => {
            let outcome = LoadOutcomeView {
                descriptor: s.plan[s.next],
                result: if hr >= 0 {
                    Ok(())
                } else {
                    Err(HostError::DelegateCreationError(hr))
                },
            };
            let recorded = s.outcomes.push(outcome);
            let bumped = s.next + 1;
            if bumped == s.plan.len() {
                Some(
                    (
                        RunStateView {
                            phase: RunPhase::Finished,
                            next: bumped,
                            outcomes: recorded,
                            ..s
                        },
                        RunActionView::Done,
                    ),
                )
            } else {
                Some(
                    (
                        RunStateView {
                            phase: RunPhase::AwaitCopy,
                            next: bumped,
                            outcomes: recorded,
                            ..s
                        },
                        RunActionView::Copy(
                            s.plan[bumped],
                            join_spec(s.trusted_dir, s.plan[bumped].file_name),
                        ),
                    ),
                )
            }
        },
        _ => None,
    }
}

/// The images of a sequence of events.
pub open spec fn event_views_of(s: Seq<RunEvent>) -> Seq<RunEventView> {
    s.map_values(|e: RunEvent| e@)
}

/// The images of a sequence of actions.
pub open spec fn action_views_of(s: Seq<RunAction>) -> Seq<RunActionView> {
    s.map_values(|a: RunAction| a@)
}

impl RunState {
    /// Starts a run over `source_dir` staging into `trusted_dir`.  The first
    /// piece of outside work is always to ensure the trusted directory
    /// exists, before the source directory is so much as looked at.
    pub fn new(source_dir: Vec<u8>, trusted_dir: Vec<u8>) -> (r: (RunState, RunAction))
        ensures
            r.0@ == init_spec(source_dir@, trusted_dir@),
            r.1@ == RunActionView::EnsureDir(trusted_dir@),
            r.0@.wf(),
    {
        let action = RunAction::EnsureDir(copy_bytes(&trusted_dir));
        let state = RunState {
            source_dir,
            trusted_dir,
            phase: RunPhase::AwaitDir,
            plan: Vec::new(),
            next: 0,
            outcomes: Vec::new(),
        };
        proof {
            assert(state@ =~= init_spec(state.source_dir@, state.trusted_dir@));
        }
        (state, action)
    }

    /// Advances the run by one answer from the outside world, exactly as
    /// [`step_spec`] says: a fatal answer (the trusted directory could not be
    /// created, the source directory could not be enumerated, a staging copy
    /// failed) ends the whole run; a failed delegate creation is recorded and
    /// the run continues with the next candidate; an answer the phase is not
    /// waiting on is refused.
    pub fn step(self, event: RunEvent) -> (r: (RunState, Option<RunAction>))
        requires
            self@.wf(),
        ensures
            step_spec(self@, event@) matches Some(p) ==> r.0@ == p.0 && (r.1 matches Some(a)
                && a@ == p.1),
            step_spec(self@, event@) is None ==> r.0@ == self@ && r.1 is None,
            r.0@.wf(),
    {
        let s = self;
        match (s.phase, event) {
            (RunPhase::AwaitDir, RunEvent::DirEnsured(ok)) => if ok {
                let action = RunAction::Enumerate(copy_bytes(&s.source_dir));
                let state = RunState { phase: RunPhase::AwaitEntries, ..s };
                (state, Some(action))
            } else {
                let state = RunState { phase: RunPhase::Failed(HostError::IoError), ..s };
                (state, Some(RunAction::Fail(HostError::IoError)))
            },
            (RunPhase::AwaitEntries, RunEvent::Enumerated(opt)) => match opt {
                Option::None => {
                    let state = RunState { phase: RunPhase::Failed(HostError::IoError), ..s };
                    (state, Some(RunAction::Fail(HostError::IoError)))
                },
                Option::Some(entries) => {
                    let scan = plan(&s.source_dir, &entries);
                    if scan.len() == 0 {
                        let state = RunState { phase: RunPhase::Finished, plan: scan, ..s };
                        (state, Some(RunAction::Done))
                    } else {
                        let dest = join_path(&s.trusted_dir, &scan[0].file_name);
                        let first = copy_descriptor(&scan[0]);
                        let state = RunState {
                            phase: RunPhase::AwaitCopy,
                            plan: scan,
                            next: 0,
                            ..s
                        };
                        (state, Some(RunAction::Copy(first, dest)))
                    }
                },
            },
            (RunPhase::AwaitCopy, RunEvent::Copied(ok)) => if ok {
                let assembly = copy_bytes(&s.plan[s.next].stem);
                let class = class_name_of(&s.plan[s.next].stem);
                let method = main_method_name();
                let state = RunState { phase: RunPhase::AwaitLoad, ..s };
                (state, Some(RunAction::Load(assembly, class, method)))
            } else {
                let state = RunState { phase: RunPhase::Failed(HostError::IoError), ..s };
                (state, Some(RunAction::Fail(HostError::IoError)))
            },
            (RunPhase::AwaitLoad, RunEvent::DelegateResult(hr)) => {
                let result = crate::host::delegate_status(hr);
                let attempted = copy_descriptor(&s.plan[s.next]);
                let RunState { source_dir, trusted_dir, phase: _, plan, next, mut outcomes } = s;
                let ghost pre = outcomes@;
                outcomes.push(LoadOutcome { descriptor: attempted, result });
                proof {
                    assert(outcome_views_of(outcomes@) =~= outcome_views_of(pre).push(
                        outcomes@.last()@,
                    ));
                }
                proof {
                    assert(views_of(plan@).len() == plan@.len());
                    assert(next < plan.len());
                }
                let bumped = next + 1;
                if bumped == plan.len() {
                    let state = RunState {
                        source_dir,
                        trusted_dir,
                        phase: RunPhase::Finished,
                        plan,
                        next: bumped,
                        outcomes,
                    };
                    (state, Some(RunAction::Done))
                } else {
                    let dest = join_path(&trusted_dir, &plan[bumped].file_name);
                    let upcoming = copy_descriptor(&plan[bumped]);
                    let state = RunState {
                        source_dir,
                        trusted_dir,
                        phase: RunPhase::AwaitCopy,
                        plan,
                        next: bumped,
                        outcomes,
                    };
                    (state, Some(RunAction::Copy(upcoming, dest)))
                }
            },
            _ => (s, None),
        }
    }
}

/// Whether every event of `events`, in order, answers exactly the work the
/// run is waiting on when it arrives.
pub open spec fn script_ok(s: RunStateView, events: Seq<RunEventView>) -> bool
    decreases events.len(),
{
    events.len() == 0 || (match step_spec(s, events[0]) {
        Option::None => false,
        Option::Some(p) => script_ok(p.0, events.drop_first()),
    })
}

/// The state a run driven from `s` by `events` ends in, and every action it
/// asks for on the way, in order.  An event the phase is not waiting on stops
/// the run where it stands.
pub open spec fn trace_spec(s: RunStateView, events: Seq<RunEventView>) -> (
    RunStateView,
    Seq<RunActionView>,
)
    decreases events.len(),
{
    if events.len() == 0 {
        (s, Seq::empty())
    } else {
        match step_spec(s, events[0]) {
            Option::None => (s, Seq::empty()),
            Option::Some(p) => {
                let rest = trace_spec(p.0, events.drop_first());
                (rest.0, seq![p.1] + rest.1)
            },
        }
    }
}

/// Drives a run through a whole script of events, exactly as [`trace_spec`]
/// says: the run ends in the state the trace ends in, and the returned
/// actions are the trace's actions.
pub fn drive(start: RunState, events: Vec<RunEvent>) -> (r: (RunState, Vec<RunAction>))
    requires
        start@.wf(),
    ensures
        r.0@ == trace_spec(start@, event_views_of(events@)).0,
        action_views_of(r.1@) == trace_spec(start@, event_views_of(events@)).1,
{
    let mut cur = start;
    let mut remaining = events;
    let mut acts: Vec<RunAction> = Vec::new();
    while remaining.len() > 0
        invariant
            cur@.wf(),
            trace_spec(cur@, event_views_of(remaining@)).0 == trace_spec(start@, event_views_of(events@)).0,
            action_views_of(acts@) + trace_spec(cur@, event_views_of(remaining@)).1 == trace_spec(
                start@,
                event_views_of(events@),
            ).1,
        decreases remaining.len(),
    {
        let ghost rem_pre = event_views_of(remaining@);
        let event = remaining.remove(0);
        proof {
            assert(rem_pre =~= seq![event@] + event_views_of(remaining@));
            assert(rem_pre.drop_first() =~= event_views_of(remaining@));
        }
        let ghost cur_pre = cur@;
        let (stepped, action) = cur.step(event);
        cur = stepped;
        match action {
            Option::Some(a) => {
                let ghost acts_pre = acts@;
                acts.push(a);
                proof {
                    let p = step_spec(cur_pre, rem_pre[0]).unwrap();
                    assert(trace_spec(cur_pre, rem_pre).1 == seq![p.1] + trace_spec(
                        p.0,
                        rem_pre.drop_first(),
                    ).1);
                    assert(action_views_of(acts@) =~= action_views_of(acts_pre).push(a@));
                    assert(action_views_of(acts@) + trace_spec(cur@, event_views_of(remaining@)).1
                        =~= action_views_of(acts_pre) + trace_spec(cur_pre, rem_pre).1);
                }
            },
            Option::None => {
                proof {
                    assert(rem_pre.len() > 0);
                    assert(rem_pre[0] == event@);
                    assert(step_spec(cur_pre, rem_pre[0]) is None);
                    assert(trace_spec(cur_pre, rem_pre).0 == cur_pre);
                    assert(trace_spec(cur_pre, rem_pre).1 =~= Seq::<RunActionView>::empty());
                    assert(action_views_of(acts@) + trace_spec(cur_pre, rem_pre).1 =~=
                        action_views_of(acts@));
                }
                return (cur, acts);
            },
        }
    }
    proof {
        assert(event_views_of(remaining@) =~= Seq::<RunEventView>::empty());
        assert(action_views_of(acts@) + trace_spec(cur@, event_views_of(remaining@)).1 =~=
            action_views_of(acts@));
    }
    (cur, acts)
}

/// The staging action the run asks for before candidate `d` is loaded.
pub open spec fn copy_action(trusted: Seq<u8>, d: ComponentDescriptorView) -> RunActionView {
    RunActionView::Copy(d, join_spec(trusted, d.file_name))
}

/// The load action the run asks for after candidate `d` was staged: its stem
/// as the assembly, the stem followed by ".Addon" as the class, and "Main" as
/// the method.
pub open spec fn load_action(d: ComponentDescriptorView) -> RunActionView {
    RunActionView::Load(d.stem, class_name_spec(d.stem), main_method())
}

/// The outcome recorded for a candidate the host answered with `status`.
pub open spec fn outcome_for(d: ComponentDescriptorView, status: i32) -> LoadOutcomeView {
    LoadOutcomeView {
        descriptor: d,
        result: if status >= 0 {
            Ok(())
        } else {
            Err(HostError::DelegateCreationError(status))
        },
    }
}

/// The outcomes of the candidates from `from` on, when the host answers the
/// i-th remaining attempt with `statuses[i]`.
pub open spec fn outcomes_from(
    plan: Seq<ComponentDescriptorView>,
    from: int,
    statuses: Seq<i32>,
) -> Seq<LoadOutcomeView> {
    Seq::new(statuses.len(), |i: int| outcome_for(plan[from + i], statuses[i]))
}

/// The events of a run in which every staging copy succeeds and the host
/// answers the i-th remaining load attempt with `statuses[i]`.
pub open spec fn load_events(statuses: Seq<i32>) -> Seq<RunEventView>
    decreases statuses.len(),
{
    if statuses.len() == 0 {
        Seq::empty()
    } else {
        seq![RunEventView::Copied(true), RunEventView::DelegateResult(statuses[0])]
            + load_events(statuses.drop_first())
    }
}

/// The whole event script of a run in which the trusted directory is
/// created, enumeration yields `entries`, every staging copy succeeds, and
/// the host answers the i-th load attempt with `statuses[i]`.
pub open spec fn smooth_script(entries: Seq<Seq<u8>>, statuses: Seq<i32>) -> Seq<RunEventView> {
    seq![
        RunEventView::DirEnsured(true),
        RunEventView::Enumerated(Option::Some(entries)),
    ] + load_events(statuses)
}

/// One copy and one load per candidate from `from` on, in plan order.
pub open spec fn attempt_actions(
    trusted: Seq<u8>,
    plan: Seq<ComponentDescriptorView>,
    from: int,
) -> Seq<RunActionView>
    decreases plan.len() - from,
{
    if 0 <= from < plan.len() {
        seq![copy_action(trusted, plan[from]), load_action(plan[from])] + attempt_actions(
            trusted,
            plan,
            from + 1,
        )
    } else {
        Seq::empty()
    }
}

/// The actions a whole run over scan `plan` asks for: one enumeration of the
/// source directory, one copy and one load per candidate in plan order, and
/// the completion mark.
pub open spec fn smooth_actions(
    source: Seq<u8>,
    trusted: Seq<u8>,
    plan: Seq<ComponentDescriptorView>,
) -> Seq<RunActionView> {
    seq![RunActionView::Enumerate(source)] + attempt_actions(trusted, plan, 0) + seq![
        RunActionView::Done,
    ]
}

/// The actions still owed when the run stands at the staging copy of
/// candidate `from`: its load, then the copy and load of every later
/// candidate, and the completion mark at the end.
pub open spec fn tail_actions(
    trusted: Seq<u8>,
    plan: Seq<ComponentDescriptorView>,
    from: int,
) -> Seq<RunActionView>
    decreases plan.len() - from,
{
    if 0 <= from < plan.len() {
        if from + 1 == plan.len() {
            seq![load_action(plan[from]), RunActionView::Done]
        } else {
            seq![load_action(plan[from]), copy_action(trusted, plan[from + 1])] + tail_actions(
                trusted,
                plan,
                from + 1,
            )
        }
    } else {
        Seq::empty()
    }
}

/// A pending copy followed by the owed tail is exactly the remaining
/// attempts followed by the completion mark.
proof fn lemma_tail_aligns(trusted: Seq<u8>, plan: Seq<ComponentDescriptorView>, from: int)
    requires
        0 <= from < plan.len(),
    ensures
        seq![copy_action(trusted, plan[from])] + tail_actions(trusted, plan, from)
            == attempt_actions(trusted, plan, from) + seq![RunActionView::Done],
    decreases plan.len() - from,
{
    reveal_with_fuel(attempt_actions, 3);
    reveal_with_fuel(tail_actions, 3);
    if from + 1 == plan.len() {
        assert(attempt_actions(trusted, plan, from + 1) =~= Seq::<RunActionView>::empty());
        assert(seq![copy_action(trusted, plan[from])] + tail_actions(trusted, plan, from)
            =~= attempt_actions(trusted, plan, from) + seq![RunActionView::Done]);
    } else {
        lemma_tail_aligns(trusted, plan, from + 1);
        let first_two = seq![copy_action(trusted, plan[from]), load_action(plan[from])];
        let owed = tail_actions(trusted, plan, from + 1);
        let remaining = attempt_actions(trusted, plan, from + 1);
        assert(seq![copy_action(trusted, plan[from])] + tail_actions(trusted, plan, from)
            =~= first_two + (seq![copy_action(trusted, plan[from + 1])] + owed));
        assert(attempt_actions(trusted, plan, from) + seq![RunActionView::Done] =~= first_two + (
        remaining + seq![RunActionView::Done]));
        assert(seq![copy_action(trusted, plan[from])] + tail_actions(trusted, plan, from)
            =~= attempt_actions(trusted, plan, from) + seq![RunActionView::Done]);
    }
}

/// From the staging copy of candidate `s.next` on, a run whose copies all
/// succeed attempts every remaining candidate in plan order — whatever
/// statuses the host returns — records for each exactly the outcome its own
/// status gives, and finishes.
proof fn lemma_processing(s: RunStateView, statuses: Seq<i32>)
    requires
        s.wf(),
        s.phase is AwaitCopy,
        statuses.len() == s.plan.len() - s.next,
    ensures
        script_ok(s, load_events(statuses)),
        trace_spec(s, load_events(statuses)).1 == tail_actions(s.trusted_dir, s.plan, s.next),
        trace_spec(s, load_events(statuses)).0 == (RunStateView {
            phase: RunPhase::Finished,
            next: s.plan.len() as int,
            outcomes: s.outcomes + outcomes_from(s.plan, s.next, statuses),
            ..s
        }),
    decreases statuses.len(),
{
    reveal_with_fuel(load_events, 3);
    reveal_with_fuel(trace_spec, 4);
    reveal_with_fuel(script_ok, 4);
    reveal_with_fuel(tail_actions, 3);
    let evs = load_events(statuses);
    let e0 = RunEventView::Copied(true);
    let e1 = RunEventView::DelegateResult(statuses[0]);
    let rest = load_events(statuses.drop_first());
    assert(evs == seq![e0, e1] + rest);
    assert(evs[0] == e0);
    assert(evs.drop_first() =~= seq![e1] + rest);
    assert(evs.drop_first()[0] == e1);
    assert(evs.drop_first().drop_first() =~= rest);
    let p0 = step_spec(s, e0)->Some_0;
    let s1 = p0.0;
    let p1 = step_spec(s1, e1)->Some_0;
    let s2 = p1.0;
    assert(s2.outcomes == s.outcomes.push(outcome_for(s.plan[s.next], statuses[0])));
    if statuses.len() == 1 {
        assert(rest =~= Seq::<RunEventView>::empty());
        assert(trace_spec(s2, rest).1 =~= Seq::<RunActionView>::empty());
        assert(trace_spec(s, evs).1 =~= seq![p0.1, p1.1]);
        assert(trace_spec(s, evs).1 =~= tail_actions(s.trusted_dir, s.plan, s.next));
        assert(s.outcomes + outcomes_from(s.plan, s.next, statuses) =~= s.outcomes.push(
            outcome_for(s.plan[s.next], statuses[0]),
        ));
        assert(trace_spec(s, evs).0 =~= (RunStateView {
            phase: RunPhase::Finished,
            next: s.plan.len() as int,
            outcomes: s.outcomes + outcomes_from(s.plan, s.next, statuses),
            ..s
        }));
    } else {
        assert(s2.wf());
        assert(s2.phase is AwaitCopy);
        assert(s2.plan == s.plan);
        assert(s2.next == s.next + 1);
        lemma_processing(s2, statuses.drop_first());
        assert(script_ok(s2, rest));
        assert(script_ok(s, evs));
        assert(trace_spec(s, evs).1 =~= seq![p0.1, p1.1] + trace_spec(s2, rest).1);
        assert(seq![p0.1, p1.1] =~= seq![
            load_action(s.plan[s.next]),
            copy_action(s.trusted_dir, s.plan[s.next + 1]),
        ]);
        assert(trace_spec(s, evs).1 =~= tail_actions(s.trusted_dir, s.plan, s.next));
        assert(s2.outcomes + outcomes_from(s2.plan, s2.next, statuses.drop_first()) =~= s.outcomes
            + outcomes_from(s.plan, s.next, statuses));
        assert(trace_spec(s, evs).0 =~= (RunStateView {
            phase: RunPhase::Finished,
            next: s.plan.len() as int,
            outcomes: s.outcomes + outcomes_from(s.plan, s.next, statuses),
            ..s
        }));
    }
}

/// What a whole undisturbed run does, from its initial state: it enumerates
/// the source directory once, and for the scan's candidates — one per entry
/// whose name ends in ".dll", in scan order — it stages and loads each
/// exactly once, whatever status codes the host returns.  The run finishes
/// with one recorded outcome per candidate, and each candidate's outcome is
/// given by its own status alone: no failed binding disturbs any other
/// candidate, and nothing of an earlier run is reused — a second run over
/// the same entries repeats exactly the same actions.
pub proof fn lemma_run_trace(
    source_dir: Seq<u8>,
    trusted_dir: Seq<u8>,
    entries: Seq<Seq<u8>>,
    statuses: Seq<i32>,
)
    requires
        statuses.len() == plan_spec(source_dir, entries).len(),
    ensures
        script_ok(init_spec(source_dir, trusted_dir), smooth_script(entries, statuses)),
        trace_spec(init_spec(source_dir, trusted_dir), smooth_script(entries, statuses)).1
            == smooth_actions(source_dir, trusted_dir, plan_spec(source_dir, entries)),
        trace_spec(init_spec(source_dir, trusted_dir), smooth_script(entries, statuses)).0.phase
            is Finished,
        trace_spec(init_spec(source_dir, trusted_dir), smooth_script(entries, statuses)).0.outcomes
            == outcomes_from(plan_spec(source_dir, entries), 0, statuses),
{
    reveal_with_fuel(load_events, 3);
    reveal_with_fuel(trace_spec, 4);
    reveal_with_fuel(script_ok, 4);
    reveal_with_fuel(tail_actions, 3);
    reveal_with_fuel(attempt_actions, 3);
    let s0 = init_spec(source_dir, trusted_dir);
    let scan = plan_spec(source_dir, entries);
    let evs = smooth_script(entries, statuses);
    let e0 = RunEventView::DirEnsured(true);
    let e1 = RunEventView::Enumerated(Option::Some(entries));
    assert(evs[0] == e0);
    assert(evs.drop_first() =~= seq![e1] + load_events(statuses));
    assert(evs.drop_first()[0] == e1);
    assert(evs.drop_first().drop_first() =~= load_events(statuses));
    let p0 = step_spec(s0, e0)->Some_0;
    let s1 = p0.0;
    assert(p0.1 == RunActionView::Enumerate(source_dir));
    let p1 = step_spec(s1, e1)->Some_0;
    let s2 = p1.0;
    if scan.len() == 0 {
        assert(load_events(statuses) =~= Seq::<RunEventView>::empty());
        assert(trace_spec(s2, load_events(statuses)).1 =~= Seq::<RunActionView>::empty());
        assert(trace_spec(s0, evs).1 =~= seq![p0.1, p1.1]);
        assert(attempt_actions(trusted_dir, scan, 0) =~= Seq::<RunActionView>::empty());
        assert(trace_spec(s0, evs).1 =~= smooth_actions(source_dir, trusted_dir, scan));
        assert(trace_spec(s0, evs).0.outcomes =~= outcomes_from(scan, 0, statuses));
    } else {
        assert(s2.wf());
        assert(s2.phase is AwaitCopy);
        assert(s2.plan == scan);
        assert(s2.next == 0);
        assert(p1.1 == copy_action(trusted_dir, scan[0]));
        lemma_processing(s2, statuses);
        assert(script_ok(s0, evs));
        assert(trace_spec(s0, evs).1 =~= seq![p0.1, p1.1] + trace_spec(
            s2,
            load_events(statuses),
        ).1);
        lemma_tail_aligns(trusted_dir, scan, 0);
        assert(seq![p1.1] + tail_actions(trusted_dir, scan, 0) == attempt_actions(
            trusted_dir,
            scan,
            0,
        ) + seq![RunActionView::Done]);
        assert(trace_spec(s0, evs).1 =~= seq![p0.1] + (seq![p1.1] + tail_actions(
            trusted_dir,
            scan,
            0,
        )));
        assert(trace_spec(s0, evs).1 =~= smooth_actions(source_dir, trusted_dir, scan));
        assert(s2.outcomes =~= Seq::<LoadOutcomeView>::empty());
        assert(s2.outcomes + outcomes_from(scan, 0, statuses) =~= outcomes_from(
            scan,
            0,
            statuses,
        ));
    }
}

/// Isolation: in an undisturbed run, every candidate of the scan is
/// attempted, and the outcome recorded for the candidate at position `i`
/// depends on its own status alone — on nothing any other candidate did.
pub proof fn lemma_isolation(
    source_dir: Seq<u8>,
    trusted_dir: Seq<u8>,
    entries: Seq<Seq<u8>>,
    statuses: Seq<i32>,
    i: int,
)
    requires
        statuses.len() == plan_spec(source_dir, entries).len(),
        0 <= i < plan_spec(source_dir, entries).len(),
    ensures
        trace_spec(
            init_spec(source_dir, trusted_dir),
            smooth_script(entries, statuses),
        ).0.outcomes.len() == plan_spec(source_dir, entries).len(),
        trace_spec(init_spec(source_dir, trusted_dir), smooth_script(entries, statuses)).0.outcomes[i]
            == outcome_for(plan_spec(source_dir, entries)[i], statuses[i]),
{
    lemma_run_trace(source_dir, trusted_dir, entries, statuses);
}

/// A source directory that cannot be enumerated ends the run fatally before
/// any candidate is processed: the trusted directory was still asked for
/// first, the only actions are the one enumeration and the failure mark, and
/// no copy, no load and no outcome exists.
pub proof fn lemma_enumeration_failure(source_dir: Seq<u8>, trusted_dir: Seq<u8>)
    ensures
        script_ok(
            init_spec(source_dir, trusted_dir),
            seq![
                RunEventView::DirEnsured(true),
                RunEventView::Enumerated(Option::None),
            ],
        ),
        trace_spec(
            init_spec(source_dir, trusted_dir),
            seq![
                RunEventView::DirEnsured(true),
                RunEventView::Enumerated(Option::None),
            ],
        ).1 == seq![
            RunActionView::Enumerate(source_dir),
            RunActionView::Fail(HostError::IoError),
        ],
        trace_spec(
            init_spec(source_dir, trusted_dir),
            seq![
                RunEventView::DirEnsured(true),
                RunEventView::Enumerated(Option::None),
            ],
        ).0.phase == RunPhase::Failed(HostError::IoError),
        trace_spec(
            init_spec(source_dir, trusted_dir),
            seq![
                RunEventView::DirEnsured(true),
                RunEventView::Enumerated(Option::None),
            ],
        ).0.outcomes == Seq::<LoadOutcomeView>::empty(),
{
    reveal_with_fuel(trace_spec, 4);
    reveal_with_fuel(script_ok, 4);
    let s0 = init_spec(source_dir, trusted_dir);
    let evs = seq![
        RunEventView::DirEnsured(true),
        RunEventView::Enumerated(Option::<Seq<Seq<u8>>>::None),
    ];
    assert(evs[0] == RunEventView::DirEnsured(true));
    assert(evs.drop_first() =~= seq![RunEventView::Enumerated(Option::<Seq<Seq<u8>>>::None)]);
    assert(evs.drop_first()[0] == RunEventView::Enumerated(Option::<Seq<Seq<u8>>>::None));
    assert(evs.drop_first().drop_first() =~= Seq::<RunEventView>::empty());
    let p0 = step_spec(s0, evs[0])->Some_0;
    let p1 = step_spec(p0.0, evs.drop_first()[0])->Some_0;
    assert(trace_spec(p1.0, evs.drop_first().drop_first()).1 =~= Seq::<RunActionView>::empty());
    assert(trace_spec(s0, evs).1 =~= seq![p0.1, p1.1]);
}

/// The (assembly, class, method) triple a candidate's load addresses.
pub open spec fn triple_for(d: ComponentDescriptorView) -> (Seq<u8>, Seq<u8>, Seq<u8>) {
    (d.stem, class_name_spec(d.stem), main_method())
}

/// The triples of the load actions among `actions`, in order.
pub open spec fn load_triples(actions: Seq<RunActionView>) -> Seq<(Seq<u8>, Seq<u8>, Seq<u8>)>
    decreases actions.len(),
{
    if actions.len() == 0 {
        Seq::empty()
    } else {
        let rest = load_triples(actions.drop_first());
        if actions[0] is Load {
            seq![(actions[0]->Load_0, actions[0]->Load_1, actions[0]->Load_2)] + rest
        } else {
            rest
        }
    }
}

/// The attempts owed from `from` on, followed by the completion mark, load
/// exactly the triples of the remaining candidates, in plan order.
proof fn lemma_attempt_triples(trusted: Seq<u8>, plan: Seq<ComponentDescriptorView>, from: int)
    requires
        0 <= from <= plan.len(),
    ensures
        load_triples(attempt_actions(trusted, plan, from) + seq![RunActionView::Done]) == Seq::new(
            (plan.len() - from) as nat,
            |i: int| triple_for(plan[from + i]),
        ),
    decreases plan.len() - from,
{
    reveal_with_fuel(load_triples, 4);
    reveal_with_fuel(attempt_actions, 3);
    if from == plan.len() {
        assert(attempt_actions(trusted, plan, from) + seq![RunActionView::Done] =~= seq![
            RunActionView::Done,
        ]);
        assert(load_triples(seq![RunActionView::Done]) =~= Seq::<
            (Seq<u8>, Seq<u8>, Seq<u8>),
        >::empty());
        assert(load_triples(attempt_actions(trusted, plan, from) + seq![RunActionView::Done])
            =~= Seq::new((plan.len() - from) as nat, |i: int| triple_for(plan[from + i])));
    } else {
        lemma_attempt_triples(trusted, plan, from + 1);
        let whole = attempt_actions(trusted, plan, from) + seq![RunActionView::Done];
        let rest = attempt_actions(trusted, plan, from + 1) + seq![RunActionView::Done];
        assert(whole[0] == copy_action(trusted, plan[from]));
        assert(whole.drop_first() =~= seq![load_action(plan[from])] + rest);
        assert(whole.drop_first()[0] == load_action(plan[from]));
        assert(whole.drop_first().drop_first() =~= rest);
        assert(load_triples(whole) =~= seq![triple_for(plan[from])] + load_triples(rest));
        assert(load_triples(whole) =~= Seq::new(
            (plan.len() - from) as nat,
            |i: int| triple_for(plan[from + i]),
        ));
    }
}

/// Architecture equivalence of a whole run: the sequence of (assembly,
/// class, method) triples a run loads is derived from the scan alone — the
/// run machine never sees which control-structure variant will carry the
/// calls — and for every position of that sequence the wide and the narrow
/// variants hand the host byte-for-byte the same three names.
pub proof fn lemma_run_architecture_equivalence(
    wide: SboxHost,
    narrow: SboxHostX86,
    source_dir: Seq<u8>,
    trusted_dir: Seq<u8>,
    entries: Seq<Seq<u8>>,
    statuses: Seq<i32>,
)
    requires
        statuses.len() == plan_spec(source_dir, entries).len(),
    ensures
        load_triples(
            trace_spec(init_spec(source_dir, trusted_dir), smooth_script(entries, statuses)).1,
        ) == Seq::new(
            plan_spec(source_dir, entries).len(),
            |i: int| triple_for(plan_spec(source_dir, entries)[i]),
        ),
        forall|i: int|
            0 <= i < plan_spec(source_dir, entries).len() ==> request_triple(
                wide.delegate_request_spec(
                    (#[trigger] plan_spec(source_dir, entries)[i]).stem,
                    class_name_spec(plan_spec(source_dir, entries)[i].stem),
                    main_method(),
                ),
            ) == request_triple_x86(
                narrow.delegate_request_spec(
                    plan_spec(source_dir, entries)[i].stem,
                    class_name_spec(plan_spec(source_dir, entries)[i].stem),
                    main_method(),
                ),
            ),
{
    reveal_with_fuel(load_triples, 2);
    lemma_run_trace(source_dir, trusted_dir, entries, statuses);
    let scan = plan_spec(source_dir, entries);
    lemma_attempt_triples(trusted_dir, scan, 0);
    let acts = smooth_actions(source_dir, trusted_dir, scan);
    assert(acts[0] == RunActionView::Enumerate(source_dir));
    assert(acts.drop_first() =~= attempt_actions(trusted_dir, scan, 0) + seq![
        RunActionView::Done,
    ]);
    assert(load_triples(acts) == load_triples(
        attempt_actions(trusted_dir, scan, 0) + seq![RunActionView::Done],
    ));
    assert(Seq::new((scan.len() - 0) as nat, |i: int| triple_for(scan[0 + i])) =~= Seq::new(
        scan.len(),
        |i: int| triple_for(scan[i]),
    ));
}

} // verus!
