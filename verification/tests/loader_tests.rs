use sbox_loader::errors::HostError;
use sbox_loader::loader::class_name_of;
use sbox_loader::loader::drive;
use sbox_loader::loader::is_candidate;
use sbox_loader::loader::join_path;
use sbox_loader::loader::main_method_name;
use sbox_loader::loader::plan;
use sbox_loader::loader::stem_of;
use sbox_loader::loader::RunAction;
use sbox_loader::loader::RunEvent;
use sbox_loader::loader::RunPhase;
use sbox_loader::loader::RunState;

#[test]
fn candidate_names_end_in_dll() {
    assert!(is_candidate(&b"A.dll".to_vec()));
    assert!(is_candidate(&b"Widget.Addon.dll".to_vec()));
    assert!(!is_candidate(&b"notes.txt".to_vec()));
    assert!(!is_candidate(&b".dll".to_vec()));
    assert!(!is_candidate(&b"a.DLL".to_vec()));
    assert!(!is_candidate(&b"dll".to_vec()));
}

#[test]
fn stem_and_class_derivation() {
    let stem = stem_of(&b"Widget.dll".to_vec());
    assert_eq!(stem, b"Widget".to_vec());
    assert_eq!(class_name_of(&stem), b"Widget.Addon".to_vec());
    assert_eq!(main_method_name(), b"Main".to_vec());
}

#[test]
fn join_inserts_separator() {
    assert_eq!(join_path(&b"src".to_vec(), &b"A.dll".to_vec()), b"src/A.dll".to_vec());
}

#[test]
fn plan_keeps_candidates_in_order() {
    let entries = vec![b"A.dll".to_vec(), b"notes.txt".to_vec(), b"B.dll".to_vec()];
    let scan = plan(&b"src".to_vec(), &entries);
    assert_eq!(scan.len(), 2);
    assert_eq!(scan[0].stem, b"A".to_vec());
    assert_eq!(scan[0].file_name, b"A.dll".to_vec());
    assert_eq!(scan[0].source_path, b"src/A.dll".to_vec());
    assert_eq!(scan[1].stem, b"B".to_vec());
    assert_eq!(scan[1].file_name, b"B.dll".to_vec());
    assert_eq!(scan[1].source_path, b"src/B.dll".to_vec());
}

#[test]
fn plan_of_non_matching_files_is_empty() {
    let entries = vec![b"notes.txt".to_vec(), b"readme.md".to_vec()];
    let scan = plan(&b"src".to_vec(), &entries);
    assert_eq!(scan.len(), 0);
}

#[test]
fn run_starts_by_ensuring_trusted_dir() {
    let (state, action) = RunState::new(b"src".to_vec(), b"trusted".to_vec());
    assert_eq!(action, RunAction::EnsureDir(b"trusted".to_vec()));
    assert_eq!(state.phase, RunPhase::AwaitDir);
}

#[test]
fn failing_dir_creation_is_fatal() {
    let (state, _) = RunState::new(b"src".to_vec(), b"trusted".to_vec());
    let (state, actions) = drive(state, vec![RunEvent::DirEnsured(false)]);
    assert_eq!(actions, vec![RunAction::Fail(HostError::IoError)]);
    assert_eq!(state.phase, RunPhase::Failed(HostError::IoError));
    assert_eq!(state.outcomes.len(), 0);
}

#[test]
fn unreadable_source_dir_is_fatal_before_any_candidate() {
    let (state, first) = RunState::new(b"src".to_vec(), b"trusted".to_vec());
    // The trusted directory is asked for first, before the source directory
    // is so much as read.
    assert_eq!(first, RunAction::EnsureDir(b"trusted".to_vec()));
    let events = vec![RunEvent::DirEnsured(true), RunEvent::Enumerated(None)];
    let (state, actions) = drive(state, events);
    assert_eq!(
        actions,
        vec![
            RunAction::Enumerate(b"src".to_vec()),
            RunAction::Fail(HostError::IoError),
        ]
    );
    assert_eq!(state.phase, RunPhase::Failed(HostError::IoError));
    assert_eq!(state.outcomes.len(), 0);
}

#[test]
fn non_matching_files_produce_no_copies_and_no_loads() {
    let (state, _) = RunState::new(b"src".to_vec(), b"trusted".to_vec());
    let events = vec![
        RunEvent::DirEnsured(true),
        RunEvent::Enumerated(Some(vec![b"notes.txt".to_vec()])),
    ];
    let (state, actions) = drive(state, events);
    assert_eq!(actions, vec![RunAction::Enumerate(b"src".to_vec()), RunAction::Done]);
    assert_eq!(state.phase, RunPhase::Finished);
    assert_eq!(state.outcomes.len(), 0);
}

#[test]
fn full_run_stages_and_loads_each_candidate_once() {
    let (state, _) = RunState::new(b"src".to_vec(), b"trusted".to_vec());
    let events = vec![
        RunEvent::DirEnsured(true),
        RunEvent::Enumerated(Some(vec![b"A.dll".to_vec()])),
        RunEvent::Copied(true),
        RunEvent::DelegateResult(0),
    ];
    let (state, actions) = drive(state, events);
    assert_eq!(actions.len(), 4);
    assert_eq!(actions[0], RunAction::Enumerate(b"src".to_vec()));
    match &actions[1] {
        RunAction::Copy(d, dest) => {
            assert_eq!(d.source_path, b"src/A.dll".to_vec());
            assert_eq!(dest, &b"trusted/A.dll".to_vec());
        }
        other => panic!("expected a copy action, got {:?}", other),
    }
    assert_eq!(
        actions[2],
        RunAction::Load(b"A".to_vec(), b"A.Addon".to_vec(), b"Main".to_vec())
    );
    assert_eq!(actions[3], RunAction::Done);
    assert_eq!(state.phase, RunPhase::Finished);
    assert_eq!(state.outcomes.len(), 1);
    assert_eq!(state.outcomes[0].result, Ok(()));
}

#[test]
fn rerunning_an_unchanged_directory_repeats_all_work() {
    // Nothing of an earlier run is cached: a second run over the same single
    // candidate performs exactly the same copy and load again.
    let (state, _) = RunState::new(b"src".to_vec(), b"trusted".to_vec());
    let events = vec![
        RunEvent::DirEnsured(true),
        RunEvent::Enumerated(Some(vec![b"A.dll".to_vec()])),
        RunEvent::Copied(true),
        RunEvent::DelegateResult(0),
    ];
    let (_, first_actions) = drive(state, events);
    let copies: usize = first_actions
        .iter()
        .filter(|a| matches!(a, RunAction::Copy(_, _)))
        .count();
    let loads: usize = first_actions
        .iter()
        .filter(|a| matches!(a, RunAction::Load(_, _, _)))
        .count();
    assert_eq!(copies, 1);
    assert_eq!(loads, 1);

    let (state, _) = RunState::new(b"src".to_vec(), b"trusted".to_vec());
    let events = vec![
        RunEvent::DirEnsured(true),
        RunEvent::Enumerated(Some(vec![b"A.dll".to_vec()])),
        RunEvent::Copied(true),
        RunEvent::DelegateResult(0),
    ];
    let (_, second_actions) = drive(state, events);
    assert_eq!(second_actions, first_actions);
}

#[test]
fn failed_binding_is_isolated_per_candidate() {
    // Bad.dll's delegate creation fails; Good.dll is attempted all the same
    // and succeeds, in either enumeration order.
    let (state, _) = RunState::new(b"src".to_vec(), b"trusted".to_vec());
    let events = vec![
        RunEvent::DirEnsured(true),
        RunEvent::Enumerated(Some(vec![b"Bad.dll".to_vec(), b"Good.dll".to_vec()])),
        RunEvent::Copied(true),
        RunEvent::DelegateResult(-5),
        RunEvent::Copied(true),
        RunEvent::DelegateResult(0),
    ];
    let (state, actions) = drive(state, events);
    assert_eq!(state.phase, RunPhase::Finished);
    assert_eq!(state.outcomes.len(), 2);
    assert_eq!(state.outcomes[0].descriptor.stem, b"Bad".to_vec());
    assert_eq!(state.outcomes[0].result, Err(HostError::DelegateCreationError(-5)));
    assert_eq!(state.outcomes[1].descriptor.stem, b"Good".to_vec());
    assert_eq!(state.outcomes[1].result, Ok(()));
    let loads: usize = actions
        .iter()
        .filter(|a| matches!(a, RunAction::Load(_, _, _)))
        .count();
    assert_eq!(loads, 2);

    // The mirrored order: Good first, Bad second, Good still succeeds.
    let (state, _) = RunState::new(b"src".to_vec(), b"trusted".to_vec());
    let events = vec![
        RunEvent::DirEnsured(true),
        RunEvent::Enumerated(Some(vec![b"Good.dll".to_vec(), b"Bad.dll".to_vec()])),
        RunEvent::Copied(true),
        RunEvent::DelegateResult(0),
        RunEvent::Copied(true),
        RunEvent::DelegateResult(-5),
    ];
    let (state, _) = drive(state, events);
    assert_eq!(state.outcomes[0].descriptor.stem, b"Good".to_vec());
    assert_eq!(state.outcomes[0].result, Ok(()));
    assert_eq!(state.outcomes[1].descriptor.stem, b"Bad".to_vec());
    assert_eq!(state.outcomes[1].result, Err(HostError::DelegateCreationError(-5)));
}

#[test]
fn failed_staging_copy_aborts_the_whole_run() {
    let (state, _) = RunState::new(b"src".to_vec(), b"trusted".to_vec());
    let events = vec![
        RunEvent::DirEnsured(true),
        RunEvent::Enumerated(Some(vec![b"A.dll".to_vec(), b"B.dll".to_vec()])),
        RunEvent::Copied(false),
    ];
    let (state, actions) = drive(state, events);
    assert_eq!(state.phase, RunPhase::Failed(HostError::IoError));
    assert_eq!(state.outcomes.len(), 0);
    assert_eq!(actions.last(), Some(&RunAction::Fail(HostError::IoError)));
    let loads: usize = actions
        .iter()
        .filter(|a| matches!(a, RunAction::Load(_, _, _)))
        .count();
    assert_eq!(loads, 0);
}

#[test]
fn event_out_of_turn_is_refused_and_state_kept() {
    let (state, _) = RunState::new(b"src".to_vec(), b"trusted".to_vec());
    let (state, action) = state.step(RunEvent::Copied(true));
    assert_eq!(action, None);
    assert_eq!(state.phase, RunPhase::AwaitDir);
}

#[test]
fn both_variants_see_the_same_call_sequence() {
    // The run derives its (assembly, class, method) triples before either
    // control-structure variant comes into play: driving the same entries
    // twice and handing the triples to the wide and the narrow bridge gives
    // byte-for-byte the same names.
    let entries = vec![b"One.dll".to_vec(), b"Two.dll".to_vec()];
    let events = vec![
        RunEvent::DirEnsured(true),
        RunEvent::Enumerated(Some(entries)),
        RunEvent::Copied(true),
        RunEvent::DelegateResult(0),
        RunEvent::Copied(true),
        RunEvent::DelegateResult(0),
    ];
    let (state, _) = RunState::new(b"src".to_vec(), b"trusted".to_vec());
    let (_, actions) = drive(state, events);
    let wide = sbox_loader::host::SboxHost { handle: 4, domain_id: 5 };
    let narrow = sbox_loader::host::SboxHostX86 { handle: 4, domain_id: 5 };
    let mut seen: usize = 0;
    for action in &actions {
        if let RunAction::Load(a, c, m) = action {
            let rw = wide.load_assembly(a, c, m);
            let rn = narrow.load_assembly(a, c, m);
            assert_eq!(rw.assembly, rn.assembly);
            assert_eq!(rw.class, rn.class);
            assert_eq!(rw.method, rn.method);
            seen += 1;
        }
    }
    assert_eq!(seen, 2);
}
