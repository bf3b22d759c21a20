use patchwork::docs::ProjectDoc;
use patchwork::docs::StringOrPackedByteArray;
use patchwork::docs::save_file;
use patchwork::driver::Branch;
use patchwork::driver::BranchesMetadataDoc;
use patchwork::driver::DriverOutputEvent;
use patchwork::driver::DriverState;
use patchwork::driver::checkout_finish;
use patchwork::driver::create_branch;
use patchwork::driver::init_project_finish;
use patchwork::driver::init_project_new;
use patchwork::driver::merge_branch;
use patchwork::facade::GodotProject_rs;
use patchwork::facade::HostSignal;
use patchwork::strmap::StrMap;

fn fresh_id() -> String {
    format!("{}", automerge_repo::DocumentId::random())
}

fn branch_named(branches: &[Branch], name: &str) -> Option<Branch> {
    branches
        .iter()
        .find(|b| b.name == name)
        .map(|b| b.duplicate())
}

#[test]
fn cold_start_creates_a_single_main_branch() {
    let mut state = DriverState::new();
    let main_id = fresh_id();
    let meta_id = fresh_id();
    let events = init_project_new(&mut state, main_id.clone(), meta_id.clone());
    assert_eq!(events.len(), 3);
    match &events[2] {
        DriverOutputEvent::Initialized { branches, checked_out_doc_id } => {
            assert_eq!(branches.len(), 1);
            assert_eq!(branches[0].name, String::from("main"));
            assert_eq!(branches[0].id, main_id);
            assert!(branches[0].is_merged);
            assert_eq!(checked_out_doc_id, &main_id);
        },
        _ => panic!("expected an initialization event"),
    }

    let mut facade = GodotProject_rs::new();
    facade.set_project_doc_id(meta_id.clone());
    let signals = facade.process(&events);
    assert!(signals.iter().any(|s| matches!(s, HostSignal::Initialized)));
    assert_eq!(facade.get_checked_out_branch_id(), Some(main_id));
    assert_eq!(facade.get_doc_id(), Some(meta_id));
    assert_eq!(facade.get_branches().len(), 1);
    assert!(facade.list_all_files().is_empty());
}

#[test]
fn second_initialization_is_dropped() {
    let mut state = DriverState::new();
    init_project_new(&mut state, fresh_id(), fresh_id());
    let events = init_project_new(&mut state, fresh_id(), fresh_id());
    assert!(events.is_empty());
}

#[test]
fn create_branch_adds_an_unmerged_branch_and_checks_it_out() {
    let mut state = DriverState::new();
    let main_id = fresh_id();
    init_project_new(&mut state, main_id.clone(), fresh_id());
    let feature_id = fresh_id();
    let events = create_branch(&mut state, String::from("feature"), feature_id.clone());
    assert_eq!(events.len(), 3);
    match &events[0] {
        DriverOutputEvent::BranchesUpdated { branches } => {
            assert_eq!(branches.len(), 2);
            let feature = branch_named(branches, "feature").unwrap();
            assert_eq!(feature.id, feature_id);
            assert!(!feature.is_merged);
            assert!(branch_named(branches, "main").unwrap().is_merged);
        },
        _ => panic!("expected a branches update"),
    }
    match &events[1] {
        DriverOutputEvent::CheckedOutBranch { branch_doc_id } => {
            assert_eq!(branch_doc_id, &feature_id);
        },
        _ => panic!("expected a checkout event"),
    }
}

#[test]
fn create_branch_before_initialization_is_dropped() {
    let mut state = DriverState::new();
    let events = create_branch(&mut state, String::from("feature"), fresh_id());
    assert!(events.is_empty());
}

#[test]
fn merge_branch_latches_the_merged_flag() {
    let mut state = DriverState::new();
    init_project_new(&mut state, fresh_id(), fresh_id());
    let feature_id = fresh_id();
    create_branch(&mut state, String::from("feature"), feature_id.clone());
    let events = merge_branch(&mut state, &feature_id);
    assert_eq!(events.len(), 1);
    match &events[0] {
        DriverOutputEvent::BranchesUpdated { branches } => {
            let feature = branch_named(branches, "feature").unwrap();
            assert!(feature.is_merged);
            assert_eq!(feature.id, feature_id);
        },
        _ => panic!("expected a branches update"),
    }
    let none = merge_branch(&mut state, &fresh_id());
    assert!(none.is_empty());
}

fn branch_doc_with_binary(id: &str) -> ProjectDoc {
    let mut doc = ProjectDoc::new();
    let mut binaries: StrMap<Vec<u8>> = StrMap::new();
    save_file(
        &mut doc,
        &mut binaries,
        "res://img.png",
        StringOrPackedByteArray::Bytes(vec![1, 2, 3]),
        Some(String::from(id)),
    );
    doc
}

#[test]
fn checkout_waits_for_linked_documents() {
    let mut state = DriverState::new();
    init_project_new(&mut state, fresh_id(), fresh_id());
    let branch_id = fresh_id();
    let linked_id = fresh_id();
    let branch_doc = branch_doc_with_binary(&linked_id);

    let failed = checkout_finish(&mut state, branch_id.clone(), &branch_doc, Vec::new());
    assert!(!failed
        .iter()
        .any(|e| matches!(e, DriverOutputEvent::CheckedOutBranch { .. })));

    let ok = checkout_finish(
        &mut state,
        branch_id.clone(),
        &branch_doc,
        vec![linked_id],
    );
    match ok.last() {
        Some(DriverOutputEvent::CheckedOutBranch { branch_doc_id }) => {
            assert_eq!(branch_doc_id, &branch_id);
        },
        _ => panic!("expected the checkout to complete"),
    }
}

#[test]
fn checkout_without_links_succeeds_immediately() {
    let mut state = DriverState::new();
    init_project_new(&mut state, fresh_id(), fresh_id());
    let branch_id = fresh_id();
    let branch_doc = ProjectDoc::new();
    let events = checkout_finish(&mut state, branch_id.clone(), &branch_doc, Vec::new());
    assert!(matches!(
        events.last(),
        Some(DriverOutputEvent::CheckedOutBranch { .. })
    ));
}

#[test]
fn init_from_metadata_waits_for_linked_documents() {
    let meta_id = fresh_id();
    let main_id = fresh_id();
    let linked_id = fresh_id();
    let main_doc = branch_doc_with_binary(&linked_id);

    let mut branches: StrMap<Branch> = StrMap::new();
    branches.insert(
        main_id.clone(),
        Branch { name: String::from("main"), id: main_id.clone(), is_merged: true },
    );
    let metadata = BranchesMetadataDoc { main_doc_id: main_id.clone(), branches };

    let mut state = DriverState::new();
    let failed = init_project_finish(
        &mut state,
        meta_id.clone(),
        metadata,
        &main_doc,
        Vec::new(),
    );
    assert!(!failed
        .iter()
        .any(|e| matches!(e, DriverOutputEvent::Initialized { .. })));

    let mut branches2: StrMap<Branch> = StrMap::new();
    branches2.insert(
        main_id.clone(),
        Branch { name: String::from("main"), id: main_id.clone(), is_merged: true },
    );
    let metadata2 = BranchesMetadataDoc { main_doc_id: main_id.clone(), branches: branches2 };
    let ok = init_project_finish(
        &mut state,
        meta_id,
        metadata2,
        &main_doc,
        vec![linked_id],
    );
    match ok.last() {
        Some(DriverOutputEvent::Initialized { checked_out_doc_id, .. }) => {
            assert_eq!(checked_out_doc_id, &main_id);
        },
        _ => panic!("expected initialization to complete"),
    }
}

#[test]
fn init_from_metadata_rejects_misfiled_branches() {
    let mut branches: StrMap<Branch> = StrMap::new();
    let main_id = fresh_id();
    branches.insert(
        String::from("not-the-id"),
        Branch { name: String::from("main"), id: main_id.clone(), is_merged: true },
    );
    let metadata = BranchesMetadataDoc { main_doc_id: main_id, branches };
    let mut state = DriverState::new();
    let events = init_project_finish(
        &mut state,
        fresh_id(),
        metadata,
        &ProjectDoc::new(),
        Vec::new(),
    );
    assert!(!events
        .iter()
        .any(|e| matches!(e, DriverOutputEvent::Initialized { .. })));
}
