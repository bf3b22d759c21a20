use patchwork::docs::ProjectDoc;
use patchwork::docs::StringOrPackedByteArray;
use patchwork::driver::Branch;
use patchwork::driver::DriverOutputEvent;
use patchwork::events::PatchActionModel;
use patchwork::events::PatchInfo;
use patchwork::events::PathStep;
use patchwork::events::SceneEvent;
use patchwork::events::interpret_patch;
use patchwork::events::should_emit_change;
use patchwork::facade::GodotProject_rs;
use patchwork::facade::HostSignal;
use patchwork::scene_parse::parse;

fn fresh_id() -> String {
    format!("{}", automerge_repo::DocumentId::random())
}

#[test]
fn doc_change_signals_depend_on_which_document_changed() {
    let mut facade = GodotProject_rs::new();
    let meta_id = fresh_id();
    let branch_id = fresh_id();
    facade.set_project_doc_id(meta_id.clone());
    let events = vec![
        DriverOutputEvent::CheckedOutBranch { branch_doc_id: branch_id.clone() },
        DriverOutputEvent::DocHandleChanged { doc_id: branch_id.clone() },
        DriverOutputEvent::DocHandleChanged { doc_id: meta_id },
        DriverOutputEvent::DocHandleChanged { doc_id: fresh_id() },
    ];
    let signals = facade.process(&events);
    assert_eq!(signals.len(), 3);
    assert!(matches!(
        signals[0],
        HostSignal::CheckedOutBranch { .. }
    ));
    assert!(matches!(signals[1], HostSignal::FilesChanged));
    assert!(matches!(signals[2], HostSignal::BranchesChanged));
    assert_eq!(facade.get_checked_out_branch_id(), Some(branch_id));
}

#[test]
fn branches_update_replaces_the_cached_list() {
    let mut facade = GodotProject_rs::new();
    let id_a = fresh_id();
    let id_b = fresh_id();
    let events = vec![DriverOutputEvent::BranchesUpdated {
        branches: vec![
            Branch { name: String::from("main"), id: id_a, is_merged: true },
            Branch { name: String::from("feature"), id: id_b, is_merged: false },
        ],
    }];
    let signals = facade.process(&events);
    assert!(matches!(signals[0], HostSignal::BranchesChanged));
    let listed = facade.get_branches();
    assert_eq!(listed.len(), 2);
    assert!(listed.iter().any(|b| b.name == "feature" && !b.is_merged));
}

#[test]
fn facade_reads_go_through_the_cached_branch_document() {
    let mut facade = GodotProject_rs::new();
    assert!(facade.get_file("res://a.txt").is_none());
    assert_eq!(facade.get_state_int("e", "p"), None);

    let mut doc = ProjectDoc::new();
    doc.save_text("res://a.txt", String::from("hello"));
    facade.set_checked_out_doc(doc);
    match facade.get_file("res://a.txt") {
        Some(StringOrPackedByteArray::Text(t)) => assert_eq!(t, String::from("hello")),
        _ => panic!("expected text"),
    }
    assert_eq!(facade.list_all_files(), vec![String::from("res://a.txt")]);

    facade.set_state_int(String::from("e"), String::from("p"), 7);
    assert_eq!(facade.get_state_int("e", "p"), Some(7));
}

#[test]
fn facade_follows_binary_links_into_the_cache() {
    let mut facade = GodotProject_rs::new();
    let id = fresh_id();
    let mut doc = ProjectDoc::new();
    doc.set_binary_url("res://img.png", format!("automerge:{}", id));
    facade.set_checked_out_doc(doc);
    assert!(facade.get_file("res://img.png").is_none());
    facade.set_binary_doc(id, vec![5, 6]);
    match facade.get_file("res://img.png") {
        Some(StringOrPackedByteArray::Bytes(b)) => assert_eq!(b, vec![5, 6]),
        _ => panic!("expected bytes"),
    }
}

#[test]
fn heads_cache_round_trips() {
    let mut facade = GodotProject_rs::new();
    assert!(facade.get_heads().is_empty());
    facade.set_heads(vec![String::from("aa"), String::from("bb")]);
    assert_eq!(facade.get_heads(), vec![String::from("aa"), String::from("bb")]);
}

fn put_patch(path: Vec<PathStep>, key: &str, value: &str) -> PatchInfo {
    PatchInfo {
        action: PatchActionModel::PutString {
            key: String::from(key),
            value: String::from(value),
        },
        path,
    }
}

#[test]
fn property_patch_becomes_a_property_changed_event() {
    let scene = parse("[node name=\"Player\" parent=\".\" type=\"Node2D\"]\n").unwrap();
    let patch = put_patch(
        vec![
            PathStep::MapKey(String::from("nodes")),
            PathStep::MapKey(String::from("Player")),
            PathStep::MapKey(String::from("properties")),
        ],
        "position",
        "Vector2(3, 4)",
    );
    match interpret_patch(&patch, &scene) {
        Some(SceneEvent::PropertyChanged { node_path, key, value, instance_path, instance_type }) => {
            assert_eq!(node_path, String::from("Player"));
            assert_eq!(key, String::from("position"));
            assert_eq!(value, String::from("Vector2(3, 4)"));
            assert_eq!(instance_path, None);
            assert_eq!(instance_type, Some(String::from("\"Node2D\"")));
        },
        _ => panic!("expected a property change"),
    }
}

#[test]
fn attribute_patch_prefers_the_instance_attribute() {
    let scene = parse(
        "[ext_resource type=\"PackedScene\" path=\"res://e.tscn\" id=\"1_e\"]\n[node name=\"E\" parent=\".\" type=\"Node\" instance=ExtResource(\"1_e\")]\n",
    )
    .unwrap();
    let patch = put_patch(
        vec![
            PathStep::MapKey(String::from("nodes")),
            PathStep::MapKey(String::from("E")),
            PathStep::MapKey(String::from("attributes")),
        ],
        "visible",
        "true",
    );
    match interpret_patch(&patch, &scene) {
        Some(SceneEvent::AttributeChanged { instance_path, instance_type, .. }) => {
            assert_eq!(instance_path, Some(String::from("res://e.tscn")));
            assert_eq!(instance_type, None);
        },
        _ => panic!("expected an attribute change"),
    }
}

#[test]
fn patches_outside_the_nodes_map_are_invisible() {
    let scene = parse("").unwrap();
    let patch = put_patch(
        vec![
            PathStep::MapKey(String::from("files")),
            PathStep::MapKey(String::from("X")),
            PathStep::MapKey(String::from("properties")),
        ],
        "k",
        "v",
    );
    assert!(interpret_patch(&patch, &scene).is_none());
    let shallow = put_patch(vec![PathStep::MapKey(String::from("nodes"))], "k", "v");
    assert!(interpret_patch(&shallow, &scene).is_none());
}

#[test]
fn node_deletion_patch_becomes_a_node_deleted_event() {
    let scene = parse("").unwrap();
    let patch = PatchInfo {
        action: PatchActionModel::DeleteKey { key: String::from("Player") },
        path: vec![PathStep::MapKey(String::from("nodes"))],
    };
    match interpret_patch(&patch, &scene) {
        Some(SceneEvent::NodeDeleted { node_path }) => {
            assert_eq!(node_path, String::from("Player"));
        },
        _ => panic!("expected a node deletion"),
    }
    let deep = PatchInfo {
        action: PatchActionModel::DeleteKey { key: String::from("x") },
        path: vec![
            PathStep::MapKey(String::from("nodes")),
            PathStep::MapKey(String::from("Player")),
        ],
    };
    assert!(interpret_patch(&deep, &scene).is_none());
}

#[test]
fn change_filter_requires_new_heads_and_a_non_empty_diff() {
    let a = vec![String::from("h1")];
    let b = vec![String::from("h2")];
    assert!(should_emit_change(&a, &b, false));
    assert!(!should_emit_change(&a, &a.clone(), false));
    assert!(!should_emit_change(&a, &b, true));
    assert!(should_emit_change(&a, &Vec::new(), false));
}
