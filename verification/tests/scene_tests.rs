use patchwork::scene::PackedGodotScene;
use patchwork::scene::external_resource_to_path;
use patchwork::scene::get_external_resource_by_id;
use patchwork::scene::get_node_attributes;
use patchwork::scene::get_node_by_path;
use patchwork::scene::get_node_name;
use patchwork::scene::get_node_parent;
use patchwork::scene::get_node_path;
use patchwork::scene::get_node_properties;
use patchwork::scene::reconcile_scene;
use patchwork::scene::unquote;
use patchwork::scene_parse::parse;
use patchwork::scene_parse::path_is_scene;
use patchwork::scene_parse::save_scene;

const SCENE: &str = "[gd_scene load_steps=2 format=3]\n\n[ext_resource type=\"Script\" path=\"res://player.gd\" id=\"1_abc\"]\n\n[node name=\"Root\" type=\"Node2D\"]\n\n[node name=\"Player\" parent=\".\" type=\"CharacterBody2D\"]\nposition = Vector2(1, 2)\nscript = ExtResource(\"1_abc\")\n\n[node name=\"Sprite\" parent=\"Player\" type=\"Sprite2D\"]\nz = 1\n";

#[test]
fn parse_collects_nodes_by_path() {
    let scene = parse(SCENE).unwrap();
    assert!(get_node_by_path(&scene, "Root").is_some());
    assert!(get_node_by_path(&scene, "Player").is_some());
    assert!(get_node_by_path(&scene, "Player/Sprite").is_some());
    assert!(get_node_by_path(&scene, "Missing").is_none());
}

#[test]
fn parse_keeps_header_attributes_quoted() {
    let scene = parse(SCENE).unwrap();
    let player = get_node_by_path(&scene, "Player").unwrap();
    let attrs = get_node_attributes(&player);
    assert_eq!(attrs.get("type"), Some(&String::from("\"CharacterBody2D\"")));
    assert_eq!(attrs.get("parent"), Some(&String::from("\".\"")));
}

#[test]
fn parse_substitutes_ext_resource_references() {
    let scene = parse(SCENE).unwrap();
    let player = get_node_by_path(&scene, "Player").unwrap();
    let props = get_node_properties(&player);
    assert_eq!(props.get("script"), Some(&String::from("res://player.gd")));
    assert_eq!(props.get("position"), Some(&String::from("Vector2(1, 2)")));
}

#[test]
fn parse_collects_external_resources_by_unquoted_id() {
    let scene = parse(SCENE).unwrap();
    let res = get_external_resource_by_id(&scene, "1_abc").unwrap();
    let attrs = get_node_attributes(&res);
    assert_eq!(attrs.get("path"), Some(&String::from("\"res://player.gd\"")));
    assert!(get_external_resource_by_id(&scene, "2_zzz").is_none());
}

#[test]
fn parse_substitutes_instance_attribute() {
    let text = "[ext_resource type=\"PackedScene\" path=\"res://enemy.tscn\" id=\"2_en\"]\n[node name=\"Enemy\" parent=\".\" instance=ExtResource(\"2_en\")]\n";
    let scene = parse(text).unwrap();
    let enemy = get_node_by_path(&scene, "Enemy").unwrap();
    let attrs = get_node_attributes(&enemy);
    assert_eq!(attrs.get("instance"), Some(&String::from("res://enemy.tscn")));
}

#[test]
fn parse_rejects_unclosed_header() {
    assert!(parse("[node name=\"X\"\n").is_err());
}

#[test]
fn parse_rejects_unterminated_quote_in_header() {
    assert!(parse("[node name=\"X]\n").is_err());
}

#[test]
fn parse_accepts_empty_input() {
    let scene = parse("").unwrap();
    assert!(get_node_by_path(&scene, "Root").is_none());
}

#[test]
fn node_name_and_parent_are_unquoted() {
    let scene = parse(SCENE).unwrap();
    let sprite = get_node_by_path(&scene, "Player/Sprite").unwrap();
    assert_eq!(get_node_name(&sprite), Some(String::from("Sprite")));
    assert_eq!(get_node_parent(&sprite), Some(String::from("Player")));
}

#[test]
fn node_path_falls_back_to_name_for_unknown_parent() {
    let scene = parse(SCENE).unwrap();
    let text = "[node name=\"Orphan\" parent=\"NoSuchNode\"]\n";
    let one = parse(text).unwrap();
    let orphan = get_node_by_path(&one, "Orphan").unwrap();
    assert_eq!(get_node_path(&scene, &orphan), Some(String::from("Orphan")));
}

#[test]
fn unquote_strips_one_quote_layer() {
    assert_eq!(unquote("\"abc\""), String::from("abc"));
    assert_eq!(unquote("abc"), String::from("abc"));
    assert_eq!(unquote("\""), String::from("\""));
    assert_eq!(unquote(""), String::from(""));
}

#[test]
fn external_resource_to_path_requires_known_id() {
    let scene = parse(SCENE).unwrap();
    assert_eq!(
        external_resource_to_path("ExtResource(\"1_abc\")", &scene),
        Some(String::from("res://player.gd"))
    );
    assert_eq!(external_resource_to_path("ExtResource(\"9_zzz\")", &scene), None);
    assert_eq!(external_resource_to_path("Vector2(1, 2)", &scene), None);
}

#[test]
fn scene_round_trip_preserves_every_node() {
    let scene = parse(SCENE).unwrap();
    let mut doc = PackedGodotScene::empty();
    reconcile_scene(&mut doc, &scene);
    for path in ["Root", "Player", "Player/Sprite"] {
        let orig = get_node_by_path(&scene, path).unwrap();
        let hydrated = get_node_by_path(&doc, path).unwrap();
        let oa = get_node_attributes(&orig);
        let ha = get_node_attributes(&hydrated);
        for key in ["name", "parent", "type", "instance"] {
            assert_eq!(oa.get(key), ha.get(key));
        }
        let op = get_node_properties(&orig);
        let hp = get_node_properties(&hydrated);
        for key in ["position", "script", "z"] {
            assert_eq!(op.get(key), hp.get(key));
        }
    }
}

#[test]
fn reconcile_does_not_delete_existing_keys() {
    let first = parse("[node name=\"A\" parent=\".\" type=\"Node\"]\nx = 1\n").unwrap();
    let mut doc = PackedGodotScene::empty();
    reconcile_scene(&mut doc, &first);
    let second = parse("[node name=\"A\" parent=\".\"]\ny = 2\n").unwrap();
    reconcile_scene(&mut doc, &second);
    let node = get_node_by_path(&doc, "A").unwrap();
    let props = get_node_properties(&node);
    assert_eq!(props.get("x"), Some(&String::from("1")));
    assert_eq!(props.get("y"), Some(&String::from("2")));
    let attrs = get_node_attributes(&node);
    assert_eq!(attrs.get("type"), Some(&String::from("\"Node\"")));
}

#[test]
fn reconcile_overwrites_changed_values() {
    let first = parse("[node name=\"A\" parent=\".\"]\nx = 1\n").unwrap();
    let mut doc = PackedGodotScene::empty();
    reconcile_scene(&mut doc, &first);
    let second = parse("[node name=\"A\" parent=\".\"]\nx = 2\n").unwrap();
    reconcile_scene(&mut doc, &second);
    let node = get_node_by_path(&doc, "A").unwrap();
    let props = get_node_properties(&node);
    assert_eq!(props.get("x"), Some(&String::from("2")));
}

#[test]
fn save_scene_only_touches_scene_files() {
    let mut doc = PackedGodotScene::empty();
    assert_eq!(save_scene(&mut doc, "res://notes.txt", SCENE), Ok(false));
    assert!(get_node_by_path(&doc, "Player").is_none());
    assert_eq!(save_scene(&mut doc, "res://main.tscn", SCENE), Ok(true));
    assert!(get_node_by_path(&doc, "Player").is_some());
    assert!(save_scene(&mut doc, "res://main.tscn", "[broken\n").is_err());
}

#[test]
fn delete_node_is_explicit_and_reports_presence() {
    let scene = parse(SCENE).unwrap();
    let mut doc = PackedGodotScene::empty();
    reconcile_scene(&mut doc, &scene);
    assert!(doc.delete_node("Player/Sprite"));
    assert!(get_node_by_path(&doc, "Player/Sprite").is_none());
    assert!(get_node_by_path(&doc, "Player").is_some());
    assert!(!doc.delete_node("Player/Sprite"));
}

#[test]
fn path_is_scene_checks_the_suffix() {
    assert!(path_is_scene("res://main.tscn"));
    assert!(path_is_scene("main.tscn"));
    assert!(!path_is_scene("res://other.tscn"));
    assert!(!path_is_scene("tscn"));
}
