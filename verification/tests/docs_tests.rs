use patchwork::docs::ProjectDoc;
use patchwork::docs::SaveOutcome;
use patchwork::docs::StringOrPackedByteArray;
use patchwork::docs::bytes_eq;
use patchwork::docs::get_file;
use patchwork::docs::get_linked_docs_of_branch;
use patchwork::docs::save_file;
use patchwork::ids::make_automerge_url;
use patchwork::ids::parse_automerge_url;
use patchwork::ids::parse_heads;
use patchwork::strmap::StrMap;

fn fresh_id() -> String {
    format!("{}", automerge_repo::DocumentId::random())
}

#[test]
fn save_text_then_read() {
    let mut doc = ProjectDoc::new();
    let changed = doc.save_text("res://a.txt", String::from("hello"));
    assert!(changed);
    let binaries: StrMap<Vec<u8>> = StrMap::new();
    match get_file(&doc, &binaries, "res://a.txt") {
        Some(StringOrPackedByteArray::Text(t)) => assert_eq!(t, String::from("hello")),
        _ => panic!("expected text"),
    }
    let files = doc.list_files();
    assert_eq!(files, vec![String::from("res://a.txt")]);
}

#[test]
fn second_identical_text_save_is_a_no_op() {
    let mut doc = ProjectDoc::new();
    assert!(doc.save_text("res://a.txt", String::from("hello")));
    assert!(!doc.save_text("res://a.txt", String::from("hello")));
    assert!(doc.save_text("res://a.txt", String::from("hello2")));
}

#[test]
fn missing_file_reads_as_none() {
    let doc = ProjectDoc::new();
    let binaries: StrMap<Vec<u8>> = StrMap::new();
    assert!(get_file(&doc, &binaries, "res://nope.txt").is_none());
}

#[test]
fn binary_save_needs_a_fresh_doc_then_links_it() {
    let mut doc = ProjectDoc::new();
    let mut binaries: StrMap<Vec<u8>> = StrMap::new();
    let payload: Vec<u8> = vec![0xDE, 0xAD, 0xBE, 0xEF];
    let first = save_file(
        &mut doc,
        &mut binaries,
        "res://img.png",
        StringOrPackedByteArray::Bytes(payload.clone()),
        None,
    );
    assert!(matches!(first, SaveOutcome::NeedsBinaryDoc));
    let id = fresh_id();
    let second = save_file(
        &mut doc,
        &mut binaries,
        "res://img.png",
        StringOrPackedByteArray::Bytes(payload.clone()),
        Some(id.clone()),
    );
    assert!(matches!(second, SaveOutcome::SavedBinary));
    match get_file(&doc, &binaries, "res://img.png") {
        Some(StringOrPackedByteArray::Bytes(b)) => assert_eq!(b, payload),
        _ => panic!("expected bytes"),
    }
    let linked = get_linked_docs_of_branch(&doc);
    assert_eq!(linked, vec![id]);
}

#[test]
fn saving_identical_bytes_again_is_a_no_op() {
    let mut doc = ProjectDoc::new();
    let mut binaries: StrMap<Vec<u8>> = StrMap::new();
    let payload: Vec<u8> = vec![1, 2, 3];
    let id = fresh_id();
    let first = save_file(
        &mut doc,
        &mut binaries,
        "res://b.bin",
        StringOrPackedByteArray::Bytes(payload.clone()),
        Some(id),
    );
    assert!(matches!(first, SaveOutcome::SavedBinary));
    let again = save_file(
        &mut doc,
        &mut binaries,
        "res://b.bin",
        StringOrPackedByteArray::Bytes(payload.clone()),
        None,
    );
    assert!(matches!(again, SaveOutcome::NoChange));
}

#[test]
fn text_save_replaces_a_binary_entry() {
    let mut doc = ProjectDoc::new();
    let mut binaries: StrMap<Vec<u8>> = StrMap::new();
    let id = fresh_id();
    save_file(
        &mut doc,
        &mut binaries,
        "res://f",
        StringOrPackedByteArray::Bytes(vec![9]),
        Some(id),
    );
    let outcome = save_file(
        &mut doc,
        &mut binaries,
        "res://f",
        StringOrPackedByteArray::Text(String::from("now text")),
        None,
    );
    assert!(matches!(outcome, SaveOutcome::SavedText));
    match get_file(&doc, &binaries, "res://f") {
        Some(StringOrPackedByteArray::Text(t)) => assert_eq!(t, String::from("now text")),
        _ => panic!("expected text after overwrite"),
    }
    assert!(get_linked_docs_of_branch(&doc).is_empty());
}

#[test]
fn state_values_round_trip() {
    let mut doc = ProjectDoc::new();
    assert_eq!(doc.get_state_int("player", "score"), None);
    doc.set_state_int(String::from("player"), String::from("score"), 42);
    doc.set_state_int(String::from("player"), String::from("lives"), 3);
    doc.set_state_int(String::from("boss"), String::from("score"), -1);
    assert_eq!(doc.get_state_int("player", "score"), Some(42));
    assert_eq!(doc.get_state_int("player", "lives"), Some(3));
    assert_eq!(doc.get_state_int("boss", "score"), Some(-1));
    doc.set_state_int(String::from("player"), String::from("score"), 43);
    assert_eq!(doc.get_state_int("player", "score"), Some(43));
}

#[test]
fn automerge_url_round_trips_for_real_ids() {
    let id = fresh_id();
    let url = make_automerge_url(&id);
    assert_eq!(url, format!("automerge:{}", id));
    assert_eq!(parse_automerge_url(&url), Some(id));
}

#[test]
fn automerge_url_rejects_bad_prefix_and_bad_id() {
    let id = fresh_id();
    assert_eq!(parse_automerge_url(&format!("automerg:{}", id)), None);
    assert_eq!(parse_automerge_url("automerge:not-a-valid-id!"), None);
    assert_eq!(parse_automerge_url(""), None);
}

#[test]
fn heads_parse_splits_on_commas_and_validates() {
    let h1: String = "ab".repeat(32);
    let h2: String = "cd".repeat(32);
    let joined = format!("{},{}", h1, h2);
    assert_eq!(parse_heads(&joined), Some(vec![h1.clone(), h2]));
    assert_eq!(parse_heads(&h1), Some(vec![h1.clone()]));
    assert_eq!(parse_heads("nothex"), None);
    assert_eq!(parse_heads(""), None);
    assert_eq!(parse_heads(&format!("{},", h1)), None);
}

#[test]
fn bytes_eq_compares_contents() {
    assert!(bytes_eq(&vec![1, 2], &vec![1, 2]));
    assert!(!bytes_eq(&vec![1, 2], &vec![1, 3]));
    assert!(!bytes_eq(&vec![1, 2], &vec![1, 2, 3]));
    assert!(bytes_eq(&Vec::new(), &Vec::new()));
}
