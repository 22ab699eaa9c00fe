use gitvol::record::{Opt, Repo};
use gitvol::store::{EntryAction, EntryProbe, Store};
use gitvol::volume::RecordProbe;

fn create_repo(name: &str, id: &str) -> Repo {
    Repo::new(
        name.to_string(),
        Opt::new("https://example.com".to_string(), None, false),
        vec![id.to_string()],
    )
}

fn repo_with_ids(name: &str, ids: &[&str]) -> Repo {
    Repo::new(
        name.to_string(),
        Opt::new("http://some.git".to_string(), None, true),
        ids.iter().map(|s| s.to_string()).collect(),
    )
}

#[test]
fn creates_store_with_empty_maps() {
    let store = Store::new("/tmp");
    assert_eq!(store.base_path(), "/tmp");
    assert!(!store.has_volume("anything"));
    assert!(store.get_by_name("name", "id").is_none());
}

#[test]
fn create_volume_inner_creates_directory_and_registers_volume() {
    let mut store = Store::new("/base");
    let path = store.create_volume("some_hash_string", "volume_name", create_repo("volume_name", "container_id"));

    assert_eq!(path, "/base/some_hash_string");
    let volume = store.get_by_hash("some_hash_string").unwrap();
    assert_eq!("volume_name", volume.get_name().unwrap());
    assert_eq!(volume.path(), "/base/some_hash_string");
    assert!(store.has_volume("some_hash_string"));
}

#[test]
fn create_volume_stores_volume_and_remembers_ids() {
    let mut store = Store::new("/base");
    let name = "volume_name";
    let id = "container_id";
    let hash = "some_hash_string";

    let path = store.create_volume(hash, name, create_repo(name, id));
    assert_eq!(path, "/base/some_hash_string");

    let volume = store.get_by_hash(hash).unwrap();
    assert_eq!(name, volume.get_name().unwrap());
    assert!(store.has_volume(hash));
    assert_eq!(store.hash_of(name, id), Some(hash.to_string()));
}

#[test]
fn create_draft_volume_creates_empty_volume() {
    let mut store = Store::new("/base");
    let hash = "some_hash_string";

    let path = store.create_draft_volume(hash);
    let volume = store.get_by_hash(hash).unwrap();

    assert!(volume.get_repo().is_err());
    assert_eq!(path, "/base/some_hash_string");
    assert_eq!(volume.path(), "/base/some_hash_string");
}

#[test]
fn create_volume_replaces_existing_entry() {
    let mut store = Store::new("/base");
    store.create_volume("h", "first", create_repo("first", "c1"));
    store.create_volume("h", "second", create_repo("second", "c2"));

    assert_eq!(store.get_by_hash("h").unwrap().get_name().unwrap(), "second");
    assert_eq!(store.hash_of("first", "c1"), Some("h".to_string()));
    assert_eq!(store.hash_of("second", "c2"), Some("h".to_string()));
}

#[test]
fn exists_returns_false_for_missing_volume() {
    let store = Store::new("/base");
    assert!(!store.has_volume("some hash string"));
}

#[test]
fn exists_returns_true_for_existing_volume() {
    let mut store = Store::new("/base");
    let hash = "some hash string";
    store.create_draft_volume(hash);
    assert!(store.has_volume(hash));
}

#[test]
fn get_by_hash_returns_none_when_missing() {
    let store = Store::new("/base");
    assert!(store.get_by_hash("some hash string").is_none());
}

#[test]
fn get_by_hash_returns_some_when_exists() {
    let mut store = Store::new("/base");
    store.create_draft_volume("some hash string");
    assert!(store.get_by_hash("some hash string").is_some());
}

#[test]
fn get_by_name_returns_none_when_unmapped() {
    let store = Store::new("/base");
    assert!(store.get_by_name("name", "id").is_none());
}

#[test]
fn get_by_name_returns_volume_when_mapped() {
    let mut store = Store::new("/base");
    let name = "volume_name";
    let id = "container_id";
    store.create_volume("some hash string", name, create_repo(name, id));
    assert!(store.get_by_name(name, id).is_some());
}

#[test]
fn get_by_name_and_get_by_hash_give_the_same_volume() {
    let mut store = Store::new("/base");
    store.create_volume("h", "vol1", repo_with_ids("vol1", &["id"]));

    let by_name = store.get_by_name("vol1", "id").unwrap();
    let by_hash = store.get_by_hash("h").unwrap();
    assert!(std::ptr::eq(by_name, by_hash));
}

#[test]
fn remember_ids_adds_all_ids_for_volume() {
    let mut store = Store::new("/base");
    let name = "volume_name";
    let id = "container_id";
    let hash = "some_hash_string";
    store.create_draft_volume(hash);

    store.remember_ids(name, hash, &vec![id.to_string()]);

    assert_eq!(store.hash_of(name, id), Some(hash.to_string()));
}

#[test]
fn remember_ids_points_every_id_at_the_hash() {
    let mut store = Store::new("/base");
    store.create_draft_volume("h");
    store.create_draft_volume("other");
    store.remember_ids("name", "other", &vec!["id1".to_string()]);

    store.remember_ids("name", "h", &vec!["id1".to_string(), "id2".to_string()]);

    assert_eq!(store.hash_of("name", "id1"), Some("h".to_string()));
    assert_eq!(store.hash_of("name", "id2"), Some("h".to_string()));
    assert_eq!(store.get_by_name("name", "id2").unwrap().path(), "/base/h");
    assert!(store.hash_of("other-name", "id1").is_none());
}

#[test]
fn delete_volume_by_hash_removes_volume_and_related_ids() {
    let mut store = Store::new("/base");
    let name = "volume_name";
    let id = "container_id";
    let hash = "some_hash_string";
    store.create_volume(hash, name, create_repo(name, id));

    let removed = store.delete_volume_by_hash(hash).unwrap();
    assert_eq!(removed.path(), "/base/some_hash_string");

    assert!(store.get_by_hash(hash).is_none());
    assert!(store.hash_of(name, id).is_none());
}

#[test]
fn delete_volume_by_hash_removes_links_of_every_name() {
    let mut store = Store::new("/base");
    store.create_volume("h", "alpha", repo_with_ids("alpha", &["c1", "c2"]));
    store.remember_ids("beta", "h", &vec!["c3".to_string()]);
    store.create_volume("k", "gamma", repo_with_ids("gamma", &["c1"]));

    store.delete_volume_by_hash("h");

    assert!(store.hash_of("alpha", "c1").is_none());
    assert!(store.hash_of("alpha", "c2").is_none());
    assert!(store.hash_of("beta", "c3").is_none());
    assert_eq!(store.hash_of("gamma", "c1"), Some("k".to_string()));
    assert!(store.has_volume("k"));
}

#[test]
fn delete_volume_by_hash_skips_when_not_found() {
    let mut store = Store::new("/base");
    assert!(store.delete_volume_by_hash("some non-existing hash").is_none());
}

#[test]
fn delete_volume_by_hash_handles_missing_repo() {
    let mut store = Store::new("/base");
    let hash = "some_hash_string";
    store.create_draft_volume(hash);

    let removed = store.delete_volume_by_hash(hash).unwrap();
    assert!(removed.get_repo().is_err());
    assert!(!store.has_volume(hash));
}

#[test]
fn delete_volume_by_name_removes_volume_if_mapped() {
    let mut store = Store::new("/base");
    let name = "mapped";
    let id = "container_id";
    let hash = "mapped_hash";
    store.create_volume(hash, name, create_repo(name, id));

    let removed = store.delete_volume_by_name(name, id).unwrap();
    assert_eq!(removed.path(), "/base/mapped_hash");

    assert!(store.get_by_hash(hash).is_none());
    assert!(store.hash_of(name, id).is_none());
}

#[test]
fn delete_volume_by_name_does_nothing_if_not_mapped() {
    let mut store = Store::new("/base");
    store.create_draft_volume("some_hash");

    let result = store.delete_volume_by_name("name", "id");
    assert!(result.is_none());
    assert!(store.has_volume("some_hash"));
}

#[test]
fn returns_empty_store_if_dir_missing() {
    let (store, actions) = Store::load("/base/non_existent_dir", Vec::new());
    assert!(actions.is_empty());
    assert_eq!(store.base_path(), "/base/non_existent_dir");
    assert!(!store.has_volume("some-hash"));
}

#[test]
fn removes_non_directory_entries_in_base_path() {
    let (store, actions) = Store::load(
        "/base",
        vec![("some.txt".to_string(), EntryProbe::NotADirectory)],
    );
    assert_eq!(actions, vec![EntryAction::RemoveFile]);
    assert!(!store.has_volume("some.txt"));
}

#[test]
fn removes_directories_missing_repo_subdir() {
    let (store, actions) = Store::load("/base", vec![("some-hash".to_string(), EntryProbe::NoMarker)]);
    assert_eq!(actions, vec![EntryAction::RemoveDir]);
    assert!(!store.has_volume("some-hash"));
}

#[test]
fn removes_volumes_with_invalid_or_unreadable_repo_json() {
    let (store, actions) = Store::load(
        "/base",
        vec![(
            "some-hash".to_string(),
            EntryProbe::Marked(RecordProbe::Unparsable("EOF while parsing a string".to_string())),
        )],
    );
    assert_eq!(actions, vec![EntryAction::RemoveDir]);
    assert!(!store.has_volume("some-hash"));
}

#[test]
fn restores_valid_volumes_and_rebuilds_ids_relations() {
    let (store, actions) = Store::load(
        "/base",
        vec![
            (
                "some-hash-1".to_string(),
                EntryProbe::Marked(RecordProbe::Parsed(repo_with_ids("name 1", &[]))),
            ),
            (
                "some-hash-2".to_string(),
                EntryProbe::Marked(RecordProbe::Parsed(repo_with_ids("name 2", &[]))),
            ),
        ],
    );
    assert_eq!(actions, vec![EntryAction::Keep, EntryAction::Keep]);

    let name1 = store.get_by_hash("some-hash-1").unwrap().get_name().unwrap();
    let name2 = store.get_by_hash("some-hash-2").unwrap().get_name().unwrap();
    assert_eq!("name 1", name1);
    assert_eq!("name 2", name2);
}

#[test]
fn recovery_keeps_only_the_complete_readable_entry() {
    let (store, actions) = Store::load(
        "/base",
        vec![
            ("stray.txt".to_string(), EntryProbe::NotADirectory),
            ("unfinished".to_string(), EntryProbe::NoMarker),
            (
                "corrupt".to_string(),
                EntryProbe::Marked(RecordProbe::Unparsable("expected value".to_string())),
            ),
            (
                "good".to_string(),
                EntryProbe::Marked(RecordProbe::Parsed(repo_with_ids("vol", &["id1", "id2"]))),
            ),
        ],
    );
    assert_eq!(
        actions,
        vec![
            EntryAction::RemoveFile,
            EntryAction::RemoveDir,
            EntryAction::RemoveDir,
            EntryAction::Keep
        ]
    );
    assert!(store.has_volume("good"));
    assert!(!store.has_volume("stray.txt"));
    assert!(!store.has_volume("unfinished"));
    assert!(!store.has_volume("corrupt"));
    assert_eq!(store.hash_of("vol", "id1"), Some("good".to_string()));
    assert_eq!(store.hash_of("vol", "id2"), Some("good".to_string()));
    assert_eq!(store.get_by_hash("good").unwrap().path(), "/base/good");
}

#[test]
fn load_entry_rolls_back_the_draft_on_a_missing_record() {
    let mut store = Store::new("/base");
    let action = store.load_entry("h", EntryProbe::Marked(RecordProbe::Missing));
    assert_eq!(action, EntryAction::RemoveDir);
    assert!(!store.has_volume("h"));
}

#[test]
fn locked_record_stays_locked_after_reload() {
    let mut store = Store::new("/base");
    store.create_volume("h", "vol", repo_with_ids("vol", &["c"]));
    let volume = store.get_by_hash_mut("h").unwrap();
    assert_eq!(volume.lock_repo(true), Ok(true));
    assert_eq!(volume.lock_repo(true), Ok(false));

    let mut saved = repo_with_ids("vol", &["c"]);
    saved.locked = store.get_by_hash("h").unwrap().is_locked().unwrap();

    let (reloaded, _) = Store::load(
        "/base",
        vec![("h".to_string(), EntryProbe::Marked(RecordProbe::Parsed(saved)))],
    );
    assert_eq!(reloaded.get_by_hash("h").unwrap().is_locked(), Ok(true));
}

#[test]
fn end_to_end_create_lookup_delete() {
    let mut store = Store::new("/base");
    let repo = Repo::new(
        "alpha".to_string(),
        Opt::new("https://x/repo.git".to_string(), None, false),
        vec!["c1".to_string()],
    );
    let path = store.create_volume("h1", "alpha", repo);
    assert_eq!(path, "/base/h1");

    let by_hash = store.get_by_hash("h1").unwrap();
    let by_name = store.get_by_name("alpha", "c1").unwrap();
    assert!(std::ptr::eq(by_hash, by_name));

    let removed = store.delete_volume_by_hash("h1").unwrap();
    assert_eq!(removed.path(), "/base/h1");
    assert!(store.get_by_hash("h1").is_none());
    assert!(store.get_by_name("alpha", "c1").is_none());
}
