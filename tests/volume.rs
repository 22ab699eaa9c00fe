use gitvol::record::{Opt, Repo};
use gitvol::volume::{LoadError, RecordProbe, Volume, VolumeError};

fn create_repo(name: &str, id: &str) -> Repo {
    Repo::new(
        name.to_string(),
        Opt::new("https://example.com".to_string(), None, false),
        vec![id.to_string()],
    )
}

fn create_volume(path: &str, repo: Option<(&str, &str)>) -> Volume {
    match repo {
        Some((name, id)) => Volume::ready(path.to_string(), create_repo(name, id)),
        None => Volume::draft(path.to_string()),
    }
}

fn create_volume_by_defpath(repo: Option<(&str, &str)>) -> Volume {
    create_volume("/tmp", repo)
}

#[test]
fn get_repo_returns_reference_when_present() {
    let volume = create_volume_by_defpath(Some(("volume_name", "container_id")));
    let repo = volume.get_repo().unwrap();

    assert_eq!("volume_name", repo.origin_name);
    assert!(repo.has_consumer(&"container_id".to_string()));
}

#[test]
fn get_repo_fails_when_missing() {
    let volume = create_volume_by_defpath(None);
    let result = volume.get_repo();
    assert!(matches!(result, Err(VolumeError::MissingRepo)));
}

#[test]
fn get_name_returns_repo_name_when_present() {
    let volume = create_volume_by_defpath(Some(("volume_name", "container_id")));
    let name = volume.get_name().unwrap();

    assert_eq!("volume_name", name);
}

#[test]
fn get_name_fails_when_repo_missing() {
    let volume = create_volume_by_defpath(None);
    let result = volume.get_name();
    assert_eq!(result, Err(VolumeError::MissingRepo));
}

#[test]
fn get_repo_mut_returns_mutable_reference_when_present() {
    let mut volume = create_volume_by_defpath(Some(("volume_name", "container_id")));
    let repo = volume.get_repo_mut().unwrap();

    repo.origin_name = "new name".into();

    let repo = volume.get_repo().unwrap();
    assert_eq!(repo.origin_name, "new name");
}

#[test]
fn get_repo_mut_fails_when_missing() {
    let mut volume = create_volume_by_defpath(None);
    let result = volume.get_repo_mut();
    assert!(matches!(result, Err(VolumeError::MissingRepo)));
}

#[test]
fn is_locked_returns_true_when_locked() {
    let mut volume = create_volume("/tmp/some", Some(("volume_name", "container_id")));
    volume.lock_repo(true).unwrap();

    let is_locked = volume.is_locked().unwrap();
    assert!(is_locked);
}

#[test]
fn is_locked_returns_false_when_unlocked() {
    let mut volume = create_volume("/tmp/some", Some(("volume_name", "container_id")));
    volume.lock_repo(false).unwrap();

    let is_locked = volume.is_locked().unwrap();
    assert!(!is_locked);
}

#[test]
fn is_locked_fails_when_repo_missing() {
    let mut volume = create_volume_by_defpath(None);

    let lock_result = volume.lock_repo(true);
    assert_eq!(lock_result, Err(VolumeError::MissingRepo));

    let is_locked_result = volume.is_locked();
    assert_eq!(is_locked_result, Err(VolumeError::MissingRepo));
}

#[test]
fn locking_twice_asks_for_one_save() {
    let mut volume = create_volume_by_defpath(Some(("volume_name", "container_id")));
    assert_eq!(volume.lock_repo(true), Ok(true));
    assert_eq!(volume.lock_repo(true), Ok(false));
    assert_eq!(volume.is_locked(), Ok(true));
    assert_eq!(volume.lock_repo(false), Ok(true));
    assert_eq!(volume.lock_repo(false), Ok(false));
    assert_eq!(volume.is_locked(), Ok(false));
}

#[test]
fn record_file_is_repo_json_under_volume_path() {
    let volume = create_volume_by_defpath(None);
    assert_eq!(volume.record_file(), "/tmp/repo.json");
}

#[test]
fn load_repo_reads_json_and_parses_successfully() {
    let mut volume = create_volume("/tmp/vol", None);
    volume
        .load_repo(RecordProbe::Parsed(create_repo("volume_repo", "container_id")))
        .unwrap();

    let loaded_repo = volume.get_repo().unwrap();
    assert_eq!(loaded_repo.origin_name, "volume_repo");
    assert!(loaded_repo.has_consumer(&"container_id".to_string()));
    assert!(!loaded_repo.locked);
    assert_eq!(loaded_repo.opt.url, "https://example.com");
}

#[test]
fn load_repo_fails_when_file_missing() {
    let mut volume = create_volume("/tmp/vol", None);
    assert_eq!(volume.load_repo(RecordProbe::Missing), Err(LoadError::Missing));
    assert!(volume.get_repo().is_err());
}

#[test]
fn load_repo_fails_when_not_a_file() {
    let mut volume = create_volume("/tmp/vol", None);
    assert_eq!(volume.load_repo(RecordProbe::NotAFile), Err(LoadError::NotAFile));
}

#[test]
fn load_repo_fails_when_read_fails() {
    let mut volume = create_volume("/tmp/vol", None);
    let result = volume.load_repo(RecordProbe::ReadFailed("Permission denied".to_string()));
    assert_eq!(result, Err(LoadError::ReadFailed("Permission denied".to_string())));
}

#[test]
fn load_repo_fails_when_deserialization_fails() {
    let mut volume = create_volume("/tmp/vol", None);
    let result = volume.load_repo(RecordProbe::Unparsable("failed to deserialize".to_string()));
    assert_eq!(result, Err(LoadError::Unparsable("failed to deserialize".to_string())));
    assert!(volume.get_repo().is_err());
}
