use gitvol::address::{address, address_of_digest, volume_key, ConfigError, GlobalConfig, MountConfig, MountConfigRequest};
use gitvol::record::Opt;

fn global_config() -> GlobalConfig {
    GlobalConfig::new("/tmp/root", "gitvol").unwrap()
}

const REPO_DIGEST: &str = "5f1ab8ba2aa77a6ea1f6d27e0a6a51ff2b1e5b3fd3ee77cb3a8b9d6f5b0c7f1a";

#[test]
fn mount_config_basic() {
    let global_config = global_config();
    let req = MountConfigRequest {
        id: "test1".into(),
        repo: "https://github.com/user/repo.git".into(),
        branch: None,
        updatable: None,
    };

    let config = MountConfig::new(&global_config, req).unwrap();

    assert_eq!(config.id, "test1");
    assert_eq!(config.branch, None);
    assert_eq!(config.updatable, false);
    assert!(config.repo_base_dir.starts_with(&global_config.base_dir));
    assert!(config.repo_base_dir.contains("nonupdatable"));
    assert!(config.repo_dir.starts_with(&config.repo_base_dir));
    assert!(config.repo_dir.ends_with("_"));
}

#[test]
fn mount_config_with_branch_param() {
    let global_config = global_config();
    let req = MountConfigRequest {
        id: "test2".into(),
        repo: "https://github.com/user/repo.git".into(),
        branch: Some("main".into()),
        updatable: None,
    };

    let config = MountConfig::new(&global_config, req).unwrap();
    assert_eq!(config.branch.as_deref(), Some("main"));
    assert!(config.repo_dir.ends_with("main"));
}

#[test]
fn mount_config_with_fragment_branch() {
    let global_config = global_config();
    let req = MountConfigRequest {
        id: "test3".into(),
        repo: "https://github.com/user/repo.git#dev".into(),
        branch: None,
        updatable: None,
    };

    let config = MountConfig::new(&global_config, req).unwrap();
    assert_eq!(config.branch.as_deref(), Some("dev"));
    assert!(config.repo_dir.ends_with("dev"));
    assert_eq!(config.repo, "https://github.com/user/repo.git");
}

#[test]
fn mount_config_conflicting_branches() {
    let global_config = global_config();
    let req = MountConfigRequest {
        id: "test4".into(),
        repo: "https://github.com/user/repo.git#dev".into(),
        branch: Some("main".into()),
        updatable: None,
    };

    let result = MountConfig::new(&global_config, req);
    assert!(matches!(result, Err(ConfigError::ConflictingRef)));
}

#[test]
fn mount_config_updatable_true() {
    let global_config = global_config();
    let req = MountConfigRequest {
        id: "test5".into(),
        repo: "https://github.com/user/repo.git".into(),
        branch: None,
        updatable: Some(true),
    };

    let config = MountConfig::new(&global_config, req).unwrap();
    assert_eq!(config.updatable, true);
    assert!(config.repo_base_dir.contains("updatable"));
    assert!(!config.repo_base_dir.contains("nonupdatable"));
}

#[test]
fn set_branch_updates_path() {
    let global_config = global_config();
    let req = MountConfigRequest {
        id: "test6".into(),
        repo: "https://github.com/user/repo.git".into(),
        branch: None,
        updatable: None,
    };

    let mut config = MountConfig::new(&global_config, req).unwrap();
    config.set_branch("feature-x");

    assert_eq!(config.branch.as_deref(), Some("feature-x"));
    assert!(config.repo_dir.ends_with("feature-x"));
}

#[test]
fn nonstandard_repo_path() {
    let global_config = global_config();
    let req = MountConfigRequest {
        id: "test7".into(),
        repo: "git@github.com:user/repo.git".into(),
        branch: None,
        updatable: None,
    };

    let config = MountConfig::new(&global_config, req).unwrap();
    assert_eq!(config.repo, "git@github.com:user/repo.git".to_string());
}

#[test]
fn blank_ref_means_no_ref() {
    let req = MountConfigRequest {
        id: "id".into(),
        repo: "https://host/repo.git#".into(),
        branch: None,
        updatable: None,
    };
    let config = MountConfig::new(&global_config(), req).unwrap();
    assert_eq!(config.branch, None);
    assert!(config.repo_dir.ends_with("/_"));

    let req = MountConfigRequest {
        id: "id".into(),
        repo: "https://host/repo.git".into(),
        branch: Some("  dev  ".into()),
        updatable: None,
    };
    let config = MountConfig::new(&global_config(), req).unwrap();
    assert_eq!(config.branch.as_deref(), Some("dev"));
}

#[test]
fn global_config_joins_trimmed_plugin_name() {
    let config = GlobalConfig::new("/var/lib", " gitvol ").unwrap();
    assert_eq!(config.base_dir, "/var/lib/gitvol");
    assert_eq!(config.plugin_name, "gitvol");
    assert!(matches!(GlobalConfig::new("/var/lib", "  x "), Err(ConfigError::EmptyPluginName)));
}

#[test]
fn address_is_the_sha256_of_the_url() {
    let opt = Opt::new("abc".to_string(), None, false);
    assert_eq!(
        address("/b", &opt),
        "/b/nonupdatable/ba7816bf8f01cfea414140de5dae2223b00361a396177a9cb410ff61f20015ad/_"
    );
    let opt = Opt::new("abc".to_string(), Some("main".to_string()), true);
    assert_eq!(
        address("/b", &opt),
        "/b/updatable/ba7816bf8f01cfea414140de5dae2223b00361a396177a9cb410ff61f20015ad/main"
    );
}

#[test]
fn address_is_deterministic_and_separates_inputs() {
    let a = Opt::new("https://x/repo.git".to_string(), None, false);
    let b = Opt::new("https://x/repo.git".to_string(), None, false);
    assert_eq!(address("/b", &a), address("/b", &b));

    let other_url = Opt::new("https://x/other.git".to_string(), None, false);
    let other_branch = Opt::new("https://x/repo.git".to_string(), Some("dev".to_string()), false);
    let other_partition = Opt::new("https://x/repo.git".to_string(), None, true);
    assert_ne!(address("/b", &a), address("/b", &other_url));
    assert_ne!(address("/b", &a), address("/b", &other_branch));
    assert_ne!(address("/b", &a), address("/b", &other_partition));
}

#[test]
fn address_of_digest_joins_segments() {
    assert_eq!(address_of_digest("/b", REPO_DIGEST, &None, false), format!("/b/nonupdatable/{REPO_DIGEST}/_"));
    assert_eq!(
        address_of_digest("/b", "d", &Some("v1".to_string()), true),
        "/b/updatable/d/v1"
    );
}

fn request(repo: &str, branch: Option<&str>) -> MountConfigRequest {
    MountConfigRequest {
        id: "id".into(),
        repo: repo.into(),
        branch: branch.map(|b| b.to_string()),
        updatable: None,
    }
}

#[test]
fn text_that_is_no_url_keeps_its_hash_sign() {
    let config = MountConfig::new(&global_config(), request("a#b", Some("x"))).unwrap();
    assert_eq!(config.repo, "a#b");
    assert_eq!(config.branch.as_deref(), Some("x"));

    let config = MountConfig::new(&global_config(), request("a#b", None)).unwrap();
    assert_eq!(config.repo, "a#b");
    assert_eq!(config.branch, None);
    assert!(config.repo_dir.ends_with("/_"));

    let config = MountConfig::new(&global_config(), request("git@host:repo.git#dev", None)).unwrap();
    assert_eq!(config.repo, "git@host:repo.git#dev");
    assert_eq!(config.branch, None);
}

#[test]
fn url_is_hashed_in_its_serialized_form() {
    let config = MountConfig::new(&global_config(), request("HTTPS://Example.com/repo.git#dev", None)).unwrap();
    assert_eq!(config.repo, "https://example.com/repo.git");
    assert_eq!(config.branch.as_deref(), Some("dev"));
    let plain = MountConfig::new(&global_config(), request("https://example.com/repo.git", Some("dev"))).unwrap();
    assert_eq!(config.repo_dir, plain.repo_dir);
}

#[test]
fn volume_key_is_one_path_segment() {
    let opt = Opt::new("abc".to_string(), Some("feature/x".to_string()), false);
    let key = volume_key(&opt);
    assert!(key.starts_with("nonupdatable-ba7816bf8f01cfea414140de5dae2223b00361a396177a9cb410ff61f20015ad-"));
    assert!(!key.contains('/'));
    let other = Opt::new("abc".to_string(), None, true);
    assert!(volume_key(&other).starts_with("updatable-"));
    assert_ne!(volume_key(&other), volume_key(&Opt::new("abc".to_string(), None, false)));
}
