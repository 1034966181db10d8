use rustbox::error::StorageError;
use rustbox::sandbox::Runtime;
use rustbox::storage::{join_path, BaseImageStore, OverlayConfig};
use tempfile::TempDir;

#[test]
fn correct_path_generation() {
    let cfg = OverlayConfig::new("sandbox-1", "/tmp/overlay");
    assert_eq!(cfg.lower_dir(), "/tmp/overlay/lower/sandbox-1");
    assert_eq!(cfg.upper_dir(), "/tmp/overlay/upper/sandbox-1");
    assert_eq!(cfg.work_dir(), "/tmp/overlay/work/sandbox-1");
    assert_eq!(cfg.merged_dir(), "/tmp/overlay/merged/sandbox-1");
}

#[test]
fn mount_options_format() {
    let cfg = OverlayConfig::new("abc", "/mnt/store");
    let opts = cfg.mount_options();
    assert!(opts.contains("lowerdir="));
    assert!(opts.contains("upperdir="));
    assert!(opts.contains("workdir="));
    assert!(opts.contains("/mnt/store/lower/abc"));
    assert!(opts.contains("/mnt/store/upper/abc"));
    assert!(opts.contains("/mnt/store/work/abc"));
    assert_eq!(opts, "lowerdir=/mnt/store/lower/abc,upperdir=/mnt/store/upper/abc,workdir=/mnt/store/work/abc");
}

#[test]
fn distinct_paths_for_different_sandbox_ids() {
    let cfg_a = OverlayConfig::new("sandbox-a", "/tmp/overlay");
    let cfg_b = OverlayConfig::new("sandbox-b", "/tmp/overlay");
    assert_ne!(cfg_a.lower_dir(), cfg_b.lower_dir());
    assert_ne!(cfg_a.upper_dir(), cfg_b.upper_dir());
    assert_ne!(cfg_a.work_dir(), cfg_b.work_dir());
    assert_ne!(cfg_a.merged_dir(), cfg_b.merged_dir());
}

#[test]
fn path_joining() {
    assert_eq!(join_path("/a/", "b"), "/a/b");
    assert_eq!(join_path("/a", "/b"), "/b");
    assert_eq!(join_path("", "b"), "b");
    assert_eq!(join_path("a", ""), "a/");
}

fn dir_text(dir: &TempDir) -> String {
    dir.path().to_str().unwrap().to_string()
}

#[test]
fn path_for_runtime_returns_correct_ext4_path() {
    let dir = TempDir::new().unwrap();
    let store = BaseImageStore::new(&dir_text(&dir));
    let expect = |name: &str| dir.path().join(name).to_str().unwrap().to_string();
    assert_eq!(store.path_for_runtime(&Runtime::Node24), expect("node24.ext4"));
    assert_eq!(store.path_for_runtime(&Runtime::Node22), expect("node22.ext4"));
    assert_eq!(store.path_for_runtime(&Runtime::Python313), expect("python313.ext4"));
}

#[test]
fn exists_returns_false_for_missing_image() {
    let dir = TempDir::new().unwrap();
    let store = BaseImageStore::new(&dir_text(&dir));
    assert!(!store.has_image(&Runtime::Node24));
    assert!(!store.has_image(&Runtime::Node22));
    assert!(!store.has_image(&Runtime::Python313));
}

#[test]
fn present_image_is_found() {
    let dir = TempDir::new().unwrap();
    let _file = tempfile::Builder::new()
        .prefix("node22")
        .suffix(".ext4")
        .rand_bytes(0)
        .tempfile_in(dir.path())
        .unwrap();
    let store = BaseImageStore::new(&dir_text(&dir));
    assert!(store.has_image(&Runtime::Node22));
    assert_eq!(store.require(&Runtime::Node22), Ok(dir.path().join("node22.ext4").to_str().unwrap().to_string()));
}

#[test]
fn require_returns_error_for_missing_image() {
    let dir = TempDir::new().unwrap();
    let store = BaseImageStore::new(&dir_text(&dir));
    let err = store.require(&Runtime::Node24).unwrap_err();
    match err {
        StorageError::BaseImageNotFound(msg) => {
            assert!(msg.contains("node24.ext4"));
        }
        other => panic!("expected BaseImageNotFound, got: {other:?}"),
    }
}

#[test]
fn image_result_by_presence() {
    assert_eq!(BaseImageStore::image_result("/x.ext4".to_string(), true), Ok("/x.ext4".to_string()));
    assert_eq!(
        BaseImageStore::image_result("/x.ext4".to_string(), false),
        Err(StorageError::BaseImageNotFound("/x.ext4".to_string()))
    );
    assert_eq!(
        StorageError::BaseImageNotFound("/x.ext4".to_string()).message(),
        "base image not found: /x.ext4"
    );
}
