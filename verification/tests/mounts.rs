use starry_syscalls::mount::{mount_source_kind, MountSource, ReadonlyMounts, MS_RDONLY};
use starry_syscalls::SysError;

#[test]
fn readonly_mount_covers_its_subtree() {
    let mut m = ReadonlyMounts::new();
    m.remember_readonly_mount("/mnt/ro", MS_RDONLY);
    assert!(m.is_path_on_readonly_mount("/mnt/ro"));
    assert!(m.is_path_on_readonly_mount("/mnt/ro/a/b"));
    assert!(!m.is_path_on_readonly_mount("/mnt/rox"));
    assert!(!m.is_path_on_readonly_mount("/mnt"));
    assert!(!m.is_path_on_readonly_mount("/other"));
}

#[test]
fn writable_mount_is_not_recorded() {
    let mut m = ReadonlyMounts::new();
    m.remember_readonly_mount("/mnt/rw", 0);
    assert!(!m.is_path_on_readonly_mount("/mnt/rw"));
    assert!(!m.is_path_on_readonly_mount("/mnt/rw/file"));
}

#[test]
fn empty_record_has_no_readonly_path() {
    let m = ReadonlyMounts::new();
    assert!(!m.is_path_on_readonly_mount("/"));
    assert!(!m.is_path_on_readonly_mount(""));
}

#[test]
fn forgetting_a_mount_frees_its_subtree() {
    let mut m = ReadonlyMounts::new();
    m.remember_readonly_mount("/a", MS_RDONLY);
    m.remember_readonly_mount("/a", MS_RDONLY);
    m.remember_readonly_mount("/b", MS_RDONLY | 0x400);
    m.forget_readonly_mount("/a");
    assert!(!m.is_path_on_readonly_mount("/a"));
    assert!(!m.is_path_on_readonly_mount("/a/x"));
    assert!(m.is_path_on_readonly_mount("/b/x"));
}

#[test]
fn forgetting_a_nested_mount_keeps_the_outer_one() {
    let mut m = ReadonlyMounts::new();
    m.remember_readonly_mount("/a", MS_RDONLY);
    m.remember_readonly_mount("/a/b", MS_RDONLY);
    m.forget_readonly_mount("/a/b");
    assert!(m.is_path_on_readonly_mount("/a/b/c"));
    m.forget_readonly_mount("/a");
    assert!(!m.is_path_on_readonly_mount("/a/b/c"));
}

#[test]
fn root_mount_covers_only_paths_continuing_with_a_slash() {
    let mut m = ReadonlyMounts::new();
    m.remember_readonly_mount("/", MS_RDONLY);
    assert!(m.is_path_on_readonly_mount("/"));
    // "/etc" continues "/" with 'e', not '/', so it is not below it.
    assert!(!m.is_path_on_readonly_mount("/etc"));
    assert!(m.is_path_on_readonly_mount("//etc"));
}

#[test]
fn memory_file_systems_need_no_source() {
    assert_eq!(mount_source_kind("tmpfs", None), Ok(MountSource::Memory));
    assert_eq!(mount_source_kind("cgroup", None), Ok(MountSource::Memory));
    assert_eq!(mount_source_kind("cgroup2", Some("whatever")), Ok(MountSource::Memory));
}

#[test]
fn device_sources_must_live_under_dev() {
    assert_eq!(mount_source_kind("ext4", Some("/dev/sda1")), Ok(MountSource::Device));
    assert_eq!(mount_source_kind("ext4", Some("/dev/")), Ok(MountSource::Device));
    assert_eq!(mount_source_kind("ext4", Some("/dev")), Err(SysError::NoSuchDevice));
    assert_eq!(mount_source_kind("ext4", Some("/tmp/img")), Err(SysError::NoSuchDevice));
    assert_eq!(mount_source_kind("ext4", None), Err(SysError::NoSuchDevice));
    assert_eq!(mount_source_kind("tmpfs2", None), Err(SysError::NoSuchDevice));
}
