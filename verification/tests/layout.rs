use std::path::Path;
use winebasin::layout::{
    basis_config_path, basis_path, basis_prefix_path, join, resolve_basis_layout,
    resolve_system_layout, system_config_path, system_mount_path, system_overlay_work_path,
    system_path, system_prefix_path,
};

#[test]
fn basis_paths_lie_below_the_root() {
    let dir = basis_path(b"/data/winebasin", b"b1");
    assert_eq!(dir, b"/data/winebasin/basis/b1".to_vec());
    assert_eq!(basis_prefix_path(&dir), b"/data/winebasin/basis/b1/prefix".to_vec());
    assert_eq!(basis_config_path(&dir), b"/data/winebasin/basis/b1/config.json".to_vec());
}

#[test]
fn system_paths_lie_below_the_root() {
    let dir = system_path(b"/data/winebasin", b"s1");
    assert_eq!(dir, b"/data/winebasin/system/s1".to_vec());
    assert_eq!(system_prefix_path(&dir), b"/data/winebasin/system/s1/prefix".to_vec());
    assert_eq!(
        system_overlay_work_path(&dir),
        b"/data/winebasin/system/s1/overlay_work".to_vec()
    );
    assert_eq!(system_mount_path(&dir), b"/data/winebasin/system/s1/mount".to_vec());
    assert_eq!(system_config_path(&dir), b"/data/winebasin/system/s1/config.json".to_vec());
}

#[test]
fn layouts_hold_every_path() {
    let basis = resolve_basis_layout(b"/r", b"b1");
    assert_eq!(basis.dir, b"/r/basis/b1".to_vec());
    assert_eq!(basis.prefix, b"/r/basis/b1/prefix".to_vec());
    assert_eq!(basis.config, b"/r/basis/b1/config.json".to_vec());
    let system = resolve_system_layout(b"/r", b"s1");
    assert_eq!(system.dir, b"/r/system/s1".to_vec());
    assert_eq!(system.prefix, b"/r/system/s1/prefix".to_vec());
    assert_eq!(system.overlay_work, b"/r/system/s1/overlay_work".to_vec());
    assert_eq!(system.mount, b"/r/system/s1/mount".to_vec());
    assert_eq!(system.config, b"/r/system/s1/config.json".to_vec());
}

#[test]
fn join_puts_one_separator_between() {
    assert_eq!(join(b"/a", b"b"), b"/a/b".to_vec());
    assert_eq!(join(b"/a/", b"b"), b"/a/b".to_vec());
    assert_eq!(join(b"", b"b"), b"b".to_vec());
    assert_eq!(join(b"/a", b""), b"/a/".to_vec());
    assert_eq!(join(b"/", b"b"), b"/b".to_vec());
}

#[test]
fn join_lets_an_absolute_part_stand_alone() {
    assert_eq!(join(b"/a", b"/b"), b"/b".to_vec());
    assert_eq!(join(b"", b"/"), b"/".to_vec());
}

#[test]
fn join_agrees_with_std_paths() {
    let cases: [(&str, &str); 8] = [
        ("/a", "b"),
        ("/a/", "b"),
        ("", "b"),
        ("/a", ""),
        ("/a", "/b"),
        ("a/b", "c/d"),
        ("/", "x"),
        ("/a//", "./b"),
    ];
    for (base, part) in cases {
        let want = Path::new(base).join(part);
        assert_eq!(
            join(base.as_bytes(), part.as_bytes()),
            want.to_str().unwrap().as_bytes().to_vec()
        );
    }
}
