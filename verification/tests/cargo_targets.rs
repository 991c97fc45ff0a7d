use rde::cargo::{build_artifact_path, find_package, find_target, parse_target_kind, resolve_target, CargoError, CargoMetadata, Package, Target};
use rde::types::CargoTargetKind;

fn target(name: &str, kinds: &[&str]) -> Target {
    Target { name: name.to_string(), kind: kinds.iter().map(|k| k.to_string()).collect() }
}

#[test]
fn test_resolve_default_binary_target() {
    let metadata = CargoMetadata {
        packages: vec![Package {
            name: "my-app".to_string(),
            targets: vec![Target { name: "my-app".to_string(), kind: vec!["bin".to_string()] }],
            manifest_path: "/tmp/my-app/Cargo.toml".to_string(),
        }],
        workspace_root: "/tmp/my-app".to_string(),
    };

    let target = resolve_target(&metadata, None, None, "dev", &[]).unwrap();
    assert_eq!(target.package_name, "my-app");
    assert_eq!(target.target_name, "my-app");
    assert_eq!(target.target_kind, CargoTargetKind::Bin);
    assert!(target.artifact_path.contains("my-app.exe"));
}

#[test]
fn artifact_path_maps_dev_to_debug() {
    assert_eq!(build_artifact_path("/tmp/ws", "dev", "app"), "/tmp/ws/target/debug/app.exe");
    assert_eq!(build_artifact_path("/tmp/ws/", "release", "app"), "/tmp/ws/target/release/app.exe");
    assert_eq!(build_artifact_path("", "bench", "x"), "target/bench/x.exe");
}

#[test]
fn target_kind_prefers_bin_then_lib() {
    let k = |v: &[&str]| parse_target_kind(&v.iter().map(|s| s.to_string()).collect());
    assert_eq!(k(&["lib", "bin"]), CargoTargetKind::Bin);
    assert_eq!(k(&["lib"]), CargoTargetKind::Lib);
    assert_eq!(k(&["example"]), CargoTargetKind::Example);
    assert_eq!(k(&["proc-macro"]), CargoTargetKind::Bin);
}

#[test]
fn package_and_target_errors() {
    let metadata = CargoMetadata { packages: vec![], workspace_root: "/w".to_string() };
    assert_eq!(
        find_package(&metadata, None).unwrap_err(),
        CargoError::InvalidManifest("no packages in workspace".to_string())
    );
    assert_eq!(
        find_package(&metadata, Some("x")).unwrap_err(),
        CargoError::TargetNotFound("package 'x' not found".to_string())
    );
    let pkg = Package { name: "p".to_string(), targets: vec![], manifest_path: String::new() };
    assert_eq!(
        find_target(&pkg, None).unwrap_err(),
        CargoError::TargetNotFound("no targets in package".to_string())
    );
    assert_eq!(
        find_target(&pkg, Some("t")).unwrap_err(),
        CargoError::TargetNotFound("target 't' not found".to_string())
    );
    assert_eq!(
        CargoError::TargetNotFound("x".to_string()).message(),
        "Target not found: x"
    );
}

#[test]
fn default_target_is_first_binary() {
    let pkg = Package {
        name: "p".to_string(),
        targets: vec![target("lib1", &["lib"]), target("tool", &["bin"]), target("other", &["bin"])],
        manifest_path: String::new(),
    };
    assert_eq!(find_target(&pkg, None).unwrap().name, "tool");
    assert_eq!(find_target(&pkg, Some("other")).unwrap().name, "other");
    let libonly = Package { name: "q".to_string(), targets: vec![target("l", &["lib"])], manifest_path: String::new() };
    assert_eq!(find_target(&libonly, None).unwrap().name, "l");
}
