use packaging_commands::format::{overlay_for, parse_format, PackageFormat};
use packaging_commands::makepad::makepad_package_dir_value;
use packaging_commands::pipeline::{
    before_each_package, before_each_package_appimage, before_each_package_deb,
    before_each_package_macos, before_each_package_pacman, before_each_package_windows,
    build_env, check_exit, command_line, owner_query, plan, PackagingError, Step, Tool,
};

fn strings(v: &[&str]) -> Vec<String> {
    v.iter().map(|s| s.to_string()).collect()
}

fn env(pairs: &[(&str, &str)]) -> Vec<(String, String)> {
    pairs.iter().map(|(k, v)| (k.to_string(), v.to_string())).collect()
}

#[test]
fn overlay_values_per_format() {
    assert_eq!(overlay_for(PackageFormat::App, "robrix"), ".");
    assert_eq!(overlay_for(PackageFormat::Dmg, "robrix"), ".");
    assert_eq!(overlay_for(PackageFormat::AppImage, "robrix"), "lib/robrix");
    assert_eq!(overlay_for(PackageFormat::Deb, "robrix"), "/usr/lib/robrix");
    assert_eq!(overlay_for(PackageFormat::Pacman, "robrix"), "/usr/lib/robrix");
    assert_eq!(overlay_for(PackageFormat::Nsis, "robrix"), ".");
}

#[test]
fn overlay_is_repeatable() {
    for f in [PackageFormat::App, PackageFormat::Deb, PackageFormat::AppImage] {
        assert_eq!(overlay_for(f, "moly"), overlay_for(f, "moly"));
    }
    assert_eq!(overlay_for(PackageFormat::AppImage, ""), "lib/");
}

#[test]
fn package_dir_value_by_identifier() {
    assert_eq!(makepad_package_dir_value("app", "moly"), ".");
    assert_eq!(makepad_package_dir_value("dmg", "moly"), ".");
    assert_eq!(makepad_package_dir_value("appimage", "moly"), "lib/moly");
    assert_eq!(makepad_package_dir_value("deb", "moly"), "/usr/lib/moly");
    assert_eq!(makepad_package_dir_value("pacman", "moly"), "/usr/lib/moly");
    assert_eq!(makepad_package_dir_value("nsis", "moly"), ".");
}

#[test]
fn parses_known_identifiers_only() {
    assert_eq!(parse_format("app"), Some(PackageFormat::App));
    assert_eq!(parse_format("dmg"), Some(PackageFormat::Dmg));
    assert_eq!(parse_format("deb"), Some(PackageFormat::Deb));
    assert_eq!(parse_format("appimage"), Some(PackageFormat::AppImage));
    assert_eq!(parse_format("pacman"), Some(PackageFormat::Pacman));
    assert_eq!(parse_format("nsis"), Some(PackageFormat::Nsis));
    assert_eq!(parse_format("wix"), None);
    assert_eq!(parse_format(""), None);
    assert_eq!(parse_format("Deb"), None);
    assert_eq!(parse_format("deb "), None);
}

#[test]
fn unknown_format_is_refused_by_name() {
    for bad in ["wix", "", "rpm", "APP"] {
        let r = before_each_package(bad, "linux", "moly", false);
        assert_eq!(r, Err(PackagingError::UnsupportedFormat { format: bad.to_string() }));
    }
}

#[test]
fn host_mismatch_fails_before_any_step() {
    let r = before_each_package("deb", "macos", "moly", false);
    assert_eq!(
        r,
        Err(PackagingError::HostMismatch { format: PackageFormat::Deb, host_os: "macos".to_string() })
    );
    assert!(before_each_package("app", "linux", "moly", true).is_err());
    assert!(before_each_package("nsis", "macos", "moly", false).is_err());
    assert!(before_each_package_windows("linux", "moly").is_err());
    assert!(before_each_package_pacman("windows", "moly").is_err());
}

#[test]
fn appimage_builds_then_strips() {
    let p = before_each_package("appimage", "linux", "moly", false).unwrap();
    assert_eq!(p.steps, vec![Step::Build, Step::Strip]);
    assert!(!p.steps.contains(&Step::ResolveDependencies));
    assert_eq!(p.build_env, env(&[("MAKEPAD_PACKAGE_DIR", "lib/moly")]));
    assert_eq!(before_each_package_appimage("linux", "moly").unwrap(), p);
}

#[test]
fn app_builds_then_adds_rpath() {
    let p = before_each_package("app", "macos", "moly", false).unwrap();
    assert_eq!(p.steps, vec![Step::Build, Step::AddRpath]);
    assert_eq!(p.build_env, env(&[("MAKEPAD_PACKAGE_DIR", ".")]));
    let b = before_each_package_macos(PackageFormat::Dmg, "macos", "moly", true).unwrap();
    assert_eq!(b.steps, vec![Step::Build, Step::AddRpath]);
    assert_eq!(
        b.build_env,
        env(&[("MAKEPAD_PACKAGE_DIR", "."), ("MAKEPAD", "apple_bundle")])
    );
}

#[test]
fn deb_pacman_and_nsis_pipelines() {
    let d = before_each_package_deb("linux", "moly").unwrap();
    assert_eq!(d.steps, vec![Step::Build, Step::ResolveDependencies, Step::Strip]);
    assert_eq!(d.build_env, env(&[("MAKEPAD_PACKAGE_DIR", "/usr/lib/moly")]));
    let p = before_each_package("pacman", "linux", "moly", true).unwrap();
    assert_eq!(p.steps, vec![Step::Build, Step::Strip]);
    assert_eq!(p.build_env, env(&[("MAKEPAD_PACKAGE_DIR", "/usr/lib/moly")]));
    let w = before_each_package("nsis", "windows", "moly", false).unwrap();
    assert_eq!(w.steps, vec![Step::Build]);
    assert_eq!(w.build_env, env(&[("MAKEPAD_PACKAGE_DIR", ".")]));
}

#[test]
fn bundle_flag_only_for_macos() {
    assert_eq!(build_env(PackageFormat::AppImage, "x", true), env(&[("MAKEPAD_PACKAGE_DIR", "lib/x")]));
    assert_eq!(
        build_env(PackageFormat::App, "x", true),
        env(&[("MAKEPAD_PACKAGE_DIR", "."), ("MAKEPAD", "apple_bundle")])
    );
    assert_eq!(plan(PackageFormat::Nsis, "windows", "x", true).unwrap().build_env, env(&[("MAKEPAD_PACKAGE_DIR", ".")]));
}

#[test]
fn command_lines() {
    assert_eq!(command_line(Step::Build, "target/release/moly"), strings(&["cargo", "build", "--workspace", "--release"]));
    assert_eq!(
        command_line(Step::Strip, "target/release/moly"),
        strings(&["strip", "--strip-unneeded", "--remove-section=.comment", "--remove-section=.note", "target/release/moly"])
    );
    assert_eq!(
        command_line(Step::AddRpath, "bin/moly"),
        strings(&["install_name_tool", "-add_rpath", "@executable_path/../Frameworks", "bin/moly"])
    );
    assert_eq!(command_line(Step::ResolveDependencies, "bin/moly"), strings(&["ldd", "bin/moly"]));
    assert_eq!(owner_query("libfoo.so.1"), strings(&["dpkg", "-S", "libfoo.so.1"]));
}

#[test]
fn failed_tool_reports_its_stderr() {
    assert_eq!(check_exit(Tool::Strip, true, "noise".to_string()), Ok(()));
    assert_eq!(
        check_exit(Tool::Build, false, "error[E0425]: oops\n".to_string()),
        Err(PackagingError::CommandFailed { tool: Tool::Build, stderr: "error[E0425]: oops\n".to_string() })
    );
    assert_eq!(Step::AddRpath.tool(), Tool::RpathEditor);
    assert_eq!(Step::ResolveDependencies.tool(), Tool::Lister);
}
