use vstd::prelude::*;
use vstd::string::*;
use crate::deps::{libraries_of_output, library_names, string_views};
use crate::format::{format_of, overlay_for, overlay_spec, parse_format, required_host, PackageFormat};
use crate::text::str_eq;

verus! {

/// One step of a packaging pipeline, run in order by the caller.
#[derive(Clone, Copy, Debug, PartialEq, Eq, Structural)]
pub enum Step {
    /// Build the whole workspace in release mode, with the pipeline's environment.
    Build,
    /// Run the dependency lister and the ownership queries, and write the manifest.
    ResolveDependencies,
    /// Strip unneeded symbols and the comment and note sections (Linux).
    Strip,
    /// Add the bundle's frameworks directory to the runtime search path (macOS).
    AddRpath,
}

/// The external tool behind a step.
#[derive(Clone, Copy, Debug, PartialEq, Eq, Structural)]
pub enum Tool {
    Build,
    Lister,
    Strip,
    RpathEditor,
}

/// Why packaging stopped.
#[derive(Clone, Debug, PartialEq, Eq)]
pub enum PackagingError {
    /// The format identifier is none of the supported ones.
    UnsupportedFormat { format: String },
    /// The format cannot be produced on this host.
    HostMismatch { format: PackageFormat, host_os: String },
    /// An external tool exited with failure; its error stream, verbatim.
    CommandFailed { tool: Tool, stderr: String },
}

/// What one invocation for one package format runs: its steps, in order,
/// and the variables added to the build's environment.
#[derive(Clone, Debug, PartialEq, Eq)]
pub struct Pipeline {
    pub steps: Vec<Step>,
    pub build_env: Vec<(String, String)>,
}

/// The steps of each format.
pub open spec fn steps_of(f: PackageFormat) -> Seq<Step> {
    match f {
        PackageFormat::App | PackageFormat::Dmg => seq![Step::Build, Step::AddRpath],
        PackageFormat::Deb => seq![Step::Build, Step::ResolveDependencies, Step::Strip],
        PackageFormat::AppImage | PackageFormat::Pacman => seq![Step::Build, Step::Strip],
        PackageFormat::Nsis => seq![Step::Build],
    }
}

/// The build environment of each format: the resource location, and for
/// macOS bundles in bundle mode the toolkit's bundle flag on top.
pub open spec fn build_env_of(f: PackageFormat, name: Seq<char>, bundle: bool) -> Seq<
    (Seq<char>, Seq<char>),
> {
    let base = seq![("MAKEPAD_PACKAGE_DIR"@, overlay_spec(f, name))];
    if bundle && (f is App || f is Dmg) {
        base.push(("MAKEPAD"@, "apple_bundle"@))
    } else {
        base
    }
}

pub open spec fn env_views(v: Seq<(String, String)>) -> Seq<(Seq<char>, Seq<char>)> {
    v.map_values(|p: (String, String)| (p.0@, p.1@))
}

/// `r` is what planning `f` on `host` gives: the format's pipeline where the
/// host is the one the format needs, else a host mismatch naming both.
pub open spec fn planned(
    r: Result<Pipeline, PackagingError>,
    f: PackageFormat,
    host: Seq<char>,
    name: Seq<char>,
    bundle: bool,
) -> bool {
    if host == required_host(f) {
        r matches Ok(p) && p.steps@ == steps_of(f) && env_views(p.build_env@) == build_env_of(
            f,
            name,
            bundle,
        )
    } else {
        r matches Err(PackagingError::HostMismatch { format, host_os }) && format == f
            && host_os@ == host
    }
}

/// The environment that the build of `format` runs with.
pub fn build_env(format: PackageFormat, main_binary_name: &str, bundle: bool) -> (r: Vec<
    (String, String),
>)
    ensures
        env_views(r@) == build_env_of(format, main_binary_name@, bundle),
{
    let mut env: Vec<(String, String)> = Vec::new();
    env.push((String::from_str("MAKEPAD_PACKAGE_DIR"), overlay_for(format, main_binary_name)));
    let is_mac = match format {
        PackageFormat::App | PackageFormat::Dmg => true,
        _ => false,
    };
    if bundle && is_mac {
        env.push((String::from_str("MAKEPAD"), String::from_str("apple_bundle")));
    }
    assert(env_views(env@) =~= build_env_of(format, main_binary_name@, bundle));
    env
}

fn steps(format: PackageFormat) -> (r: Vec<Step>)
    ensures
        r@ == steps_of(format),
{
    let r = match format {
        PackageFormat::App | PackageFormat::Dmg => vec![Step::Build, Step::AddRpath],
        PackageFormat::Deb => vec![Step::Build, Step::ResolveDependencies, Step::Strip],
        PackageFormat::AppImage | PackageFormat::Pacman => vec![Step::Build, Step::Strip],
        PackageFormat::Nsis => vec![Step::Build],
    };
    assert(r@ =~= steps_of(format));
    r
}

/// The pipeline of `format`, once the host is checked against it.
pub fn plan(format: PackageFormat, host_os: &str, main_binary_name: &str, bundle: bool) -> (r:
    Result<Pipeline, PackagingError>)
    ensures
        planned(r, format, host_os@, main_binary_name@, bundle),
{
    if !str_eq(host_os, format.required_host()) {
        return Err(
            PackagingError::HostMismatch { format, host_os: String::from_str(host_os) },
        );
    }
    Ok(
        Pipeline {
            steps: steps(format),
            build_env: build_env(format, main_binary_name, bundle),
        },
    )
}

/// The pipeline of an app bundle or a disk image: build, then add the rpath.
pub fn before_each_package_macos(
    package_format: PackageFormat,
    host_os: &str,
    main_binary_name: &str,
    bundle: bool,
) -> (r: Result<Pipeline, PackagingError>)
    requires
        package_format is App || package_format is Dmg,
    ensures
        planned(r, package_format, host_os@, main_binary_name@, bundle),
{
    plan(package_format, host_os, main_binary_name, bundle)
}

/// The pipeline of a Debian package: build, resolve the dependencies, strip.
pub fn before_each_package_deb(host_os: &str, main_binary_name: &str) -> (r: Result<
    Pipeline,
    PackagingError,
>)
    ensures
        planned(r, PackageFormat::Deb, host_os@, main_binary_name@, false),
{
    plan(PackageFormat::Deb, host_os, main_binary_name, false)
}

/// The pipeline of an AppImage: build, then strip.
pub fn before_each_package_appimage(host_os: &str, main_binary_name: &str) -> (r: Result<
    Pipeline,
    PackagingError,
>)
    ensures
        planned(r, PackageFormat::AppImage, host_os@, main_binary_name@, false),
{
    plan(PackageFormat::AppImage, host_os, main_binary_name, false)
}

/// The pipeline of a Pacman package: build, then strip. Its dependencies are
/// not computed.
pub fn before_each_package_pacman(host_os: &str, main_binary_name: &str) -> (r: Result<
    Pipeline,
    PackagingError,
>)
    ensures
        planned(r, PackageFormat::Pacman, host_os@, main_binary_name@, false),
{
    plan(PackageFormat::Pacman, host_os, main_binary_name, false)
}

/// The pipeline of an NSIS installer: the build alone.
pub fn before_each_package_windows(host_os: &str, main_binary_name: &str) -> (r: Result<
    Pipeline,
    PackagingError,
>)
    ensures
        planned(r, PackageFormat::Nsis, host_os@, main_binary_name@, false),
{
    plan(PackageFormat::Nsis, host_os, main_binary_name, false)
}

/// The pipeline for a format given by its identifier. An identifier outside
/// the supported set is refused, naming it, and so is a host that cannot
/// produce the format; either way no step is planned.
pub fn before_each_package(
    package_format: &str,
    host_os: &str,
    main_binary_name: &str,
    bundle: bool,
) -> (r: Result<Pipeline, PackagingError>)
    ensures
        match format_of(package_format@) {
            None => r matches Err(PackagingError::UnsupportedFormat { format }) && format@
                == package_format@,
            Some(f) => planned(r, f, host_os@, main_binary_name@, bundle),
        },
{
    match parse_format(package_format) {
        Some(f) => match f {
            PackageFormat::App | PackageFormat::Dmg => before_each_package_macos(
                f,
                host_os,
                main_binary_name,
                bundle,
            ),
            PackageFormat::Deb => before_each_package_deb(host_os, main_binary_name),
            PackageFormat::AppImage => before_each_package_appimage(host_os, main_binary_name),
            PackageFormat::Pacman => before_each_package_pacman(host_os, main_binary_name),
            PackageFormat::Nsis => before_each_package_windows(host_os, main_binary_name),
        },
        None => Err(PackagingError::UnsupportedFormat { format: String::from_str(package_format) }),
    }
}


/// The program and arguments that carry out a step on the binary at `path`.
/// For dependency resolution this is the lister; each library then gets an
/// ownership query.
pub open spec fn command_of(step: Step, path: Seq<char>) -> Seq<Seq<char>> {
    match step {
        Step::Build => seq!["cargo"@, "build"@, "--workspace"@, "--release"@],
        Step::ResolveDependencies => seq!["ldd"@, path],
        Step::Strip => seq![
            "strip"@,
            "--strip-unneeded"@,
            "--remove-section=.comment"@,
            "--remove-section=.note"@,
            path,
        ],
        Step::AddRpath => seq![
            "install_name_tool"@,
            "-add_rpath"@,
            "@executable_path/../Frameworks"@,
            path,
        ],
    }
}

/// The tool that a step runs first.
pub open spec fn tool_of(step: Step) -> Tool {
    match step {
        Step::Build => Tool::Build,
        Step::ResolveDependencies => Tool::Lister,
        Step::Strip => Tool::Strip,
        Step::AddRpath => Tool::RpathEditor,
    }
}

/// The command line of a step on the binary at `path_to_binary`.
pub fn command_line(step: Step, path_to_binary: &str) -> (r: Vec<String>)
    ensures
        string_views(r@) == command_of(step, path_to_binary@),
{
    let path = String::from_str(path_to_binary);
    let r = match step {
        Step::Build => vec![
            String::from_str("cargo"),
            String::from_str("build"),
            String::from_str("--workspace"),
            String::from_str("--release"),
        ],
        Step::ResolveDependencies => vec![String::from_str("ldd"), path],
        Step::Strip => vec![
            String::from_str("strip"),
            String::from_str("--strip-unneeded"),
            String::from_str("--remove-section=.comment"),
            String::from_str("--remove-section=.note"),
            path,
        ],
        Step::AddRpath => vec![
            String::from_str("install_name_tool"),
            String::from_str("-add_rpath"),
            String::from_str("@executable_path/../Frameworks"),
            path,
        ],
    };
    assert(string_views(r@) =~= command_of(step, path_to_binary@));
    r
}

/// The ownership query for one library in the package database.
pub fn owner_query(library: &str) -> (r: Vec<String>)
    ensures
        string_views(r@) == seq!["dpkg"@, "-S"@, library@],
{
    let r = vec![String::from_str("dpkg"), String::from_str("-S"), String::from_str(library)];
    assert(string_views(r@) =~= seq!["dpkg"@, "-S"@, library@]);
    r
}

impl Step {
    /// The tool that this step runs first.
    pub fn tool(self) -> (r: Tool)
        ensures
            r == tool_of(self),
    {
        match self {
            Step::Build => Tool::Build,
            Step::ResolveDependencies => Tool::Lister,
            Step::Strip => Tool::Strip,
            Step::AddRpath => Tool::RpathEditor,
        }
    }
}

/// The outcome of a tool's run: a failure stops the pipeline and carries the
/// tool's error stream as it came.
pub fn check_exit(tool: Tool, success: bool, stderr: String) -> (r: Result<(), PackagingError>)
    ensures
        success ==> r is Ok,
        !success ==> r == Err::<(), PackagingError>(PackagingError::CommandFailed { tool, stderr }),
{
    if success {
        Ok(())
    } else {
        Err(PackagingError::CommandFailed { tool, stderr })
    }
}

/// The libraries to query, from the lister's run; the lister's failure is
/// fatal.
pub fn lister_outcome(success: bool, stdout: &str, stderr: String) -> (r: Result<
    Vec<String>,
    PackagingError,
>)
    ensures
        success ==> (r matches Ok(v) && string_views(v@) == libraries_of_output(stdout@)),
        !success ==> r == Err::<Vec<String>, PackagingError>(
            PackagingError::CommandFailed { tool: Tool::Lister, stderr },
        ),
{
    if success {
        Ok(library_names(stdout))
    } else {
        Err(PackagingError::CommandFailed { tool: Tool::Lister, stderr })
    }
}

/// The reply of one ownership query: its output where it succeeded, nothing
/// where it failed, which is no error (the library has no owner).
pub fn owner_reply(success: bool, stdout: String) -> (r: Option<String>)
    ensures
        r == (if success {
            Some(stdout)
        } else {
            None
        }),
{
    if success {
        Some(stdout)
    } else {
        None
    }
}

} // verus!
