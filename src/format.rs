use vstd::prelude::*;
use vstd::string::*;
use crate::text::str_eq;

verus! {

/// The package formats the hook knows, each tied to the host that builds it.
#[derive(Clone, Copy, Debug, PartialEq, Eq, Structural)]
pub enum PackageFormat {
    /// A macOS `.app` bundle.
    App,
    /// A macOS disk image.
    Dmg,
    /// A Debian package.
    Deb,
    /// A Linux AppImage.
    AppImage,
    /// An Arch Linux package.
    Pacman,
    /// A Windows NSIS installer.
    Nsis,
}

/// The format that a format identifier names, if any.
pub open spec fn format_of(s: Seq<char>) -> Option<PackageFormat> {
    if s == "app"@ {
        Some(PackageFormat::App)
    } else if s == "dmg"@ {
        Some(PackageFormat::Dmg)
    } else if s == "deb"@ {
        Some(PackageFormat::Deb)
    } else if s == "appimage"@ {
        Some(PackageFormat::AppImage)
    } else if s == "pacman"@ {
        Some(PackageFormat::Pacman)
    } else if s == "nsis"@ {
        Some(PackageFormat::Nsis)
    } else {
        None
    }
}

/// The host operating system on which a format can be produced.
pub open spec fn required_host(f: PackageFormat) -> Seq<char> {
    match f {
        PackageFormat::App | PackageFormat::Dmg => "macos"@,
        PackageFormat::Nsis => "windows"@,
        _ => "linux"@,
    }
}

/// Where the built application finds its resource files at run time.
pub open spec fn overlay_spec(f: PackageFormat, name: Seq<char>) -> Seq<char> {
    match f {
        PackageFormat::AppImage => "lib/"@ + name,
        PackageFormat::Deb | PackageFormat::Pacman => "/usr/lib/"@ + name,
        _ => "."@,
    }
}

/// The resource location of every format has one of the fixed shapes: the
/// current directory exactly for bundles, disk images and installers,
/// `lib/<name>` for AppImages and `/usr/lib/<name>` for Debian and Pacman.
pub proof fn overlay_shapes(f: PackageFormat, name: Seq<char>)
    ensures
        overlay_spec(f, name) == "."@ <==> (f is App || f is Dmg || f is Nsis),
        overlay_spec(f, name) == "lib/"@ + name <== f is AppImage,
        overlay_spec(f, name) == "/usr/lib/"@ + name <== (f is Deb || f is Pacman),
{
    reveal_strlit(".");
    reveal_strlit("lib/");
    reveal_strlit("/usr/lib/");
    if f is AppImage {
        assert(("lib/"@ + name).len() > 1);
    }
    if f is Deb || f is Pacman {
        assert(("/usr/lib/"@ + name).len() > 1);
    }
}

/// Parses a format identifier; the identifiers are `app`, `dmg`, `deb`,
/// `appimage`, `pacman` and `nsis`.
pub fn parse_format(s: &str) -> (r: Option<PackageFormat>)
    ensures
        r == format_of(s@),
{
    if str_eq(s, "app") {
        Some(PackageFormat::App)
    } else if str_eq(s, "dmg") {
        Some(PackageFormat::Dmg)
    } else if str_eq(s, "deb") {
        Some(PackageFormat::Deb)
    } else if str_eq(s, "appimage") {
        Some(PackageFormat::AppImage)
    } else if str_eq(s, "pacman") {
        Some(PackageFormat::Pacman)
    } else if str_eq(s, "nsis") {
        Some(PackageFormat::Nsis)
    } else {
        None
    }
}

impl PackageFormat {
    /// The host on which this format is built: `macos`, `linux` or `windows`.
    pub fn required_host(self) -> (r: &'static str)
        ensures
            r@ == required_host(self),
    {
        match self {
            PackageFormat::App | PackageFormat::Dmg => "macos",
            PackageFormat::Nsis => "windows",
            _ => "linux",
        }
    }
}

/// The resource location that the build of `format` compiles into the
/// binary: `.` for app bundles, disk images and installers, `lib/<name>` for
/// AppImages and `/usr/lib/<name>` for Debian and Pacman packages.
pub fn overlay_for(format: PackageFormat, main_binary_name: &str) -> (r: String)
    ensures
        r@ == overlay_spec(format, main_binary_name@),
{
    match format {
        PackageFormat::AppImage => String::from_str("lib/").concat(main_binary_name),
        PackageFormat::Deb | PackageFormat::Pacman => String::from_str("/usr/lib/").concat(
            main_binary_name,
        ),
        _ => String::from_str("."),
    }
}

} // verus!
