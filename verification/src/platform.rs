//! The platforms that release artifacts are built for.

use crate::text::same_text;
use vstd::prelude::*;

verus! {

/// Types of supported platforms.
#[derive(Clone, Copy, Debug, PartialEq, Eq, Structural)]
pub enum Platform {
    Linux,
    MacOs,
    Windows,
    Unsupported,
}

/// The token by which a platform is found in the names of artifacts.
pub open spec fn platform_token(p: Platform) -> Seq<char> {
    match p {
        Platform::Linux => "linux"@,
        Platform::MacOs => "darwin"@,
        Platform::Windows => "windows"@,
        Platform::Unsupported => "Unsupported-platform"@,
    }
}

/// The platform that a name stands for, if it stands for one.
pub open spec fn platform_named(s: Seq<char>) -> Option<Platform> {
    if s == "linux"@ {
        Some(Platform::Linux)
    } else if s == "macosx"@ || s == "darwin"@ {
        Some(Platform::MacOs)
    } else if s == "windows"@ {
        Some(Platform::Windows)
    } else {
        None
    }
}

/// The platform of a machine with the given operating system and
/// architecture.
pub open spec fn platform_of(os: Seq<char>, arch: Seq<char>) -> Platform {
    if os == "linux"@ && (arch == "x86_64"@ || arch == "aarch64"@) {
        Platform::Linux
    } else if os == "macos"@ && (arch == "x86_64"@ || arch == "aarch64"@) {
        Platform::MacOs
    } else if os == "windows"@ && arch == "x86_64"@ {
        Platform::Windows
    } else {
        Platform::Unsupported
    }
}

impl Platform {
    /// The platform's token.
    pub fn to_string(&self) -> (r: String)
        ensures
            r@ == platform_token(*self),
    {
        match self {
            Platform::Linux => "linux".to_owned(),
            Platform::MacOs => "darwin".to_owned(),
            Platform::Windows => "windows".to_owned(),
            Platform::Unsupported => "Unsupported-platform".to_owned(),
        }
    }

    /// Reads a platform from its name; any other text is handed back in
    /// the error message.
    pub fn from_str(s: &str) -> (r: Result<Platform, String>)
        ensures
            match platform_named(s@) {
                Some(p) => r == Ok::<Platform, String>(p),
                None => r matches Err(m) && m@ == "unsupported platform "@ + s@,
            },
    {
        if same_text(s, "linux") {
            Ok(Platform::Linux)
        } else if same_text(s, "macosx") || same_text(s, "darwin") {
            Ok(Platform::MacOs)
        } else if same_text(s, "windows") {
            Ok(Platform::Windows)
        } else {
            let mut m = "unsupported platform ".to_owned();
            m.append(s);
            Err(m)
        }
    }
}

/// The platform of a machine, from the names that the machine gives to its
/// operating system and architecture.
pub fn platform_from(os: &str, arch: &str) -> (r: Platform)
    ensures
        r == platform_of(os@, arch@),
{
    let wide = same_text(arch, "x86_64");
    let arm = same_text(arch, "aarch64");
    if same_text(os, "linux") && (wide || arm) {
        Platform::Linux
    } else if same_text(os, "macos") && (wide || arm) {
        Platform::MacOs
    } else if same_text(os, "windows") && wide {
        Platform::Windows
    } else {
        Platform::Unsupported
    }
}

} // verus!
