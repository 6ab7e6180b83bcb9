use vstd::prelude::*;
use crate::strings::same_chars;

verus! {

// Where the phonemizer's eSpeak-ng data comes from, and which release archive
// provides it for a target.

/// Release of piper-phonemize whose archives hold the eSpeak-ng data.
pub const PIPER_PHONEMIZE_TAG: &'static str = "2023.11.14-4";

/// Environment variable that overrides the archive URL.
pub const PIPER_URL_ENV: &'static str = "KOKORO_PIPER_PHONEMIZE_URL";

/// Environment variable naming the directory that holds `espeak-ng-data`.
pub const ESPEAK_HOME_ENV: &'static str = "PIPER_ESPEAKNG_DATA_DIRECTORY";

/// Release-page prefix of the archive URLs.
pub const PIPER_RELEASES_URL: &'static str = "https://github.com/rhasspy/piper-phonemize/releases/download/";

/// The archive published for an operating system and architecture (as
/// `std::env::consts` names them), if any.
pub open spec fn archive_for(os: Seq<char>, arch: Seq<char>) -> Option<Seq<char>> {
    if os == "macos"@ && arch == "aarch64"@ {
        Some("piper-phonemize_macos_aarch64.tar.gz"@)
    } else if os == "macos"@ && arch == "x86_64"@ {
        Some("piper-phonemize_macos_x64.tar.gz"@)
    } else if os == "linux"@ && arch == "aarch64"@ {
        Some("piper-phonemize_linux_aarch64.tar.gz"@)
    } else if os == "linux"@ && arch == "arm"@ {
        Some("piper-phonemize_linux_armv7l.tar.gz"@)
    } else if os == "linux"@ && arch == "x86_64"@ {
        Some("piper-phonemize_linux_x86_64.tar.gz"@)
    } else {
        None
    }
}

pub open spec fn no_archive_message(os: Seq<char>, arch: Seq<char>) -> Seq<char> {
    "No default piper-phonemize archive for target "@ + os + "/"@ + arch + "; set "@
        + PIPER_URL_ENV@
}

pub fn piper_archive_name_for_target(os: &str, arch: &str) -> (r: Result<&'static str, String>)
    ensures
        match archive_for(os@, arch@) {
            Some(name) => r matches Ok(n) && n@ == name,
            None => r matches Err(m) && m@ == no_archive_message(os@, arch@),
        },
{
    let is_macos = same_chars(os, "macos");
    let is_linux = same_chars(os, "linux");
    if is_macos && same_chars(arch, "aarch64") {
        Ok("piper-phonemize_macos_aarch64.tar.gz")
    } else if is_macos && same_chars(arch, "x86_64") {
        Ok("piper-phonemize_macos_x64.tar.gz")
    } else if is_linux && same_chars(arch, "aarch64") {
        Ok("piper-phonemize_linux_aarch64.tar.gz")
    } else if is_linux && same_chars(arch, "arm") {
        Ok("piper-phonemize_linux_armv7l.tar.gz")
    } else if is_linux && same_chars(arch, "x86_64") {
        Ok("piper-phonemize_linux_x86_64.tar.gz")
    } else {
        Err(
            String::from_str("No default piper-phonemize archive for target ").concat(os).concat(
                "/",
            ).concat(arch).concat("; set ").concat(PIPER_URL_ENV),
        )
    }
}

/// The download URL of the archive for a target.
pub fn default_piper_url(os: &str, arch: &str) -> (r: Result<String, String>)
    ensures
        match archive_for(os@, arch@) {
            Some(name) => r matches Ok(u) && u@ == PIPER_RELEASES_URL@ + PIPER_PHONEMIZE_TAG@
                + "/"@ + name,
            None => r matches Err(m) && m@ == no_archive_message(os@, arch@),
        },
{
    match piper_archive_name_for_target(os, arch) {
        Ok(name) => Ok(
            String::from_str(PIPER_RELEASES_URL).concat(PIPER_PHONEMIZE_TAG).concat("/").concat(
                name,
            ),
        ),
        Err(m) => Err(m),
    }
}

/// Where the eSpeak-ng data directory is taken from.
#[derive(Debug, Clone, Copy, PartialEq, Eq, Structural)]
pub enum EspeakHome {
    /// The directory the environment names.
    Configured,
    /// The environment names a directory without `espeak-ng-data`: an error.
    ConfiguredInvalid,
    /// A directory found next to the working directory or the executable.
    Discovered,
    /// An earlier download in the cache directory.
    Cached,
    /// Nothing usable: download and unpack the release archive.
    Download,
}

/// The first usable source, in this order: the environment (which, when set,
/// must be valid), a discovered directory, the cache, a download.
/// `configured` is `Some(valid)` when the environment names a directory.
pub fn choose_espeak_home(configured: Option<bool>, discovered: bool, cached: bool) -> (r: EspeakHome)
    ensures
        r == match configured {
            Some(true) => EspeakHome::Configured,
            Some(false) => EspeakHome::ConfiguredInvalid,
            None => if discovered {
                EspeakHome::Discovered
            } else if cached {
                EspeakHome::Cached
            } else {
                EspeakHome::Download
            },
        },
{
    match configured {
        Some(valid) => if valid {
            EspeakHome::Configured
        } else {
            EspeakHome::ConfiguredInvalid
        },
        None => if discovered {
            EspeakHome::Discovered
        } else if cached {
            EspeakHome::Cached
        } else {
            EspeakHome::Download
        },
    }
}

} // verus!
