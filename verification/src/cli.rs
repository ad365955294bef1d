//! The command line, as far as the engine reads it.

use vstd::prelude::*;
use vstd::string::StringSliceAdditionalSpecFns;

verus! {

/// Whether `text` ends with `suffix`.
pub open spec fn has_suffix(text: Seq<u8>, suffix: Seq<u8>) -> bool {
    text.len() >= suffix.len() && text.subrange(text.len() - suffix.len(), text.len() as int)
        == suffix
}

/// The bytes of `.toml`.
pub open spec fn toml_suffix() -> Seq<u8> {
    seq![0x2eu8, 0x74u8, 0x6fu8, 0x6du8, 0x6cu8]
}

/// The bytes of `.yaml`.
pub open spec fn yaml_suffix() -> Seq<u8> {
    seq![0x2eu8, 0x79u8, 0x61u8, 0x6du8, 0x6cu8]
}

/// The bytes of `.yml`.
pub open spec fn yml_suffix() -> Seq<u8> {
    seq![0x2eu8, 0x79u8, 0x6du8, 0x6cu8]
}

/// Whether `text` ends with `suffix`.
fn ends_with(text: &[u8], suffix: &[u8]) -> (found: bool)
    ensures
        found == has_suffix(text@, suffix@),
{
    if text.len() < suffix.len() {
        return false;
    }
    let start = text.len() - suffix.len();
    let mut i: usize = 0;
    while i < suffix.len()
        invariant
            i <= suffix.len(),
            start + suffix.len() == text.len(),
            forall|k: int| 0 <= k < i ==> text@[start + k] == suffix@[k],
        decreases suffix.len() - i,
    {
        if text[start + i] != suffix[i] {
            assert(text@.subrange(start as int, text@.len() as int)[i as int] != suffix@[i as int]);
            return false;
        }
        i += 1;
    }
    assert(text@.subrange(start as int, text@.len() as int) =~= suffix@);
    true
}

/// What the command line asks for. Paths are kept as the text that was
/// given.
#[derive(Debug, Clone, PartialEq, Eq)]
pub struct Cli {
    /// A configuration file, or its text.
    pub config: Option<String>,
    /// The directory that holds the configuration.
    pub config_dir: Option<String>,
    /// The directory to work in.
    pub work_dir: Option<String>,
    /// Print the version and leave.
    pub version: bool,
    pub command: Option<Commands>,
}

/// The subcommands.
#[derive(Debug, Clone, PartialEq, Eq)]
pub enum Commands {
    /// Runs the self test.
    Test { list: bool },
    /// Writes a configuration file with the default settings.
    Init { format: ConfigFormat },
}

/// The formats of a configuration file.
#[derive(Debug, Clone, Copy, PartialEq, Eq, Structural)]
pub enum ConfigFormat {
    Yaml,
    Toml,
}

impl Default for ConfigFormat {
    fn default() -> (format: ConfigFormat)
        ensures
            format == ConfigFormat::Yaml,
    {
        ConfigFormat::Yaml
    }
}

impl ConfigFormat {
    /// The file name extension of the format.
    pub fn extension(&self) -> (ext: &'static str)
        ensures
            ext@ == match *self {
                ConfigFormat::Yaml => "yaml"@,
                ConfigFormat::Toml => "toml"@,
            },
    {
        match self {
            ConfigFormat::Yaml => "yaml",
            ConfigFormat::Toml => "toml",
        }
    }

    /// The format that a configuration file is read in, by its name:
    /// YAML for a name that ends in `.yaml` or `.yml`, TOML for every
    /// other.
    pub fn for_path(path: &str) -> (format: ConfigFormat)
        ensures
            format == if has_suffix(path.spec_bytes(), toml_suffix()) {
                ConfigFormat::Toml
            } else if has_suffix(path.spec_bytes(), yaml_suffix()) || has_suffix(
                path.spec_bytes(),
                yml_suffix(),
            ) {
                ConfigFormat::Yaml
            } else {
                ConfigFormat::Toml
            },
    {
        let bytes = path.as_bytes();
        let toml: [u8; 5] = [0x2e, 0x74, 0x6f, 0x6d, 0x6c];
        let yaml: [u8; 5] = [0x2e, 0x79, 0x61, 0x6d, 0x6c];
        let yml: [u8; 4] = [0x2e, 0x79, 0x6d, 0x6c];
        proof {
            assert(toml@ =~= toml_suffix());
            assert(yaml@ =~= yaml_suffix());
            assert(yml@ =~= yml_suffix());
        }
        if ends_with(bytes, toml.as_slice()) {
            ConfigFormat::Toml
        } else if ends_with(bytes, yaml.as_slice()) || ends_with(bytes, yml.as_slice()) {
            ConfigFormat::Yaml
        } else {
            ConfigFormat::Toml
        }
    }
}

} // verus!
