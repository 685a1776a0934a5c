//! A crate for working with old 8-bit string formats
//!
//! The PETSCII converter turns Commodore PETSCII bytes into Unicode
//! text and back, driven by character maps that the caller supplies.
use vstd::prelude::*;

pub mod convert;
pub mod error;
pub mod laws;
pub mod petscii;

verus! {

/// An individual system config: a version and the character maps of
/// one system
#[derive(Clone, Debug)]
pub struct SystemConfig {
    /// Version of this system
    pub version: String,
    /// The mappings between the system's 8-bit characters, its
    /// intermediate screen codes, and Unicode
    pub character_set_map: petscii::PetsciiConfig,
}

/// Configuration root
#[derive(Clone, Debug)]
pub struct Config {
    /// Version of the configuration root
    pub version: String,
    /// The PETSCII system
    pub petscii: SystemConfig,
}

/// Loading configuration data, from the default source or from a file
pub trait Configuration {
    /// Load the configuration data from the default source
    fn load() -> Result<Config, error::Error>;

    /// Load configuration data from a file
    fn load_from_file(filename: &str) -> Result<Config, error::Error>;
}

} // verus!
