//! A native marker module that registers one attribute, the package's
//! version, when its host loads it.

use vstd::prelude::*;

pub mod loader;
pub mod version;

pub use loader::{
    ActionView, Attribute, InitError, LoadAction, LoadEvent, ModuleView, Phase, ShimModule,
    VERSION_ATTRIBUTE,
};
pub use version::is_semver;
