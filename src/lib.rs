//! Bootstraps a developer toolchain environment and launches a program in it.
//!
//! The library holds every decision of the launcher: where the installation
//! locator lives and how it is asked, how the setup script is run, how the
//! captured environment dump is parsed into a map, and the linear run that
//! sequences the steps. Running processes is left to the caller.
pub mod capture;
pub mod envmap;
pub mod launch;
pub mod locator;
pub mod parser;
pub mod run;
pub mod setup;
pub mod text;
