//! Picks, fills in and identifies the license file of a project: the
//! catalogue of known licenses, the classification of a local license file
//! by its first two lines, the filling of a template's placeholders, the
//! name of the backup of a replaced license, and the decisions of the
//! interactive menu.

pub mod catalogue;
pub mod classify;
pub mod clock;
pub mod license;
pub mod render;
pub mod shell;
pub mod text;

pub use license::{License, LicenseType};
