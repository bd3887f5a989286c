//! The download cache of the station dumps shares its entity tag storage with the
//! systems dump.

pub use crate::download::{EtagStoreage, EtagTable};
