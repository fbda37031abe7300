pub mod assoc;
pub mod compiler;
pub mod datetime;
pub mod document;
pub mod error;
pub mod generators;
pub mod metadata;
pub mod readers;
pub mod registry;
pub mod scan;
pub mod settings;
pub mod site;
pub mod templates;
pub mod text;
pub mod utils;

pub use crate::compiler::{filter_entry, Compiler};
pub use crate::document::{Document, DocumentContent, DocumentMetadata};
pub use crate::error::{Error, Result};
pub use crate::generators::Generator;
pub use crate::settings::Settings;
pub use crate::site::Site;
