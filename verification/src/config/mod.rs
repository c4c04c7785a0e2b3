//! Configuration layer: a small INI reader and writer plus the typed settings
//! sections used by the subsystems.

pub mod ini;
pub mod panel;
pub mod sections;
pub mod settings;
pub mod text_form;
