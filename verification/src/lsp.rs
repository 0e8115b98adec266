pub mod binary;
pub mod initialization_options;
pub mod platform;
pub mod settings;
