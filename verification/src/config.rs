pub mod consts;
pub mod settings;
