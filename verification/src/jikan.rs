pub mod anime;
pub mod character;
pub mod manga;
