pub mod imports;
pub mod rules;
pub mod types;
pub mod walk;
pub mod resolver;
pub mod access;
pub mod annotation;
