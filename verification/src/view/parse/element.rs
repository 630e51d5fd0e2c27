//! Elements of a view: a tag name, attributes and children.

pub mod attributes;
pub mod children;
