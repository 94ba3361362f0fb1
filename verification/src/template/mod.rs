//! Templates: where they are read from and written to, and the color formats
//! they can use.

pub mod color;
pub mod template;
pub mod template_struct;

pub use template_struct::Template;
