//! Decoder for the SimpleIcon text format.
//!
//! A file is one line of text, `<name>;;<version>;;<width>x<height>;;<payload>`.
//! [`decode`] turns it into a [`SimpleIcon`] or says with a [`DecodeError`]
//! why it cannot; [`SimpleIcon::render`] gives the text that shows the icon.

pub mod builder;
pub mod error;
pub mod format;
pub mod icon;
pub mod layout;
pub mod number;
pub mod render;
pub mod text;
pub mod theorems;

pub use builder::SimpleIconBuilder;
pub use error::DecodeError;
pub use format::decode;
pub use icon::SimpleIcon;
