pub mod catalog;
pub mod config;
pub mod error;
pub mod gag;
pub mod generate;
pub mod level_key;
pub mod matrix;
pub mod node;
pub mod render;
pub mod text;

pub use error::{ArgsError, ParseError};
pub use generate::generate_html;
pub use node::Node;
