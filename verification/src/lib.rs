pub mod content;
pub mod domain;
pub mod engine;
pub mod errors;
pub mod front_matter;
pub mod markdown;
pub mod pagination;
pub mod parser;
pub mod render;
pub mod seo;
pub mod strutil;
pub mod taxonomy;
pub mod watch;
