pub mod engine;
pub mod entry;
pub mod record;
pub mod schema;
pub mod tokenize;
pub mod view;
