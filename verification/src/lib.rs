pub mod text;
pub mod issue;
pub mod engine;
pub mod detector;
pub mod fixer;
pub mod github;
pub mod archive;
pub mod state;
pub mod view;
