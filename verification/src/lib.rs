//! Verified core of an anime episode renamer backed by the Bangumi API.
pub mod bangumi_api;
pub mod list_window;
pub mod cli;
pub mod cuby;
pub mod fetch;
pub mod http;
pub mod linker;
pub mod names;
pub mod url;
pub mod num;
pub mod paths;
pub mod rename;
pub mod system;
pub mod report;
pub mod text;
