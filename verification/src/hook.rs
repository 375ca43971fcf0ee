//! The decisions behind each intercepted call.

pub mod create;
pub mod enumerate;
pub mod image_copy;
pub mod install;
pub mod io;
pub mod listing;
pub mod make_section;
pub mod object_name;
pub mod open;
pub mod query;
pub mod section;
pub mod setinfo;
pub mod tables;
