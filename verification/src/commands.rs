//! The decisions behind each command; the program around them does the
//! reading, writing and talking to Notion.
pub mod push;
pub mod init;
pub mod check;
pub mod new;
pub mod write;
pub mod edit;
pub mod list;
