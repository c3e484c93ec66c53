//! The shell's applications: the book reader and the launcher.
pub mod reader_shell;
pub mod settings;
pub mod book_reader;
pub mod home;
