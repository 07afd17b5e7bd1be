pub mod launch;
pub mod laws;
pub mod manager;
pub mod model;
pub mod pty;
pub mod reader;
pub mod text;
pub mod whisper;
