//! Audio routing over several output devices at once.

pub mod backend;
pub mod commands;
pub mod device;
pub mod fanout;
pub mod linux;
pub mod seq_laws;
pub mod text;
pub mod text_laws;
pub mod volume;
pub mod windows;
