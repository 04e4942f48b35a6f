//! Driver library for a command-line code-completion and symbol-resolution
//! tool. The library holds the verified core of the driver: coordinate
//! conversion between editor (line, column) pairs and byte offsets,
//! identifier-prefix expansion, the command grammar, the textual record
//! formats consumed by editor integrations, and the assembly of each
//! handler's output. File and console I/O, and the resolution engine that
//! produces the matches themselves, live outside the library and hand it
//! plain values.

pub mod ascii;
pub mod command;
pub mod env_check;
pub mod handlers;
pub mod numfmt;
pub mod record;
pub mod text;
