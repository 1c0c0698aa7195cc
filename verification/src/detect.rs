//! Game detection: which running process is a game, what it is called, and when
//! the buffer starts and stops by itself. The scanners only feed text.

pub mod auto;
pub mod game_laws;
pub mod icons;
pub mod matcher;
pub mod name_laws;
pub mod parser_laws;
pub mod parsers;
pub mod resolve;
pub mod tick;
pub mod types;
