//! The decisions of a Windows setup program for the Floorp browser.
//!
//! The program finds the latest release, fetches its installer, has Windows check the installer's
//! signature, runs it with or without administrator rights, and starts the browser. What it does
//! at each point, and what it makes of the answers, is decided here: `session`, `signature`,
//! `install` and `launch` hold steps that are carried out elsewhere and answered by events;
//! `release`, `paths`, `arguments` and `elevated` hold what those steps read and write; `text`,
//! `number` and `wide` hold the operations on text. `laws` tells what all of these do with what they
//! are given.

pub mod arguments;
pub mod elevated;
pub mod install;
pub mod launch;
pub mod laws;
pub mod number;
pub mod paths;
pub mod release;
pub mod session;
pub mod signature;
pub mod text;
pub mod wide;
