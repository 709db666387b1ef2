//! Generic container formats: RIFF chunk trees and ICO/CUR directories.

pub mod ico;
pub mod riff;
