//! A verified core for a small game-launcher: the engine-configuration
//! rewriter, console command parsing, and the mod install/update planning,
//! stated over byte sequences and proved with Verus.
pub mod config;
pub mod console;
pub mod ini;
pub mod launcher;
pub mod mods;
pub mod text;
