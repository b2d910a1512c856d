//! Compiled puzzle bundles and the read-only store that serves them.
pub mod cli;
pub mod compiler;
pub mod manifest;
pub mod puzzle;
pub mod readme;
pub mod settings;
pub mod store;

pub use compiler::{compile_puzzle, CompileError};
pub use manifest::{load_manifest, ManifestError, PuzzleManifest};
pub use puzzle::{PuzzleData, PuzzleDifficulty, PuzzleFileData, PuzzleFileEnum};
pub use store::{build_store, get_file_data, get_id_list, PuzzleStore};
