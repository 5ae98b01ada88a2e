//! The options of each command of the key logger, as plain values.
use vstd::prelude::*;

verus! {

/// Options of `init`.
#[derive(Clone, Debug)]
pub struct InitArgs {
    /// The path to the repository directory
    pub path: String,
}

/// Options of `log`.
#[derive(Clone, Debug)]
pub struct LogArgs {
    /// The path to the log file
    pub out_path: Option<String>,
    /// The events file number to log on
    pub event: u32,
    /// The number of new key presses between two checkpoints
    pub every: usize,
}

/// Options of `export`.
#[derive(Clone, Debug)]
pub struct ExportArgs {
    /// The path to the log file
    pub in_path: Option<String>,
    /// The path to the csv file
    pub out_path: Option<String>,
}

/// Options of `heatmap`.
#[derive(Clone, Debug)]
pub struct HeatmapArgs {
    /// The path to the log file
    pub in_path: Option<String>,
    /// The path to the svg file
    pub keyboard_svg_path: Option<String>,
    /// The path to the output svg file
    pub out_path: String,
}

/// Options of `encrypt`.
#[derive(Clone, Debug)]
pub struct EncryptArgs {
    /// The path to the log file
    pub in_path: Option<String>,
    /// The path to the encrypted output
    pub out_path: Option<String>,
}

/// Options of `analyze`.
#[derive(Clone, Debug)]
pub struct AnalyzeTimeArgs {
    /// The path to the log file
    pub in_path: Option<String>,
}

/// Options of `convert`.
#[derive(Clone, Debug)]
pub struct ConvertArgs {
    /// The path to the old keylog file
    pub in_path: Option<String>,
    /// The path to the new keylog file
    pub out_path: Option<String>,
}

/// Options of `words`.
#[derive(Clone, Debug)]
pub struct WordsArgs {
    /// The path to the log file
    pub in_path: Option<String>,
    /// Minimum word length
    pub length: usize,
}

/// Options of `compress`.
#[derive(Clone, Debug)]
pub struct CompressArgs {
    /// The path to the log file
    pub in_path: Option<String>,
    /// The path to the compressed output
    pub out_path: Option<String>,
}

} // verus!
