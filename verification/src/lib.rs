//! Building blocks of a tar archiver: codec selection, compression levels,
//! ignore-pattern handling and the order of work for one run.
//!
//! The library computes and decides; it opens no file and walks no
//! directory. A program around it reads the command line, hands the flags to
//! `Settings`, and then carries out what `orchestrator::Run` tells it to.

pub mod backend;
pub mod codec;
pub mod compression;
pub mod compressor;
pub mod glob;
pub mod guarantees;
pub mod mode;
pub mod orchestrator;
pub mod paths;
pub mod settings;
pub mod timestamp;

pub use crate::backend::Backend;
pub use crate::codec::Codec;
pub use crate::compression::Compression;
pub use crate::compressor::Compressor;
pub use crate::glob::fix_glob;
pub use crate::mode::Mode;
pub use crate::settings::Settings;
pub use crate::timestamp::Timestamp;
