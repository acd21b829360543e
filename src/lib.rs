pub mod filesystem;
pub mod hash;
pub mod spectests;

pub use filesystem::{
    EntryWrite, FileSystemCache, IoDeserializeError, IoSerializeError, PathStatus, Setup, SetupError,
};
pub use hash::WasmHash;
