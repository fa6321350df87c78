//! mole: finds, across a tree of package directories, every manifest and
//! lock file that declares or pins a dependency on a named package, and
//! reports each occurrence as (owning package, version, file path).
//!
//! The pipeline — decoding manifests and lock files, matching the target
//! dependency, correlating the two per directory, and sorting the report —
//! is verified. TOML text is parsed by the `toml` crate behind the trusted
//! boundary in `toml_read`, which names what each call returns; everything
//! that decides what the parsed values mean is proved exact against the spec
//! functions in `data` and `decode`.

pub mod data;
pub mod order;
pub mod toml_read;
pub mod decode;
pub mod parser;
pub mod laws;
