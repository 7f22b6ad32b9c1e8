//! Packaging of a directory of static assets into a self-locating container
//! that can be appended to an arbitrary host executable, and resolution of
//! virtual paths against the packaged tree.

pub mod codec;
pub mod config;
pub mod container;
pub mod data;
pub mod error;
pub mod path;
pub mod reader;
pub mod target;
pub mod text;
pub mod tree;
pub mod tree_laws;
pub mod uri;
pub mod wire;

pub use codec::{Compress, File};
pub use config::{Config, Icon, Position, WebViewAttr, WindowAttr, WindowSize};
pub use container::{frame, locate};
pub use data::{Asset, Data};
pub use error::DataError;
pub use path::normalize_path;
pub use reader::{feed, locate_stepwise, start, Pending, Progress};
pub use target::{artifact, build_mode, platform_target, BuildMode};
pub use tree::{Dir, SourceEntry};
pub use uri::{custom_protocol_uri, custom_protocol_uri_to_path, runtime_uri};
