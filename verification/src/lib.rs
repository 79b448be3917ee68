//! Logic of a Wayland wallpaper daemon and its layer-shell display client.

pub mod bus;
pub mod catalog;
pub mod dispatch;
pub mod drm;
pub mod endpoint;
pub mod error;
pub mod filter;
pub mod filter_state;
pub mod fts;
pub mod layer;
pub mod layout;
pub mod negotiate;
pub mod paths;
pub mod probe;
pub mod queue;
pub mod registry;
pub mod renderer;
pub mod router;
pub mod schema;
pub mod selftest;
pub mod seqs;
pub mod settings;
pub mod snapshot;
pub mod source;
pub mod spawn;
pub mod strmap;
pub mod text;
pub mod wire;
