//! Keeps a keyboard remapper's active layer in step with the application that
//! currently has window focus.
//!
//! The crate holds the decision logic of the daemon: the wire codec spoken
//! with the remapper, the allow-list policy, the layer decision itself, and
//! the one-cycle step of the synchronization loop. All I/O (the remapper's
//! TCP socket, the window manager's IPC, files, threads) lives outside, in
//! the binary around this library, which hands plain values in and out.

use vstd::prelude::*;

mod allow_list;
mod args;
mod focus;
mod policy;
mod sync;
mod text;
mod wire;

pub use allow_list::AllowListSource;
pub use allow_list::get_white_list;
pub use allow_list::spec_white_list;
pub use args::Args;
pub use args::LogLevel;
pub use args::configure_logger;
pub use focus::NodeInfo;
pub use focus::current_application;
pub use focus::find_socket;
pub use focus::is_socket_name;
pub use focus::socket_prefix;
pub use focus::spec_current_application;
pub use focus::spec_find_socket;
pub use focus::spec_is_socket_name;
pub use focus::spec_node_target;
pub use policy::decide;
pub use policy::default_layer;
pub use policy::lemma_decide_idempotent;
pub use policy::lemma_no_focus_no_change;
pub use policy::lemma_recognized_app_selected;
pub use policy::lemma_unlisted_layer_no_change;
pub use policy::lemma_unrecognized_app_defaults;
pub use policy::should_change_layer;
pub use policy::spec_decide;
pub use sync::ACTIVE_INTERVAL_MS;
pub use sync::IDLE_INTERVAL_MS;
pub use sync::SyncState;
pub use sync::backoff_interval;
pub use sync::command_layer;
pub use sync::lemma_round_trip;
pub use sync::spec_backoff_interval;
pub use sync::spec_coalesce;
pub use sync::spec_sync_step;
pub use sync::sync_step;
pub use text::chars_of;
pub use text::contains_string;
pub use wire::ClientMessage;
pub use wire::ProtocolError;
pub use wire::ServerMessage;
pub use wire::client_message_text;
pub use wire::encode_client_message;
pub use wire::escape_char;
pub use wire::escape_string;
pub use wire::hex_digit;
pub use wire::hex_value;
pub use wire::is_hex_lower;
pub use wire::has_short_escape;
pub use wire::hex_code;
pub use wire::prepend;
pub use wire::unescape;
pub use wire::lemma_unescape_escape;
pub use wire::lemma_escape_unescape;
pub use wire::lemma_server_message_text_injective;
pub use wire::parse_server_message;
pub use wire::server_message_text;

verus! {

/// Default TCP port of the remapper's control server.
pub const DEFAULT_PORT: u16 = 7070;

} // verus!
