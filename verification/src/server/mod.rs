//! The server's own logic: playlists, the command handling of the JSON-RPC
//! interface, helpers of the REST API and the parameters of audio streams.
pub mod playlist;
pub mod jsonrpc;
pub mod api;
pub mod streaming;
pub mod plugin_routes;
pub mod sync_coordinator;
pub mod websocket;
pub mod player_manager;
