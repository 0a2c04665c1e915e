//! Verified core of a music player: queue handling, the catalogue model, encrypted stream
//! parsing, remote-control sessions and the decisions behind the user interfaces.

pub mod cmaf;
pub mod connect;
pub mod connect_laws;
pub mod connect_queue;
pub mod connect_queue_laws;
pub mod crypto;
pub mod disconnect_client;
pub mod disconnect_server;
pub mod error;
pub mod file_cache;
pub mod filtered_list;
pub mod flac_source;
pub mod full_screen;
pub mod grid;
pub mod grid_page;
pub mod html;
pub mod image_cache;
pub mod keys;
pub mod mapper;
pub mod mapper_laws;
pub mod models;
pub mod new_playlist;
pub mod notification;
pub mod now_playing;
pub mod now_playing_center;
pub mod output_laws;
pub mod overlays;
pub mod page_laws;
pub mod player_connect;
pub mod player_connect_laws;
pub mod player_server;
pub mod player_server_laws;
pub mod popup_laws;
pub mod qobuz_models;
pub mod queue_page;
pub mod queue_page_laws;
pub mod registry;
pub mod screen_laws;
pub mod segment_fetch;
pub mod sequences;
pub mod sink;
pub mod stream_laws;
pub mod stream_reader;
pub mod sub_tab;
pub mod terminal_app;
pub mod terminal_laws;
pub mod text;
pub mod text_laws;
pub mod tracklist;
pub mod web;
