pub mod text;
pub mod app_config;
pub mod net;
pub mod room_core;
pub mod room;
pub mod crypto;
pub mod outside;
pub mod protocol;
pub mod address_book;
pub mod phase1;
pub mod room_handler;
pub mod stun_client;
pub mod p2p;
pub mod security;
pub mod commands;
pub mod config;
pub mod settings_manager;
pub mod signaling;
pub mod audio;
pub mod menu;
pub mod session;
pub mod room_link;
pub mod secure_channel;
pub mod cli_app;
pub mod terminal_ui;
pub mod participant_list;
pub mod connection_manager;
pub mod app_state;
pub mod qr_code;
