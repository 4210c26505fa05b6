//! Rules, sessions and connection handling for a pursuit game played on a
//! transport map: one hidden fugitive against a team of detectives.

pub mod data;
pub mod event;
pub mod character;
pub mod detective;
pub mod mister_x;
pub mod map_utils;
pub mod replay;
pub mod game;
pub mod packet;
pub mod lobby;
pub mod ws_connection;
pub mod game_service;
pub mod app_state;
pub mod bot;
mod random;
pub mod map_text;
