//! RiverBorn: a dungeon-crawling betting card game.
//!
//! A hand is a `game::Game`, a match of many hands a `table::Match`, and the rooms of a server a
//! `lobby::Lobby`. Each has a view in `game_model`, `table` or `lobby_model`, and its operations
//! state what they do to that view. What holds over several operations is proved in the `*_laws`
//! modules, in `session` and in `playable`.

pub mod ai;
pub mod betting_laws;
pub mod caption_laws;
pub mod captions;
pub mod cards;
pub mod client;
pub mod combat;
pub mod combat_laws;
pub mod game;
pub mod game_laws;
pub mod game_model;
pub mod hud;
pub mod icon;
pub mod lobby;
pub mod lobby_laws;
pub mod lobby_model;
pub mod local_laws;
pub mod machine_laws;
pub mod match_laws;
pub mod net;
pub mod picking_laws;
pub mod playable;
pub mod player;
pub mod pot;
pub mod request_laws;
pub mod rng;
pub mod room;
pub mod scoreboard;
pub mod screens;
pub mod seating;
pub mod server_laws;
pub mod session;
pub mod showdown_laws;
pub mod slots;
pub mod solo;
pub mod table;
pub mod table_view;
pub mod team_laws;
pub mod text;
pub mod view_laws;
