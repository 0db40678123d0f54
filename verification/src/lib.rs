pub mod text;
pub mod utils;
pub mod utils_parsing;
pub mod setting_engine;
pub mod settings;
pub mod log;
pub mod factory_mapfiles;
pub mod player;
pub mod quest;
pub mod text_map;
pub mod map;
pub mod channel;
pub mod combat;
pub mod action;
pub mod command;
pub mod command_hp;
pub mod command_quest;
pub mod command_x;
pub mod command_look;
pub mod command_walk;
pub mod command_climb;
pub mod command_fight;
pub mod command_chat;
pub mod command_friend;
pub mod command_map;
pub mod service;
pub mod process;
pub mod process_walk;
pub mod process_fight;
pub mod process_climb;
pub mod process_quest;
pub mod login;
pub mod tool;
pub mod laws;
