//! A turn-based card-game match engine: resource dice, characters with
//! ability handlers, persistent card effects and the turn state machine.

pub mod dice_set;
pub mod game_events;
pub mod operation_context;
pub mod cards;
pub mod characters;
pub mod game_environment;
pub mod player;
pub mod server_messages;
pub mod game_server;
