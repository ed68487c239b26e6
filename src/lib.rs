//! A two-player tic-tac-toe game server core: rooms, a registry of rooms and
//! the command handling that turns client commands into events.
pub mod game;
pub mod registry;
pub mod dispatch;
pub mod command;
