pub mod audio;
pub mod battle;
pub mod bn6;
pub mod bytes;
pub mod compat;
pub mod config;
pub mod fastforwarder;
pub mod gui;
pub mod input;
pub mod loaded;
pub mod matchmaking;
pub mod mgba;
pub mod negotiation;
pub mod protocol;
pub mod replay;
pub mod rng;
pub mod signor;
pub mod tps;
