//! Friday: the rules engine of a solitaire survival card game.
//!
//! A castaway fights hazards, then pirates, with a deck of fighting cards
//! that ages as it is reshuffled. The engine is a state machine driven by
//! player events; every card is in exactly one pile at any time.

pub mod cards;
pub mod words;
pub mod catalog;
pub mod piles;
pub mod fight;
pub mod table;
pub mod friday;
pub mod rules;
pub mod engine;
pub mod laws;
pub mod setup;
pub mod sound;
