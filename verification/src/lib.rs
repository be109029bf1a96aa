//! Rules core of a trail-building board game: the choice algebra bound to a
//! location, the card deck, the job market, the route and the objective matcher.
#![allow(non_snake_case)]

pub mod actions;
pub mod buildings;
pub mod deck;
pub mod game;
pub mod logical;
pub mod player;
pub mod tiles;
pub mod tracks;

pub use crate::game::Engine;
