//! The simulation core of a turn-based roguelike: a tile-grid world, the
//! visibility and lighting field computed over it, and the pathfinding that
//! arbitrates the moves of its autonomous actors.

pub mod action;
pub mod animation;
pub mod cards;
pub mod colour;
pub mod entity;
pub mod frontend;
pub mod game;
pub mod geometry;
pub mod intent;
pub mod outside;
pub mod pathfinding;
pub mod rules;
pub mod sight;
pub mod terrain;
pub mod ui;
pub mod vision;
pub mod world;
