[package]
name = "dungeon_sculptor"
version = "0.1.0"
edition = "2021"
publish = false

[dependencies]
hashbrown = "*"
pathfinding = "*"
delaunator = "*"
