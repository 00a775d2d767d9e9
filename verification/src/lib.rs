//! A dungeon-layout generator over a bounded 2D integer grid.
//!
//! The generator places a requested number of non-overlapping rectangular
//! rooms, connects them with axis-aligned elbow corridors chosen along a
//! minimum spanning tree of the room centroids, carves floor tiles for rooms
//! and corridors, and finally surrounds every floor region with wall tiles.

pub mod corridor;
pub mod dungeon;
pub mod graph;
pub mod grid;
pub mod paint;
pub mod position;
pub mod rect;
pub mod rng;
pub mod sampler;

pub use corridor::plan_corridors;
pub use dungeon::DungeonError;
pub use dungeon::DungeonSculptor;
pub use graph::build_edges;
pub use graph::plan_spanning_edges;
pub use grid::ActorHandle;
pub use grid::Grid;
pub use grid::Material;
pub use grid::MaterialHandle;
pub use grid::Tile;
pub use grid::TileFlags;
pub use paint::paint_tiles;
pub use paint::synthesize_walls;
pub use position::min_max_aabb_from_rect;
pub use position::Position;
pub use rect::Rectangle;
pub use rng::RandomStream;
pub use sampler::sample_rooms;
