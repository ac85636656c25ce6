//! An entity-component store: entities are plain identifiers, components are
//! values kept per component kind, and queries select the entities whose
//! components match a filter. Alongside it: small vector, range and
//! render-state types.
pub mod config;
pub mod draw;
pub mod entity;
pub mod filter;
pub mod geom;
pub mod laws;
pub mod query;
pub mod range;
pub mod storage;
pub mod util;
pub mod world;

pub use config::{Config, Configurable, ShowValue};
pub use draw::{Aabb, BlendMode, CullFace, DepthFunc, DepthTest, DrawParameters, GlSettings};
pub use entity::{Id, Kind};
pub use filter::Filter;
pub use geom::{vec2, vec3, Vec2, Vec3};
pub use query::{Access, Query, QueryError};
pub use range::{index_range, FixedBound, FixedRangeBounds, IndexBound};
pub use storage::ComponentStorage;
pub use util::{min_max, PartialOrdExt};
pub use world::World;
