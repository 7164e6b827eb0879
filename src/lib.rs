//! A dense two-dimensional grid with read-only and mutable rectangular views
//! that can be split recursively into disjoint halves.
pub mod primitives;
pub mod rect;
pub mod slice_mut;
pub mod space;
mod partition;
pub mod subspace;
pub mod subspace_mut;

pub use primitives::{HorizontalSplit, PostioningType, VerticalSplit};
pub use rect::Rect;
pub use slice_mut::SpaceSliceMut;
pub use space::Space;
pub use subspace::{SubSpace, SubSpaceIter};
pub use subspace_mut::SubSpaceMut;
