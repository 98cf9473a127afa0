//! Combinatorial core of the impossible-polygon construction.
//!
//! The construction intersects two concentric regular polygons, orders the
//! crossing points around their centroid, and assembles the faces of the
//! illusion from those points and from offset guide lines. The numeric
//! geometry lives with the caller; this crate fixes, and proves, which points
//! are paired, in which order, and which lines every face vertex comes from.

mod construction;
mod face;
mod search;
mod sequence;

pub use construction::{
    arrange_intersections, arranged, connect_points, guide_chords, guides, hits, offset_chords,
    outline, pairs, pairwise_hits, somes,
};
pub use face::{face_outline, face_plan, FaceVertex};
pub use search::{first_success, recommended_min, recommended_min_permille, SEARCH_STEP_CAP};
pub use sequence::{lemma_rotate_single, rotate_vec, rotated, GetWrapping};
