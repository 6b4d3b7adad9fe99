//! Motion warping: blends a pre-authored skeletal animation with authored
//! target joint orientations at chosen keyframe times, producing a smoothly
//! time-remapped, smoothly weighted hybrid animation.
//!
//! All scalars are fixed-point numbers: an `i128` holding `value * SCALE`
//! (see [`fx`]), so that every numeric step has an exact, machine-checked
//! meaning. The host engine converts its own scalar type at the boundary
//! and assigns each tracked entity path an opaque identifier.

use vstd::prelude::*;

pub mod fx;
pub mod quat;
pub mod quat_splines;
pub mod curve2;
pub mod motion_warp;

verus! {

/// Marker under which the host engine registers this library's systems.
/// The registration itself is part of the embedding and stays outside the
/// verified core.
pub struct MotionWarpPlugins;

/// Marker for the host-side player that drives built warp clips. The
/// player belongs to the embedding; the clip evaluation it calls into
/// lives in [`motion_warp`].
#[derive(Default)]
pub struct AnimationPlugin {}

} // verus!
