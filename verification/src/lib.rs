//! Animation resolution and curve evaluation for placed scene instances.
//!
//! A parsed scene asset carries, per section, a set of placed instances and a
//! collection of animation timelines. Each timeline holds a graph of typed
//! nodes: anchors that associate instances with transform references,
//! transform references that point at model animations, model animations that
//! point at curve sets, and curve sets that hold attribute curves of keyframe
//! rows. This crate builds an index from instance ids to the animation
//! descriptors that apply to them, evaluates those descriptors at an arbitrary
//! elapsed time, and composes the results with the instance's static base
//! transform into an ordered list of transform steps that a host renderer
//! turns into a matrix.
//!
//! Keyframe times and values are integer units chosen by the caller; an
//! evaluated attribute value is an exact fraction of those units. Base
//! transform components are opaque 32-bit scalar codes that the library
//! carries through untouched.

pub mod asset;
pub mod curve;
pub mod graph;
pub mod index;
pub mod transform;
