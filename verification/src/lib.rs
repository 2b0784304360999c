//! Hosted boundary of the FVP engine.
//!
//! The crate holds the decisions of the hosted session: which bytes form a
//! script or an archive, which paths are safe, what one step emits, which part
//! of the surface it damages and how a provider session advances.

pub mod adapters;
pub mod archive;
pub mod audit;
pub mod booting;
pub mod bytes;
pub mod catalog;
pub mod digest;
pub mod engine_core;
pub mod family;
pub mod fault;
pub mod float;
pub mod framebuffer;
pub mod global;
pub mod hcb;
pub mod host_api;
pub mod hosted_host;
pub mod input;
pub mod manifest;
pub mod movie;
pub mod names;
pub mod nls;
pub mod old_school;
pub mod options;
pub mod paging;
pub mod provider;
pub mod recording;
pub mod registry;
pub mod runtime;
pub mod session;
pub mod source;
pub mod step;
pub mod stepper;
pub mod surface;
pub mod text;
pub mod vfs;
pub mod videoplayer;
pub mod yuv;

use vstd::prelude::*;

verus! {

/// The engine revision that the hosted boundary was made for.
pub const RFVP_REFERENCE_REVISION: &'static str = "3b5ea6c96a925c12f95aef8554905e8fecbc77c3";

pub const FVP_FAMILY_ID: &'static str = "fvp";

pub const FVP_PROVIDER_ID: &'static str = "astra.emu.family.fvp";

}
