//! Local model discovery, pinned checkpoint downloads, MLX runtime supervision,
//! provider pickers and hardware telemetry decoding, with their rules verified.
use vstd::prelude::*;

pub mod hardware;
pub mod local_models;
pub mod mlx_catalog;
pub mod mlx_models;
pub mod model_download;
pub mod model_info;
pub mod order;
pub mod path;
pub mod picker;
pub mod runtime;
pub mod served;
pub mod sorting;
pub mod telemetry;
pub mod text;

verus! {

} // verus!
