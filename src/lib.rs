//! Location-transparent, reference-shared tensor storage.
//!
//! The library models flat numeric buffers, their memory locations, the
//! canonical shape of a tensor and the order in which a shaped tensor is
//! flattened, and proves the copy-on-write discipline of shared tensors.

mod buffer;
mod error;
mod location;
mod num;
mod position;
mod shape;
mod tensor;

pub use buffer::{from_dev_slice, to_dev_vec, Buffer, HostBuffer};
pub use error::Error;
pub use location::{copy_route, location_equality, route_of, CopyRoute, Location, QueueId};
pub use num::{
    bulk_round_trip, codec_round_trip, ident_round_trip, IdentInterop, Interop, Num, One, Prm, Zero,
};
pub use position::{in_bounds, offset_of, PositionCounter};
pub use shape::{
    axis, content_of, lemma_axis_trimmed, lemma_content_prefix, lemma_content_zero,
    lemma_trimmed, lemma_trimmed_by_axes, lemma_trimmed_idempotent, slice_of,
    trailing_ones_insignificant, trimmed, with_axis, Shape,
};
pub use tensor::{CommonTensor, HostTensor, HostTensorIter, Index, Range};
