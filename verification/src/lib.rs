//! Hand-rolled versions of standard building blocks, each with a machine-checked
//! contract: sorting routines behind a common interface, a blocking
//! multi-producer channel, a spin lock protocol, and small pointer and cell types.

pub mod sorting;
pub mod channels;
pub mod atomics;
pub mod text;
pub mod split;
pub mod tokens;
pub mod smart_pointers;
pub mod boxed;
pub mod dispatch;
pub mod iterators;
pub mod max_value;
