//! A small file server's request pipeline: parsing a request into a decoded path, resolving
//! it under a root with a containment check, sniffing content types, rendering directory
//! listings, and deciding, step by step, what each connection gets back.
use vstd::prelude::*;

pub mod bytes;
pub mod dispatch;
pub mod mime;
pub mod request;
pub mod response;
pub mod sandbox;

verus! {

} // verus!
