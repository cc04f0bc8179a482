//! Annotated source excerpts for compiler-style diagnostics.
//!
//! A caller loads the text of each file that its spans name into a
//! [`SourceCache`](source::SourceCache), resolves each span against the cache
//! into a [`ResolvedSlice`](diagnostic::ResolvedSlice), assembles the slices under
//! a message into a [`Diagnostic`](diagnostic::Diagnostic), and renders it.

pub mod source;
pub mod diagnostic;
pub mod resolve;
pub mod render;
pub mod report;
