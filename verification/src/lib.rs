//! Build-time post-processor for a WebAssembly bundler's single HTML output:
//! splits it into the per-context HTML pages, shim scripts and manifest that a
//! browser-extension package needs.
//!
//! The library holds the verified transformation logic: locating and splitting
//! the inlined bootstrap script into reusable fragments, substituting
//! live-reload parameters, collecting the declarative metadata that names each
//! output file, and the per-element decisions of the HTML rewrite passes.
//! Streaming HTML traversal and file I/O live outside the library and hand it
//! plain values.

pub mod decls;
pub mod errors;
pub mod extract;
pub mod page;
pub mod reload;
pub mod script_template;
pub mod text;
