//! A small asset-build orchestrator.
//!
//! Manifest files declare *pipelines*: a tagged configuration naming a
//! processing strategy, plus source filters, tags and category labels. The
//! orchestrator discovers manifests among the batch's input files, dispatches
//! every declared pipeline to its strategy, fans the strategy's per-file
//! transform out over the matching input files, and merges the declared
//! tags and categories into every artifact the strategy produced.
//!
//! The crate verifies the decision core of that engine: discovery
//! classification, the dispatch/tagged-union model, the fan-out result
//! collection with per-file failure isolation, and the metadata merge.
//! The surrounding I/O (manifest download and decode, file download, the
//! content sink) is performed by the host, which feeds the outcomes of those
//! operations into the functions here.

pub mod color;
pub mod paths;
pub mod pipelines;
