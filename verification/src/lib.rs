//! A wire-level codec and ingest pipeline for AUTOSAR DLT (Diagnostic Log
//! and Trace) messages: headers, the self-describing verbose argument
//! encoding, non-verbose rendering against a FIBEX catalog, tagged-line
//! rendering, and the chunked progress bookkeeping of the ingest loop.
pub mod types;
pub mod argcodec;
pub mod msgcodec;
pub mod nonverbose;
pub mod outside;
pub mod pipeline;
pub mod render;
pub mod typeinfo;
pub mod wire;
