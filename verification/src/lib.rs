//! A verified compiler-invocation shim library.
//!
//! The shim sits between a build orchestrator and the real compiler: it
//! inspects the argument list it was invoked with, resolves the toolchain
//! sysroot through an ordered chain of fallback sources, rewrites the
//! argument list (stripping a wrapper-injected token, appending a sysroot
//! pair when none was given, and optionally requesting minimal debug info),
//! and hands the result back for execution.  Everything that merely computes
//! on plain values lives here and is verified; reading the process
//! environment and spawning the delegate compiler stay outside.

pub mod resolve;
pub mod rewrite;
pub mod scan;
pub mod text;
