//! Debug-launch resolution pipeline for .NET build ecosystems.
//!
//! Given a generic build-tool invocation template, hand-rolled solution and
//! project descriptor text, and the output of an external build, the library
//! computes a protocol-correct debugger launch/attach configuration:
//!
//! - [`solution`] parses solution descriptor text (a legacy line dialect and a
//!   markup dialect) into a structured solution model.
//! - [`packages`] parses a project descriptor's dependency declarations.
//! - [`locator`] recognizes build-tool invocations, rewrites them into a
//!   build-plus-debug scenario, and recovers the produced artifact path from
//!   build output text with a filesystem-scan fallback.
//! - [`resolver`] decides how a debugger executable is discovered and cached.
//! - [`launch`] merges resolved binary, resolved artifact, and user
//!   configuration into the final launch/attach payload.
//!
//! All process spawning and filesystem probing is performed by the caller;
//! the library takes probe results as plain values and is verified for every
//! value of them.

pub mod errors;
pub mod launch;
pub mod locator;
pub mod packages;
pub mod pathtext;
pub mod providers;
pub mod resolver;
pub mod solution;
pub mod text;
