use vstd::prelude::*;

pub mod batch;
pub mod bridge;
pub mod config;
pub mod economy;
pub mod engine;
pub mod error;
pub mod ffi_types;
pub mod finality;
pub mod hashing;
pub mod optimistic;
pub mod security;
pub mod services;
pub mod state;
pub mod transport;
pub mod types;
pub mod zk;

verus! {

/// Prepares the library for use. Diagnostic sinks and transports are the
/// embedding application's concern; the library itself needs no global
/// setup, so this is a fixed point.
pub fn init() {
}

/// The library's version string.
pub fn version() -> (r: &'static str)
    ensures
        r@ =~= "0.1.0"@,
{
    "0.1.0"
}

/// The library's name.
pub fn name() -> (r: &'static str)
    ensures
        r@ =~= "ghostbridge"@,
{
    "ghostbridge"
}

/// Whether the foreign-function boundary to the execution runtime is
/// compiled in. It lives outside this library, so the answer here is
/// always no.
pub fn has_ffi_support() -> (r: bool)
    ensures
        r == false,
{
    false
}

/// Whether the metrics exporter is compiled in. It lives outside this
/// library, so the answer here is always no.
pub fn has_metrics_support() -> (r: bool)
    ensures
        r == false,
{
    false
}

} // verus!
