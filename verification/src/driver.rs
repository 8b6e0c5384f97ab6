//! Trusted boundary around the external device-driver library.
//!
//! A live session is an opaque `rust_py_miio::Device`. Whether a connection
//! or an invocation succeeds depends on the network and the device, so the
//! contracts here promise nothing of the outcomes; the registry states what
//! holds whichever way each call went.

use vstd::prelude::*;
use crate::records::Method;

verus! {

/// rust_py_miio's live session object, opaque to verification.
#[verifier::external_type_specification]
#[verifier::external_body]
pub struct ExDevice(rust_py_miio::Device);

/// Relies on rust_py_miio::Device::create_device: attempts to open a live
/// session for the given address, token and device type. Failure is the
/// common, recoverable case and yields `None`.
#[verifier::external_body]
pub(crate) fn connect(
    ip: &String,
    token: &String,
    device_type: &String,
) -> Option<rust_py_miio::Device> {
    rust_py_miio::Device::create_device(ip.as_str(), token.as_str(), device_type.as_str()).ok()
}

/// Relies on rust_py_miio::Device::call_method: invokes the named method on
/// the live session with the argument strings in order, and hands back the
/// driver's raw textual result, or the failure's message.
#[verifier::external_body]
pub(crate) fn invoke(
    device: &rust_py_miio::Device,
    method: &String,
    args: &Vec<String>,
) -> Result<String, String> {
    device
        .call_method(method.as_str(), args.iter().map(|a| a.as_str()).collect())
        .map_err(|e| e.to_string())
}

/// Relies on the public field rust_py_miio::Device::callable_methods: hands
/// the session's method table out as plain pairs. The table is a hash map,
/// so nothing is promised of the order.
#[verifier::external_body]
pub(crate) fn callable_methods(device: &rust_py_miio::Device) -> Vec<Method> {
    device
        .callable_methods
        .iter()
        .map(|(k, v)| Method { name: k.clone(), signature: v.clone() })
        .collect()
}

/// Relies on rust_py_miio::get_device_types: asks the driver library for the
/// supported device-type identifiers; `None` when the query fails.
#[verifier::external_body]
pub(crate) fn list_device_types() -> Option<Vec<String>> {
    rust_py_miio::get_device_types().ok()
}

} // verus!
