use vstd::prelude::*;

use crate::errors::HostError;

verus! {

/// Classifies what a module's interface factory produced.
///
/// A native module exports one well-known factory symbol; called with an
/// interface name it yields a pointer into host-owned memory together with a
/// status code.  The foreign lookup and call happen outside the verified
/// library, which receives the outcome as plain values: the returned address
/// (`0` for a null pointer) and the status code.  A null handle or a nonzero
/// status is a failure; anything else is the interface's address.
pub fn get_interface(interface_addr: usize, status: i32) -> (r: Result<usize, HostError>)
    ensures
        interface_addr != 0 && status == 0 ==> r == Ok::<usize, HostError>(interface_addr),
        interface_addr == 0 || status != 0 ==> r == Err::<usize, HostError>(HostError::NotFound),
{
    if interface_addr != 0 && status == 0 {
        Ok(interface_addr)
    } else {
        Err(HostError::NotFound)
    }
}

} // verus!
