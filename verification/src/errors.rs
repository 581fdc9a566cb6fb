use vstd::prelude::*;

verus! {

/// Everything that can go wrong in the loading workflow.
#[derive(Clone, Copy, Debug, PartialEq, Eq, Structural)]
pub enum HostError {
    /// The module's factory export did not yield the named interface:
    /// it returned a null handle or a nonzero status code.
    NotFound,
    /// The host refused to bind a callable for a (assembly, class, method)
    /// triple; carries the status code the host returned.
    DelegateCreationError(i32),
    /// Creating the trusted directory, reading the source directory, or
    /// staging a candidate file failed.
    IoError,
}

} // verus!
