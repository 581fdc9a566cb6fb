use vstd::prelude::*;

use crate::errors::HostError;

verus! {

/// What the library reads of the host's control structure.
///
/// The host keeps a fixed-layout structure in its own memory: a leading
/// reserved region, three function-pointer slots (initialize, shutdown,
/// create-delegate) and two trailing numeric fields.  Only the two numeric
/// fields — the session handle and the domain identifier — feed the calls this
/// library builds, so they are what the model holds, as plain values read out
/// of the foreign structure.  This is the wide-word variant; its fields are
/// 64 bits and every slot uses the wide calling convention.
#[derive(Clone, Copy, Debug, PartialEq, Eq, Structural)]
pub struct SboxHost {
    /// The handle of the running host session.
    pub handle: u64,
    /// The identifier of the application domain the session created.
    pub domain_id: u64,
}

/// What the library reads of the interface's leading virtual-call table:
/// after a reserved region it holds the connect slot, kept here as the slot's
/// address in host memory.
#[derive(Clone, Copy, Debug, PartialEq, Eq, Structural)]
pub struct SboxHostVtable {
    /// Address of the connect slot.
    pub connect: u64,
}

/// The narrow-word variant of the control structure: same field order, but
/// 32-bit numeric fields and a different calling convention on every slot.
/// The two variants are complete, independent definitions; one is selected at
/// build time by the target word size.
#[derive(Clone, Copy, Debug, PartialEq, Eq, Structural)]
pub struct SboxHostX86 {
    /// The handle of the running host session.
    pub handle: u32,
    /// The identifier of the application domain the session created.
    pub domain_id: u32,
}

/// The exact call handed to the wide host's create-delegate slot: the session
/// fields and the three names, each as the null-terminated byte sequence the
/// slot receives.
#[derive(Debug, PartialEq, Eq)]
pub struct DelegateRequest {
    /// Session handle passed in the first argument.
    pub handle: u64,
    /// Domain identifier passed in the second argument.
    pub domain_id: u64,
    /// Name of the assembly that holds the entry point, null-terminated.
    pub assembly: Vec<u8>,
    /// Name of the type that holds the entry point, null-terminated.
    pub class: Vec<u8>,
    /// Name of the entry-point method, null-terminated.
    pub method: Vec<u8>,
}

/// Mathematical image of a [`DelegateRequest`].
#[verifier::ext_equal]
pub struct DelegateRequestView {
    pub handle: u64,
    pub domain_id: u64,
    pub assembly: Seq<u8>,
    pub class: Seq<u8>,
    pub method: Seq<u8>,
}

impl View for DelegateRequest {
    type V = DelegateRequestView;

    open spec fn view(&self) -> DelegateRequestView {
        DelegateRequestView {
            handle: self.handle,
            domain_id: self.domain_id,
            assembly: self.assembly@,
            class: self.class@,
            method: self.method@,
        }
    }
}

/// The exact call handed to the narrow host's create-delegate slot.
#[derive(Debug, PartialEq, Eq)]
pub struct DelegateRequestX86 {
    /// Session handle passed in the first argument.
    pub handle: u32,
    /// Domain identifier passed in the second argument.
    pub domain_id: u32,
    /// Name of the assembly that holds the entry point, null-terminated.
    pub assembly: Vec<u8>,
    /// Name of the type that holds the entry point, null-terminated.
    pub class: Vec<u8>,
    /// Name of the entry-point method, null-terminated.
    pub method: Vec<u8>,
}

/// Mathematical image of a [`DelegateRequestX86`].
#[verifier::ext_equal]
pub struct DelegateRequestX86View {
    pub handle: u32,
    pub domain_id: u32,
    pub assembly: Seq<u8>,
    pub class: Seq<u8>,
    pub method: Seq<u8>,
}

impl View for DelegateRequestX86 {
    type V = DelegateRequestX86View;

    open spec fn view(&self) -> DelegateRequestX86View {
        DelegateRequestX86View {
            handle: self.handle,
            domain_id: self.domain_id,
            assembly: self.assembly@,
            class: self.class@,
            method: self.method@,
        }
    }
}

/// The (assembly, class, method) names a wide request carries, terminators
/// included.
pub open spec fn request_triple(r: DelegateRequestView) -> (Seq<u8>, Seq<u8>, Seq<u8>) {
    (r.assembly, r.class, r.method)
}

/// The (assembly, class, method) names a narrow request carries, terminators
/// included.
pub open spec fn request_triple_x86(r: DelegateRequestX86View) -> (Seq<u8>, Seq<u8>, Seq<u8>) {
    (r.assembly, r.class, r.method)
}

/// Copies a byte vector.
pub fn copy_bytes(src: &Vec<u8>) -> (r: Vec<u8>)
    ensures
        r@ == src@,
{
    let mut r: Vec<u8> = Vec::new();
    let mut i: usize = 0;
    while i < src.len()
        invariant
            i <= src.len(),
            r@ == src@.take(i as int),
        decreases src.len() - i,
    {
        r.push(src[i]);
        proof {
            assert(src@.take(i as int).push(src@[i as int]) =~= src@.take(i + 1));
        }
        i += 1;
    }
    proof {
        assert(src@.take(src@.len() as int) =~= src@);
    }
    r
}

/// The bytes of `name` with the terminating null byte a C string carries.
pub fn to_c_bytes(name: &Vec<u8>) -> (r: Vec<u8>)
    ensures
        r@ == name@.push(0u8),
{
    let mut r = copy_bytes(name);
    r.push(0u8);
    r
}

impl SboxHost {
    /// The request [`SboxHost::load_assembly`] builds for a triple of names.
    pub open spec fn delegate_request_spec(
        self,
        name: Seq<u8>,
        class: Seq<u8>,
        method: Seq<u8>,
    ) -> DelegateRequestView {
        DelegateRequestView {
            handle: self.handle,
            domain_id: self.domain_id,
            assembly: name.push(0u8),
            class: class.push(0u8),
            method: method.push(0u8),
        }
    }

    /// Builds the exact call that asks the host to bind the managed method
    /// `method` of type `class` in assembly `name` to a native callable: the
    /// session fields are passed through and each name is handed over as a
    /// null-terminated byte sequence whose bytes match the input exactly.
    ///
    /// The create-delegate slot itself is a function pointer in host memory
    /// and is invoked outside the verified library; [`delegate_status`] reads
    /// the status code it returns.
    pub fn load_assembly(
        &self,
        name: &Vec<u8>,
        class: &Vec<u8>,
        method: &Vec<u8>,
    ) -> (r: DelegateRequest)
        ensures
            r@ == self.delegate_request_spec(name@, class@, method@),
    {
        DelegateRequest {
            handle: self.handle,
            domain_id: self.domain_id,
            assembly: to_c_bytes(name),
            class: to_c_bytes(class),
            method: to_c_bytes(method),
        }
    }
}

impl SboxHostX86 {
    /// The request [`SboxHostX86::load_assembly`] builds for a triple of
    /// names.
    pub open spec fn delegate_request_spec(
        self,
        name: Seq<u8>,
        class: Seq<u8>,
        method: Seq<u8>,
    ) -> DelegateRequestX86View {
        DelegateRequestX86View {
            handle: self.handle,
            domain_id: self.domain_id,
            assembly: name.push(0u8),
            class: class.push(0u8),
            method: method.push(0u8),
        }
    }

    /// Narrow-variant counterpart of [`SboxHost::load_assembly`]: the same
    /// three null-terminated names, around 32-bit session fields.
    pub fn load_assembly(
        &self,
        name: &Vec<u8>,
        class: &Vec<u8>,
        method: &Vec<u8>,
    ) -> (r: DelegateRequestX86)
        ensures
            r@ == self.delegate_request_spec(name@, class@, method@),
    {
        DelegateRequestX86 {
            handle: self.handle,
            domain_id: self.domain_id,
            assembly: to_c_bytes(name),
            class: to_c_bytes(class),
            method: to_c_bytes(method),
        }
    }
}

/// Reads the status code the create-delegate slot returned.  The host reports
/// results as signed status codes where a negative value is failure; a
/// failure is surfaced as an error carrying exactly that code, never ignored.
/// On success the bound callable is invoked once, synchronously, outside the
/// verified library; that invocation has no observable failure channel.
pub fn delegate_status(hr: i32) -> (r: Result<(), HostError>)
    ensures
        hr >= 0 ==> r == Ok::<(), HostError>(()),
        hr < 0 ==> r == Err::<(), HostError>(HostError::DelegateCreationError(hr)),
{
    if hr >= 0 {
        Ok(())
    } else {
        Err(HostError::DelegateCreationError(hr))
    }
}

/// Architecture equivalence of the bridge: for one triple of names, the wide
/// and the narrow control structures hand the host byte-for-byte the same
/// three null-terminated names, whatever their session fields hold.
pub proof fn lemma_architecture_equivalence(
    wide: SboxHost,
    narrow: SboxHostX86,
    name: Seq<u8>,
    class: Seq<u8>,
    method: Seq<u8>,
)
    ensures
        request_triple(wide.delegate_request_spec(name, class, method))
            == request_triple_x86(narrow.delegate_request_spec(name, class, method)),
{
}

} // verus!
