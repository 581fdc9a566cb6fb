use sbox_loader::errors::HostError;
use sbox_loader::host::delegate_status;
use sbox_loader::host::to_c_bytes;
use sbox_loader::host::SboxHost;
use sbox_loader::host::SboxHostVtable;
use sbox_loader::host::SboxHostX86;
use sbox_loader::utility::get_interface;

#[test]
fn interface_present_yields_handle() {
    // A factory that knows the name returns a non-null address and status 0.
    assert_eq!(get_interface(0x7f00_1234, 0), Ok(0x7f00_1234));
}

#[test]
fn interface_absent_fails_with_not_found() {
    // A null result is a failure, whatever the status says.
    assert_eq!(get_interface(0, 0), Err(HostError::NotFound));
}

#[test]
fn interface_bad_status_fails_with_not_found() {
    // A nonzero status code is a failure even with a non-null result.
    assert_eq!(get_interface(0x1000, 3), Err(HostError::NotFound));
}

#[test]
fn null_termination_appends_one_byte() {
    assert_eq!(to_c_bytes(&b"Asm".to_vec()), b"Asm\0".to_vec());
    assert_eq!(to_c_bytes(&Vec::new()), vec![0u8]);
}

#[test]
fn load_assembly_builds_exact_request() {
    let host = SboxHost { handle: 7, domain_id: 9 };
    let req = host.load_assembly(&b"Widget".to_vec(), &b"Widget.Addon".to_vec(), &b"Main".to_vec());
    assert_eq!(req.handle, 7);
    assert_eq!(req.domain_id, 9);
    assert_eq!(req.assembly, b"Widget\0".to_vec());
    assert_eq!(req.class, b"Widget.Addon\0".to_vec());
    assert_eq!(req.method, b"Main\0".to_vec());
}

#[test]
fn load_assembly_narrow_builds_exact_request() {
    let host = SboxHostX86 { handle: 7, domain_id: 9 };
    let req = host.load_assembly(&b"Widget".to_vec(), &b"Widget.Addon".to_vec(), &b"Main".to_vec());
    assert_eq!(req.handle, 7);
    assert_eq!(req.domain_id, 9);
    assert_eq!(req.assembly, b"Widget\0".to_vec());
    assert_eq!(req.class, b"Widget.Addon\0".to_vec());
    assert_eq!(req.method, b"Main\0".to_vec());
}

#[test]
fn wide_and_narrow_requests_carry_identical_names() {
    // The two control-structure variants hand the host the same bytes for
    // one triple of names; only the session field widths differ.
    let wide = SboxHost { handle: 1, domain_id: 2 };
    let narrow = SboxHostX86 { handle: 1, domain_id: 2 };
    let a = b"Comp".to_vec();
    let c = b"Comp.Addon".to_vec();
    let m = b"Main".to_vec();
    let rw = wide.load_assembly(&a, &c, &m);
    let rn = narrow.load_assembly(&a, &c, &m);
    assert_eq!(rw.assembly, rn.assembly);
    assert_eq!(rw.class, rn.class);
    assert_eq!(rw.method, rn.method);
}

#[test]
fn delegate_status_success_codes() {
    assert_eq!(delegate_status(0), Ok(()));
    assert_eq!(delegate_status(1), Ok(()));
}

#[test]
fn delegate_status_failure_carries_code() {
    assert_eq!(delegate_status(-2147467259), Err(HostError::DelegateCreationError(-2147467259)));
    assert_eq!(delegate_status(-1), Err(HostError::DelegateCreationError(-1)));
}

#[test]
fn vtable_model_holds_connect_slot() {
    let vtable = SboxHostVtable { connect: 0xdead_0000 };
    assert_eq!(vtable.connect, 0xdead_0000);
}
