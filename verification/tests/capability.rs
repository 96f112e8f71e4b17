use genos::capability::{HandleKind, HandleTable};

#[test]
fn exact_kind_and_rights_are_required() {
    let mut handles = HandleTable::<4>::new();
    assert!(handles.register(0x41, HandleKind::File, 0b011));
    assert!(handles.allows(0x41, HandleKind::File, 0b001));
    assert!(handles.allows(0x41, HandleKind::File, 0b011));
    assert!(!handles.allows(0x41, HandleKind::File, 0b100));
    assert!(!handles.allows(0x41, HandleKind::EndpointSend, 0b001));
    assert!(!handles.allows(0x42, HandleKind::File, 0b001));
}

#[test]
fn authority_is_local_to_one_caller_table() {
    let mut owner = HandleTable::<2>::new();
    let other = HandleTable::<2>::new();
    assert!(owner.register(0xd101, HandleKind::Process, 1));
    assert!(owner.allows(0xd101, HandleKind::Process, 1));
    assert!(!other.allows(0xd101, HandleKind::Process, 1));
}

#[test]
fn duplicate_full_revoke_and_clear_are_explicit() {
    let mut handles = HandleTable::<2>::new();
    assert!(handles.register(1, HandleKind::Console, 1));
    assert!(!handles.register(1, HandleKind::Lifecycle, 1));
    assert!(handles.register(2, HandleKind::Lifecycle, 1));
    assert!(!handles.register(3, HandleKind::File, 1));
    assert!(!handles.unregister(1, HandleKind::Lifecycle));
    assert!(handles.unregister(1, HandleKind::Console));
    assert_eq!(handles.len(), 1);
    assert!(!handles.allows(1, HandleKind::Console, 1));
    handles.clear();
    assert!(handles.is_empty());
    assert!(!handles.allows(2, HandleKind::Lifecycle, 1));
}

#[test]
fn zero_handle_is_never_registered() {
    let mut handles = HandleTable::<2>::new();
    assert!(!handles.register(0, HandleKind::File, 1));
    assert_eq!(handles.len(), 0);
}
