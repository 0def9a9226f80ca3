use vmref::{Error, StringHandle, Vm};

fn handle_from(vm: Vm, content: &[u8]) -> (Vm, StringHandle) {
    let mut vm = vm;
    vm.push_string(content);
    StringHandle::from_stack_top(vm)
}

#[test]
fn with_nul_adds_exactly_the_terminator() {
    let (vm, h) = handle_from(Vm::new(8), b"abc".as_slice());
    let (vm, bytes) = h.as_bytes(vm);
    let (_vm, nulled) = h.as_bytes_with_nul(vm);
    assert_eq!(bytes.len() + 1, nulled.len());
    assert_eq!(*nulled.last().unwrap(), 0u8);
    assert_eq!(&nulled[..nulled.len() - 1], &bytes[..]);
    assert_eq!(&bytes[..], b"abc");
}

#[test]
fn content_keeps_embedded_zero_bytes() {
    let (vm, h) = handle_from(Vm::new(8), b"test\0X".as_slice());
    let (_vm, bytes) = h.as_bytes(vm);
    assert_eq!(bytes.len(), 6);
    assert_eq!(&bytes[..], b"test\0X");
}

#[test]
fn to_str_succeeds_on_valid_text() {
    let text = "gr\u{00fc}n";
    let (vm, h) = handle_from(Vm::new(8), text.as_bytes());
    let (vm, res) = h.to_str(vm);
    let s = res.expect("valid text must convert");
    assert_eq!(s, text);
    let (_vm, bytes) = h.as_bytes(vm);
    assert_eq!(s.as_bytes(), &bytes[..]);
}

#[test]
fn to_str_fails_on_invalid_text_and_bytes_still_work() {
    let (vm, h) = handle_from(Vm::new(8), b"test\xff".as_slice());
    let (vm, res) = h.to_str(vm);
    match res {
        Ok(_) => panic!("invalid text must not convert"),
        Err(Error::FromForeignConversionError { from, to, message }) => {
            assert_eq!(from, "string");
            assert_eq!(to, "text");
            assert!(message.is_some());
        },
    }
    let (_vm, bytes) = h.as_bytes(vm);
    assert_eq!(bytes.len(), 5);
    assert_eq!(&bytes[..], b"test\xff");
}

#[test]
fn equality_is_content_equality() {
    let (vm, a) = handle_from(Vm::new(16), b"same".as_slice());
    let (vm, b) = handle_from(vm, b"same".as_slice());
    let (vm, c) = handle_from(vm, b"samf".as_slice());

    let (vm, r) = a.eq_bytes(vm, b"same".as_slice());
    assert!(r);
    let owned: Vec<u8> = b"same".to_vec();
    let (vm, r) = a.eq_bytes(vm, owned.as_slice());
    assert!(r);
    let (vm, r) = a.eq_str(vm, "same");
    assert!(r);
    let (vm, r) = a.eq_str(vm, "sam");
    assert!(!r);
    let (vm, r) = a.eq_handle(vm, &b);
    assert!(r);
    let (vm, r) = a.eq_handle(vm, &c);
    assert!(!r);
    let (_vm, r) = a.eq_bytes(vm, b"samf".as_slice());
    assert!(!r);
}

#[test]
fn view_survives_later_stack_activity() {
    let (vm, h) = handle_from(Vm::new(8), b"keep".as_slice());
    let (mut vm, first) = h.as_bytes(vm);
    vm.push_int(5);
    vm.push_string(b"other".as_slice());
    vm.pop(2);
    let (vm, _) = vmref::with_guard(vm, 2, |mut v: Vm| {
        v.push_nil();
        v.push_int(9);
        (v, ())
    });
    let (_vm, second) = h.as_bytes(vm);
    assert_eq!(&second[..], b"keep");
    assert_eq!(first, second);
}

#[test]
fn value_reclaimed_only_after_last_release() {
    let (vm, h) = handle_from(Vm::new(8), b"shared".as_slice());
    let slot = h.slot_index();
    let (vm, clone) = h.clone_handle(vm);
    let vm = h.release(vm);
    assert!(vm.slot_live(slot));
    let (vm, bytes) = clone.as_bytes(vm);
    assert_eq!(&bytes[..], b"shared");
    assert!(clone.live(&vm));
    let vm = clone.release(vm);
    assert!(!vm.slot_live(slot));
}
