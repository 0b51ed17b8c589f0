use hostinfo::{architecture_label, InfoError, Uname};

fn buffer(text: &[u8]) -> Vec<u8> {
    let mut b = text.to_vec();
    b.resize(65, 0);
    b
}

#[test]
fn architecture_label_x86_64() {
    assert_eq!(architecture_label("x86_64"), "64 bit");
}

#[test]
fn architecture_label_passes_others_through() {
    assert_eq!(architecture_label("aarch64"), "aarch64");
    assert_eq!(architecture_label("x86_6"), "x86_6");
    assert_eq!(architecture_label(""), "");
}

#[test]
fn uname_decodes_nul_terminated_fields() {
    let u = Uname::from_raw(&buffer(b"Linux"), &buffer(b"6.5.0-generic"), &buffer(b"x86_64")).unwrap();
    assert_eq!(u.sys_name(), "Linux");
    assert_eq!(u.release(), "6.5.0-generic");
    assert_eq!(u.machine(), "x86_64");
}

#[test]
fn uname_decodes_utf8_and_unterminated() {
    let u = Uname::from_raw("Lïnux".as_bytes(), b"1\0junk", b"").unwrap();
    assert_eq!(u.sys_name(), "Lïnux");
    assert_eq!(u.release(), "1");
    assert_eq!(u.machine(), "");
}

#[test]
fn uname_rejects_invalid_utf8() {
    let r = Uname::from_raw(&buffer(b"Linux"), &buffer(&[0xff, 0x41]), &buffer(b"x86_64"));
    assert!(matches!(r, Err(InfoError::Encoding)));
}
