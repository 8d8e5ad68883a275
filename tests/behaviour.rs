use pyo3::conversion::{extract_string, to_object};
use pyo3::err::PyErr;
use pyo3::object::PyObject;
use pyo3::runtime::{ObjKind, Python, Runtime};
use pyo3::strings::{decode_bytes, parse_error_policy, ErrorPolicy, PyBytes, PyString};
use pyo3::utf8::{check_utf8, decode_lossy_bytes, decode_strict, Utf8Error};

fn text_object_from_bytes(rt: &mut Runtime, py: &Python, b: &[u8], errors: &str) -> Result<PyObject, PyErr> {
    let src = PyBytes::new(rt, py, b);
    PyString::from_object(rt, py, src.as_ref(), "utf-8", errors)
}

#[test]
fn round_trip_of_several_texts() {
    let mut rt = Runtime::new();
    let py = rt.acquire_gil();
    for s in ["", "a", "é", "\u{FFFF}", "\u{10FFFF}", "mixed ü 哈 🐈 end"] {
        let obj = to_object(&mut rt, &py, s);
        assert_eq!(extract_string(&rt, &py, obj.as_ref()).unwrap(), s);
        let t = PyString::try_from(&rt, &py, obj.as_ref()).unwrap();
        assert_eq!(t.to_string_lossy(&rt, &py), s);
    }
}

#[test]
fn bytes_keep_embedded_zeros() {
    let mut rt = Runtime::new();
    let py = rt.acquire_gil();
    let data: Vec<u8> = vec![0, 1, 0, 255, 0];
    let obj = PyBytes::new(&mut rt, &py, &data);
    let b = PyBytes::try_from(&rt, &py, obj.as_ref()).unwrap();
    assert_eq!(b.as_bytes(&rt, &py), &data[..]);
    assert_eq!(b.as_bytes(&rt, &py).len(), 5);
}

#[test]
fn empty_bytes() {
    let mut rt = Runtime::new();
    let py = rt.acquire_gil();
    let obj = PyBytes::new(&mut rt, &py, &[]);
    let b = PyBytes::try_from(&rt, &py, obj.as_ref()).unwrap();
    assert_eq!(b.as_bytes(&rt, &py), &[] as &[u8]);
}

#[test]
fn bytes_from_ptr_takes_prefix() {
    let mut rt = Runtime::new();
    let py = rt.acquire_gil();
    let obj = PyBytes::from_ptr(&mut rt, &py, b"abcdef", 3);
    let b = PyBytes::try_from(&rt, &py, obj.as_ref()).unwrap();
    assert_eq!(b.as_bytes(&rt, &py), b"abc");
}

#[test]
fn decode_error_at_surrogate_offset() {
    let mut rt = Runtime::new();
    let py = rt.acquire_gil();
    let raw = [b'a', b'b', 0xed, 0xa0, 0x80, b'c'];
    let obj = text_object_from_bytes(&mut rt, &py, &raw, "surrogatepass").unwrap();
    let t = PyString::try_from(&rt, &py, obj.as_ref()).unwrap();
    assert_eq!(t.as_bytes(&rt, &py), &raw[..]);
    let err = t.to_string(&rt, &py).unwrap_err();
    assert_eq!(err.decode_range(), Some((2, 3)));
    assert_eq!(err.exception_name(), "UnicodeDecodeError");
    assert_eq!(t.to_string_lossy(&rt, &py), "ab\u{FFFD}\u{FFFD}\u{FFFD}c");
}

#[test]
fn lossy_replaces_each_invalid_unit() {
    assert_eq!(decode_lossy_bytes(b"x\xffy"), "x\u{FFFD}y");
    assert_eq!(decode_lossy_bytes(b"\xe2\x82"), "\u{FFFD}");
    assert_eq!(decode_lossy_bytes(b"\xf0\x9f\x90"), "\u{FFFD}");
    assert_eq!(decode_lossy_bytes(b"\xf0\x9f\x90z"), "\u{FFFD}z");
    assert_eq!(decode_lossy_bytes(b"\xc0\xaf"), "\u{FFFD}\u{FFFD}");
    assert_eq!(decode_lossy_bytes(b""), "");
    let samples: [&[u8]; 6] = [b"a\x80b", b"\xed\xa0\x80", b"\xf4\x90\x80\x80", b"\xe0\x80", b"ok \xf0\x9f\x90\x88", b"\xfe\xff"];
    for s in samples {
        assert_eq!(decode_lossy_bytes(s), String::from_utf8_lossy(s));
    }
}

#[test]
fn check_reports_valid_prefix_and_unit_length() {
    assert_eq!(check_utf8(b"hello"), Ok(()));
    assert_eq!(check_utf8(b"ab\xe2\x82z"), Err(Utf8Error { valid_up_to: 2, error_len: 2 }));
    assert_eq!(check_utf8(b"\xf0\x9f\x90"), Err(Utf8Error { valid_up_to: 0, error_len: 3 }));
    assert_eq!(check_utf8(b"a\x80"), Err(Utf8Error { valid_up_to: 1, error_len: 1 }));
    let samples: [&[u8]; 4] = [b"ab\xe2\x82z", b"\xed\xa0\x80", b"xyz\xff", b"\xf4\x90\x80\x80"];
    for s in samples {
        let std_err = std::str::from_utf8(s).unwrap_err();
        assert_eq!(check_utf8(s).unwrap_err().valid_up_to, std_err.valid_up_to());
    }
    assert_eq!(decode_strict("héllo".as_bytes()), Ok("héllo"));
}

#[test]
fn try_from_rejects_other_type() {
    let mut rt = Runtime::new();
    let py = rt.acquire_gil();
    let obj = PyBytes::new(&mut rt, &py, b"abc");
    match PyString::try_from(&rt, &py, obj.as_ref()) {
        Err(PyErr::TypeMismatch { expected, found }) => {
            assert_eq!(expected, ObjKind::Str);
            assert_eq!(found, ObjKind::Bytes);
        }
        other => panic!("unexpected {:?}", other),
    }
    let s = PyString::new(&mut rt, &py, "abc");
    assert!(PyBytes::try_from(&rt, &py, s.as_ref()).unwrap_err().is_type_mismatch());
    assert_eq!(extract_string(&rt, &py, obj.as_ref()).unwrap_err().exception_name(), "TypeError");
}

#[test]
fn refcounts_balance() {
    let mut rt = Runtime::new();
    let py = rt.acquire_gil();
    let a = PyString::new(&mut rt, &py, "a");
    assert_eq!(a.get_refcnt(&rt), 1);
    let b = a.clone_ref(&mut rt, &py);
    let c = b.clone_ref(&mut rt, &py);
    assert_eq!(a.get_refcnt(&rt), 3);
    c.release(&mut rt, &py);
    b.release(&mut rt, &py);
    assert_eq!(a.get_refcnt(&rt), 1);
    let p = a.as_ptr();
    a.release(&mut rt, &py);
    assert_eq!(rt.refcnt(p), 0);
    assert_eq!(rt.object_count(), 1);
}

#[test]
fn gil_is_reentrant() {
    let mut rt = Runtime::new();
    assert_eq!(rt.gil_depth(), 0);
    let outer = rt.acquire_gil();
    let inner = rt.acquire_gil();
    assert_eq!(rt.gil_depth(), 2);
    let obj = PyString::new(&mut rt, &inner, "x");
    rt.release_gil(inner);
    assert_eq!(rt.gil_depth(), 1);
    obj.release(&mut rt, &outer);
    rt.release_gil(outer);
    assert_eq!(rt.gil_depth(), 0);
}

#[test]
fn example_ascii_cat() {
    let mut rt = Runtime::new();
    let py = rt.acquire_gil();
    let s = "ascii 🐈";
    let obj = PyString::new(&mut rt, &py, s);
    let t = PyString::try_from(&rt, &py, obj.as_ref()).unwrap();
    assert_eq!(t.as_bytes(&rt, &py), b"ascii \xf0\x9f\x90\x88");
    assert_eq!(t.to_string(&rt, &py).unwrap(), "ascii 🐈");
}

#[test]
fn example_han_cat_round_trip() {
    let mut rt = Runtime::new();
    let py = rt.acquire_gil();
    let obj = PyString::new(&mut rt, &py, "哈哈🐈");
    let t = PyString::try_from(&rt, &py, obj.as_ref()).unwrap();
    assert_eq!(t.to_string(&rt, &py).unwrap(), "哈哈🐈");
    assert_eq!(t.as_bytes(&rt, &py).len(), 10);
}

#[test]
fn from_object_policies() {
    let mut rt = Runtime::new();
    let py = rt.acquire_gil();
    let ok = text_object_from_bytes(&mut rt, &py, "héllo".as_bytes(), "strict").unwrap();
    assert_eq!(extract_string(&rt, &py, ok.as_ref()).unwrap(), "héllo");
    let bad = text_object_from_bytes(&mut rt, &py, b"ab\xffc", "strict").unwrap_err();
    assert_eq!(bad.decode_range(), Some((2, 3)));
    let rep = text_object_from_bytes(&mut rt, &py, b"ab\xffc", "replace").unwrap();
    assert_eq!(extract_string(&rt, &py, rep.as_ref()).unwrap(), "ab\u{FFFD}c");
    let pass_bad = text_object_from_bytes(&mut rt, &py, b"a\xff", "surrogatepass").unwrap_err();
    assert_eq!(pass_bad.decode_range(), Some((1, 2)));
    match text_object_from_bytes(&mut rt, &py, b"a", "ignore") {
        Err(PyErr::Lookup { name }) => assert_eq!(name, "ignore"),
        other => panic!("unexpected {:?}", other),
    }
    let src = PyBytes::new(&mut rt, &py, b"a");
    match PyString::from_object(&mut rt, &py, src.as_ref(), "latin-1", "strict") {
        Err(PyErr::Lookup { name }) => assert_eq!(name, "latin-1"),
        other => panic!("unexpected {:?}", other),
    }
    let not_bytes = PyString::new(&mut rt, &py, "a");
    let e = PyString::from_object(&mut rt, &py, not_bytes.as_ref(), "utf8", "strict").unwrap_err();
    assert!(e.is_type_mismatch());
}

#[test]
fn policy_names() {
    assert_eq!(parse_error_policy("strict"), Some(ErrorPolicy::Strict));
    assert_eq!(parse_error_policy("replace"), Some(ErrorPolicy::Replace));
    assert_eq!(parse_error_policy("surrogatepass"), Some(ErrorPolicy::SurrogatePass));
    assert_eq!(parse_error_policy("Strict"), None);
    assert_eq!(decode_bytes(b"a\xffb", ErrorPolicy::Replace).unwrap(), "a\u{FFFD}b".as_bytes().to_vec());
}
