use pyo3::conversion::{extract_str, extract_string, to_object};
use pyo3::runtime::Runtime;
use pyo3::strings::PyString;
use std::borrow::Cow;

#[test]
fn test_non_bmp() {
    let mut rt = Runtime::new();
    let py = rt.acquire_gil();
    let s = "\u{1F30F}";
    let py_string = to_object(&mut rt, &py, s);
    assert_eq!(s, extract_string(&rt, &py, py_string.as_ref()).unwrap());
}

#[test]
fn test_extract_str() {
    let mut rt = Runtime::new();
    let py = rt.acquire_gil();
    let s = "Hello Python";
    let py_string = to_object(&mut rt, &py, s);

    let s2: &str = extract_str(&rt, &py, py_string.as_ref()).unwrap();
    assert_eq!(s, s2);
}

#[test]
fn test_as_bytes() {
    let mut rt = Runtime::new();
    let py = rt.acquire_gil();
    let s = "ascii 🐈";
    let obj = PyString::new(&mut rt, &py, s);
    let py_string = PyString::try_from(&rt, &py, obj.as_ref()).unwrap();
    assert_eq!(s.as_bytes(), py_string.as_bytes(&rt, &py));
}

#[test]
fn test_to_string_ascii() {
    let mut rt = Runtime::new();
    let py = rt.acquire_gil();
    let s = "ascii";
    let obj = PyString::new(&mut rt, &py, s);
    let py_string = PyString::try_from(&rt, &py, obj.as_ref()).unwrap();
    assert!(py_string.to_string(&rt, &py).is_ok());
    assert_eq!(Cow::Borrowed(s), py_string.to_string(&rt, &py).unwrap());
}

#[test]
fn test_to_string_unicode() {
    let mut rt = Runtime::new();
    let py = rt.acquire_gil();
    let s = "哈哈🐈";
    let obj = PyString::new(&mut rt, &py, s);
    let py_string = PyString::try_from(&rt, &py, obj.as_ref()).unwrap();
    assert!(py_string.to_string(&rt, &py).is_ok());
    assert_eq!(Cow::Borrowed(s), py_string.to_string(&rt, &py).unwrap());
}
