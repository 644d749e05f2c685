use module_lifecycle::param::{allows_write, ParamError, ParamType, Parameter, TypedValue, WRITE_BITS};

#[test]
fn write_bits_of_common_masks() {
    assert_eq!(WRITE_BITS, 0o222);
    assert!(allows_write(0o644));
    assert!(allows_write(0o600));
    assert!(allows_write(0o200));
    assert!(allows_write(0o020));
    assert!(allows_write(0o002));
    assert!(allows_write(0o777));
    assert!(!allows_write(0o444));
    assert!(!allows_write(0o400));
    assert!(!allows_write(0o555));
    assert!(!allows_write(0));
}

#[test]
fn integer_parameter_starts_at_its_default() {
    let p = Parameter::integer("howmany", 3, 0o644);
    assert_eq!(p.name(), "howmany");
    assert_eq!(p.kind(), ParamType::Integer);
    assert_eq!(p.permission(), 0o644);
    assert!(p.is_writable());
    assert_eq!(p.value(), &TypedValue::Integer(3));
    assert_eq!(p.default_value(), &TypedValue::Integer(3));
    assert_eq!(p.read_integer(), Ok(3));
}

#[test]
fn text_parameter_starts_at_its_default() {
    let p = Parameter::text("whom", b"Mom".to_vec(), 0o444);
    assert_eq!(p.name(), "whom");
    assert_eq!(p.kind(), ParamType::Text);
    assert_eq!(p.permission(), 0o444);
    assert!(!p.is_writable());
    assert_eq!(p.value(), &TypedValue::Text(b"Mom".to_vec()));
    assert_eq!(p.default_value(), &TypedValue::Text(b"Mom".to_vec()));
    assert_eq!(p.read_text(), Ok(String::from("Mom")));
}

#[test]
fn reading_as_the_other_type_is_a_mismatch() {
    assert_eq!(Parameter::integer("howmany", 3, 0o644).read_text(), Err(ParamError::TypeMismatch));
    assert_eq!(
        Parameter::text("whom", b"Mom".to_vec(), 0o644).read_integer(),
        Err(ParamError::TypeMismatch)
    );
    assert_eq!(Parameter::text("whom", b"12".to_vec(), 0o644).read_integer(), Err(ParamError::TypeMismatch));
}

#[test]
fn invalid_bytes_read_as_text_give_encoding_error() {
    let whom = Parameter::text("whom", vec![0xff, 0xfe, 0x4d], 0o644);
    assert_eq!(whom.read_text(), Err(ParamError::EncodingError));
    // The bytes themselves are still there to be read.
    assert_eq!(whom.value(), &TypedValue::Text(vec![0xff, 0xfe, 0x4d]));
}

#[test]
fn typed_value_conversions() {
    assert_eq!(TypedValue::Integer(-4).kind(), ParamType::Integer);
    assert_eq!(TypedValue::Text(Vec::new()).kind(), ParamType::Text);
    assert_eq!(TypedValue::Integer(-4).as_integer(), Ok(-4));
    assert_eq!(TypedValue::Integer(-4).as_text(), Err(ParamError::TypeMismatch));
    assert_eq!(TypedValue::Text(b"hi".to_vec()).as_text(), Ok(String::from("hi")));
    assert_eq!(TypedValue::Text(b"hi".to_vec()).as_integer(), Err(ParamError::TypeMismatch));
    assert_eq!(TypedValue::Text(vec![0xc3]).as_text(), Err(ParamError::EncodingError));
    assert_eq!(TypedValue::Text(vec![1, 2, 3]).clone(), TypedValue::Text(vec![1, 2, 3]));
    assert_eq!(TypedValue::Integer(i32::MIN).clone(), TypedValue::Integer(i32::MIN));
}

#[test]
fn set_changes_the_value_and_nothing_else() {
    let mut p = Parameter::integer("howmany", 3, 0o644);
    assert_eq!(p.set(TypedValue::Integer(5)), Ok(()));
    assert_eq!(p.read_integer(), Ok(5));
    assert_eq!(p.default_value(), &TypedValue::Integer(3));
    assert_eq!(p.name(), "howmany");
    assert_eq!(p.kind(), ParamType::Integer);
    assert_eq!(p.permission(), 0o644);
}

#[test]
fn set_on_a_read_only_parameter_is_denied() {
    let mut p = Parameter::integer("howmany", 3, 0o444);
    assert_eq!(p.set(TypedValue::Integer(5)), Err(ParamError::PermissionDenied));
    assert_eq!(p.read_integer(), Ok(3));
    // The permission is judged before the type.
    assert_eq!(p.set(TypedValue::Text(b"five".to_vec())), Err(ParamError::PermissionDenied));
    assert_eq!(p.read_integer(), Ok(3));
}

#[test]
fn set_of_another_type_is_a_mismatch() {
    let mut p = Parameter::integer("howmany", 3, 0o644);
    assert_eq!(p.set(TypedValue::Text(b"five".to_vec())), Err(ParamError::TypeMismatch));
    assert_eq!(p.value(), &TypedValue::Integer(3));
    let mut q = Parameter::text("whom", b"Mom".to_vec(), 0o644);
    assert_eq!(q.set(TypedValue::Integer(1)), Err(ParamError::TypeMismatch));
    assert_eq!(q.value(), &TypedValue::Text(b"Mom".to_vec()));
}

#[test]
fn set_accepts_bytes_that_are_not_text() {
    let mut q = Parameter::text("whom", b"Mom".to_vec(), 0o644);
    assert_eq!(q.set(TypedValue::Text(vec![0xff])), Ok(()));
    assert_eq!(q.read_text(), Err(ParamError::EncodingError));
    assert_eq!(q.set(TypedValue::Text(b"Dad".to_vec())), Ok(()));
    assert_eq!(q.read_text(), Ok(String::from("Dad")));
}

#[test]
fn reset_goes_back_to_the_default() {
    let mut p = Parameter::integer("howmany", 3, 0o644);
    assert_eq!(p.set(TypedValue::Integer(5)), Ok(()));
    p.reset();
    assert_eq!(p.read_integer(), Ok(3));
}

#[test]
fn clone_of_a_parameter_is_independent() {
    let mut p = Parameter::text("whom", b"Mom".to_vec(), 0o644);
    let q = p.clone();
    assert_eq!(p.set(TypedValue::Text(b"Dad".to_vec())), Ok(()));
    assert_eq!(q.read_text(), Ok(String::from("Mom")));
    assert_eq!(q.name(), "whom");
    assert_eq!(q.permission(), 0o644);
    assert_eq!(p.read_text(), Ok(String::from("Dad")));
}

#[test]
fn param_messages_name_the_error() {
    assert_eq!(ParamError::NotFound.message(), "no such parameter");
    assert_eq!(ParamError::PermissionDenied.message(), "parameter is not writable");
    assert_eq!(ParamError::TypeMismatch.message(), "parameter is of another type");
    assert_eq!(ParamError::EncodingError.message(), "parameter value is not valid UTF-8 text");
}
