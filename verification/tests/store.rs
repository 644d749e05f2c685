use module_lifecycle::param::{ParamError, ParamType, Parameter, TypedValue};
use module_lifecycle::store::ParameterStore;

fn greeter_params() -> Vec<Parameter> {
    vec![
        Parameter::integer("howmany", 3, 0o644),
        Parameter::text("whom", b"Mom".to_vec(), 0o644),
        Parameter::integer("fixed", 7, 0o444),
        Parameter::text("motto", b"read only".to_vec(), 0o444),
    ]
}

fn greeter_store() -> ParameterStore {
    ParameterStore::new(greeter_params()).unwrap()
}

#[test]
fn fresh_store_reads_every_default() {
    let store = greeter_store();
    assert_eq!(store.read("howmany"), Ok(TypedValue::Integer(3)));
    assert_eq!(store.read("whom"), Ok(TypedValue::Text(b"Mom".to_vec())));
    assert_eq!(store.read("fixed"), Ok(TypedValue::Integer(7)));
    assert_eq!(store.read("motto"), Ok(TypedValue::Text(b"read only".to_vec())));
    for p in greeter_params() {
        assert_eq!(store.read(p.name()).as_ref(), Ok(p.default_value()));
    }
}

#[test]
fn store_construction_sets_values_to_defaults() {
    let mut howmany = Parameter::integer("howmany", 3, 0o644);
    assert_eq!(howmany.set(TypedValue::Integer(9)), Ok(()));
    assert_eq!(howmany.read_integer(), Ok(9));
    let store = ParameterStore::new(vec![howmany]).unwrap();
    assert_eq!(store.read("howmany"), Ok(TypedValue::Integer(3)));
}

#[test]
fn empty_store_holds_nothing() {
    let store = ParameterStore::new(Vec::new()).unwrap();
    assert!(!store.contains("howmany"));
    assert_eq!(store.read("howmany"), Err(ParamError::NotFound));
}

#[test]
fn store_refuses_two_parameters_of_one_name() {
    assert!(ParameterStore::new(vec![
        Parameter::integer("howmany", 3, 0o644),
        Parameter::text("whom", b"Mom".to_vec(), 0o644),
        Parameter::integer("howmany", 4, 0o644),
    ])
    .is_none());
    assert!(ParameterStore::new(vec![
        Parameter::integer("a", 1, 0o644),
        Parameter::text("a", Vec::new(), 0o444),
    ])
    .is_none());
    assert!(ParameterStore::new(vec![
        Parameter::integer("a", 1, 0o644),
        Parameter::integer("b", 1, 0o644),
        Parameter::integer("c", 1, 0o644),
        Parameter::integer("c", 1, 0o644),
    ])
    .is_none());
}

#[test]
fn read_of_a_missing_name_is_not_found() {
    let store = greeter_store();
    assert_eq!(store.read("nobody"), Err(ParamError::NotFound));
    assert_eq!(store.read(""), Err(ParamError::NotFound));
    assert_eq!(store.read("Howmany"), Err(ParamError::NotFound));
    assert_eq!(store.read_integer("nobody"), Err(ParamError::NotFound));
    assert_eq!(store.read_text("nobody"), Err(ParamError::NotFound));
}

#[test]
fn typed_reads() {
    let store = greeter_store();
    assert_eq!(store.read_integer("howmany"), Ok(3));
    assert_eq!(store.read_text("whom"), Ok(String::from("Mom")));
    assert_eq!(store.read_text("howmany"), Err(ParamError::TypeMismatch));
    assert_eq!(store.read_integer("whom"), Err(ParamError::TypeMismatch));
}

#[test]
fn store_with_invalid_text_reads_encoding_error() {
    let store = ParameterStore::new(vec![Parameter::text("whom", vec![0xc3, 0x28], 0o644)]).unwrap();
    assert_eq!(store.read_text("whom"), Err(ParamError::EncodingError));
    assert_eq!(store.read("whom"), Ok(TypedValue::Text(vec![0xc3, 0x28])));
    assert_eq!(store.read_text("nobody"), Err(ParamError::NotFound));
}

#[test]
fn write_changes_one_value() {
    let mut store = greeter_store();
    assert_eq!(store.write("howmany", TypedValue::Integer(5)), Ok(()));
    assert_eq!(store.read("howmany"), Ok(TypedValue::Integer(5)));
    assert_eq!(store.read("whom"), Ok(TypedValue::Text(b"Mom".to_vec())));
    assert_eq!(store.read("fixed"), Ok(TypedValue::Integer(7)));
    assert_eq!(store.write("whom", TypedValue::Text(b"Dad".to_vec())), Ok(()));
    assert_eq!(store.read_text("whom"), Ok(String::from("Dad")));
    assert_eq!(store.read("howmany"), Ok(TypedValue::Integer(5)));
    let p = store.get("howmany").unwrap();
    assert_eq!(p.default_value(), &TypedValue::Integer(3));
    assert_eq!(p.permission(), 0o644);
    assert_eq!(p.kind(), ParamType::Integer);
}

#[test]
fn denied_write_leaves_the_value() {
    let mut store = greeter_store();
    assert_eq!(store.write("fixed", TypedValue::Integer(8)), Err(ParamError::PermissionDenied));
    assert_eq!(store.read("fixed"), Ok(TypedValue::Integer(7)));
    assert_eq!(
        store.write("motto", TypedValue::Text(b"written".to_vec())),
        Err(ParamError::PermissionDenied)
    );
    assert_eq!(store.read("motto"), Ok(TypedValue::Text(b"read only".to_vec())));
    // Whatever is written, a value of the wrong type too.
    assert_eq!(store.write("fixed", TypedValue::Text(Vec::new())), Err(ParamError::PermissionDenied));
    assert_eq!(store.read("fixed"), Ok(TypedValue::Integer(7)));
    assert_eq!(store.read("howmany"), Ok(TypedValue::Integer(3)));
}

#[test]
fn write_errors_come_in_order() {
    let mut store = greeter_store();
    assert_eq!(store.write("nobody", TypedValue::Integer(1)), Err(ParamError::NotFound));
    assert_eq!(store.write("fixed", TypedValue::Text(Vec::new())), Err(ParamError::PermissionDenied));
    assert_eq!(store.write("howmany", TypedValue::Text(Vec::new())), Err(ParamError::TypeMismatch));
    assert_eq!(store.write("whom", TypedValue::Integer(0)), Err(ParamError::TypeMismatch));
    assert_eq!(store.read("howmany"), Ok(TypedValue::Integer(3)));
    assert_eq!(store.read("whom"), Ok(TypedValue::Text(b"Mom".to_vec())));
    assert!(!store.contains("nobody"));
}

#[test]
fn contains_and_get() {
    let store = greeter_store();
    assert!(store.contains("howmany"));
    assert!(store.contains("motto"));
    assert!(!store.contains("howmany "));
    assert!(store.get("nobody").is_none());
    let whom = store.get("whom").unwrap();
    assert_eq!(whom.name(), "whom");
    assert_eq!(whom.kind(), ParamType::Text);
    assert_eq!(whom.permission(), 0o644);
    assert_eq!(store.get("fixed").unwrap().permission(), 0o444);
}

#[test]
fn clone_of_a_store_is_independent() {
    let mut store = greeter_store();
    assert_eq!(store.write("howmany", TypedValue::Integer(5)), Ok(()));
    let copy = store.clone();
    assert_eq!(store.write("howmany", TypedValue::Integer(6)), Ok(()));
    assert_eq!(copy.read("howmany"), Ok(TypedValue::Integer(5)));
    assert_eq!(copy.read("whom"), Ok(TypedValue::Text(b"Mom".to_vec())));
    assert_eq!(copy.get("howmany").unwrap().default_value(), &TypedValue::Integer(3));
    assert_eq!(store.read("howmany"), Ok(TypedValue::Integer(6)));
}
