use module_lifecycle::param::{ParamError, Parameter, TypedValue};
use module_lifecycle::shared::SharedParameterStore;
use module_lifecycle::store::ParameterStore;

fn shared_greeter_store() -> SharedParameterStore {
    SharedParameterStore::new(
        ParameterStore::new(vec![
            Parameter::integer("howmany", 3, 0o644),
            Parameter::text("whom", b"Mom".to_vec(), 0o644),
            Parameter::integer("fixed", 7, 0o444),
        ])
        .unwrap(),
    )
}

fn shareable<T: Send + Sync>(_: &T) {}

#[test]
fn shared_store_can_cross_threads() {
    shareable(&shared_greeter_store());
}

#[test]
fn shared_store_reads_defaults_at_first() {
    let shared = shared_greeter_store();
    assert_eq!(shared.read("howmany"), Ok(TypedValue::Integer(3)));
    assert_eq!(shared.read("whom"), Ok(TypedValue::Text(b"Mom".to_vec())));
    assert_eq!(shared.read("fixed"), Ok(TypedValue::Integer(7)));
    assert_eq!(shared.read("nobody"), Err(ParamError::NotFound));
}

#[test]
fn shared_write_is_seen_by_the_next_read() {
    let shared = shared_greeter_store();
    assert_eq!(shared.write("howmany", TypedValue::Integer(5)), Ok(()));
    assert_eq!(shared.read("howmany"), Ok(TypedValue::Integer(5)));
    assert_eq!(shared.write("whom", TypedValue::Text(b"Dad".to_vec())), Ok(()));
    assert_eq!(shared.read("whom"), Ok(TypedValue::Text(b"Dad".to_vec())));
    assert_eq!(shared.read("howmany"), Ok(TypedValue::Integer(5)));
}

#[test]
fn shared_write_errors() {
    let shared = shared_greeter_store();
    assert_eq!(shared.write("nobody", TypedValue::Integer(1)), Err(ParamError::NotFound));
    assert_eq!(shared.write("fixed", TypedValue::Integer(1)), Err(ParamError::PermissionDenied));
    assert_eq!(shared.write("fixed", TypedValue::Text(Vec::new())), Err(ParamError::PermissionDenied));
    assert_eq!(shared.write("howmany", TypedValue::Text(Vec::new())), Err(ParamError::TypeMismatch));
    assert_eq!(shared.read("fixed"), Ok(TypedValue::Integer(7)));
    assert_eq!(shared.read("howmany"), Ok(TypedValue::Integer(3)));
}

#[test]
fn the_lock_is_free_again_after_every_call() {
    // Each call below would wait for ever if a call before it had kept the
    // lock, on success or on failure.
    let shared = shared_greeter_store();
    let mut round = 0;
    while round < 3 {
        assert_eq!(shared.read("nobody"), Err(ParamError::NotFound));
        assert_eq!(shared.write("nobody", TypedValue::Integer(1)), Err(ParamError::NotFound));
        assert_eq!(shared.write("fixed", TypedValue::Integer(1)), Err(ParamError::PermissionDenied));
        assert_eq!(shared.write("howmany", TypedValue::Integer(round)), Ok(()));
        assert_eq!(shared.read("howmany"), Ok(TypedValue::Integer(round)));
        assert_eq!(shared.snapshot().read("howmany"), Ok(TypedValue::Integer(round)));
        round += 1;
    }
    assert_eq!(shared.into_inner().read("howmany"), Ok(TypedValue::Integer(2)));
}

#[test]
fn snapshot_is_a_copy() {
    let shared = shared_greeter_store();
    assert_eq!(shared.write("howmany", TypedValue::Integer(5)), Ok(()));
    let mut snapshot = shared.snapshot();
    assert_eq!(snapshot.read("howmany"), Ok(TypedValue::Integer(5)));
    assert_eq!(shared.write("howmany", TypedValue::Integer(6)), Ok(()));
    assert_eq!(snapshot.read("howmany"), Ok(TypedValue::Integer(5)));
    assert_eq!(snapshot.write("howmany", TypedValue::Integer(1)), Ok(()));
    assert_eq!(shared.read("howmany"), Ok(TypedValue::Integer(6)));
}

#[test]
fn into_inner_gives_the_store_back() {
    let shared = shared_greeter_store();
    assert_eq!(shared.write("whom", TypedValue::Text(b"Dad".to_vec())), Ok(()));
    let store = shared.into_inner();
    assert_eq!(store.read_text("whom"), Ok(String::from("Dad")));
    assert_eq!(store.read_integer("howmany"), Ok(3));
    assert_eq!(store.get("whom").unwrap().default_value(), &TypedValue::Text(b"Mom".to_vec()));
}
