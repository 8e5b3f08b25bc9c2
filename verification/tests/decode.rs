use lockfind::decode::{decode_string, decode_string_array, DecodeError};
use lockfind::schema::{CargoLock, Package};
use lockfind::value::{table_get, Value};

fn s(text: &str) -> Value {
    Value::String(text.to_string())
}

fn entry(key: &str, value: Value) -> (String, Value) {
    (key.to_string(), value)
}

fn package_table(name: &str, source: &str, version: &str) -> Vec<(String, Value)> {
    vec![
        entry("name", s(name)),
        entry("source", s(source)),
        entry("version", s(version)),
    ]
}

#[test]
fn required_fields_only() {
    let v = Value::Table(package_table("foo", "registry", "1.0.0"));
    let p = Package::decode(&v).unwrap();
    assert_eq!(p.name, "foo");
    assert_eq!(p.source, "registry");
    assert_eq!(p.version, "1.0.0");
    assert!(p.dependencies.is_none());
}

#[test]
fn round_trip_exact_values() {
    let v = Value::Table(vec![
        entry("name", s("foo")),
        entry("source", s("registry")),
        entry("version", s("1.0.0")),
    ]);
    let p = Package::decode(&v).unwrap();
    assert_eq!(p.name, "foo");
    assert_eq!(p.source, "registry");
    assert_eq!(p.version, "1.0.0");
}

#[test]
fn missing_name_names_name() {
    let v = Value::Table(vec![
        entry("source", s("registry")),
        entry("version", s("1.0.0")),
    ]);
    assert_eq!(Package::decode(&v), Err(DecodeError::LookupError("name")));
}

#[test]
fn missing_source_names_source() {
    let v = Value::Table(vec![entry("name", s("foo")), entry("version", s("1.0.0"))]);
    assert_eq!(Package::decode(&v), Err(DecodeError::LookupError("source")));
}

#[test]
fn missing_version_names_version() {
    let v = Value::Table(vec![entry("name", s("foo")), entry("source", s("registry"))]);
    assert_eq!(Package::decode(&v), Err(DecodeError::LookupError("version")));
}

#[test]
fn mistyped_required_field_reported_as_lookup() {
    let mut t = package_table("foo", "registry", "1.0.0");
    t[1] = entry("source", Value::Integer(5));
    assert_eq!(
        Package::decode(&Value::Table(t)),
        Err(DecodeError::LookupError("source"))
    );
}

#[test]
fn string_dependencies_fail_soft() {
    let mut t = package_table("foo", "registry", "1.0.0");
    t.push(entry("dependencies", s("not-an-array")));
    let p = Package::decode(&Value::Table(t)).unwrap();
    assert!(p.dependencies.is_none());
}

#[test]
fn bad_dependency_element_fails_soft() {
    let mut t = package_table("foo", "registry", "1.0.0");
    t.push(entry(
        "dependencies",
        Value::Array(vec![s("dep-a"), Value::Boolean(true)]),
    ));
    let p = Package::decode(&Value::Table(t)).unwrap();
    assert!(p.dependencies.is_none());
}

#[test]
fn well_formed_dependencies_kept_in_order() {
    let mut t = package_table("foo", "registry", "1.0.0");
    t.push(entry("dependencies", Value::Array(vec![s("b"), s("a"), s("c")])));
    let p = Package::decode(&Value::Table(t)).unwrap();
    assert_eq!(p.dependencies, Some(vec!["b".to_string(), "a".to_string(), "c".to_string()]));
}

#[test]
fn non_table_package_is_type_error() {
    assert_eq!(Package::decode(&s("x")), Err(DecodeError::TypeError));
    assert_eq!(
        Package::decode(&Value::Array(vec![])),
        Err(DecodeError::TypeError)
    );
}

#[test]
fn duplicate_keys_first_wins() {
    let mut t = package_table("first", "registry", "1.0.0");
    t.push(entry("name", s("second")));
    let p = Package::decode(&Value::Table(t)).unwrap();
    assert_eq!(p.name, "first");
}

#[test]
fn decode_string_rejects_other_tags() {
    assert_eq!(decode_string(&s("ok")).unwrap(), "ok");
    assert_eq!(decode_string(&Value::Integer(1)), Err(DecodeError::TypeError));
    assert_eq!(decode_string(&Value::Boolean(false)), Err(DecodeError::TypeError));
    assert_eq!(decode_string(&Value::Float(0)), Err(DecodeError::TypeError));
    assert_eq!(
        decode_string(&Value::Datetime("1979-05-27".to_string())),
        Err(DecodeError::TypeError)
    );
}

#[test]
fn decode_string_array_outcomes() {
    let ok = decode_string_array(&Value::Array(vec![s("a"), s("b")])).unwrap();
    assert_eq!(ok, vec!["a".to_string(), "b".to_string()]);
    let empty = decode_string_array(&Value::Array(vec![])).unwrap();
    assert!(empty.is_empty());
    // A non-array yields the element type's default error.
    assert_eq!(decode_string_array(&s("x")), Err(DecodeError::Default));
    // The first failing element's own error propagates.
    assert_eq!(
        decode_string_array(&Value::Array(vec![s("a"), Value::Integer(2)])),
        Err(DecodeError::TypeError)
    );
}

#[test]
fn default_error_is_default() {
    assert_eq!(DecodeError::default(), DecodeError::Default);
}

#[test]
fn table_get_finds_first_binding() {
    let t = vec![entry("k", s("v1")), entry("k", s("v2")), entry("other", s("w"))];
    match table_get(&t, "k") {
        Some(Value::String(x)) => assert_eq!(x.as_str(), "v1"),
        _ => panic!("expected the first binding of k"),
    }
    assert!(table_get(&t, "missing").is_none());
}

fn lock_table(packages: Option<Value>) -> Vec<(String, Value)> {
    let root = Value::Table(vec![
        entry("name", s("myproj")),
        entry("version", s("0.2.0")),
        entry("dependencies", Value::Array(vec![s("foo 1.0.0")])),
    ]);
    let mut t = vec![entry("root", root)];
    if let Some(p) = packages {
        t.push(entry("package", p));
    }
    t
}

#[test]
fn lock_full_decode() {
    let packages = Value::Array(vec![
        Value::Table(package_table("foo", "registry", "1.0.0")),
        Value::Table(package_table("bar", "registry", "0.3.1")),
    ]);
    let lock = CargoLock::decode(&Value::Table(lock_table(Some(packages)))).unwrap();
    assert_eq!(lock.name, "myproj");
    assert_eq!(lock.version, "0.2.0");
    assert_eq!(lock.dependencies, Some(vec!["foo 1.0.0".to_string()]));
    let ps = lock.packages.unwrap();
    assert_eq!(ps.len(), 2);
    assert_eq!(ps[0].name, "foo");
    assert_eq!(ps[1].name, "bar");
    assert_eq!(ps[1].version, "0.3.1");
}

#[test]
fn lock_without_package_key() {
    let lock = CargoLock::decode(&Value::Table(lock_table(None))).unwrap();
    assert!(lock.packages.is_none());
}

#[test]
fn lock_one_bad_package_discards_all() {
    let packages = Value::Array(vec![
        Value::Table(package_table("foo", "registry", "1.0.0")),
        Value::Table(vec![entry("name", s("broken"))]),
        Value::Table(package_table("bar", "registry", "0.3.1")),
    ]);
    let lock = CargoLock::decode(&Value::Table(lock_table(Some(packages)))).unwrap();
    // Fail-soft: never a partial list.
    assert!(lock.packages.is_none());
}

#[test]
fn lock_missing_root() {
    let v = Value::Table(vec![entry("package", Value::Array(vec![]))]);
    assert_eq!(CargoLock::decode(&v), Err(DecodeError::LookupError("root")));
}

#[test]
fn lock_root_not_a_table() {
    let v = Value::Table(vec![entry("root", s("oops"))]);
    assert_eq!(CargoLock::decode(&v), Err(DecodeError::TypeError));
}

#[test]
fn lock_root_missing_version() {
    let root = Value::Table(vec![entry("name", s("myproj"))]);
    let v = Value::Table(vec![entry("root", root)]);
    assert_eq!(CargoLock::decode(&v), Err(DecodeError::LookupError("version")));
}

#[test]
fn lock_not_a_table() {
    assert_eq!(CargoLock::decode(&Value::Integer(0)), Err(DecodeError::TypeError));
}
