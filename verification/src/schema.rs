use vstd::prelude::*;
use crate::value::{Value, lookup_spec, table_get};
use crate::decode::{
    DecodeError, ErrorSpec, required_string_of, opt_string_list_of,
    require_string_field, opt_string_list_field,
};

verus! {

/// One resolved dependency entry of a lock file.
#[derive(Debug, PartialEq, Eq)]
pub struct Package {
    pub name: String,
    pub source: String,
    pub version: String,
    pub dependencies: Option<Vec<String>>,
}

/// Ghost image of a `Package`.
pub struct PackageSpec {
    pub name: Seq<char>,
    pub source: Seq<char>,
    pub version: Seq<char>,
    pub dependencies: Option<Seq<Seq<char>>>,
}

impl View for Package {
    type V = PackageSpec;

    open spec fn view(&self) -> PackageSpec {
        PackageSpec {
            name: self.name@,
            source: self.source@,
            version: self.version@,
            dependencies: self.dependencies.deep_view(),
        }
    }
}

impl DeepView for Package {
    type V = PackageSpec;

    open spec fn deep_view(&self) -> PackageSpec {
        self.view()
    }
}

/// What decoding a value as a package record yields.
///
/// The three required fields are consulted in declaration order, so the
/// lookup error names the first field that is missing or mis-typed; the
/// optional dependency list degrades to absence on any failure.
pub open spec fn package_of(v: Value) -> Result<PackageSpec, ErrorSpec> {
    match v {
        Value::Table(t) => match required_string_of(t@, "name"@) {
            Err(e) => Err(e),
            Ok(name) => match required_string_of(t@, "source"@) {
                Err(e) => Err(e),
                Ok(source) => match required_string_of(t@, "version"@) {
                    Err(e) => Err(e),
                    Ok(version) => Ok(
                        PackageSpec {
                            name,
                            source,
                            version,
                            dependencies: opt_string_list_of(t@, "dependencies"@),
                        },
                    ),
                },
            },
        },
        _ => Err(ErrorSpec::TypeError),
    }
}

impl Package {
    /// Decodes one package table: `name`, `source` and `version` are
    /// required strings, `dependencies` an optional array of strings.
    pub fn decode(v: &Value) -> (r: Result<Package, DecodeError>)
        ensures
            match r {
                Ok(p) => package_of(*v) == Ok::<PackageSpec, ErrorSpec>(p@),
                Err(e) => package_of(*v) == Err::<PackageSpec, ErrorSpec>(e@),
            },
    {
        match v {
            Value::Table(t) => {
                let name = match require_string_field(t, "name") {
                    Ok(s) => s,
                    Err(e) => return Err(e),
                };
                let source = match require_string_field(t, "source") {
                    Ok(s) => s,
                    Err(e) => return Err(e),
                };
                let version = match require_string_field(t, "version") {
                    Ok(s) => s,
                    Err(e) => return Err(e),
                };
                let dependencies = opt_string_list_field(t, "dependencies");
                Ok(Package { name, source, version, dependencies })
            },
            _ => Err(DecodeError::TypeError),
        }
    }
}

/// What decoding a sequence of values as packages yields: the decoded
/// records in order, or the error of the first element that fails.
pub open spec fn packages_of(elems: Seq<Value>) -> Result<Seq<PackageSpec>, ErrorSpec>
    decreases elems.len(),
{
    if elems.len() == 0 {
        Ok(Seq::empty())
    } else {
        match package_of(elems[0]) {
            Ok(p) => match packages_of(elems.drop_first()) {
                Ok(rest) => Ok(seq![p] + rest),
                Err(e) => Err(e),
            },
            Err(e) => Err(e),
        }
    }
}

/// What decoding a value as an array of packages yields; a non-array value
/// yields the element type's default error.
pub open spec fn package_list_of(v: Value) -> Result<Seq<PackageSpec>, ErrorSpec> {
    match v {
        Value::Array(a) => packages_of(a@),
        _ => Err(ErrorSpec::Default),
    }
}

/// Once the first `i` elements have decoded successfully to `pre`, the
/// outcome on the whole sequence is the outcome on the rest, prefixed by
/// `pre`.
proof fn lemma_packages_of_skip(elems: Seq<Value>, i: int, pre: Seq<PackageSpec>)
    requires
        0 <= i <= elems.len(),
        pre.len() == i,
        forall|j: int| 0 <= j < i
            ==> package_of(#[trigger] elems[j]) == Ok::<PackageSpec, ErrorSpec>(pre[j]),
    ensures
        match packages_of(elems.skip(i)) {
            Ok(rest) => packages_of(elems) == Ok::<Seq<PackageSpec>, ErrorSpec>(pre + rest),
            Err(e) => packages_of(elems) == Err::<Seq<PackageSpec>, ErrorSpec>(e),
        },
    decreases i,
{
    if i == 0 {
        assert(elems.skip(0) =~= elems);
        match packages_of(elems) {
            Ok(rest) => {
                assert(pre + rest =~= rest);
            },
            Err(_) => {},
        }
    } else {
        assert(package_of(elems[0]) == Ok::<PackageSpec, ErrorSpec>(pre[0]));
        lemma_packages_of_skip(elems.drop_first(), i - 1, pre.drop_first());
        assert(elems.drop_first().skip(i - 1) =~= elems.skip(i));
        match packages_of(elems.skip(i)) {
            Ok(rest) => {
                assert(packages_of(elems.drop_first()) == Ok::<Seq<PackageSpec>, ErrorSpec>(
                    pre.drop_first() + rest,
                ));
                assert(seq![pre[0]] + (pre.drop_first() + rest) =~= pre + rest);
            },
            Err(_) => {},
        }
    }
}

/// Decodes an array of packages, in order, stopping at the first element
/// that fails and propagating that element's error; a non-array value
/// yields the default error.
pub fn decode_package_array(v: &Value) -> (r: Result<Vec<Package>, DecodeError>)
    ensures
        match r {
            Ok(l) => package_list_of(*v) == Ok::<Seq<PackageSpec>, ErrorSpec>(l.deep_view()),
            Err(e) => package_list_of(*v) == Err::<Seq<PackageSpec>, ErrorSpec>(e@),
        },
{
    match v {
        Value::Array(a) => {
            let mut ret: Vec<Package> = Vec::new();
            let mut i: usize = 0;
            while i < a.len()
                invariant
                    package_list_of(*v) == packages_of(a@),
                    i <= a.len(),
                    ret.deep_view().len() == i,
                    forall|j: int| 0 <= j < i
                        ==> package_of(#[trigger] a@[j]) == Ok::<PackageSpec, ErrorSpec>(
                            ret.deep_view()[j],
                        ),
                decreases a.len() - i,
            {
                let ghost pre = ret.deep_view();
                match Package::decode(&a[i]) {
                    Ok(p) => {
                        let ghost pv = p@;
                        ret.push(p);
                        proof {
                            assert(ret.deep_view() =~= pre.push(pv));
                        }
                    },
                    Err(e) => {
                        proof {
                            lemma_packages_of_skip(a@, i as int, pre);
                            assert(a@.skip(i as int)[0] == a@[i as int]);
                            assert(a@.skip(i as int).len() > 0);
                            assert(packages_of(a@) == Err::<Seq<PackageSpec>, ErrorSpec>(e@));
                        }
                        return Err(e);
                    },
                }
                i += 1;
            }
            proof {
                lemma_packages_of_skip(a@, a@.len() as int, ret.deep_view());
                assert(a@.skip(a@.len() as int).len() == 0);
                assert(ret.deep_view() + Seq::<PackageSpec>::empty() =~= ret.deep_view());
            }
            Ok(ret)
        },
        _ => Err(DecodeError::Default),
    }
}

/// What consulting the optional `package` array yields: the decoded
/// packages when every element decodes, and absence both when the key is
/// missing and when any element fails (fail-soft: one malformed entry
/// discards the whole list).
pub open spec fn opt_packages_of(entries: Seq<(String, Value)>, key: Seq<char>) -> Option<
    Seq<PackageSpec>,
> {
    match lookup_spec(entries, key) {
        Some(v) => match package_list_of(v) {
            Ok(l) => Some(l),
            Err(_) => None,
        },
        None => None,
    }
}

/// Looks up an optional list-of-packages field, discarding every failure in
/// favour of absence.
pub fn opt_packages_field(entries: &Vec<(String, Value)>, key: &str) -> (r: Option<Vec<Package>>)
    ensures
        match r {
            Some(l) => opt_packages_of(entries@, key@) == Some(l.deep_view()),
            None => opt_packages_of(entries@, key@) is None,
        },
{
    match table_get(entries, key) {
        Some(v) => match decode_package_array(v) {
            Ok(l) => Some(l),
            Err(_) => None,
        },
        None => None,
    }
}

/// The whole lock file: the `root` table's metadata, and the packages of
/// the top-level `package` array if that array decoded in full.
#[derive(Debug, PartialEq, Eq)]
pub struct CargoLock {
    pub name: String,
    pub version: String,
    pub dependencies: Option<Vec<String>>,
    pub packages: Option<Vec<Package>>,
}

/// Ghost image of a `CargoLock`.
pub struct CargoLockSpec {
    pub name: Seq<char>,
    pub version: Seq<char>,
    pub dependencies: Option<Seq<Seq<char>>>,
    pub packages: Option<Seq<PackageSpec>>,
}

impl View for CargoLock {
    type V = CargoLockSpec;

    open spec fn view(&self) -> CargoLockSpec {
        CargoLockSpec {
            name: self.name@,
            version: self.version@,
            dependencies: self.dependencies.deep_view(),
            packages: self.packages.deep_view(),
        }
    }
}

/// What decoding a whole lock file yields.
///
/// The `root` key is required and must be a table; its `name` and `version`
/// are required strings; `root.dependencies` and the top-level `package`
/// array are optional and fail soft.
pub open spec fn cargo_lock_of(v: Value) -> Result<CargoLockSpec, ErrorSpec> {
    match v {
        Value::Table(t) => match lookup_spec(t@, "root"@) {
            None => Err(ErrorSpec::LookupError("root"@)),
            Some(rv) => match rv {
                Value::Table(rt) => match required_string_of(rt@, "name"@) {
                    Err(e) => Err(e),
                    Ok(name) => match required_string_of(rt@, "version"@) {
                        Err(e) => Err(e),
                        Ok(version) => Ok(
                            CargoLockSpec {
                                name,
                                version,
                                dependencies: opt_string_list_of(rt@, "dependencies"@),
                                packages: opt_packages_of(t@, "package"@),
                            },
                        ),
                    },
                },
                _ => Err(ErrorSpec::TypeError),
            },
        },
        _ => Err(ErrorSpec::TypeError),
    }
}

impl CargoLock {
    /// Decodes a whole lock file: a required `root` table carrying `name`,
    /// `version` and an optional dependency list, and an optional top-level
    /// `package` array that is discarded in full if any element is
    /// malformed.
    pub fn decode(v: &Value) -> (r: Result<CargoLock, DecodeError>)
        ensures
            match r {
                Ok(l) => cargo_lock_of(*v) == Ok::<CargoLockSpec, ErrorSpec>(l@),
                Err(e) => cargo_lock_of(*v) == Err::<CargoLockSpec, ErrorSpec>(e@),
            },
    {
        match v {
            Value::Table(t) => {
                let root = match table_get(t, "root") {
                    Some(rv) => rv,
                    None => return Err(DecodeError::LookupError("root")),
                };
                match root {
                    Value::Table(rt) => {
                        let name = match require_string_field(rt, "name") {
                            Ok(s) => s,
                            Err(e) => return Err(e),
                        };
                        let version = match require_string_field(rt, "version") {
                            Ok(s) => s,
                            Err(e) => return Err(e),
                        };
                        let dependencies = opt_string_list_field(rt, "dependencies");
                        let packages = opt_packages_field(t, "package");
                        Ok(CargoLock { name, version, dependencies, packages })
                    },
                    _ => Err(DecodeError::TypeError),
                }
            },
            _ => Err(DecodeError::TypeError),
        }
    }
}

/// A table that binds `name`, `source` and `version` to strings and has no
/// `dependencies` key decodes to exactly those fields, with no dependency
/// list.
pub proof fn lemma_package_required_fields(t: Vec<(String, Value)>, n: String, s: String, ver: String)
    requires
        lookup_spec(t@, "name"@) == Some(Value::String(n)),
        lookup_spec(t@, "source"@) == Some(Value::String(s)),
        lookup_spec(t@, "version"@) == Some(Value::String(ver)),
        lookup_spec(t@, "dependencies"@) is None,
    ensures
        package_of(Value::Table(t)) == Ok::<PackageSpec, ErrorSpec>(
            PackageSpec { name: n@, source: s@, version: ver@, dependencies: None },
        ),
{
}

/// A table missing a required field fails with a lookup error naming
/// exactly the first absent field among `name`, `source`, `version`.
pub proof fn lemma_package_missing_field(t: Vec<(String, Value)>)
    ensures
        lookup_spec(t@, "name"@) is None ==> package_of(Value::Table(t)) == Err::<
            PackageSpec,
            ErrorSpec,
        >(ErrorSpec::LookupError("name"@)),
        required_string_of(t@, "name"@) is Ok && lookup_spec(t@, "source"@) is None
            ==> package_of(Value::Table(t)) == Err::<PackageSpec, ErrorSpec>(
            ErrorSpec::LookupError("source"@),
        ),
        required_string_of(t@, "name"@) is Ok && required_string_of(t@, "source"@) is Ok
            && lookup_spec(t@, "version"@) is None ==> package_of(Value::Table(t)) == Err::<
            PackageSpec,
            ErrorSpec,
        >(ErrorSpec::LookupError("version"@)),
{
}

/// A `dependencies` value that is present but is a string rather than an
/// array is treated as absence: the package still decodes, with no
/// dependency list.
pub proof fn lemma_package_string_dependencies(t: Vec<(String, Value)>, d: String)
    requires
        required_string_of(t@, "name"@) is Ok,
        required_string_of(t@, "source"@) is Ok,
        required_string_of(t@, "version"@) is Ok,
        lookup_spec(t@, "dependencies"@) == Some(Value::String(d)),
    ensures
        package_of(Value::Table(t)) matches Ok(p) && p.dependencies is None,
{
}

/// If any element of a sequence fails to decode as a package, the whole
/// sequence fails.
proof fn lemma_packages_of_err(elems: Seq<Value>, i: int)
    requires
        0 <= i < elems.len(),
        package_of(elems[i]) is Err,
    ensures
        packages_of(elems) is Err,
    decreases i,
{
    if i > 0 && package_of(elems[0]) is Ok {
        lemma_packages_of_err(elems.drop_first(), i - 1);
    }
}

/// One structurally invalid element in the `package` array discards the
/// whole package list: if the lock file still decodes, its `packages` field
/// is absent, never a partial list.
pub proof fn lemma_lock_invalid_package_discards_list(t: Vec<(String, Value)>, a: Vec<Value>, i: int)
    requires
        lookup_spec(t@, "package"@) == Some(Value::Array(a)),
        0 <= i < a@.len(),
        package_of(a@[i]) is Err,
    ensures
        opt_packages_of(t@, "package"@) is None,
        cargo_lock_of(Value::Table(t)) matches Ok(l) ==> l.packages is None,
{
    lemma_packages_of_err(a@, i);
}

} // verus!
