use vstd::prelude::*;

verus! {

/// One node of the untyped value tree that an external configuration parser
/// produces: strings, scalars, ordered arrays, and string-keyed tables.
///
/// A table is kept as the ordered list of its entries. Lookups take the first
/// entry whose key matches, so a table whose keys are unique behaves exactly
/// like a map, and duplicate keys behave like a map that kept the earliest
/// insertion.
#[derive(Debug)]
pub enum Value {
    String(String),
    Integer(i64),
    /// Bit pattern of the parsed floating-point number; the decoders only
    /// ever inspect the tag of this variant, never the payload.
    Float(u64),
    Boolean(bool),
    Datetime(String),
    Array(Vec<Value>),
    Table(Vec<(String, Value)>),
}

/// The first value bound to `key` in a table's entry list, if any.
pub open spec fn lookup_spec(entries: Seq<(String, Value)>, key: Seq<char>) -> Option<Value>
    decreases entries.len(),
{
    if entries.len() == 0 {
        None
    } else if entries[0].0@ == key {
        Some(entries[0].1)
    } else {
        lookup_spec(entries.drop_first(), key)
    }
}

/// A lookup that has passed the first `i` entries without a key match is
/// decided by the remaining entries alone.
proof fn lemma_lookup_skip(entries: Seq<(String, Value)>, key: Seq<char>, i: int)
    requires
        0 <= i <= entries.len(),
        forall|j: int| 0 <= j < i ==> entries[j].0@ != key,
    ensures
        lookup_spec(entries, key) == lookup_spec(entries.skip(i), key),
    decreases i,
{
    if i > 0 {
        lemma_lookup_skip(entries.drop_first(), key, i - 1);
        assert(entries.drop_first().skip(i - 1) =~= entries.skip(i));
    } else {
        assert(entries.skip(0) =~= entries);
    }
}

/// The first value bound to `key` in `entries`, scanning from the front.
pub fn table_get<'a>(entries: &'a Vec<(String, Value)>, key: &str) -> (r: Option<&'a Value>)
    ensures
        match r {
            Some(v) => lookup_spec(entries@, key@) == Some(*v),
            None => lookup_spec(entries@, key@) is None,
        },
{
    let k: String = key.to_owned();
    let mut i: usize = 0;
    while i < entries.len()
        invariant
            i <= entries.len(),
            k@ == key@,
            forall|j: int| 0 <= j < i ==> entries@[j].0@ != key@,
        decreases entries.len() - i,
    {
        if entries[i].0 == k {
            proof {
                lemma_lookup_skip(entries@, key@, i as int);
                assert(entries@.skip(i as int)[0] == entries@[i as int]);
            }
            return Some(&entries[i].1);
        }
        i += 1;
    }
    proof {
        lemma_lookup_skip(entries@, key@, entries@.len() as int);
        assert(entries@.skip(entries@.len() as int).len() == 0);
    }
    None
}

} // verus!
