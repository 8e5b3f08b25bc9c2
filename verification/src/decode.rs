use vstd::prelude::*;
use crate::value::{Value, lookup_spec, table_get};

verus! {

/// Decode failure, as the callers of the decoders see it.
#[derive(Debug, PartialEq, Eq)]
pub enum DecodeError {
    /// A value's runtime tag did not match the type expected at its position.
    TypeError,
    /// A required key was absent from a table, or its value failed to decode;
    /// the payload names the field at fault.
    LookupError(&'static str),
    /// Neutral fallback: there was no value to decode at all.
    Default,
}

impl Default for DecodeError {
    /// The error used where no value was present to decode.
    fn default() -> (r: DecodeError)
        ensures
            r == DecodeError::Default,
    {
        DecodeError::Default
    }
}

/// Ghost image of a `DecodeError`, with the field name as a character
/// sequence; the contracts of the decoders are stated over this type.
pub enum ErrorSpec {
    TypeError,
    LookupError(Seq<char>),
    Default,
}

impl View for DecodeError {
    type V = ErrorSpec;

    open spec fn view(&self) -> ErrorSpec {
        match self {
            DecodeError::TypeError => ErrorSpec::TypeError,
            DecodeError::LookupError(f) => ErrorSpec::LookupError(f@),
            DecodeError::Default => ErrorSpec::Default,
        }
    }
}

/// What decoding a value as a string yields: the characters of a string
/// value, a type error for every other tag.
pub open spec fn string_of(v: Value) -> Result<Seq<char>, ErrorSpec> {
    match v {
        Value::String(s) => Ok(s@),
        _ => Err(ErrorSpec::TypeError),
    }
}

/// Decodes a string value; any other tag is a `TypeError`.
pub fn decode_string(v: &Value) -> (r: Result<String, DecodeError>)
    ensures
        match r {
            Ok(s) => string_of(*v) == Ok::<Seq<char>, ErrorSpec>(s@),
            Err(e) => string_of(*v) == Err::<Seq<char>, ErrorSpec>(e@),
        },
{
    match v {
        Value::String(s) => Ok(s.clone()),
        _ => Err(DecodeError::TypeError),
    }
}

/// What decoding a sequence of values as strings yields: the decoded
/// elements in order, or the error of the first element that fails.
pub open spec fn strings_of(elems: Seq<Value>) -> Result<Seq<Seq<char>>, ErrorSpec>
    decreases elems.len(),
{
    if elems.len() == 0 {
        Ok(Seq::empty())
    } else {
        match string_of(elems[0]) {
            Ok(s) => match strings_of(elems.drop_first()) {
                Ok(rest) => Ok(seq![s] + rest),
                Err(e) => Err(e),
            },
            Err(e) => Err(e),
        }
    }
}

/// What decoding a value as an array of strings yields. A non-array value
/// yields the element type's default error, as the sequence rule dictates.
pub open spec fn string_list_of(v: Value) -> Result<Seq<Seq<char>>, ErrorSpec> {
    match v {
        Value::Array(a) => strings_of(a@),
        _ => Err(ErrorSpec::Default),
    }
}

/// Once the first `i` elements have decoded successfully to `pre`, the
/// outcome on the whole sequence is the outcome on the rest, prefixed by
/// `pre`.
proof fn lemma_strings_of_skip(elems: Seq<Value>, i: int, pre: Seq<Seq<char>>)
    requires
        0 <= i <= elems.len(),
        pre.len() == i,
        forall|j: int| 0 <= j < i ==> string_of(#[trigger] elems[j]) == Ok::<Seq<char>, ErrorSpec>(pre[j]),
    ensures
        match strings_of(elems.skip(i)) {
            Ok(rest) => strings_of(elems) == Ok::<Seq<Seq<char>>, ErrorSpec>(pre + rest),
            Err(e) => strings_of(elems) == Err::<Seq<Seq<char>>, ErrorSpec>(e),
        },
    decreases i,
{
    if i == 0 {
        assert(elems.skip(0) =~= elems);
        match strings_of(elems) {
            Ok(rest) => {
                assert(pre + rest =~= rest);
            },
            Err(_) => {},
        }
    } else {
        assert(string_of(elems[0]) == Ok::<Seq<char>, ErrorSpec>(pre[0]));
        lemma_strings_of_skip(elems.drop_first(), i - 1, pre.drop_first());
        assert(elems.drop_first().skip(i - 1) =~= elems.skip(i));
        match strings_of(elems.skip(i)) {
            Ok(rest) => {
                assert(strings_of(elems.drop_first()) == Ok::<Seq<Seq<char>>, ErrorSpec>(
                    pre.drop_first() + rest,
                ));
                assert(seq![pre[0]] + (pre.drop_first() + rest) =~= pre + rest);
            },
            Err(_) => {},
        }
    }
}

/// Decodes an array of strings, in order, stopping at the first element that
/// fails and propagating that element's error; a non-array value yields the
/// default error.
pub fn decode_string_array(v: &Value) -> (r: Result<Vec<String>, DecodeError>)
    ensures
        match r {
            Ok(l) => string_list_of(*v) == Ok::<Seq<Seq<char>>, ErrorSpec>(l.deep_view()),
            Err(e) => string_list_of(*v) == Err::<Seq<Seq<char>>, ErrorSpec>(e@),
        },
{
    match v {
        Value::Array(a) => {
            let mut ret: Vec<String> = Vec::new();
            let mut i: usize = 0;
            while i < a.len()
                invariant
                    string_list_of(*v) == strings_of(a@),
                    i <= a.len(),
                    ret.deep_view().len() == i,
                    forall|j: int| 0 <= j < i
                        ==> string_of(#[trigger] a@[j]) == Ok::<Seq<char>, ErrorSpec>(ret.deep_view()[j]),
                decreases a.len() - i,
            {
                let ghost pre = ret.deep_view();
                match decode_string(&a[i]) {
                    Ok(s) => {
                        ret.push(s);
                        proof {
                            assert(ret.deep_view() =~= pre.push(s@));
                        }
                    },
                    Err(e) => {
                        proof {
                            lemma_strings_of_skip(a@, i as int, pre);
                            assert(a@.skip(i as int)[0] == a@[i as int]);
                            assert(a@.skip(i as int).len() > 0);
                            assert(strings_of(a@.skip(i as int)) == Err::<
                                Seq<Seq<char>>,
                                ErrorSpec,
                            >(e@));
                            assert(strings_of(a@) == Err::<Seq<Seq<char>>, ErrorSpec>(e@));
                        }
                        return Err(e);
                    },
                }
                i += 1;
            }
            proof {
                lemma_strings_of_skip(a@, a@.len() as int, ret.deep_view());
                assert(a@.skip(a@.len() as int).len() == 0);
                assert(ret.deep_view() + Seq::<Seq<char>>::empty() =~= ret.deep_view());
            }
            Ok(ret)
        },
        _ => Err(DecodeError::Default),
    }
}

/// What looking up `key` and decoding it as a required string yields: the
/// characters when the key is bound to a string, otherwise a lookup error
/// naming the field.
pub open spec fn required_string_of(entries: Seq<(String, Value)>, key: Seq<char>) -> Result<
    Seq<char>,
    ErrorSpec,
> {
    match lookup_spec(entries, key) {
        Some(v) => match string_of(v) {
            Ok(s) => Ok(s),
            Err(_) => Err(ErrorSpec::LookupError(key)),
        },
        None => Err(ErrorSpec::LookupError(key)),
    }
}

/// Looks up a required string field; absence and a wrongly-typed value both
/// fail with `LookupError` naming the field.
pub fn require_string_field(entries: &Vec<(String, Value)>, key: &'static str) -> (r: Result<
    String,
    DecodeError,
>)
    ensures
        match r {
            Ok(s) => required_string_of(entries@, key@) == Ok::<Seq<char>, ErrorSpec>(s@),
            Err(e) => e == DecodeError::LookupError(key) && required_string_of(entries@, key@)
                == Err::<Seq<char>, ErrorSpec>(e@),
        },
{
    match table_get(entries, key) {
        Some(v) => match decode_string(v) {
            Ok(s) => Ok(s),
            Err(_) => Err(DecodeError::LookupError(key)),
        },
        None => Err(DecodeError::LookupError(key)),
    }
}

/// What consulting an optional list-of-strings field yields: the decoded
/// list when the key is bound to an array of strings, and absence both when
/// the key is missing and when its value fails to decode (fail-soft).
pub open spec fn opt_string_list_of(entries: Seq<(String, Value)>, key: Seq<char>) -> Option<
    Seq<Seq<char>>,
> {
    match lookup_spec(entries, key) {
        Some(v) => match string_list_of(v) {
            Ok(l) => Some(l),
            Err(_) => None,
        },
        None => None,
    }
}

/// Looks up an optional list-of-strings field, discarding every failure in
/// favour of absence.
pub fn opt_string_list_field(entries: &Vec<(String, Value)>, key: &str) -> (r: Option<Vec<String>>)
    ensures
        match r {
            Some(l) => opt_string_list_of(entries@, key@) == Some(l.deep_view()),
            None => opt_string_list_of(entries@, key@) is None,
        },
{
    match table_get(entries, key) {
        Some(v) => match decode_string_array(v) {
            Ok(l) => Some(l),
            Err(_) => None,
        },
        None => None,
    }
}

} // verus!
