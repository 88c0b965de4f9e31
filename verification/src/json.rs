use vstd::prelude::*;

verus! {

/// A JSON document held as plain values owned by the library, so that every
/// rule that reads one can be verified. Numbers outside the signed 64-bit
/// range (the feed never carries any) are represented as `Null`.
#[derive(Debug)]
pub enum JsonValue {
    Null,
    Bool(bool),
    Int(i64),
    Str(String),
    Arr(Vec<JsonValue>),
    Obj(Vec<(String, JsonValue)>),
}

#[verifier::external_type_specification]
#[verifier::external_body]
pub struct ExSerdeValue(serde_json::Value);

/// Relies on serde_json::Value being one of the six JSON kinds: rebuilds the
/// parsed document as the library's own plain-value tree, one variant for one.
#[verifier::external_body]
fn lift_value(v: serde_json::Value) -> JsonValue {
    match v {
        serde_json::Value::Null => JsonValue::Null,
        serde_json::Value::Bool(b) => JsonValue::Bool(b),
        serde_json::Value::Number(n) => match n.as_i64() {
            Some(i) => JsonValue::Int(i),
            None => JsonValue::Null,
        },
        serde_json::Value::String(s) => JsonValue::Str(s),
        serde_json::Value::Array(a) => JsonValue::Arr(a.into_iter().map(lift_value).collect()),
        serde_json::Value::Object(o) => JsonValue::Obj(
            o.into_iter().map(|(k, w)| (k, lift_value(w))).collect(),
        ),
    }
}

/// What parsing a text as JSON yields: the document as the library's tree,
/// or nothing when the text is not JSON. Left unstated: it names the result
/// of serde_json::from_str, a function of the text alone.
pub uninterp spec fn json_of(s: Seq<char>) -> Option<JsonValue>;

/// Relies on serde_json::from_str: parses the text as one JSON document,
/// deterministically; `None` exactly when serde_json rejects the input.
#[verifier::external_body]
pub(crate) fn parse_json(s: &str) -> (r: Option<JsonValue>)
    ensures
        r == json_of(s@),
{
    serde_json::from_str::<serde_json::Value>(s).ok().map(lift_value)
}

/// The value bound to `key` in a sequence of object entries; the first
/// binding wins.
pub open spec fn entries_get(s: Seq<(String, JsonValue)>, key: Seq<char>) -> Option<JsonValue>
    decreases s.len(),
{
    if s.len() == 0 {
        None
    } else if s[0].0@ == key {
        Some(s[0].1)
    } else {
        entries_get(s.drop_first(), key)
    }
}

/// The value bound to `key` in a JSON object; `None` when `v` is not an
/// object or has no such member.
pub open spec fn spec_get(v: JsonValue, key: Seq<char>) -> Option<JsonValue> {
    match v {
        JsonValue::Obj(entries) => entries_get(entries@, key),
        _ => None,
    }
}

/// Looks `key` up in a JSON object, first binding first.
pub fn json_get<'a>(v: &'a JsonValue, key: &str) -> (r: Option<&'a JsonValue>)
    ensures
        match r {
            Some(x) => spec_get(*v, key@) == Some(*x),
            None => spec_get(*v, key@) is None,
        },
{
    match v {
        JsonValue::Obj(entries) => {
            proof {
                assert(*v == JsonValue::Obj(*entries));
            }
            let k = key.to_owned();
            let mut i: usize = 0;
            proof {
                assert(entries@.skip(0) =~= entries@);
            }
            while i < entries.len()
                invariant
                    i <= entries@.len(),
                    k@ == key@,
                    spec_get(*v, key@) == entries_get(entries@, key@),
                    entries_get(entries@, key@) == entries_get(entries@.skip(i as int), key@),
                decreases entries@.len() - i,
            {
                proof {
                    assert(entries@.skip(i as int)[0] == entries@[i as int]);
                    assert(entries@.skip(i as int).drop_first() =~= entries@.skip(i as int + 1));
                }
                if entries[i].0 == k {
                    proof {
                        assert(entries_get(entries@.skip(i as int), key@)
                            == Some(entries@[i as int].1));
                    }
                    return Some(&entries[i].1);
                }
                i = i + 1;
            }
            proof {
                assert(entries@.skip(i as int).len() == 0);
            }
            None
        },
        _ => None,
    }
}

/// Appending one entry at the end of an object can only fill in a key that
/// was still unbound; every earlier binding keeps winning.
pub proof fn lemma_entries_get_push(
    s: Seq<(String, JsonValue)>,
    x: (String, JsonValue),
    key: Seq<char>,
)
    ensures
        entries_get(s.push(x), key) == match entries_get(s, key) {
            Some(v) => Some(v),
            None => if x.0@ == key {
                Some(x.1)
            } else {
                None
            },
        },
    decreases s.len(),
{
    if s.len() == 0 {
        assert(s.push(x)[0] == x);
        assert(s.push(x).drop_first() =~= Seq::<(String, JsonValue)>::empty());
        if x.0@ == key {
            assert(entries_get(s.push(x), key) == Some(x.1));
        } else {
            assert(entries_get(s.push(x), key)
                == entries_get(Seq::<(String, JsonValue)>::empty(), key));
        }
    } else {
        assert(s.push(x)[0] == s[0]);
        assert(s.push(x).drop_first() =~= s.drop_first().push(x));
        lemma_entries_get_push(s.drop_first(), x, key);
        if s[0].0@ == key {
            assert(entries_get(s.push(x), key) == Some(s[0].1));
            assert(entries_get(s, key) == Some(s[0].1));
        } else {
            assert(entries_get(s.push(x), key)
                == entries_get(s.drop_first().push(x), key));
            assert(entries_get(s, key) == entries_get(s.drop_first(), key));
        }
    }
}

} // verus!
