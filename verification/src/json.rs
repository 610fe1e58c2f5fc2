//! JSON values, carried opaquely, and the few serde_json calls the library makes.
use vstd::prelude::*;

verus! {

#[verifier::external_type_specification]
#[verifier::external_body]
pub struct ExJsonValue(serde_json::Value);

#[verifier::external_type_specification]
#[verifier::external_body]
pub struct ExJsonError(serde_json::Error);

/// `serde_json::Value::clone` (a derived, deep copy): the copy is the same JSON value.
pub assume_specification[ <serde_json::Value as Clone>::clone ](v: &serde_json::Value) -> (r:
    serde_json::Value)
    ensures
        r == *v,
;

/// Whether two JSON values are equal as `<serde_json::Value as PartialEq>::eq` tells.
pub uninterp spec fn json_equal(a: serde_json::Value, b: serde_json::Value) -> bool;

/// Calls `<serde_json::Value as PartialEq>::eq` (derived, structural). Identical values
/// compare equal (serde_json numbers are never NaN); which distinct values compare
/// equal (such as `0.0` and `-0.0`) is left to the name.
#[verifier::external_body]
pub(crate) fn json_eq(a: &serde_json::Value, b: &serde_json::Value) -> (r: bool)
    ensures
        r == json_equal(*a, *b),
        *a == *b ==> r,
{
    a == b
}

/// Whether serde_json accepts `text` as a JSON document (`serde_json::from_str::<Value>`
/// succeeds). This depends on the text alone.
pub uninterp spec fn json_text_parses(text: Seq<char>) -> bool;

/// The JSON value serde_json builds from a text it accepts (`serde_json::from_str`).
pub uninterp spec fn json_value_of(text: Seq<char>) -> serde_json::Value;

/// The compact JSON text serde_json writes for a value (`Value::to_string`).
pub uninterp spec fn json_text_of(v: serde_json::Value) -> Seq<char>;

/// Calls `serde_json::from_str::<serde_json::Value>`; it succeeds exactly when the text is
/// accepted as JSON, and then gives the value of that text.
#[verifier::external_body]
pub(crate) fn parse_json(text: &str) -> (r: Result<serde_json::Value, serde_json::Error>)
    ensures
        r is Ok <==> json_text_parses(text@),
        r matches Ok(v) ==> v == json_value_of(text@),
{
    serde_json::from_str::<serde_json::Value>(text)
}

/// Calls `<serde_json::Value as ToString>::to_string`, the compact JSON text of `v`.
#[verifier::external_body]
pub(crate) fn json_to_string(v: &serde_json::Value) -> (s: String)
    ensures
        s@ == json_text_of(*v),
{
    v.to_string()
}

/// Calls `<serde_json::Error as Display>::fmt` through `format!`, the message of `e`.
/// Nothing is stated of the text: `serde_json::Error` has no model here.
#[verifier::external_body]
pub(crate) fn json_error_message(e: &serde_json::Error) -> (s: String) {
    format!("{}", e)
}

/// Builds `serde_json::Value::Object` around `serde_json::Map::new()`, an empty JSON
/// object: the value of the text `{}`, which it is written back as.
#[verifier::external_body]
pub(crate) fn empty_json_object() -> (v: serde_json::Value)
    ensures
        v == json_value_of("{}"@),
        json_text_of(v) == "{}"@,
        json_object_members(v) == Some(Map::<Seq<char>, serde_json::Value>::empty()),
{
    serde_json::Value::Object(serde_json::Map::new())
}

/// What a JSON value holds as an object: `Some` of its members, by key, when it is
/// `Value::Object`, and `None` for every other kind of value.
pub uninterp spec fn json_object_members(v: serde_json::Value) -> Option<
    Map<Seq<char>, serde_json::Value>,
>;

/// The value `true`, `serde_json::Value::Bool(true)`: the value of the text `true`.
#[verifier::external_body]
pub(crate) fn json_true() -> (v: serde_json::Value)
    ensures
        v == json_value_of("true"@),
        json_object_members(v) is None,
{
    serde_json::Value::Bool(true)
}

/// Calls `Value::as_object` and, for an object, `serde_json::Map::keys`, collecting the
/// keys: each key of the object once, and nothing for a value that is no object.
#[verifier::external_body]
pub(crate) fn json_object_keys(v: &serde_json::Value) -> (r: Option<Vec<String>>)
    ensures
        r is Some <==> json_object_members(*v) is Some,
        r matches Some(ks) ==> {
            &&& ks@.map_values(|k: String| k@).no_duplicates()
            &&& ks@.map_values(|k: String| k@).to_set() == json_object_members(*v)->0.dom()
        },
{
    v.as_object().map(|m| m.keys().cloned().collect())
}

/// Calls `Value::get` with a key and clones what it finds: the member under `key` of an
/// object, `None` where the object has no such member or the value is no object.
#[verifier::external_body]
pub(crate) fn json_object_member(v: &serde_json::Value, key: &str) -> (r: Option<
    serde_json::Value,
>)
    ensures
        r == (match json_object_members(*v) {
            Some(m) => if m.contains_key(key@) {
                Some(m[key@])
            } else {
                None
            },
            None => None,
        }),
{
    v.get(key).cloned()
}

/// Calls `Value::as_object_mut` and `serde_json::Map::insert` on an object: the member
/// under `key` is `val` afterwards, whether or not the key was there, and the other
/// members stay.
#[verifier::external_body]
pub(crate) fn json_insert_member(v: &mut serde_json::Value, key: String, val: serde_json::Value)
    requires
        json_object_members(*old(v)) is Some,
    ensures
        json_object_members(*final(v)) == Some(
            json_object_members(*old(v))->0.insert(key@, val),
        ),
{
    if let Some(m) = v.as_object_mut() {
        m.insert(key, val);
    }
}

/// The JSON string value holding the text `s` (`serde_json::Value::String`).
pub uninterp spec fn json_string_value(s: Seq<char>) -> serde_json::Value;

/// Builds `serde_json::Value::String(s)`, a JSON string, which is no object.
#[verifier::external_body]
pub(crate) fn json_string(s: String) -> (v: serde_json::Value)
    ensures
        v == json_string_value(s@),
        json_object_members(v) is None,
{
    serde_json::Value::String(s)
}

/// Copies every member of the object `src` into the object `dst`, those of `src` winning.
pub(crate) fn merge_members(dst: &mut serde_json::Value, src: &serde_json::Value)
    requires
        json_object_members(*old(dst)) is Some,
        json_object_members(*src) is Some,
    ensures
        json_object_members(*final(dst)) == Some(
            json_object_members(*old(dst))->0.union_prefer_right(json_object_members(*src)->0),
        ),
{
    let ghost base = json_object_members(*dst)->0;
    let ghost extra = json_object_members(*src)->0;
    let keys = match json_object_keys(src) {
        Some(ks) => ks,
        None => Vec::new(),
    };
    let ghost names = keys@.map_values(|k: String| k@);
    let mut i: usize = 0;
    while i < keys.len()
        invariant
            i <= keys.len(),
            names == keys@.map_values(|k: String| k@),
            names.no_duplicates(),
            names.to_set() == extra.dom(),
            extra == json_object_members(*src)->0,
            json_object_members(*src) is Some,
            json_object_members(*dst) == Some(
                base.union_prefer_right(extra.restrict(names.subrange(0, i as int).to_set())),
            ),
        decreases keys.len() - i,
    {
        let key = keys[i].clone();
        proof {
            assert(names[i as int] == key@);
            assert(names.to_set().contains(key@));
        }
        let found = json_object_member(src, key.as_str());
        match found {
            Some(val) => {
                json_insert_member(dst, key, val);
            },
            None => {},
        }
        proof {
            let before = names.subrange(0, i as int).to_set();
            let after = names.subrange(0, i as int + 1).to_set();
            assert(after =~= before.insert(names[i as int])) by {
                assert forall|x: Seq<char>| after.contains(x) implies before.insert(
                    names[i as int],
                ).contains(x) by {
                    let j = choose|j: int| 0 <= j < i + 1 && #[trigger] names.subrange(0, i as int + 1)[j] == x;
                    if j < i {
                        assert(names.subrange(0, i as int)[j] == x);
                    }
                }
                assert forall|x: Seq<char>| before.insert(names[i as int]).contains(x) implies after.contains(
                    x,
                ) by {
                    if x == names[i as int] {
                        assert(names.subrange(0, i as int + 1)[i as int] == x);
                    } else {
                        let j = choose|j: int| 0 <= j < i && #[trigger] names.subrange(0, i as int)[j] == x;
                        assert(names.subrange(0, i as int + 1)[j] == x);
                    }
                }
            }
            assert(base.union_prefer_right(extra.restrict(before)).insert(names[i as int], extra[names[i as int]])
                =~= base.union_prefer_right(extra.restrict(after)));
        }
        i = i + 1;
    }
    proof {
        assert(names.subrange(0, keys.len() as int) =~= names);
        assert(extra.restrict(names.to_set()) =~= extra);
    }
}

} // verus!
