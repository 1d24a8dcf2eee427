//! A record as a tree of nested objects, arrays and scalars, and the
//! dotted-path lookup over it.
//!
//! A decoded event record is handed to the library as a [`JsonValue`]. Field
//! retrieval walks a dotted path (for example `"Event.System.Channel"`) one
//! segment at a time; as soon as a segment is absent or the current value is
//! not an object, the lookup yields nothing. It never fails on a malformed
//! path.

use vstd::prelude::*;

verus! {

/// A tree value: nested objects and arrays over scalars. Numbers are carried
/// in their textual form; the lookup only ever reads string leaves.
pub enum JsonValue {
    Null,
    Bool(bool),
    Number(String),
    Text(String),
    Array(Vec<JsonValue>),
    Object(Vec<(String, JsonValue)>),
}

/// The value stored under `key` in a field list: the first binding whose
/// name equals `key`, if any.
pub open spec fn spec_get_fields(fields: Seq<(String, JsonValue)>, key: Seq<char>) -> Option<
    JsonValue,
>
    decreases fields.len(),
{
    if fields.len() == 0 {
        Option::None
    } else if fields[0].0@ == key {
        Option::Some(fields[0].1)
    } else {
        spec_get_fields(fields.skip(1), key)
    }
}

/// One lookup step: the value stored under `key`, provided `v` is an object.
pub open spec fn spec_get(v: JsonValue, key: Seq<char>) -> Option<JsonValue> {
    match v {
        JsonValue::Object(fields) => spec_get_fields(fields@, key),
        _ => Option::None,
    }
}

/// The dotted-path walk, with the segment read so far in `seg` and the
/// characters still to read in `rest`.
pub open spec fn spec_lookup_seg(v: JsonValue, seg: Seq<char>, rest: Seq<char>) -> Option<
    JsonValue,
>
    decreases rest.len(),
{
    if rest.len() == 0 {
        spec_get(v, seg)
    } else if rest[0] == '.' {
        match spec_get(v, seg) {
            Option::Some(w) => spec_lookup_seg(w, Seq::<char>::empty(), rest.skip(1)),
            Option::None => Option::None,
        }
    } else {
        spec_lookup_seg(v, seg.push(rest[0]), rest.skip(1))
    }
}

/// The value stored under the dotted path `path` in `v`, if every segment
/// resolves through an object.
pub open spec fn spec_lookup_path(v: JsonValue, path: Seq<char>) -> Option<JsonValue> {
    spec_lookup_seg(v, Seq::<char>::empty(), path)
}

/// The string leaf stored under the dotted path, if the path resolves to one.
pub open spec fn spec_extract_json_field(v: JsonValue, path: Seq<char>) -> Option<Seq<char>> {
    match spec_lookup_path(v, path) {
        Option::Some(w) => match w {
            JsonValue::Text(s) => Option::Some(s@),
            _ => Option::None,
        },
        Option::None => Option::None,
    }
}

/// Looks `key` up among the fields of one object.
fn get_field<'a>(fields: &'a Vec<(String, JsonValue)>, key: &str) -> (r: Option<&'a JsonValue>)
    ensures
        match r {
            Option::Some(w) => spec_get_fields(fields@, key@) == Option::Some(*w),
            Option::None => spec_get_fields(fields@, key@) is None,
        },
{
    let n = fields.len();
    let mut j: usize = 0;
    proof {
        assert(fields@.skip(0) =~= fields@);
    }
    while j < n
        invariant
            0 <= j <= n == fields@.len(),
            spec_get_fields(fields@, key@) == spec_get_fields(fields@.skip(j as int), key@),
        decreases n - j,
    {
        proof {
            assert(fields@.skip(j as int)[0] == fields@[j as int]);
            assert(fields@.skip(j as int).skip(1) =~= fields@.skip(j as int + 1));
        }
        if crate::paths::str_eq(fields[j].0.as_str(), key) {
            return Option::Some(&fields[j].1);
        }
        j += 1;
    }
    Option::None
}

/// Walks the dotted `field_path` through `json` and returns the string leaf
/// it ends at, if any. Any missing segment, any intermediate value that is
/// not an object, and any non-string leaf yield `None`; no path is an error.
pub fn extract_json_field(json: &JsonValue, field_path: &str) -> (r: Option<String>)
    ensures
        r is Some <==> spec_extract_json_field(*json, field_path@) is Some,
        r matches Some(s) ==> spec_extract_json_field(*json, field_path@) == Option::Some(s@),
{
    let n = field_path.unicode_len();
    let mut cur: &JsonValue = json;
    let mut start: usize = 0;
    let mut i: usize = 0;
    proof {
        assert(field_path@.subrange(0, 0) =~= Seq::<char>::empty());
        assert(field_path@.skip(0) =~= field_path@);
    }
    while i < n
        invariant
            0 <= start <= i <= n == field_path@.len(),
            forall|k: int| start <= k < i ==> field_path@[k] != '.',
            spec_lookup_seg(
                *cur,
                field_path@.subrange(start as int, i as int),
                field_path@.skip(i as int),
            ) == spec_lookup_path(*json, field_path@),
        decreases n - i,
    {
        let ghost seg = field_path@.subrange(start as int, i as int);
        let ghost rest = field_path@.skip(i as int);
        proof {
            assert(rest[0] == field_path@[i as int]);
            assert(rest.skip(1) =~= field_path@.skip(i as int + 1));
        }
        if field_path.get_char(i) == '.' {
            let seg_str = field_path.substring_char(start, i);
            match cur {
                JsonValue::Object(fields) => {
                    match get_field(fields, seg_str) {
                        Option::Some(w) => {
                            cur = w;
                            proof {
                                assert(field_path@.subrange(i as int + 1, i as int + 1)
                                    =~= Seq::<char>::empty());
                            }
                            start = i + 1;
                            i = i + 1;
                        },
                        Option::None => {
                            return Option::None;
                        },
                    }
                },
                _ => {
                    return Option::None;
                },
            }
        } else {
            proof {
                assert(field_path@.subrange(start as int, i as int + 1) =~= seg.push(
                    field_path@[i as int],
                ));
            }
            i = i + 1;
        }
    }
    let seg_str = field_path.substring_char(start, n);
    proof {
        assert(field_path@.skip(n as int).len() == 0);
    }
    match cur {
        JsonValue::Object(fields) => {
            match get_field(fields, seg_str) {
                Option::Some(w) => {
                    match w {
                        JsonValue::Text(s) => Option::Some(s.as_str().to_owned()),
                        _ => Option::None,
                    }
                },
                Option::None => Option::None,
            }
        },
        _ => Option::None,
    }
}

/// A lookup through a value that is not an object finds nothing, whatever
/// the path says.
pub proof fn lemma_lookup_not_object(v: JsonValue, path: Seq<char>)
    requires
        !(v is Object),
    ensures
        spec_lookup_path(v, path) is None,
{
    lemma_lookup_seg_not_object(v, Seq::<char>::empty(), path);
}

proof fn lemma_lookup_seg_not_object(v: JsonValue, seg: Seq<char>, rest: Seq<char>)
    requires
        !(v is Object),
    ensures
        spec_lookup_seg(v, seg, rest) is None,
    decreases rest.len(),
{
    if rest.len() != 0 && rest[0] != '.' {
        lemma_lookup_seg_not_object(v, seg.push(rest[0]), rest.skip(1));
    }
}

/// A single-segment path (one with no dot) returns exactly the value stored
/// under that name, and nothing when the name is absent.
pub proof fn lemma_lookup_single_segment(v: JsonValue, path: Seq<char>)
    requires
        forall|k: int| 0 <= k < path.len() ==> path[k] != '.',
    ensures
        spec_lookup_path(v, path) == spec_get(v, path),
{
    lemma_lookup_seg_plain(v, Seq::<char>::empty(), path);
}

/// The lookup walks one dot-separated segment at a time: resolving the
/// first segment and continuing with the rest of the path behaves exactly
/// like one lookup of the whole dotted path, and a first segment that does
/// not resolve through an object ends the walk with nothing at once.
pub proof fn lemma_lookup_step(v: JsonValue, head: Seq<char>, rest: Seq<char>)
    requires
        forall|k: int| 0 <= k < head.len() ==> head[k] != '.',
    ensures
        spec_lookup_path(v, head + seq!['.'] + rest) == match spec_get(v, head) {
            Option::Some(w) => spec_lookup_path(w, rest),
            Option::None => Option::None::<JsonValue>,
        },
{
    lemma_lookup_seg_step(v, Seq::<char>::empty(), head, rest);
    assert(Seq::<char>::empty() + head =~= head);
}

proof fn lemma_lookup_seg_step(v: JsonValue, seg: Seq<char>, head: Seq<char>, rest: Seq<char>)
    requires
        forall|k: int| 0 <= k < head.len() ==> head[k] != '.',
    ensures
        spec_lookup_seg(v, seg, head + seq!['.'] + rest) == match spec_get(v, seg + head) {
            Option::Some(w) => spec_lookup_seg(w, Seq::<char>::empty(), rest),
            Option::None => Option::None::<JsonValue>,
        },
    decreases head.len(),
{
    let whole = head + seq!['.'] + rest;
    assert(whole.len() > 0);
    if head.len() == 0 {
        assert(whole[0] == '.');
        assert(whole.skip(1) =~= rest);
        assert(seg + head =~= seg);
    } else {
        assert(whole[0] == head[0]);
        assert(head[0] != '.');
        assert forall|k: int| 0 <= k < head.skip(1).len() implies head.skip(1)[k] != '.' by {
            assert(head[k + 1] != '.');
        }
        lemma_lookup_seg_step(v, seg.push(head[0]), head.skip(1), rest);
        assert(whole.skip(1) =~= head.skip(1) + seq!['.'] + rest);
        assert(seg.push(head[0]) + head.skip(1) =~= seg + head);
    }
}

proof fn lemma_lookup_seg_plain(v: JsonValue, seg: Seq<char>, rest: Seq<char>)
    requires
        forall|k: int| 0 <= k < rest.len() ==> rest[k] != '.',
    ensures
        spec_lookup_seg(v, seg, rest) == spec_get(v, seg + rest),
    decreases rest.len(),
{
    if rest.len() == 0 {
        assert(seg + rest =~= seg);
    } else {
        assert forall|k: int| 0 <= k < rest.skip(1).len() implies rest.skip(1)[k] != '.' by {
            assert(rest[k + 1] != '.');
        }
        lemma_lookup_seg_plain(v, seg.push(rest[0]), rest.skip(1));
        assert(seg.push(rest[0]) + rest.skip(1) =~= seg + rest);
    }
}

} // verus!
