use vstd::prelude::*;

verus! {

// The store's file format is a JSON array of connection records.
// The library models parsed JSON structurally; turning file bytes
// into this tree and back is the caller's part. Number literals are
// kept as raw text, so records with number forms the library does
// not read (fractions, exponents) pass through unharmed.

/// A parsed JSON value.
#[derive(Debug)]
pub enum Json {
    Null,
    Bool(bool),
    /// A number literal, kept as its raw text.
    Num(String),
    Str(String),
    Arr(Vec<Json>),
    Obj(Vec<(String, Json)>),
}

/// First binding of `key` in an object's field list, scanning from
/// index `i`.
pub open spec fn obj_get_from(fields: Seq<(String, Json)>, key: Seq<char>, i: int) -> Option<Json>
    decreases fields.len() - i,
{
    if i < 0 || i >= fields.len() {
        None
    } else if fields[i].0@ == key {
        Some(fields[i].1)
    } else {
        obj_get_from(fields, key, i + 1)
    }
}

/// First binding of `key` in an object's field list.
pub open spec fn obj_get(fields: Seq<(String, Json)>, key: Seq<char>) -> Option<Json> {
    obj_get_from(fields, key, 0)
}

/// Looks a key up in an object's field list, first match.
pub fn obj_get_exec<'a>(fields: &'a Vec<(String, Json)>, key: &String) -> (r: Option<&'a Json>)
    ensures
        match r {
            Some(j) => obj_get(fields@, key@) == Some(*j),
            None => obj_get(fields@, key@) is None,
        },
{
    let mut i: usize = 0;
    while i < fields.len()
        invariant
            i <= fields@.len(),
            obj_get(fields@, key@) == obj_get_from(fields@, key@, i as int),
        decreases fields@.len() - i,
    {
        if fields[i].0 == *key {
            proof {
                assert(obj_get_from(fields@, key@, i as int) == Some(fields@[i as int].1));
            }
            return Some(&fields[i].1);
        }
        i = i + 1;
        proof {
            assert(obj_get_from(fields@, key@, i as int - 1) == obj_get_from(
                fields@,
                key@,
                i as int,
            ));
        }
    }
    None
}

} // verus!
