use vstd::prelude::*;

verus! {

/// A JSON value as the library reads it.
///
/// Non-negative integers that fit in 64 bits are held as `Nat`; every other
/// number is carried as its decimal text in `Number`. Object members keep the
/// order in which they were read.
#[derive(Debug)]
pub enum Json {
    Null,
    Bool(bool),
    Nat(u64),
    Number(String),
    Str(String),
    Array(Vec<Json>),
    Object(Vec<(String, Json)>),
}

/// The value of the first member of `fields` named `key`.
pub open spec fn field(fields: Seq<(String, Json)>, key: Seq<char>) -> Option<Json>
    decreases fields.len(),
{
    if fields.len() == 0 {
        None
    } else if fields[0].0@ == key {
        Some(fields[0].1)
    } else {
        field(fields.drop_first(), key)
    }
}

/// The member `key` of `j`, when `j` is an object that has one.
pub open spec fn member(j: Json, key: Seq<char>) -> Option<Json> {
    match j {
        Json::Object(fields) => field(fields@, key),
        _ => None,
    }
}

/// Index of the first member of `fields` named `key`.
pub fn find_field(fields: &Vec<(String, Json)>, key: &String) -> (r: Option<usize>)
    ensures
        match r {
            Some(i) => i < fields@.len() && fields@[i as int].0@ == key@
                && field(fields@, key@) == Some(fields@[i as int].1),
            None => field(fields@, key@) is None,
        },
{
    let mut i: usize = 0;
    assert(fields@.subrange(0, fields@.len() as int) =~= fields@);
    while i < fields.len()
        invariant
            i <= fields@.len(),
            field(fields@, key@) == field(fields@.subrange(i as int, fields@.len() as int), key@),
        decreases fields@.len() - i,
    {
        let ghost rest = fields@.subrange(i as int, fields@.len() as int);
        assert(rest.drop_first() =~= fields@.subrange(i + 1, fields@.len() as int));
        if fields[i].0 == *key {
            return Some(i);
        }
        i = i + 1;
    }
    None
}

/// Removes the member at `i` and hands back its value.
pub fn take_value(fields: &mut Vec<(String, Json)>, i: usize) -> (r: Json)
    requires
        i < old(fields)@.len(),
    ensures
        r == old(fields)@[i as int].1,
        final(fields)@ == old(fields)@.remove(i as int),
{
    let (_, v) = fields.remove(i);
    v
}

} // verus!
