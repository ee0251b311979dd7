//! Reading the members of a JSON object by key and by type.
//!
//! A member that must be there is read with a `req_` function, which gives
//! nothing where the member is missing or of another type. A member that may
//! be left out is read with an `opt_` function, for which a missing member and
//! a null member both count as left out, while a member of another type is
//! still a fault.

use crate::json::{
    Json, JsonView, NumberView, entries_view, items_view, lemma_entries_view,
    lemma_entries_view_push, lemma_items_view, new_members,
};
use crate::text::opt_text;
use vstd::prelude::*;

verus! {

/// The views of the elements of an optional list.
pub open spec fn opt_list(o: Option<Vec<i32>>) -> Option<Seq<i32>> {
    match o {
        Some(v) => Some(v@),
        None => None,
    }
}

/// The views of the members of an optional object.
pub open spec fn opt_members_view(o: Option<Vec<(String, Json)>>) -> Option<
    Seq<(Seq<char>, JsonView)>,
> {
    match o {
        Some(v) => Some(entries_view(v@)),
        None => None,
    }
}

/// The view of an optional value.
pub open spec fn opt_view<T: View>(o: Option<T>) -> Option<T::V> {
    match o {
        Some(x) => Some(x@),
        None => None,
    }
}

/// The value as a 32-bit integer, if it is an integer number that fits.
pub open spec fn as_i32(v: JsonView) -> Option<i32> {
    match v {
        JsonView::Number(NumberView::Int(i)) => if i32::MIN <= i <= i32::MAX {
            Some(i as i32)
        } else {
            None
        },
        _ => None,
    }
}

/// The string member `key` of `j`.
pub open spec fn req_string(j: JsonView, key: Seq<char>) -> Option<Seq<char>> {
    match j.field(key) {
        Some(JsonView::String(s)) => Some(s),
        _ => None,
    }
}

/// The string member `key` of `j`, which may be left out.
pub open spec fn opt_string(j: JsonView, key: Seq<char>) -> Option<Option<Seq<char>>> {
    match j.field(key) {
        None => Some(None),
        Some(JsonView::Null) => Some(None),
        Some(JsonView::String(s)) => Some(Some(s)),
        _ => None,
    }
}

/// The 32-bit integer member `key` of `j`.
pub open spec fn req_i32(j: JsonView, key: Seq<char>) -> Option<i32> {
    match j.field(key) {
        Some(v) => as_i32(v),
        None => None,
    }
}

/// The 32-bit integer member `key` of `j`, which may be left out.
pub open spec fn opt_i32(j: JsonView, key: Seq<char>) -> Option<Option<i32>> {
    match j.field(key) {
        None => Some(None),
        Some(JsonView::Null) => Some(None),
        Some(v) => match as_i32(v) {
            Some(i) => Some(Some(i)),
            None => None,
        },
    }
}

/// The boolean member `key` of `j`.
pub open spec fn req_bool(j: JsonView, key: Seq<char>) -> Option<bool> {
    match j.field(key) {
        Some(JsonView::Bool(b)) => Some(b),
        _ => None,
    }
}

/// The items of an array as 32-bit integers, if each is one.
pub open spec fn i32_list(items: Seq<JsonView>) -> Option<Seq<i32>>
    decreases items.len(),
{
    if items.len() == 0 {
        Some(Seq::empty())
    } else {
        match (i32_list(items.drop_last()), as_i32(items.last())) {
            (Some(rest), Some(i)) => Some(rest.push(i)),
            _ => None,
        }
    }
}

/// The member `key` of `j` as an array of 32-bit integers.
pub open spec fn req_i32_list(j: JsonView, key: Seq<char>) -> Option<Seq<i32>> {
    match j.field(key) {
        Some(JsonView::Array(items)) => i32_list(items),
        _ => None,
    }
}

/// The member `key` of `j` as an array of 32-bit integers, which may be left
/// out.
pub open spec fn opt_i32_list(j: JsonView, key: Seq<char>) -> Option<Option<Seq<i32>>> {
    match j.field(key) {
        None => Some(None),
        Some(JsonView::Null) => Some(None),
        Some(JsonView::Array(items)) => match i32_list(items) {
            Some(list) => Some(Some(list)),
            None => None,
        },
        _ => None,
    }
}

/// The members of the object member `key` of `j`.
pub open spec fn req_members(j: JsonView, key: Seq<char>) -> Option<Seq<(Seq<char>, JsonView)>> {
    match j.field(key) {
        Some(JsonView::Object(members)) => Some(members),
        _ => None,
    }
}

/// The members of the object member `key` of `j`, which may be left out.
pub open spec fn opt_members(j: JsonView, key: Seq<char>) -> Option<
    Option<Seq<(Seq<char>, JsonView)>>,
> {
    match j.field(key) {
        None => Some(None),
        Some(JsonView::Null) => Some(None),
        Some(JsonView::Object(members)) => Some(Some(members)),
        _ => None,
    }
}

/// Where a prefix of an array is no list of 32-bit integers, the array is
/// none.
pub proof fn lemma_i32_list_prefix(items: Seq<JsonView>, n: int)
    requires
        0 <= n <= items.len(),
        i32_list(items.take(n)) is None,
    ensures
        i32_list(items) is None,
    decreases items.len() - n,
{
    if n == items.len() {
        assert(items.take(n) =~= items);
    } else {
        assert(items.take(n + 1).drop_last() =~= items.take(n));
        lemma_i32_list_prefix(items, n + 1);
    }
}

/// The value as a 32-bit integer, if it is an integer number that fits.
pub fn json_as_i32(v: &Json) -> (r: Option<i32>)
    ensures
        r == as_i32(v@),
{
    match v.as_i64() {
        Some(i) => {
            if -2_147_483_648i64 <= i && i <= 2_147_483_647i64 {
                Some(i as i32)
            } else {
                None
            }
        },
        None => None,
    }
}

/// Reads the string member `key` of `j`.
pub fn string_field(j: &Json, key: &str) -> (r: Option<String>)
    ensures
        opt_text(r) == req_string(j@, key@),
{
    match j.get(key) {
        Some(v) => {
            match v {
                Json::String(s) => Some(s.clone()),
                _ => None,
            }
        },
        None => None,
    }
}

/// Reads the string member `key` of `j`, which may be left out.
pub fn opt_string_field(j: &Json, key: &str) -> (r: Option<Option<String>>)
    ensures
        match r {
            Some(s) => opt_string(j@, key@) == Some(opt_text(s)),
            None => opt_string(j@, key@) is None,
        },
{
    match j.get(key) {
        None => Some(None),
        Some(v) => {
            match v {
                Json::Null => Some(None),
                Json::String(s) => Some(Some(s.clone())),
                _ => None,
            }
        },
    }
}

/// Reads the 32-bit integer member `key` of `j`.
pub fn i32_field(j: &Json, key: &str) -> (r: Option<i32>)
    ensures
        r == req_i32(j@, key@),
{
    match j.get(key) {
        Some(v) => json_as_i32(v),
        None => None,
    }
}

/// Reads the 32-bit integer member `key` of `j`, which may be left out.
pub fn opt_i32_field(j: &Json, key: &str) -> (r: Option<Option<i32>>)
    ensures
        match r {
            Some(i) => opt_i32(j@, key@) == Some(i),
            None => opt_i32(j@, key@) is None,
        },
{
    match j.get(key) {
        None => Some(None),
        Some(v) => {
            match v {
                Json::Null => Some(None),
                _ => match json_as_i32(v) {
                    Some(i) => Some(Some(i)),
                    None => None,
                },
            }
        },
    }
}

/// Reads the boolean member `key` of `j`.
pub fn bool_field(j: &Json, key: &str) -> (r: Option<bool>)
    ensures
        r == req_bool(j@, key@),
{
    match j.get(key) {
        Some(v) => {
            match v {
                Json::Bool(b) => Some(*b),
                _ => None,
            }
        },
        None => None,
    }
}

/// Reads the items of an array as 32-bit integers.
pub fn i32_list_from_json(items: &Vec<Json>) -> (r: Option<Vec<i32>>)
    ensures
        match r {
            Some(v) => i32_list(items_view(items@)) == Some(v@),
            None => i32_list(items_view(items@)) is None,
        },
{
    let mut out: Vec<i32> = Vec::new();
    let mut i: usize = 0;
    proof {
        lemma_items_view(items@);
        assert(items_view(items@).take(0) =~= Seq::<JsonView>::empty());
    }
    while i < items.len()
        invariant
            i <= items.len(),
            items_view(items@).len() == items.len(),
            forall|k: int| 0 <= k < items.len() ==> #[trigger] items_view(items@)[k] == items[k]@,
            i32_list(items_view(items@).take(i as int)) == Some(out@),
        decreases items.len() - i,
    {
        let ghost all = items_view(items@);
        proof {
            assert(all.take(i as int + 1).drop_last() =~= all.take(i as int));
            assert(all.take(i as int + 1).last() == items[i as int]@);
        }
        match json_as_i32(&items[i]) {
            Some(x) => {
                out.push(x);
            },
            None => {
                proof {
                    lemma_i32_list_prefix(all, i as int + 1);
                }
                return None;
            },
        }
        i = i + 1;
    }
    proof {
        assert(items_view(items@).take(i as int) =~= items_view(items@));
    }
    Some(out)
}

/// Reads the member `key` of `j` as an array of 32-bit integers.
pub fn i32_list_field(j: &Json, key: &str) -> (r: Option<Vec<i32>>)
    ensures
        match r {
            Some(v) => req_i32_list(j@, key@) == Some(v@),
            None => req_i32_list(j@, key@) is None,
        },
{
    match j.get(key) {
        Some(v) => {
            match v {
                Json::Array(items) => i32_list_from_json(items),
                _ => None,
            }
        },
        None => None,
    }
}

/// Reads the member `key` of `j` as an array of 32-bit integers, which may be
/// left out.
pub fn opt_i32_list_field(j: &Json, key: &str) -> (r: Option<Option<Vec<i32>>>)
    ensures
        match r {
            Some(v) => opt_i32_list(j@, key@) == Some(opt_list(v)),
            None => opt_i32_list(j@, key@) is None,
        },
{
    match j.get(key) {
        None => Some(None),
        Some(v) => {
            match v {
                Json::Null => Some(None),
                Json::Array(items) => match i32_list_from_json(items) {
                    Some(list) => Some(Some(list)),
                    None => None,
                },
                _ => None,
            }
        },
    }
}

/// A copy of the members of an object.
pub fn clone_members(entries: &Vec<(String, Json)>) -> (r: Vec<(String, Json)>)
    ensures
        entries_view(r@) == entries_view(entries@),
{
    let mut out = new_members();
    let mut i: usize = 0;
    proof {
        lemma_entries_view(entries@);
        assert(entries_view(entries@).take(0) =~= Seq::<(Seq<char>, JsonView)>::empty());
    }
    while i < entries.len()
        invariant
            i <= entries.len(),
            entries_view(entries@).len() == entries.len(),
            forall|k: int|
                0 <= k < entries.len() ==> #[trigger] entries_view(entries@)[k] == (
                    entries[k].0@,
                    entries[k].1@,
                ),
            entries_view(out@) == entries_view(entries@).take(i as int),
        decreases entries.len() - i,
    {
        let key = entries[i].0.clone();
        let value = entries[i].1.clone();
        proof {
            lemma_entries_view_push(out@, key, value);
            assert(entries_view(entries@).take(i as int).push((key@, value@)) =~= entries_view(
                entries@,
            ).take(i as int + 1));
        }
        out.push((key, value));
        i = i + 1;
    }
    proof {
        assert(entries_view(entries@).take(i as int) =~= entries_view(entries@));
    }
    out
}

/// Reads the members of the object member `key` of `j`.
pub fn members_field(j: &Json, key: &str) -> (r: Option<Vec<(String, Json)>>)
    ensures
        match r {
            Some(v) => req_members(j@, key@) == Some(entries_view(v@)),
            None => req_members(j@, key@) is None,
        },
{
    match j.get(key) {
        Some(v) => {
            match v {
                Json::Object(entries) => Some(clone_members(entries)),
                _ => None,
            }
        },
        None => None,
    }
}

/// Reads the members of the object member `key` of `j`, which may be left out.
pub fn opt_members_field(j: &Json, key: &str) -> (r: Option<Option<Vec<(String, Json)>>>)
    ensures
        match r {
            Some(v) => opt_members(j@, key@) == Some(opt_members_view(v)),
            None => opt_members(j@, key@) is None,
        },
{
    match j.get(key) {
        None => Some(None),
        Some(v) => {
            match v {
                Json::Null => Some(None),
                Json::Object(entries) => Some(Some(clone_members(entries))),
                _ => None,
            }
        },
    }
}

} // verus!
