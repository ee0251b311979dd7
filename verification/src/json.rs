//! A schema-less JSON tree.
//!
//! Provider documents, the opaque payloads carried by tasks and rewards, and
//! the reconstructed catalog are all values of [`Json`]. Contracts speak of a
//! value through its view, [`JsonView`], in which an object is the sequence of
//! its members in the order in which they are held: two objects that hold the
//! same members in a different order have different views, and a contract that
//! gives a view gives the order of the members too. A key is looked up from
//! the end, so that of two members with one key the later one is found.

use vstd::prelude::*;

verus! {

/// A JSON number as it is held in memory: a non-negative integer, a negative
/// integer, or a binary64 float kept as its bit pattern.
#[derive(Clone, Copy, Debug, PartialEq, Eq)]
pub enum JsonNumber {
    PosInt(u64),
    NegInt(i64),
    Float(u64),
}

/// What a [`JsonNumber`] denotes: a mathematical integer, or a float given by
/// its bit pattern.
pub ghost enum NumberView {
    Int(int),
    Float(u64),
}

impl View for JsonNumber {
    type V = NumberView;

    open spec fn view(&self) -> NumberView {
        match self {
            JsonNumber::PosInt(u) => NumberView::Int(*u as int),
            JsonNumber::NegInt(i) => NumberView::Int(*i as int),
            JsonNumber::Float(bits) => NumberView::Float(*bits),
        }
    }
}

/// A JSON value. The members of an object are kept in the order in which they
/// were added; where a key occurs twice, the later member is the one that
/// counts.
#[derive(Debug, PartialEq, Eq)]
pub enum Json {
    Null,
    Bool(bool),
    Number(JsonNumber),
    String(String),
    Array(Vec<Json>),
    Object(Vec<(String, Json)>),
}

/// The mathematical value of [`Json`]. An object is the sequence of its
/// members, each a key and a value, in the order in which they are held.
pub ghost enum JsonView {
    Null,
    Bool(bool),
    Number(NumberView),
    String(Seq<char>),
    Array(Seq<JsonView>),
    Object(Seq<(Seq<char>, JsonView)>),
}

/// The views of the items of an array, in order.
pub open spec fn items_view(items: Seq<Json>) -> Seq<JsonView>
    decreases items,
{
    if items.len() == 0 {
        Seq::empty()
    } else {
        items_view(items.drop_last()).push(items.last().view())
    }
}

/// The views of the members of an object, in order.
pub open spec fn entries_view(entries: Seq<(String, Json)>) -> Seq<(Seq<char>, JsonView)>
    decreases entries,
{
    if entries.len() == 0 {
        Seq::empty()
    } else {
        entries_view(entries.drop_last()).push((entries.last().0@, entries.last().1.view()))
    }
}

impl View for Json {
    type V = JsonView;

    open spec fn view(&self) -> JsonView
        decreases self,
    {
        match self {
            Json::Null => JsonView::Null,
            Json::Bool(b) => JsonView::Bool(*b),
            Json::Number(n) => JsonView::Number(n@),
            Json::String(s) => JsonView::String(s@),
            Json::Array(items) => JsonView::Array(items_view(items@)),
            Json::Object(entries) => JsonView::Object(entries_view(entries@)),
        }
    }
}

/// The view of an optional value.
pub open spec fn opt_json_view(o: Option<Json>) -> Option<JsonView> {
    match o {
        Some(j) => Some(j@),
        None => None,
    }
}

/// The value of the last member of `members` whose key is `key`.
pub open spec fn lookup(members: Seq<(Seq<char>, JsonView)>, key: Seq<char>) -> Option<JsonView>
    decreases members.len(),
{
    if members.len() == 0 {
        None
    } else if members.last().0 == key {
        Some(members.last().1)
    } else {
        lookup(members.drop_last(), key)
    }
}

/// `members` with `value` under `key`: in the place of the last member that
/// has the key, or at the end where none has it.
pub open spec fn put(members: Seq<(Seq<char>, JsonView)>, key: Seq<char>, value: JsonView) -> Seq<
    (Seq<char>, JsonView),
>
    decreases members.len(),
{
    if lookup(members, key) is None {
        members.push((key, value))
    } else if members.last().0 == key {
        members.drop_last().push((key, value))
    } else {
        put(members.drop_last(), key, value).push(members.last())
    }
}

/// Whether no two members of `members` have the same key.
pub open spec fn distinct_keys(members: Seq<(Seq<char>, JsonView)>) -> bool {
    forall|i: int, j: int|
        0 <= i < j < members.len() ==> (#[trigger] members[i]).0 != (#[trigger] members[j]).0
}

impl JsonView {
    /// The member stored under `key`, if this is an object that has one.
    pub open spec fn field(self, key: Seq<char>) -> Option<JsonView> {
        match self {
            JsonView::Object(members) => lookup(members, key),
            _ => None,
        }
    }

    /// The integer that this value denotes, if it is an integer number.
    pub open spec fn as_int(self) -> Option<int> {
        match self {
            JsonView::Number(NumberView::Int(i)) => Some(i),
            _ => None,
        }
    }

    /// The number `i`.
    pub open spec fn integer(i: int) -> JsonView {
        JsonView::Number(NumberView::Int(i))
    }

    /// A string where there is one, null otherwise.
    pub open spec fn opt_string(o: Option<Seq<char>>) -> JsonView {
        match o {
            Some(s) => JsonView::String(s),
            None => JsonView::Null,
        }
    }

    /// An integer where there is one, null otherwise.
    pub open spec fn opt_int(o: Option<int>) -> JsonView {
        match o {
            Some(i) => JsonView::integer(i),
            None => JsonView::Null,
        }
    }

    /// The value itself where there is one, null otherwise.
    pub open spec fn or_null(o: Option<JsonView>) -> JsonView {
        match o {
            Some(v) => v,
            None => JsonView::Null,
        }
    }
}

/// `items_view` keeps the length and maps each item to its view.
pub proof fn lemma_items_view(items: Seq<Json>)
    ensures
        items_view(items).len() == items.len(),
        forall|i: int| 0 <= i < items.len() ==> #[trigger] items_view(items)[i] == items[i]@,
    decreases items.len(),
{
    if items.len() > 0 {
        lemma_items_view(items.drop_last());
        assert(items_view(items) == items_view(items.drop_last()).push(items.last()@));
    } else {
        assert(items_view(items) == Seq::<JsonView>::empty());
    }
}

/// Adding an item at the end adds its view at the end.
pub proof fn lemma_items_view_push(items: Seq<Json>, item: Json)
    ensures
        items_view(items.push(item)) == items_view(items).push(item@),
{
    assert(items.push(item).drop_last() =~= items);
}

/// `entries_view` keeps the length and maps each member to its view.
pub proof fn lemma_entries_view(entries: Seq<(String, Json)>)
    ensures
        entries_view(entries).len() == entries.len(),
        forall|i: int|
            0 <= i < entries.len() ==> #[trigger] entries_view(entries)[i] == (
                entries[i].0@,
                entries[i].1@,
            ),
    decreases entries.len(),
{
    if entries.len() > 0 {
        lemma_entries_view(entries.drop_last());
        assert(entries_view(entries) == entries_view(entries.drop_last()).push(
            (entries.last().0@, entries.last().1@),
        ));
    } else {
        assert(entries_view(entries) == Seq::<(Seq<char>, JsonView)>::empty());
    }
}

/// Adding a member at the end adds its view at the end.
pub proof fn lemma_entries_view_push(entries: Seq<(String, Json)>, key: String, value: Json)
    ensures
        entries_view(entries.push((key, value))) == entries_view(entries).push((key@, value@)),
{
    assert(entries.push((key, value)).drop_last() =~= entries);
}

/// Looking a key up after a member was added at the end: the new member
/// answers for its own key, the earlier members for every other.
pub broadcast proof fn lemma_lookup_push(
    members: Seq<(Seq<char>, JsonView)>,
    key: Seq<char>,
    value: JsonView,
    wanted: Seq<char>,
)
    ensures
        #[trigger] lookup(members.push((key, value)), wanted) == if key == wanted {
            Some(value)
        } else {
            lookup(members, wanted)
        },
{
    assert(members.push((key, value)).drop_last() =~= members);
}

/// Members that do not have the key can be left off the end.
pub proof fn lemma_lookup_prefix(members: Seq<(Seq<char>, JsonView)>, key: Seq<char>, n: int)
    requires
        0 <= n <= members.len(),
        forall|j: int| n <= j < members.len() ==> (#[trigger] members[j]).0 != key,
    ensures
        lookup(members, key) == lookup(members.take(n), key),
    decreases members.len() - n,
{
    if n == members.len() {
        assert(members.take(n) =~= members);
    } else {
        let rest = members.drop_last();
        assert(members[members.len() - 1].0 != key);
        assert forall|j: int| n <= j < rest.len() implies (#[trigger] rest[j]).0 != key by {
            assert(rest[j] == members[j]);
        }
        lemma_lookup_prefix(rest, key, n);
        assert(rest.take(n) =~= members.take(n));
    }
}

/// A key that no member has is not found.
pub proof fn lemma_lookup_none(members: Seq<(Seq<char>, JsonView)>, key: Seq<char>)
    ensures
        lookup(members, key) is None <==> forall|j: int|
            0 <= j < members.len() ==> (#[trigger] members[j]).0 != key,
    decreases members.len(),
{
    if members.len() > 0 {
        let rest = members.drop_last();
        lemma_lookup_none(rest, key);
        if members.last().0 != key {
            if lookup(rest, key) is None {
                assert forall|j: int| 0 <= j < members.len() implies (#[trigger] members[j]).0
                    != key by {
                    if j < rest.len() {
                        assert(rest[j] == members[j]);
                    }
                }
            } else {
                let j = choose|j: int| 0 <= j < rest.len() && (#[trigger] rest[j]).0 == key;
                assert(members[j] == rest[j]);
            }
        } else {
            assert(members[members.len() - 1].0 == key);
        }
    }
}

impl JsonNumber {
    /// The number as an `i64`, if it is an integer that fits.
    pub fn as_i64(&self) -> (r: Option<i64>)
        ensures
            r == match self@ {
                NumberView::Int(i) => if i64::MIN <= i <= i64::MAX {
                    Some(i as i64)
                } else {
                    None
                },
                NumberView::Float(_) => None,
            },
    {
        match self {
            JsonNumber::PosInt(u) => {
                if *u <= 9_223_372_036_854_775_807u64 {
                    Some(*u as i64)
                } else {
                    None
                }
            },
            JsonNumber::NegInt(i) => Some(*i),
            JsonNumber::Float(_) => None,
        }
    }

    /// The number `v`.
    pub fn from_i64(v: i64) -> (r: JsonNumber)
        ensures
            r@ == NumberView::Int(v as int),
    {
        if v >= 0 {
            JsonNumber::PosInt(v as u64)
        } else {
            JsonNumber::NegInt(v)
        }
    }
}

impl Clone for Json {
    /// A deep copy: the result has the same view.
    fn clone(&self) -> (r: Json)
        ensures
            r@ == self@,
        decreases self,
    {
        match self {
            Json::Null => Json::Null,
            Json::Bool(b) => Json::Bool(*b),
            Json::Number(n) => Json::Number(*n),
            Json::String(s) => Json::String(s.clone()),
            Json::Array(items) => {
                let mut out: Vec<Json> = Vec::new();
                let mut i: usize = 0;
                while i < items.len()
                    invariant
                        i <= items.len(),
                        items_view(out@) == items_view(items@.take(i as int)),
                        forall|k: int| 0 <= k < items.len() ==> decreases_to!(self => items[k]),
                    decreases items.len() - i,
                {
                    let item = items[i].clone();
                    proof {
                        lemma_items_view_push(out@, item);
                        lemma_items_view_push(items@.take(i as int), items@[i as int]);
                        assert(items@.take(i as int).push(items@[i as int]) =~= items@.take(
                            i as int + 1,
                        ));
                    }
                    out.push(item);
                    i = i + 1;
                }
                proof {
                    assert(items@.take(i as int) =~= items@);
                }
                Json::Array(out)
            },
            Json::Object(entries) => {
                let mut out: Vec<(String, Json)> = Vec::new();
                let mut i: usize = 0;
                while i < entries.len()
                    invariant
                        i <= entries.len(),
                        entries_view(out@) == entries_view(entries@.take(i as int)),
                        forall|k: int|
                            0 <= k < entries.len() ==> decreases_to!(self => entries[k].1),
                    decreases entries.len() - i,
                {
                    let key = entries[i].0.clone();
                    let value = entries[i].1.clone();
                    proof {
                        lemma_entries_view_push(out@, key, value);
                        lemma_entries_view_push(
                            entries@.take(i as int),
                            entries@[i as int].0,
                            entries@[i as int].1,
                        );
                        assert(entries@.take(i as int).push(entries@[i as int]) =~= entries@.take(
                            i as int + 1,
                        ));
                        assert(entries@[i as int] == (entries@[i as int].0, entries@[i as int].1));
                    }
                    out.push((key, value));
                    i = i + 1;
                }
                proof {
                    assert(entries@.take(i as int) =~= entries@);
                }
                Json::Object(out)
            },
        }
    }
}

/// Putting a value under a key that a member has replaces the value of the
/// last such member.
pub proof fn lemma_put_found(
    members: Seq<(Seq<char>, JsonView)>,
    key: Seq<char>,
    value: JsonView,
    i: int,
)
    requires
        0 <= i < members.len(),
        members[i].0 == key,
        forall|j: int| i < j < members.len() ==> (#[trigger] members[j]).0 != key,
    ensures
        put(members, key, value) == members.update(i, (key, value)),
    decreases members.len(),
{
    lemma_lookup_none(members, key);
    if i == members.len() - 1 {
        assert(members.drop_last().push((key, value)) =~= members.update(i, (key, value)));
    } else {
        let rest = members.drop_last();
        assert(members[members.len() - 1].0 != key);
        assert(rest[i] == members[i]);
        assert forall|j: int| i < j < rest.len() implies (#[trigger] rest[j]).0 != key by {
            assert(rest[j] == members[j]);
        }
        lemma_put_found(rest, key, value, i);
        assert(rest.update(i, (key, value)).push(members.last()) =~= members.update(
            i,
            (key, value),
        ));
    }
}

/// Puts `value` under `key`: in the place of the last member that has the key,
/// or at the end where none has it.
pub fn put_member(members: &mut Vec<(String, Json)>, key: String, value: Json)
    ensures
        entries_view(final(members)@) == put(entries_view(old(members)@), key@, value@),
{
    let mut i: usize = members.len();
    let ghost before = members@;
    proof {
        lemma_entries_view(before);
    }
    while i > 0
        invariant
            i <= members.len(),
            members@ == before,
            before == old(members)@,
            entries_view(before).len() == before.len(),
            forall|j: int|
                0 <= j < before.len() ==> #[trigger] entries_view(before)[j] == (
                    before[j].0@,
                    before[j].1@,
                ),
            forall|j: int| i <= j < before.len() ==> (#[trigger] entries_view(before)[j]).0 != key@,
        decreases i,
    {
        i = i - 1;
        if members[i].0 == key {
            proof {
                lemma_put_found(entries_view(before), key@, value@, i as int);
                lemma_entries_view(before.update(i as int, (key, value)));
                assert(entries_view(before.update(i as int, (key, value))) =~= entries_view(
                    before,
                ).update(i as int, (key@, value@)));
            }
            members.set(i, (key, value));
            return ;
        }
    }
    proof {
        lemma_lookup_none(entries_view(before), key@);
        lemma_entries_view_push(before, key, value);
    }
    members.push((key, value));
}

/// An object without members.
pub open spec fn no_members() -> Seq<(Seq<char>, JsonView)> {
    Seq::empty()
}

/// The members of an object that has none yet.
pub fn new_members() -> (members: Vec<(String, Json)>)
    ensures
        entries_view(members@) == no_members(),
{
    let members: Vec<(String, Json)> = Vec::new();
    assert(entries_view(members@) == Seq::<(Seq<char>, JsonView)>::empty());
    members
}

/// The items of an array that has none yet.
pub fn new_items() -> (items: Vec<Json>)
    ensures
        items_view(items@) == Seq::<JsonView>::empty(),
{
    let items: Vec<Json> = Vec::new();
    assert(items_view(items@) == Seq::<JsonView>::empty());
    items
}

/// Adds the member `key: value` at the end of `members`.
pub fn push_member(members: &mut Vec<(String, Json)>, key: &str, value: Json)
    ensures
        entries_view(final(members)@) == entries_view(old(members)@).push((key@, value@)),
{
    let owned: String = key.to_owned();
    proof {
        lemma_entries_view_push(members@, owned, value);
    }
    members.push((owned, value));
}

/// Adds `item` at the end of `items`.
pub fn push_item(items: &mut Vec<Json>, item: Json)
    ensures
        items_view(final(items)@) == items_view(old(items)@).push(item@),
{
    proof {
        lemma_items_view_push(items@, item);
    }
    items.push(item);
}

/// The value of the last member of `entries` whose key is `key`.
pub fn find_member<'a>(entries: &'a Vec<(String, Json)>, key: &str) -> (r: Option<&'a Json>)
    ensures
        match r {
            Some(v) => lookup(entries_view(entries@), key@) == Some(v@),
            None => lookup(entries_view(entries@), key@) is None,
        },
{
    let wanted: String = key.to_owned();
    let mut i: usize = entries.len();
    proof {
        lemma_entries_view(entries@);
    }
    while i > 0
        invariant
            i <= entries.len(),
            wanted@ == key@,
            entries_view(entries@).len() == entries.len(),
            forall|j: int|
                0 <= j < entries.len() ==> #[trigger] entries_view(entries@)[j] == (
                    entries[j].0@,
                    entries[j].1@,
                ),
            forall|j: int| i <= j < entries.len() ==> (#[trigger] entries_view(entries@)[j]).0 != key@,
        decreases i,
    {
        i = i - 1;
        if entries[i].0 == wanted {
            proof {
                let members = entries_view(entries@);
                lemma_lookup_prefix(members, key@, i as int + 1);
                assert(members.take(i as int + 1).last() == members[i as int]);
            }
            return Some(&entries[i].1);
        }
    }
    proof {
        lemma_lookup_none(entries_view(entries@), key@);
    }
    None
}

impl Json {
    /// The member stored under `key`, if this is an object that has one: the
    /// last one, where several have the key.
    pub fn get(&self, key: &str) -> (r: Option<&Json>)
        ensures
            match r {
                Some(v) => self@.field(key@) == Some(v@),
                None => self@.field(key@) is None,
            },
    {
        match self {
            Json::Object(entries) => find_member(entries, key),
            _ => None,
        }
    }

    /// The value as an `i64`, if it is an integer number that fits.
    pub fn as_i64(&self) -> (r: Option<i64>)
        ensures
            r == match self@.as_int() {
                Some(i) => if i64::MIN <= i <= i64::MAX {
                    Some(i as i64)
                } else {
                    None
                },
                None => None,
            },
    {
        match self {
            Json::Number(n) => n.as_i64(),
            _ => None,
        }
    }

    /// The number `v`.
    pub fn from_i32(v: i32) -> (r: Json)
        ensures
            r@ == JsonView::integer(v as int),
    {
        Json::Number(JsonNumber::from_i64(v as i64))
    }

    /// The string `s`.
    pub fn from_str(s: &str) -> (r: Json)
        ensures
            r@ == JsonView::String(s@),
    {
        Json::String(s.to_owned())
    }

    /// A copy of the string where there is one, null otherwise.
    pub fn from_opt_string(o: &Option<String>) -> (r: Json)
        ensures
            r@ == JsonView::opt_string(
                match o {
                    Some(s) => Some(s@),
                    None => None,
                },
            ),
    {
        match o {
            Some(s) => Json::String(s.clone()),
            None => Json::Null,
        }
    }

    /// The number where there is one, null otherwise.
    pub fn from_opt_i32(o: Option<i32>) -> (r: Json)
        ensures
            r@ == JsonView::opt_int(
                match o {
                    Some(i) => Some(i as int),
                    None => None,
                },
            ),
    {
        match o {
            Some(i) => Json::from_i32(i),
            None => Json::Null,
        }
    }

    /// A copy of the value where there is one, null otherwise.
    pub fn from_opt(o: &Option<Json>) -> (r: Json)
        ensures
            r@ == JsonView::or_null(opt_json_view(*o)),
    {
        match o {
            Some(j) => j.clone(),
            None => Json::Null,
        }
    }
}

} // verus!
