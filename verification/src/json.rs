//! A JSON document as a tagged tree, with its mathematical model.

use vstd::prelude::*;

verus! {

/// A JSON number. Integers are held exactly; every other number is held as
/// the decimal literal that denotes it, so that it passes through unchanged.
#[derive(Debug, PartialEq, Eq)]
pub enum JsonNumber {
    Integer(i128),
    Real(String),
}

/// A JSON value. An object is the list of its members, in the order in which
/// it holds them.
#[derive(Debug, PartialEq, Eq)]
pub enum Json {
    Null,
    Bool(bool),
    Number(JsonNumber),
    String(String),
    Array(Vec<Json>),
    Object(Vec<(String, Json)>),
}

/// What a [`JsonNumber`] denotes.
pub enum NumberModel {
    Integer(int),
    Real(Seq<char>),
}

/// What a [`Json`] denotes.
pub enum JsonModel {
    Null,
    Bool(bool),
    Number(NumberModel),
    String(Seq<char>),
    Array(Seq<JsonModel>),
    Object(Seq<(Seq<char>, JsonModel)>),
}

impl View for JsonNumber {
    type V = NumberModel;

    open spec fn view(&self) -> NumberModel {
        match self {
            JsonNumber::Integer(v) => NumberModel::Integer(*v as int),
            JsonNumber::Real(text) => NumberModel::Real(text@),
        }
    }
}

impl View for Json {
    type V = JsonModel;

    open spec fn view(&self) -> JsonModel {
        json_model(*self)
    }
}

/// What `value` denotes: the same tree, with each string and each vector
/// replaced by the sequence it holds.
pub open spec fn json_model(value: Json) -> JsonModel
    decreases value,
{
    match value {
        Json::Null => JsonModel::Null,
        Json::Bool(b) => JsonModel::Bool(b),
        Json::Number(n) => JsonModel::Number(n@),
        Json::String(s) => JsonModel::String(s@),
        Json::Array(items) => JsonModel::Array(
            Seq::new(
                items@.len(),
                |i: int|
                    if 0 <= i < items@.len() {
                        json_model(items@[i])
                    } else {
                        JsonModel::Null
                    },
            ),
        ),
        Json::Object(members) => JsonModel::Object(
            Seq::new(
                members@.len(),
                |i: int|
                    if 0 <= i < members@.len() {
                        (members@[i].0@, json_model(members@[i].1))
                    } else {
                        (Seq::empty(), JsonModel::Null)
                    },
            ),
        ),
    }
}

/// No two members of `members` share a name.
pub open spec fn distinct_names(members: Seq<(Seq<char>, JsonModel)>) -> bool {
    forall|i: int, j: int| 0 <= i < j < members.len() ==> members[i].0 != members[j].0
}

impl JsonModel {
    /// Every object in the value, at any depth, names each member once.
    pub open spec fn well_formed(self) -> bool
        decreases self,
    {
        match self {
            JsonModel::Array(items) => forall|i: int|
                0 <= i < items.len() ==> (#[trigger] items[i]).well_formed(),
            JsonModel::Object(members) => distinct_names(members) && forall|i: int|
                0 <= i < members.len() ==> (#[trigger] members[i]).1.well_formed(),
            _ => true,
        }
    }
}

/// The members of `members` as the model sees them.
pub open spec fn members_model(members: Seq<(String, Json)>) -> Seq<(Seq<char>, JsonModel)> {
    Seq::new(members.len(), |i: int| (members[i].0@, members[i].1@))
}

/// The items of `items` as the model sees them.
pub open spec fn items_model(items: Seq<Json>) -> Seq<JsonModel> {
    Seq::new(items.len(), |i: int| items[i]@)
}

/// The position of the first member of `members` named `key`, if there is one.
pub open spec fn member_index(members: Seq<(Seq<char>, JsonModel)>, key: Seq<char>) -> Option<int>
    decreases members.len(),
{
    if members.len() == 0 {
        None
    } else if members[0].0 == key {
        Some(0)
    } else {
        match member_index(members.drop_first(), key) {
            Some(i) => Some(i + 1),
            None => None,
        }
    }
}

/// An array denotes the sequence of what its items denote.
pub proof fn lemma_array_view(items: Vec<Json>)
    ensures
        Json::Array(items)@ == JsonModel::Array(items_model(items@)),
{
    assert(Json::Array(items)@->Array_0 =~= items_model(items@));
}

/// An object denotes the sequence of its members, each by its name and by
/// what its value denotes.
pub proof fn lemma_object_view(members: Vec<(String, Json)>)
    ensures
        Json::Object(members)@ == JsonModel::Object(members_model(members@)),
{
    assert(Json::Object(members)@->Object_0 =~= members_model(members@));
}

impl Clone for JsonNumber {
    /// A copy that denotes the same number.
    fn clone(&self) -> (r: JsonNumber)
        ensures
            r@ == self@,
    {
        match self {
            JsonNumber::Integer(v) => JsonNumber::Integer(*v),
            JsonNumber::Real(text) => JsonNumber::Real(text.clone()),
        }
    }
}

impl Clone for Json {
    /// A deep copy that denotes the same value.
    #[verifier::loop_isolation(false)]
    fn clone(&self) -> (r: Json)
        ensures
            r@ == self@,
        decreases self,
    {
        match self {
            Json::Null => Json::Null,
            Json::Bool(b) => Json::Bool(*b),
            Json::Number(n) => Json::Number(n.clone()),
            Json::String(s) => Json::String(s.clone()),
            Json::Array(items) => {
                let mut copy: Vec<Json> = Vec::new();
                let mut i: usize = 0;
                while i < items.len()
                    invariant
                        i <= items.len(),
                        copy.len() == i,
                        forall|j: int| 0 <= j < i ==> copy@[j]@ == items@[j]@,
                    decreases items.len() - i,
                {
                    copy.push(items[i].clone());
                    i += 1;
                }
                let r = Json::Array(copy);
                assert(r@->Array_0 =~= self@->Array_0);
                r
            },
            Json::Object(members) => {
                let mut copy: Vec<(String, Json)> = Vec::new();
                let mut i: usize = 0;
                while i < members.len()
                    invariant
                        i <= members.len(),
                        copy.len() == i,
                        forall|j: int|
                            0 <= j < i ==> copy@[j].0@ == members@[j].0@ && copy@[j].1@
                                == members@[j].1@,
                    decreases members.len() - i,
                {
                    copy.push((members[i].0.clone(), members[i].1.clone()));
                    i += 1;
                }
                let r = Json::Object(copy);
                assert(r@->Object_0 =~= self@->Object_0);
                r
            },
        }
    }
}

/// Deep copies of `items`, in order.
pub fn clone_items(items: &Vec<Json>) -> (r: Vec<Json>)
    ensures
        items_model(r@) == items_model(items@),
{
    let mut copy: Vec<Json> = Vec::new();
    let mut i: usize = 0;
    while i < items.len()
        invariant
            i <= items.len(),
            copy.len() == i,
            forall|j: int| 0 <= j < i ==> copy@[j]@ == items@[j]@,
        decreases items.len() - i,
    {
        copy.push(items[i].clone());
        i += 1;
    }
    assert(items_model(copy@) =~= items_model(items@));
    copy
}

/// Deep copies of `members`, in order.
pub fn clone_members(members: &Vec<(String, Json)>) -> (r: Vec<(String, Json)>)
    ensures
        members_model(r@) == members_model(members@),
{
    let mut copy: Vec<(String, Json)> = Vec::new();
    let mut i: usize = 0;
    while i < members.len()
        invariant
            i <= members.len(),
            copy.len() == i,
            forall|j: int|
                0 <= j < i ==> copy@[j].0@ == members@[j].0@ && copy@[j].1@ == members@[j].1@,
        decreases members.len() - i,
    {
        copy.push((members[i].0.clone(), members[i].1.clone()));
        i += 1;
    }
    assert(members_model(copy@) =~= members_model(members@));
    copy
}

/// Finds the first member of `members` named `key`.
pub fn find_member(members: &Vec<(String, Json)>, key: &String) -> (r: Option<usize>)
    ensures
        match r {
            Some(i) => i < members.len() && members@[i as int].0@ == key@ && member_index(
                members_model(members@),
                key@,
            ) == Some(i as int),
            None => member_index(members_model(members@), key@) is None,
        },
{
    let mut i: usize = 0;
    while i < members.len()
        invariant
            i <= members.len(),
            forall|j: int| 0 <= j < i ==> members@[j].0@ != key@,
        decreases members.len() - i,
    {
        if members[i].0 == *key {
            proof {
                lemma_member_index_first(members_model(members@), key@, i as int);
            }
            return Some(i);
        }
        i += 1;
    }
    proof {
        lemma_member_index_none(members_model(members@), key@);
    }
    None
}

/// `member_index` gives `i` where `i` is the first position that holds `key`.
pub proof fn lemma_member_index_first(members: Seq<(Seq<char>, JsonModel)>, key: Seq<char>, i: int)
    requires
        0 <= i < members.len(),
        members[i].0 == key,
        forall|j: int| 0 <= j < i ==> members[j].0 != key,
    ensures
        member_index(members, key) == Some(i),
    decreases members.len(),
{
    if i > 0 {
        let rest = members.drop_first();
        assert forall|j: int| 0 <= j < i - 1 implies rest[j].0 != key by {
            assert(rest[j] == members[j + 1]);
        }
        lemma_member_index_first(rest, key, i - 1);
    }
}

/// `member_index` gives nothing where no position holds `key`.
pub proof fn lemma_member_index_none(members: Seq<(Seq<char>, JsonModel)>, key: Seq<char>)
    requires
        forall|j: int| 0 <= j < members.len() ==> members[j].0 != key,
    ensures
        member_index(members, key) is None,
    decreases members.len(),
{
    if members.len() > 0 {
        let rest = members.drop_first();
        assert forall|j: int| 0 <= j < rest.len() implies rest[j].0 != key by {
            assert(rest[j] == members[j + 1]);
        }
        lemma_member_index_none(rest, key);
    }
}

/// What `member_index` gives is the first position that holds `key`, and it
/// gives nothing only where no position holds it.
pub proof fn lemma_member_index_found(members: Seq<(Seq<char>, JsonModel)>, key: Seq<char>)
    ensures
        match member_index(members, key) {
            Some(i) => 0 <= i < members.len() && members[i].0 == key && forall|j: int|
                0 <= j < i ==> members[j].0 != key,
            None => forall|j: int| 0 <= j < members.len() ==> members[j].0 != key,
        },
    decreases members.len(),
{
    if members.len() > 0 && members[0].0 != key {
        let rest = members.drop_first();
        lemma_member_index_found(rest, key);
        match member_index(rest, key) {
            Some(i) => {
                assert(members[i + 1] == rest[i]);
                assert forall|j: int| 0 <= j < i + 1 implies members[j].0 != key by {
                    if j > 0 {
                        assert(members[j] == rest[j - 1]);
                    }
                }
            },
            None => {
                assert forall|j: int| 0 <= j < members.len() implies members[j].0 != key by {
                    if j > 0 {
                        assert(members[j] == rest[j - 1]);
                    }
                }
            },
        }
    }
}

/// The members `members` with `key` set to `value`: the first member of that
/// name holds `value` in its place, or, where there is none, a new member
/// comes last.
pub open spec fn with_member(
    members: Seq<(Seq<char>, JsonModel)>,
    key: Seq<char>,
    value: JsonModel,
) -> Seq<(Seq<char>, JsonModel)> {
    match member_index(members, key) {
        Some(i) => members.update(i, (key, value)),
        None => members.push((key, value)),
    }
}

/// The value of the first member named `key`, if there is one.
pub open spec fn member_value(members: Seq<(Seq<char>, JsonModel)>, key: Seq<char>) -> Option<
    JsonModel,
> {
    match member_index(members, key) {
        Some(i) => Some(members[i].1),
        None => None,
    }
}

/// After `key` is set to `value`, a lookup of `key` gives `value`.
pub proof fn lemma_with_member_reads_back(
    members: Seq<(Seq<char>, JsonModel)>,
    key: Seq<char>,
    value: JsonModel,
)
    ensures
        member_value(with_member(members, key, value), key) == Some(value),
{
    lemma_member_index_found(members, key);
    let after = with_member(members, key, value);
    match member_index(members, key) {
        Some(i) => {
            assert forall|j: int| 0 <= j < i implies after[j].0 != key by {
                assert(after[j] == members[j]);
            }
            lemma_member_index_first(after, key, i);
        },
        None => {
            let i = members.len() as int;
            assert forall|j: int| 0 <= j < i implies after[j].0 != key by {
                assert(after[j] == members[j]);
            }
            lemma_member_index_first(after, key, i);
        },
    }
}

/// Setting `key` leaves the lookup of every other name as it was.
pub proof fn lemma_with_member_keeps_others(
    members: Seq<(Seq<char>, JsonModel)>,
    key: Seq<char>,
    value: JsonModel,
    other: Seq<char>,
)
    requires
        other != key,
    ensures
        member_value(with_member(members, key, value), other) == member_value(members, other),
{
    lemma_member_index_found(members, key);
    lemma_member_index_found(members, other);
    let after = with_member(members, key, value);
    assert(forall|j: int| 0 <= j < members.len() ==> after[j].0 == members[j].0);
    match member_index(members, other) {
        Some(i) => {
            assert(after[i] == members[i]);
            lemma_member_index_first(after, other, i);
        },
        None => {
            lemma_member_index_none(after, other);
        },
    }
}

/// Setting a member keeps the names distinct.
pub proof fn lemma_with_member_keeps_distinct(
    members: Seq<(Seq<char>, JsonModel)>,
    key: Seq<char>,
    value: JsonModel,
)
    requires
        distinct_names(members),
    ensures
        distinct_names(with_member(members, key, value)),
{
    lemma_member_index_found(members, key);
    let after = with_member(members, key, value);
    assert forall|i: int, j: int| 0 <= i < j < after.len() implies after[i].0 != after[j].0 by {
        if j < members.len() {
            assert(after[i].0 == members[i].0);
            assert(after[j].0 == members[j].0);
        } else {
            assert(after[i].0 == members[i].0);
        }
    }
}

/// Setting a member of a well-formed object to a well-formed value leaves
/// the object well formed.
pub proof fn lemma_with_member_well_formed(
    members: Seq<(Seq<char>, JsonModel)>,
    key: Seq<char>,
    value: JsonModel,
)
    requires
        JsonModel::Object(members).well_formed(),
        value.well_formed(),
    ensures
        JsonModel::Object(with_member(members, key, value)).well_formed(),
{
    lemma_member_index_found(members, key);
    lemma_with_member_keeps_distinct(members, key, value);
    let after = with_member(members, key, value);
    assert forall|i: int| 0 <= i < after.len() implies (#[trigger] after[i]).1.well_formed() by {
        if i < members.len() && member_index(members, key) != Some(i) {
            assert(after[i] == members[i]);
        }
    }
}

/// Sets the member named `key` to `value`: in place where `members` has one
/// of that name, at the end where it has none.
pub fn set_member(members: &mut Vec<(String, Json)>, key: String, value: Json)
    ensures
        members_model(final(members)@) == with_member(
            members_model(old(members)@),
            key@,
            value@,
        ),
        JsonModel::Object(members_model(old(members)@)).well_formed() && value@.well_formed()
            ==> JsonModel::Object(members_model(final(members)@)).well_formed(),
{
    let ghost before = members_model(members@);
    proof {
        if JsonModel::Object(before).well_formed() && value@.well_formed() {
            lemma_with_member_well_formed(before, key@, value@);
        }
    }
    match find_member(members, &key) {
        Some(i) => {
            members.set(i, (key, value));
        },
        None => {
            members.push((key, value));
        },
    }
    assert(members_model(members@) =~= with_member(before, key@, value@));
}

} // verus!
