//! The value transformer: from one record to the set of values that is sent
//! for it.

use vstd::prelude::*;
use vstd::string::StringExecFns;
use crate::json::distinct_names;
use crate::json::clone_members;
use crate::json::find_member;
use crate::json::lemma_member_index_found;
use crate::json::lemma_object_view;
use crate::json::lemma_with_member_keeps_distinct;
use crate::json::lemma_with_member_keeps_others;
use crate::json::lemma_with_member_reads_back;
use crate::json::member_index;
use crate::json::member_value;
use crate::json::members_model;
use crate::json::set_member;
use crate::json::with_member;
use crate::json::Json;
use crate::json::JsonModel;
use crate::json::JsonNumber;
use crate::json::NumberModel;
use crate::synth::generate_random_value;
use crate::synth::integer_upper_bound;
use crate::synth::may_fail;
use crate::synth::may_replace;
use crate::synth::SynthesisError;

verus! {

/// Why a record gives no values.
#[derive(Clone, Copy, Debug, PartialEq, Eq, Structural)]
pub enum TransformError {
    /// The record is not a JSON object.
    NotAnObject,
    /// The record has no member, so there would be nothing to send.
    Empty,
    /// A number that is to be randomized got no replacement.
    Synthesis,
}

/// The randomization key as the model sees it.
pub open spec fn key_model(random_key: Option<String>) -> Option<Seq<char>> {
    match random_key {
        Some(key) => Some(key@),
        None => None,
    }
}

/// The position, among the members of `value`, of the number that is to be
/// randomized: `value` is an object, a key is configured, and the first
/// member of that name holds a number. Nothing otherwise.
pub open spec fn random_target(value: JsonModel, random_key: Option<Seq<char>>) -> Option<int> {
    match (value, random_key) {
        (JsonModel::Object(members), Some(key)) => match member_index(members, key) {
            Some(i) => if members[i].1 is Number {
                Some(i)
            } else {
                None
            },
            None => None,
        },
        _ => None,
    }
}

/// Whether `out` is what the value `value` of a record may become. Where
/// `value` has no number to randomize, `out` denotes the same as `value`.
/// Where it has one, `out` is the same object but for that member, which
/// keeps its name and holds a number that may replace the original.
pub open spec fn transformed<F: Fn(&JsonNumber) -> Option<JsonNumber>>(
    value: Json,
    random_key: Option<Seq<char>>,
    out: Json,
    redraw: F,
) -> bool {
    match random_target(value@, random_key) {
        None => out@ == value@,
        Some(t) => {
            &&& value matches Json::Object(members)
            &&& out matches Json::Object(changed)
            &&& 0 <= t < members@.len()
            &&& members@[t].1 matches Json::Number(original)
            &&& changed@.len() == members@.len()
            &&& changed@[t].1 matches Json::Number(new)
            &&& may_replace(original, new, redraw)
            &&& members_model(changed@) == members_model(members@).update(
                t,
                (members@[t].0@, JsonModel::Number(new@)),
            )
        },
    }
}

/// Whether the value `value` of a record may be left without a replacement:
/// it has a number to randomize, and the replacement of that number may
/// fail.
pub open spec fn blocked<F: Fn(&JsonNumber) -> Option<JsonNumber>>(
    value: Json,
    random_key: Option<Seq<char>>,
    redraw: F,
) -> bool {
    &&& random_target(value@, random_key) matches Some(t)
    &&& value matches Json::Object(members)
    &&& 0 <= t < members@.len()
    &&& members@[t].1 matches Json::Number(original)
    &&& may_fail(original, redraw)
}

/// Finds, among the members of `value`, the number that is to be randomized.
pub fn find_random_target(value: &Json, random_key: &Option<String>) -> (r: Option<usize>)
    ensures
        match r {
            Some(t) => {
                &&& random_target(value@, key_model(*random_key)) == Some(t as int)
                &&& value matches Json::Object(members)
                &&& t < members@.len()
                &&& members@[t as int].1 is Number
            },
            None => random_target(value@, key_model(*random_key)) is None,
        },
{
    match (value, random_key) {
        (Json::Object(members), Some(key)) => {
            proof {
                lemma_object_view(*members);
            }
            match find_member(members, key) {
                Some(i) => match &members[i].1 {
                    Json::Number(_) => Some(i),
                    _ => None,
                },
                None => None,
            }
        },
        _ => None,
    }
}

/// The value `value` with `new` in the place of the number that is to be
/// randomized, and `value` itself where it holds none.
pub open spec fn replaced_model(
    value: JsonModel,
    random_key: Option<Seq<char>>,
    new: JsonModel,
) -> JsonModel {
    match random_target(value, random_key) {
        Some(t) => JsonModel::Object(
            value->Object_0.update(t, (value->Object_0[t].0, new)),
        ),
        None => value,
    }
}

/// Puts `new` in the place of the number that is to be randomized in
/// `value`. The result is a copy; where `value` holds no such number, it is
/// a copy of `value`.
pub fn with_replacement(value: &Json, random_key: &Option<String>, new: Json) -> (r: Json)
    ensures
        r@ == replaced_model(value@, key_model(*random_key), new@),
        random_target(value@, key_model(*random_key)) matches Some(t) ==> {
            &&& value matches Json::Object(members)
            &&& r matches Json::Object(changed)
            &&& changed@.len() == members@.len()
            &&& 0 <= t < changed@.len()
            &&& changed@[t].1 == new
        },
{
    match find_random_target(value, random_key) {
        Some(t) => match value {
            Json::Object(members) => {
                let mut changed = clone_members(members);
                assert(changed@.len() == members_model(changed@).len());
                let name = members[t].0.clone();
                changed.set(t, (name, new));
                proof {
                    lemma_object_view(*members);
                    lemma_object_view(changed);
                    assert(members_model(changed@) =~= members_model(members@).update(
                        t as int,
                        (members@[t as int].0@, new@),
                    ));
                }
                Json::Object(changed)
            },
            _ => value.clone(),
        },
        None => value.clone(),
    }
}

/// Transforms the value of one member of a record: randomizes the number
/// under the key inside a nested object, and copies anything else.
pub fn transform_value<F: Fn(&JsonNumber) -> Option<JsonNumber>>(
    value: &Json,
    random_key: &Option<String>,
    redraw: &F,
) -> (r: Result<Json, SynthesisError>)
    requires
        forall|n: &JsonNumber| call_requires(redraw, (n,)),
    ensures
        match r {
            Ok(out) => transformed(*value, key_model(*random_key), out, *redraw) && (
            value@.well_formed() ==> out@.well_formed()),
            Err(_) => blocked(*value, key_model(*random_key), *redraw),
        },
{
    let r = match find_random_target(value, random_key) {
        Some(t) => match value {
            Json::Object(members) => match generate_random_value(&members[t].1, redraw) {
                Ok(new) => {
                    let out = with_replacement(value, random_key, new);
                    proof {
                        lemma_object_view(*members);
                        lemma_object_view(out->Object_0);
                    }
                    Ok(out)
                },
                Err(e) => Err(e),
            },
            _ => Ok(value.clone()),
        },
        None => Ok(value.clone()),
    };
    proof {
        if r is Ok && value@.well_formed() {
            lemma_transformed_well_formed(*value, key_model(*random_key), r->Ok_0, *redraw);
        }
    }
    r
}

/// Whether `values` is what the members of a record may become: as many,
/// under the same names in the same order, each value transformed.
pub open spec fn all_transformed<F: Fn(&JsonNumber) -> Option<JsonNumber>>(
    members: Seq<(String, Json)>,
    random_key: Option<Seq<char>>,
    values: Seq<(String, Json)>,
    redraw: F,
) -> bool {
    &&& values.len() == members.len()
    &&& forall|i: int|
        0 <= i < members.len() ==> (#[trigger] values[i]).0@ == members[i].0@ && transformed(
            members[i].1,
            random_key,
            values[i].1,
            redraw,
        )
}

/// Whether `error` is the reason why `data` gives no values.
pub open spec fn extraction_fails<F: Fn(&JsonNumber) -> Option<JsonNumber>>(
    data: Json,
    random_key: Option<Seq<char>>,
    redraw: F,
    error: TransformError,
) -> bool {
    match error {
        TransformError::NotAnObject => !(data is Object),
        TransformError::Empty => data matches Json::Object(members) && members@.len() == 0,
        TransformError::Synthesis => {
            &&& data matches Json::Object(members)
            &&& exists|i: int|
                0 <= i < members@.len() && blocked(#[trigger] members@[i].1, random_key, redraw)
        },
    }
}

/// Turns one record into the values that are sent for it. Each member of the
/// record gives one value under the same name; a nested object that holds a
/// number under the randomization key gets that number replaced.
#[verifier::loop_isolation(false)]
pub fn extract_telemetry_values<F: Fn(&JsonNumber) -> Option<JsonNumber>>(
    data: &Json,
    random_key: &Option<String>,
    redraw: &F,
) -> (r: Result<Vec<(String, Json)>, TransformError>)
    requires
        forall|n: &JsonNumber| call_requires(redraw, (n,)),
    ensures
        match r {
            Ok(values) => {
                &&& data matches Json::Object(members)
                &&& members@.len() > 0
                &&& all_transformed(members@, key_model(*random_key), values@, *redraw)
                &&& data@.well_formed() ==> JsonModel::Object(
                    members_model(values@),
                ).well_formed()
            },
            Err(e) => extraction_fails(*data, key_model(*random_key), *redraw, e),
        },
{
    match data {
        Json::Object(members) => {
            let mut values: Vec<(String, Json)> = Vec::new();
            let mut i: usize = 0;
            while i < members.len()
                invariant
                    i <= members.len(),
                    values@.len() == i,
                    forall|j: int|
                        0 <= j < i ==> (#[trigger] values@[j]).0@ == members@[j].0@
                            && transformed(
                            members@[j].1,
                            key_model(*random_key),
                            values@[j].1,
                            *redraw,
                        ),
                decreases members.len() - i,
            {
                match transform_value(&members[i].1, random_key, redraw) {
                    Ok(out) => values.push((members[i].0.clone(), out)),
                    Err(_) => {
                        assert(blocked(members@[i as int].1, key_model(*random_key), *redraw));
                        return Err(TransformError::Synthesis);
                    },
                }
                i += 1;
            }
            if values.len() == 0 {
                Err(TransformError::Empty)
            } else {
                proof {
                    if data@.well_formed() {
                        lemma_object_view(*members);
                        lemma_values_well_formed(
                            members@,
                            key_model(*random_key),
                            values@,
                            *redraw,
                        );
                    }
                }
                Ok(values)
            }
        },
        _ => Err(TransformError::NotAnObject),
    }
}

/// The number that was randomized in one member of a record, before and
/// after.
#[derive(Debug, PartialEq, Eq)]
pub struct Replacement {
    pub before: JsonNumber,
    pub after: JsonNumber,
}

/// Reads off a member of a record, as it went in and as it came out, the
/// number that was randomized: what stood under the key and what stands
/// there now. Nothing where the member held no number to randomize, or where
/// `out` holds no number in its place.
pub fn observe_replacement(value: &Json, out: &Json, random_key: &Option<String>) -> (r: Option<
    Replacement,
>)
    ensures
        match random_target(value@, key_model(*random_key)) {
            Some(t) => match out@ {
                JsonModel::Object(changed) => if t < changed.len() && changed[t].1 is Number {
                    r matches Some(seen) && JsonModel::Number(seen.before@) == value@->Object_0[t].1
                        && JsonModel::Number(seen.after@) == changed[t].1
                } else {
                    r is None
                },
                _ => r is None,
            },
            None => r is None,
        },
{
    match find_random_target(value, random_key) {
        Some(t) => match (value, out) {
            (Json::Object(members), Json::Object(changed)) => {
                proof {
                    lemma_object_view(*members);
                    lemma_object_view(*changed);
                }
                if t < changed.len() {
                    match (&members[t].1, &changed[t].1) {
                        (Json::Number(before), Json::Number(after)) => Some(
                            Replacement { before: before.clone(), after: after.clone() },
                        ),
                        _ => None,
                    }
                } else {
                    None
                }
            },
            _ => None,
        },
        None => None,
    }
}

/// Puts the time of sending into `values` under the name `send_time`, in
/// place of any value that stood under that name.
pub fn insert_send_time(values: &mut Vec<(String, Json)>, send_time: &String)
    ensures
        members_model(final(values)@) == with_member(
            members_model(old(values)@),
            "send_time"@,
            JsonModel::String(send_time@),
        ),
        JsonModel::Object(members_model(old(values)@)).well_formed() ==> JsonModel::Object(
            members_model(final(values)@),
        ).well_formed(),
{
    set_member(values, String::from_str("send_time"), Json::String(send_time.clone()));
}

/// A value that holds no number to randomize comes out as it went in. This
/// is so where no key is configured, where the value is no object, where the
/// object has no member of that name, and where that member is no number.
pub proof fn lemma_untargeted_value_unchanged<F: Fn(&JsonNumber) -> Option<JsonNumber>>(
    value: Json,
    random_key: Option<Seq<char>>,
    out: Json,
    redraw: F,
)
    requires
        transformed(value, random_key, out, redraw),
        random_key is None || !(value@ is Object) || member_value(
            value@->Object_0,
            random_key->0,
        ) is None || !(member_value(value@->Object_0, random_key->0)->0 is Number),
    ensures
        out@ == value@,
{
}

/// A nested object that holds a number under the key comes out with that
/// one member replaced: a lookup of the key gives the new number, which may
/// replace the original, and a lookup of any other name gives what it gave
/// before.
pub proof fn lemma_targeted_value_replaced<F: Fn(&JsonNumber) -> Option<JsonNumber>>(
    value: Json,
    key: Seq<char>,
    out: Json,
    redraw: F,
)
    requires
        transformed(value, Some(key), out, redraw),
        value@ is Object,
        member_value(value@->Object_0, key) matches Some(found) && found is Number,
    ensures
        out@ is Object,
        ({
            let t = member_index(value@->Object_0, key)->0;
            let original = value->Object_0@[t].1->Number_0;
            let new = out->Object_0@[t].1->Number_0;
            &&& may_replace(original, new, redraw)
            &&& member_value(value@->Object_0, key) == Some(JsonModel::Number(original@))
            &&& member_value(out@->Object_0, key) == Some(JsonModel::Number(new@))
            &&& out@->Object_0 == with_member(value@->Object_0, key, JsonModel::Number(new@))
        }),
        forall|other: Seq<char>|
            other != key ==> member_value(out@->Object_0, other) == member_value(
                value@->Object_0,
                other,
            ),
{
    let before = value@->Object_0;
    let t = member_index(before, key)->0;
    lemma_member_index_found(before, key);
    lemma_object_view(value->Object_0);
    lemma_object_view(out->Object_0);
    let new = out->Object_0@[t].1->Number_0;
    let fresh = JsonModel::Number(new@);
    assert(out@->Object_0 == with_member(before, key, fresh));
    lemma_with_member_reads_back(before, key, fresh);
    assert forall|other: Seq<char>| other != key implies member_value(out@->Object_0, other)
        == member_value(before, other) by {
        lemma_with_member_keeps_others(before, key, fresh, other);
    }
}

/// A nested object that holds, under the key, an integer `v` that a signed
/// 64-bit word holds comes out with an integer from 1 up to the larger of 1
/// and `2 * v` under the key.
pub proof fn lemma_integer_target_in_range<F: Fn(&JsonNumber) -> Option<JsonNumber>>(
    value: Json,
    key: Seq<char>,
    out: Json,
    redraw: F,
    v: int,
)
    requires
        transformed(value, Some(key), out, redraw),
        value@ is Object,
        member_value(value@->Object_0, key) == Some(JsonModel::Number(NumberModel::Integer(v))),
        i64::MIN <= v <= i64::MAX,
    ensures
        out@ is Object,
        member_value(out@->Object_0, key) matches Some(
            JsonModel::Number(NumberModel::Integer(x)),
        ) && 1 <= x <= integer_upper_bound(v),
{
    lemma_targeted_value_replaced(value, key, out, redraw);
}

/// A well-formed value comes out well formed.
pub proof fn lemma_transformed_well_formed<F: Fn(&JsonNumber) -> Option<JsonNumber>>(
    value: Json,
    random_key: Option<Seq<char>>,
    out: Json,
    redraw: F,
)
    requires
        transformed(value, random_key, out, redraw),
        value@.well_formed(),
    ensures
        out@.well_formed(),
{
    match random_target(value@, random_key) {
        None => {},
        Some(t) => {
            let key = random_key->0;
            let before = value@->Object_0;
            lemma_member_index_found(before, key);
            lemma_object_view(value->Object_0);
            lemma_object_view(out->Object_0);
            let new = out->Object_0@[t].1->Number_0;
            let fresh = JsonModel::Number(new@);
            let after = out@->Object_0;
            assert(after == with_member(before, key, fresh));
            lemma_with_member_keeps_distinct(before, key, fresh);
            assert forall|i: int| 0 <= i < after.len() implies (#[trigger] after[i]).1.well_formed() by {
                if i != t {
                    assert(after[i] == before[i]);
                }
            }
        },
    }
}

/// The values of a well-formed record are well formed, and no two of them
/// share a name.
pub proof fn lemma_values_well_formed<F: Fn(&JsonNumber) -> Option<JsonNumber>>(
    members: Seq<(String, Json)>,
    random_key: Option<Seq<char>>,
    values: Seq<(String, Json)>,
    redraw: F,
)
    requires
        all_transformed(members, random_key, values, redraw),
        JsonModel::Object(members_model(members)).well_formed(),
    ensures
        JsonModel::Object(members_model(values)).well_formed(),
{
    let before = members_model(members);
    let after = members_model(values);
    assert forall|i: int, j: int| 0 <= i < j < after.len() implies after[i].0 != after[j].0 by {
        assert(after[i].0 == values[i].0@);
        assert(after[j].0 == values[j].0@);
        assert(before[i].0 == members[i].0@);
        assert(before[j].0 == members[j].0@);
    }
    assert forall|i: int| 0 <= i < after.len() implies (#[trigger] after[i]).1.well_formed() by {
        assert(values[i].0@ == members[i].0@);
        assert(before[i].1.well_formed());
        lemma_transformed_well_formed(members[i].1, random_key, values[i].1, redraw);
    }
}

} // verus!
