use vstd::prelude::*;
use vstd::string::*;

use crate::worker::{is_synthetic, lemma_field_names_differ, WorkerInfo, WorkerView};

verus! {

/// The text of member `key` of the JSON object that `s` holds, as serde_json reads
/// it; `None` where `s` is not JSON, not an object, or the member is missing or not
/// a string.
pub uninterp spec fn json_text_member(s: Seq<char>, key: Seq<char>) -> Option<Seq<char>>;

/// The integer of member `key` of the JSON object that `s` holds, as serde_json
/// reads it; `None` where `s` is not JSON, not an object, or the member is missing
/// or not an integer that fits a `u64`.
pub uninterp spec fn json_u64_member(s: Seq<char>, key: Seq<char>) -> Option<u64>;

/// A text that is not a JSON object holding the six fields of a reading, each a
/// JSON string or an integer in its field's range.
#[derive(Clone, Copy, Debug, PartialEq, Eq, Structural)]
pub struct MalformedTextError;

/// Relies on `serde_json::from_str` into a `serde_json::Value`, `Value::get` and
/// `Value::as_str`: the string member `key` of the object the text holds. The
/// result depends on the two texts alone.
#[verifier::external_body]
fn text_member(s: &str, key: &str) -> (r: Option<String>)
    ensures
        text_opt(r) == json_text_member(s@, key@),
{
    let v: serde_json::Value = serde_json::from_str(s).ok()?;
    v.get(key)?.as_str().map(String::from)
}

/// Relies on `serde_json::from_str` into a `serde_json::Value`, `Value::get` and
/// `Value::as_u64`: the integer member `key` of the object the text holds. The
/// result depends on the two texts alone.
#[verifier::external_body]
fn u64_member(s: &str, key: &str) -> (r: Option<u64>)
    ensures
        r == json_u64_member(s@, key@),
{
    let v: serde_json::Value = serde_json::from_str(s).ok()?;
    v.get(key)?.as_u64()
}

/// Relies on `serde_json::Map::insert`, `Value::from` and `Value::to_string`: the
/// JSON text of an object with the given string and integer members. serde_json
/// reads such a text back into the same object, so each member is found again.
#[verifier::external_body]
fn json_object_text(strs: &Vec<(String, String)>, nums: &Vec<(String, u64)>) -> (r: String)
    requires
        forall|i: int, j: int|
            0 <= i < j < strs@.len() ==> #[trigger] strs@[i].0@ != #[trigger] strs@[j].0@,
        forall|i: int, j: int|
            0 <= i < j < nums@.len() ==> #[trigger] nums@[i].0@ != #[trigger] nums@[j].0@,
        forall|i: int, j: int|
            0 <= i < strs@.len() && 0 <= j < nums@.len() ==> #[trigger] strs@[i].0@
                != #[trigger] nums@[j].0@,
    ensures
        forall|i: int|
            0 <= i < strs@.len() ==> json_text_member(r@, (#[trigger] strs@[i]).0@) == Some(
                strs@[i].1@,
            ),
        forall|i: int|
            0 <= i < nums@.len() ==> json_u64_member(r@, (#[trigger] nums@[i]).0@) == Some(
                nums@[i].1,
            ),
{
    let mut m = serde_json::Map::new();
    for (k, v) in strs {
        m.insert(k.clone(), serde_json::Value::from(v.as_str()));
    }
    for (k, v) in nums {
        m.insert(k.clone(), serde_json::Value::from(*v));
    }
    serde_json::Value::Object(m).to_string()
}

/// The text an optional string holds.
pub open spec fn text_opt(o: Option<String>) -> Option<Seq<char>> {
    match o {
        Some(s) => Some(s@),
        None => None,
    }
}

/// The reading made of six decoded field values: present, and each number within
/// its field's width; `None` otherwise.
pub open spec fn record_of_fields(
    g: Option<Seq<char>>,
    h: Option<Seq<char>>,
    a: Option<u64>,
    b: Option<u64>,
    c: Option<u64>,
    d: Option<u64>,
) -> Option<WorkerView> {
    match (g, h, a, b, c, d) {
        (Some(g), Some(h), Some(a), Some(b), Some(c), Some(d)) => if a <= 255 && b <= 65535 && c
            <= 65535 && d <= 255 {
            Some(
                WorkerView {
                    ground: g,
                    helmet: h,
                    spo2: a as u8,
                    temp: b as u16,
                    gas: c as u16,
                    heart: d as u8,
                },
            )
        } else {
            None
        },
        _ => None,
    }
}

/// The reading a JSON text holds, as serde_json reads its six members.
pub open spec fn decoded_json(s: Seq<char>) -> Option<WorkerView> {
    record_of_fields(
        json_text_member(s, "GroundNum"@),
        json_text_member(s, "HelmetNum"@),
        json_u64_member(s, "Spo2Level"@),
        json_u64_member(s, "Temperature"@),
        json_u64_member(s, "GasLevel"@),
        json_u64_member(s, "HeartRate"@),
    )
}

/// `s` holds the six fields of `w` as JSON members: the codes as strings, the
/// numbers as integers.
pub open spec fn json_holds(s: Seq<char>, w: WorkerView) -> bool {
    &&& json_text_member(s, "GroundNum"@) == Some(w.ground)
    &&& json_text_member(s, "HelmetNum"@) == Some(w.helmet)
    &&& json_u64_member(s, "Spo2Level"@) == Some(w.spo2 as u64)
    &&& json_u64_member(s, "Temperature"@) == Some(w.temp as u64)
    &&& json_u64_member(s, "GasLevel"@) == Some(w.gas as u64)
    &&& json_u64_member(s, "HeartRate"@) == Some(w.heart as u64)
}

/// A text that holds the six fields of a reading decodes to that reading.
pub proof fn lemma_json_round_trip(s: Seq<char>, w: WorkerView)
    requires
        json_holds(s, w),
    ensures
        decoded_json(s) == Some(w),
{
}

/// The JSON text of any random reading decodes without error.
pub proof fn lemma_synthetic_json_accepted(s: Seq<char>, w: WorkerView)
    requires
        is_synthetic(w),
        json_holds(s, w),
    ensures
        decoded_json(s) == Some(w),
{
}

/// A text whose oxygen level is missing, or is not an integer of at most 255, does
/// not decode.
pub proof fn lemma_json_bad_spo2(s: Seq<char>)
    requires
        !(json_u64_member(s, "Spo2Level"@) matches Some(a) && a <= 255),
    ensures
        decoded_json(s) is None,
{
}

impl WorkerInfo {
    /// The JSON text of a random reading (see `GetRandRecord`).
    pub fn GetRandData() -> (r: String)
        ensures
            exists|w: WorkerView| is_synthetic(w) && json_holds(r@, w),
    {
        let w = WorkerInfo::GetRandRecord();
        w.ToJSON()
    }

    /// The JSON text of this reading: an object of its six fields, the codes as
    /// strings and the numbers as integers, written by serde_json.
    pub fn ToJSON(&self) -> (r: String)
        ensures
            json_holds(r@, self@),
    {
        proof {
            lemma_field_names_differ();
        }
        let mut strs: Vec<(String, String)> = Vec::new();
        strs.push((String::from_str("GroundNum"), self.GroundNum.clone()));
        strs.push((String::from_str("HelmetNum"), self.HelmetNum.clone()));
        let mut nums: Vec<(String, u64)> = Vec::new();
        nums.push((String::from_str("Spo2Level"), self.Spo2Level as u64));
        nums.push((String::from_str("Temperature"), self.Temperature as u64));
        nums.push((String::from_str("GasLevel"), self.GasLevel as u64));
        nums.push((String::from_str("HeartRate"), self.HeartRate as u64));
        let r = json_object_text(&strs, &nums);
        assert(strs@[0].0@ == "GroundNum"@ && strs@[1].0@ == "HelmetNum"@);
        assert(nums@[0].0@ == "Spo2Level"@ && nums@[1].0@ == "Temperature"@);
        assert(nums@[2].0@ == "GasLevel"@ && nums@[3].0@ == "HeartRate"@);
        r
    }

    /// The reading made of six decoded field values (see `record_of_fields`): an
    /// absent field, or a number wider than its field, is an error.
    pub fn FromJsonFields(
        ground: Option<String>,
        helmet: Option<String>,
        spo2: Option<u64>,
        temp: Option<u64>,
        gas: Option<u64>,
        heart: Option<u64>,
    ) -> (r: Result<WorkerInfo, MalformedTextError>)
        ensures
            match r {
                Ok(w) => record_of_fields(text_opt(ground), text_opt(helmet), spo2, temp, gas, heart)
                    == Some(w@),
                Err(_) => record_of_fields(
                    text_opt(ground),
                    text_opt(helmet),
                    spo2,
                    temp,
                    gas,
                    heart,
                ) is None,
            },
    {
        match (ground, helmet, spo2, temp, gas, heart) {
            (Some(g), Some(h), Some(a), Some(b), Some(c), Some(d)) => {
                if a <= 255 && b <= 65535 && c <= 65535 && d <= 255 {
                    Ok(
                        WorkerInfo {
                            GroundNum: g,
                            HelmetNum: h,
                            Spo2Level: a as u8,
                            Temperature: b as u16,
                            GasLevel: c as u16,
                            HeartRate: d as u8,
                        },
                    )
                } else {
                    Err(MalformedTextError)
                }
            },
            _ => Err(MalformedTextError),
        }
    }

    /// The reading a JSON text holds: an object with the six fields, codes as
    /// strings and numbers as integers, in any order and with any JSON spacing and
    /// escapes; other members are ignored. serde_json reads the members, and
    /// `FromJsonFields` checks them.
    pub fn FromJSON(s: &str) -> (r: Result<WorkerInfo, MalformedTextError>)
        ensures
            match r {
                Ok(w) => decoded_json(s@) == Some(w@),
                Err(_) => decoded_json(s@) is None,
            },
    {
        WorkerInfo::FromJsonFields(
            text_member(s, "GroundNum"),
            text_member(s, "HelmetNum"),
            u64_member(s, "Spo2Level"),
            u64_member(s, "Temperature"),
            u64_member(s, "GasLevel"),
            u64_member(s, "HeartRate"),
        )
    }
}

} // verus!
