use vstd::prelude::*;
use vstd::string::*;

use crate::decimal::{dec, decimal_text, lemma_parse_dec, parse_at_most, parse_decimal};
use crate::rand_data::{shape_ok, GetRandComb, GetRandInt};
use crate::text::{push_text, same_text};

verus! {

/// One reading of a worker's sensors.
#[derive(Clone, Debug, PartialEq, Eq)]
pub struct WorkerInfo {
    pub GroundNum: String,
    pub HelmetNum: String,
    pub Spo2Level: u8,
    pub Temperature: u16,
    pub GasLevel: u16,
    pub HeartRate: u8,
}

/// What a reading holds, with its codes as character sequences.
pub ghost struct WorkerView {
    pub ground: Seq<char>,
    pub helmet: Seq<char>,
    pub spo2: u8,
    pub temp: u16,
    pub gas: u16,
    pub heart: u8,
}

impl View for WorkerInfo {
    type V = WorkerView;

    open spec fn view(&self) -> WorkerView {
        WorkerView {
            ground: self.GroundNum@,
            helmet: self.HelmetNum@,
            spo2: self.Spo2Level,
            temp: self.Temperature,
            gas: self.GasLevel,
            heart: self.HeartRate,
        }
    }
}

/// A tagged value of a stored item: text, or a number written in decimal.
#[derive(Clone, Debug, PartialEq, Eq)]
pub enum AttrValue {
    S(String),
    N(String),
}

pub ghost enum AttrView {
    S(Seq<char>),
    N(Seq<char>),
}

impl View for AttrValue {
    type V = AttrView;

    open spec fn view(&self) -> AttrView {
        match self {
            AttrValue::S(s) => AttrView::S(s@),
            AttrValue::N(s) => AttrView::N(s@),
        }
    }
}

/// The six fields of a reading.
#[derive(Clone, Copy, Debug, PartialEq, Eq, Structural)]
pub enum Field {
    GroundNum,
    HelmetNum,
    Spo2Level,
    Temperature,
    GasLevel,
    HeartRate,
}

/// A field of an item that is present but cannot be read as its field's type.
#[derive(Clone, Copy, Debug, PartialEq, Eq, Structural)]
pub struct MalformedAttributeError {
    pub field: Field,
}

/// The entries of an item, as names and tagged values.
pub open spec fn items_view(item: Seq<(String, AttrValue)>) -> Seq<(Seq<char>, AttrView)> {
    item.map_values(|e: (String, AttrValue)| (e.0@, e.1@))
}

/// The field that an item key names, if any.
pub open spec fn field_of(k: Seq<char>) -> Option<Field> {
    if k == "GroundNum"@ {
        Some(Field::GroundNum)
    } else if k == "HelmetNum"@ {
        Some(Field::HelmetNum)
    } else if k == "Spo2Level"@ {
        Some(Field::Spo2Level)
    } else if k == "Temperature"@ {
        Some(Field::Temperature)
    } else if k == "GasLevel"@ {
        Some(Field::GasLevel)
    } else if k == "HeartRate"@ {
        Some(Field::HeartRate)
    } else {
        None
    }
}

/// The number a tagged value holds, where it is numeric and at most `max`.
pub open spec fn num_of(v: AttrView, max: nat) -> Option<nat> {
    match v {
        AttrView::N(t) => parse_at_most(t, max),
        AttrView::S(_) => None,
    }
}

/// The reading `w` with one item entry written over its field; entries of other
/// names leave it as it is.
pub open spec fn apply_entry(w: WorkerView, k: Seq<char>, v: AttrView) -> Result<WorkerView, Field> {
    match field_of(k) {
        None => Ok(w),
        Some(f) => match f {
            Field::GroundNum => match v {
                AttrView::S(s) => Ok(WorkerView { ground: s, ..w }),
                AttrView::N(_) => Err(f),
            },
            Field::HelmetNum => match v {
                AttrView::S(s) => Ok(WorkerView { helmet: s, ..w }),
                AttrView::N(_) => Err(f),
            },
            Field::Spo2Level => match num_of(v, 255) {
                Some(x) => Ok(WorkerView { spo2: x as u8, ..w }),
                None => Err(f),
            },
            Field::Temperature => match num_of(v, 65535) {
                Some(x) => Ok(WorkerView { temp: x as u16, ..w }),
                None => Err(f),
            },
            Field::GasLevel => match num_of(v, 65535) {
                Some(x) => Ok(WorkerView { gas: x as u16, ..w }),
                None => Err(f),
            },
            Field::HeartRate => match num_of(v, 255) {
                Some(x) => Ok(WorkerView { heart: x as u8, ..w }),
                None => Err(f),
            },
        },
    }
}

/// The reading `seed` with the entries of an item written over it in order, or the
/// field of the first entry that cannot be read.
pub open spec fn decode(seed: WorkerView, es: Seq<(Seq<char>, AttrView)>) -> Result<WorkerView, Field>
    decreases es.len(),
{
    if es.len() == 0 {
        Ok(seed)
    } else {
        match decode(seed, es.drop_last()) {
            Ok(w) => apply_entry(w, es.last().0, es.last().1),
            Err(f) => Err(f),
        }
    }
}

/// The item of a reading: its six fields, codes as text, numbers in decimal.
pub open spec fn attr_view(w: WorkerView) -> Seq<(Seq<char>, AttrView)> {
    seq![
        ("GroundNum"@, AttrView::S(w.ground)),
        ("HelmetNum"@, AttrView::S(w.helmet)),
        ("Spo2Level"@, AttrView::N(dec(w.spo2 as nat))),
        ("Temperature"@, AttrView::N(dec(w.temp as nat))),
        ("HeartRate"@, AttrView::N(dec(w.heart as nat))),
        ("GasLevel"@, AttrView::N(dec(w.gas as nat))),
    ]
}

/// A reading such as `GetRandRecord` makes: a ground code of three letters, three
/// more letters and four digits (its grammar `"001"` makes the middle block
/// letters, not digits; see `lemma_ground_code_shape`); a helmet code of four digits; temperature at most 255,
/// gas level at most 65000.
pub open spec fn is_synthetic(w: WorkerView) -> bool {
    &&& shape_ok(w.ground, seq!['0', '0', '1'], seq![3i32, 3, 4])
    &&& shape_ok(w.helmet, seq!['1'], seq![4i32])
    &&& w.temp <= 255
    &&& w.gas <= 65000
}

/// A code of the shape `mask` / `lens` describe; both are fixed by the caller.
fn rand_code(mask: &str, lens: Vec<i32>) -> (r: String)
    requires
        mask@.len() == lens@.len(),
    ensures
        shape_ok(r@, mask@, lens@),
{
    match GetRandComb(String::from_str(mask), lens) {
        Ok(s) => s,
        Err(_) => String::new(),
    }
}

/// The key of a reading: its ground code followed by its helmet code.
pub fn GetUniqueId(groundNum: &String, helNum: &String) -> (r: String)
    ensures
        r@ == groundNum@ + helNum@,
{
    let mut res = String::new();
    push_text(&mut res, groundNum.as_str());
    push_text(&mut res, helNum.as_str());
    assert(res@ =~= groundNum@ + helNum@);
    res
}

/// Writes one entry over the field it names.
fn apply(w: &mut WorkerInfo, k: &String, v: &AttrValue) -> (r: Result<(), Field>)
    ensures
        match r {
            Ok(_) => apply_entry(old(w)@, k@, v@) == Ok::<WorkerView, Field>(final(w)@),
            Err(f) => apply_entry(old(w)@, k@, v@) == Err::<WorkerView, Field>(f),
        },
{
    let k = k.as_str();
    if same_text(k, "GroundNum") {
        match v {
            AttrValue::S(s) => {
                w.GroundNum = s.clone();
                Ok(())
            },
            AttrValue::N(_) => Err(Field::GroundNum),
        }
    } else if same_text(k, "HelmetNum") {
        match v {
            AttrValue::S(s) => {
                w.HelmetNum = s.clone();
                Ok(())
            },
            AttrValue::N(_) => Err(Field::HelmetNum),
        }
    } else if same_text(k, "Spo2Level") {
        match read_num(v, 255) {
            Some(x) => {
                w.Spo2Level = x as u8;
                Ok(())
            },
            None => Err(Field::Spo2Level),
        }
    } else if same_text(k, "Temperature") {
        match read_num(v, 65535) {
            Some(x) => {
                w.Temperature = x as u16;
                Ok(())
            },
            None => Err(Field::Temperature),
        }
    } else if same_text(k, "GasLevel") {
        match read_num(v, 65535) {
            Some(x) => {
                w.GasLevel = x as u16;
                Ok(())
            },
            None => Err(Field::GasLevel),
        }
    } else if same_text(k, "HeartRate") {
        match read_num(v, 255) {
            Some(x) => {
                w.HeartRate = x as u8;
                Ok(())
            },
            None => Err(Field::HeartRate),
        }
    } else {
        Ok(())
    }
}

/// The number a tagged value holds, where it is numeric and at most `max`.
fn read_num(v: &AttrValue, max: u32) -> (r: Option<u32>)
    ensures
        match r {
            Some(x) => num_of(v@, max as nat) == Some(x as nat) && x <= max,
            None => num_of(v@, max as nat) is None,
        },
{
    match v {
        AttrValue::N(t) => parse_decimal(t.as_str(), max),
        AttrValue::S(_) => None,
    }
}

proof fn lemma_decode_err_stays(seed: WorkerView, es: Seq<(Seq<char>, AttrView)>, i: int)
    requires
        0 <= i <= es.len(),
        decode(seed, es.take(i)) is Err,
    ensures
        decode(seed, es) == decode(seed, es.take(i)),
    decreases es.len(),
{
    if i == es.len() {
        assert(es.take(i) =~= es);
    } else {
        assert(es.drop_last().take(i) =~= es.take(i));
        lemma_decode_err_stays(seed, es.drop_last(), i);
    }
}

impl WorkerInfo {
    /// A reading of random values: see `is_synthetic`.
    pub fn GetRandRecord() -> (r: WorkerInfo)
        ensures
            is_synthetic(r@),
    {
        proof {
            reveal_strlit("001");
            reveal_strlit("1");
        }
        let ground = rand_code("001", vec![3i32, 3, 4]);
        let helmet = rand_code("1", vec![4i32]);
        let spo2 = GetRandInt(0, 255);
        let temp = GetRandInt(0, 255);
        let gas = GetRandInt(0, 65000);
        let heart = GetRandInt(0, 255);
        assert("001"@ =~= seq!['0', '0', '1']);
        assert("1"@ =~= seq!['1']);
        WorkerInfo {
            GroundNum: ground,
            HelmetNum: helmet,
            Spo2Level: spo2 as u8,
            Temperature: temp as u16,
            GasLevel: gas as u16,
            HeartRate: heart as u8,
        }
    }

    /// The item of this reading: its six fields, codes as text and numbers in
    /// decimal.
    pub fn ToAttributeMapping(&self) -> (r: Vec<(String, AttrValue)>)
        ensures
            items_view(r@) == attr_view(self@),
    {
        let mut v: Vec<(String, AttrValue)> = Vec::new();
        v.push((String::from_str("GroundNum"), AttrValue::S(self.GroundNum.clone())));
        v.push((String::from_str("HelmetNum"), AttrValue::S(self.HelmetNum.clone())));
        v.push((String::from_str("Spo2Level"), AttrValue::N(decimal_text(self.Spo2Level as u32))));
        v.push((String::from_str("Temperature"), AttrValue::N(decimal_text(self.Temperature as u32))));
        v.push((String::from_str("HeartRate"), AttrValue::N(decimal_text(self.HeartRate as u32))));
        v.push((String::from_str("GasLevel"), AttrValue::N(decimal_text(self.GasLevel as u32))));
        assert(items_view(v@) =~= attr_view(self@));
        v
    }

    /// The item to store for this reading: its six fields and, under `primKey`, its
    /// key.
    pub fn ToItem(&self, primKey: &str) -> (r: Vec<(String, AttrValue)>)
        ensures
            items_view(r@) == attr_view(self@).push(
                (primKey@, AttrView::S(self.GroundNum@ + self.HelmetNum@)),
            ),
    {
        let mut v = self.ToAttributeMapping();
        let id = GetUniqueId(&self.GroundNum, &self.HelmetNum);
        v.push((String::from_str(primKey), AttrValue::S(id)));
        assert(items_view(v@) =~= attr_view(self@).push(
            (primKey@, AttrView::S(self.GroundNum@ + self.HelmetNum@)),
        ));
        v
    }

    /// `seed` with the entries of `item` written over it in order. Entries of other
    /// names are ignored; the first entry that cannot be read as its field's type
    /// is the error.
    pub fn FromAttributeMappingOver(seed: WorkerInfo, item: &Vec<(String, AttrValue)>) -> (r:
        Result<WorkerInfo, MalformedAttributeError>)
        ensures
            match r {
                Ok(w) => decode(seed@, items_view(item@)) == Ok::<WorkerView, Field>(w@),
                Err(e) => decode(seed@, items_view(item@)) == Err::<WorkerView, Field>(e.field),
            },
    {
        let ghost es = items_view(item@);
        let mut w = seed;
        let mut i: usize = 0;
        assert(es.take(0) =~= Seq::<(Seq<char>, AttrView)>::empty());
        while i < item.len()
            invariant
                es == items_view(item@),
                i <= item@.len(),
                decode(seed@, es.take(i as int)) == Ok::<WorkerView, Field>(w@),
            decreases item@.len() - i,
        {
            let r = apply(&mut w, &item[i].0, &item[i].1);
            proof {
                assert(es.take(i + 1).drop_last() =~= es.take(i as int));
                assert(es.take(i + 1).last() == es[i as int]);
            }
            match r {
                Ok(_) => {},
                Err(f) => {
                    proof {
                        lemma_decode_err_stays(seed@, es, i + 1);
                    }
                    return Err(MalformedAttributeError { field: f });
                },
            }
            i = i + 1;
        }
        assert(es.take(item@.len() as int) =~= es);
        Ok(w)
    }

    /// A reading from a stored item: a random reading (see `is_synthetic`) with the
    /// entries of `item` written over it in order.
    pub fn GetWorkInfo(item: &Vec<(String, AttrValue)>) -> (r: Result<WorkerInfo, MalformedAttributeError>)
        ensures
            exists|seed: WorkerView|
                {
                    &&& is_synthetic(seed)
                    &&& match r {
                        Ok(w) => decode(seed, items_view(item@)) == Ok::<WorkerView, Field>(w@),
                        Err(e) => decode(seed, items_view(item@)) == Err::<WorkerView, Field>(e.field),
                    }
                },
    {
        let seed = WorkerInfo::GetRandRecord();
        let ghost s = seed@;
        let r = WorkerInfo::FromAttributeMappingOver(seed, item);
        assert(is_synthetic(s));
        r
    }
}

/// The six field names are told apart by `field_of`.
pub(crate) proof fn lemma_field_names_differ()
    ensures
        field_of("GroundNum"@) == Some(Field::GroundNum),
        field_of("HelmetNum"@) == Some(Field::HelmetNum),
        field_of("Spo2Level"@) == Some(Field::Spo2Level),
        field_of("Temperature"@) == Some(Field::Temperature),
        field_of("GasLevel"@) == Some(Field::GasLevel),
        field_of("HeartRate"@) == Some(Field::HeartRate),
{
    reveal_strlit("GroundNum");
    reveal_strlit("HelmetNum");
    reveal_strlit("Spo2Level");
    reveal_strlit("Temperature");
    reveal_strlit("GasLevel");
    reveal_strlit("HeartRate");
    assert("HelmetNum"@ != "GroundNum"@) by { assert("HelmetNum"@[0] != "GroundNum"@[0]); }
    assert("Spo2Level"@ != "GroundNum"@) by { assert("Spo2Level"@[0] != "GroundNum"@[0]); }
    assert("Spo2Level"@ != "HelmetNum"@) by { assert("Spo2Level"@[0] != "HelmetNum"@[0]); }
    assert("Temperature"@ != "GroundNum"@) by { assert("Temperature"@.len() != "GroundNum"@.len()); }
    assert("Temperature"@ != "HelmetNum"@) by { assert("Temperature"@.len() != "HelmetNum"@.len()); }
    assert("Temperature"@ != "Spo2Level"@) by { assert("Temperature"@.len() != "Spo2Level"@.len()); }
    assert("GasLevel"@ != "GroundNum"@) by { assert("GasLevel"@.len() != "GroundNum"@.len()); }
    assert("GasLevel"@ != "HelmetNum"@) by { assert("GasLevel"@.len() != "HelmetNum"@.len()); }
    assert("GasLevel"@ != "Spo2Level"@) by { assert("GasLevel"@.len() != "Spo2Level"@.len()); }
    assert("GasLevel"@ != "Temperature"@) by { assert("GasLevel"@.len() != "Temperature"@.len()); }
    assert("HeartRate"@ != "GroundNum"@) by { assert("HeartRate"@[0] != "GroundNum"@[0]); }
    assert("HeartRate"@ != "HelmetNum"@) by { assert("HeartRate"@[2] != "HelmetNum"@[2]); }
    assert("HeartRate"@ != "Spo2Level"@) by { assert("HeartRate"@[0] != "Spo2Level"@[0]); }
    assert("HeartRate"@ != "Temperature"@) by { assert("HeartRate"@.len() != "Temperature"@.len()); }
    assert("HeartRate"@ != "GasLevel"@) by { assert("HeartRate"@.len() != "GasLevel"@.len()); }
}

/// Decoding the item of a reading gives that reading back, whatever the seed.
pub proof fn lemma_attribute_round_trip(seed: WorkerView, w: WorkerView)
    ensures
        decode(seed, attr_view(w)) == Ok::<WorkerView, Field>(w),
{
    lemma_field_names_differ();
    lemma_parse_dec(w.spo2 as nat);
    lemma_parse_dec(w.temp as nat);
    lemma_parse_dec(w.heart as nat);
    lemma_parse_dec(w.gas as nat);
    let es = attr_view(w);
    assert(es.take(0) =~= Seq::<(Seq<char>, AttrView)>::empty());
    assert(decode(seed, es.take(0)) == Ok::<WorkerView, Field>(seed));
    assert(es.take(1).last() == es[0]);
    assert(es.take(2).last() == es[1]);
    assert(es.take(3).last() == es[2]);
    assert(es.take(4).last() == es[3]);
    assert(es.take(5).last() == es[4]);
    assert(es.take(6).last() == es[5]);
    assert(es.take(1).drop_last() =~= es.take(0));
    assert(es.take(2).drop_last() =~= es.take(1));
    assert(es.take(3).drop_last() =~= es.take(2));
    assert(es.take(4).drop_last() =~= es.take(3));
    assert(es.take(5).drop_last() =~= es.take(4));
    assert(es.take(6).drop_last() =~= es.take(5));
    assert(es.take(6) =~= es);
    let w1 = WorkerView { ground: w.ground, ..seed };
    let w2 = WorkerView { helmet: w.helmet, ..w1 };
    let w3 = WorkerView { spo2: w.spo2, ..w2 };
    let w4 = WorkerView { temp: w.temp, ..w3 };
    let w5 = WorkerView { heart: w.heart, ..w4 };
    assert(decode(seed, es.take(1)) == Ok::<WorkerView, Field>(w1));
    assert(decode(seed, es.take(2)) == Ok::<WorkerView, Field>(w2));
    assert(decode(seed, es.take(3)) == Ok::<WorkerView, Field>(w3));
    assert(decode(seed, es.take(4)) == Ok::<WorkerView, Field>(w4));
    assert(decode(seed, es.take(5)) == Ok::<WorkerView, Field>(w5));
    assert(decode(seed, es.take(6)) == Ok::<WorkerView, Field>(w));
}

/// An item with a gas level of 42 alone gives the seed with that gas level: every
/// other field keeps the seed's value.
pub proof fn lemma_partial_decode(seed: WorkerView)
    ensures
        decode(seed, seq![("GasLevel"@, AttrView::N("42"@))]) == Ok::<WorkerView, Field>(
            WorkerView { gas: 42, ..seed },
        ),
{
    lemma_field_names_differ();
    reveal_strlit("42");
    let t = "42"@;
    assert(crate::decimal::unsigned_body(t) == t);
    assert(t.drop_last() =~= seq!['4']);
    assert(seq!['4'].drop_last() =~= Seq::<char>::empty());
    assert(crate::decimal::digits_value(Seq::<char>::empty()) == 0);
    assert(crate::decimal::digits_value(seq!['4']) == 4);
    assert(crate::decimal::digits_value(t) == 42);
    assert(crate::rand_data::all_digits(t));
    assert(parse_at_most(t, 65535) == Some(42nat));
    let es = seq![("GasLevel"@, AttrView::N(t))];
    assert(es.drop_last() =~= Seq::<(Seq<char>, AttrView)>::empty());
    assert(decode(seed, es.drop_last()) == Ok::<WorkerView, Field>(seed));
}

/// A heart rate that is not a number fails the decoding on that field.
pub proof fn lemma_malformed_heart_rate(seed: WorkerView)
    ensures
        decode(seed, seq![("HeartRate"@, AttrView::N("not-a-number"@))]) == Err::<WorkerView, Field>(
            Field::HeartRate,
        ),
{
    lemma_field_names_differ();
    reveal_strlit("not-a-number");
    let t = "not-a-number"@;
    assert(crate::decimal::unsigned_body(t) == t);
    assert(!crate::rand_data::is_digit(t[0]));
    assert(!crate::rand_data::all_digits(t));
    assert(parse_at_most(t, 255) is None);
    let es = seq![("HeartRate"@, AttrView::N(t))];
    assert(es.drop_last() =~= Seq::<(Seq<char>, AttrView)>::empty());
    assert(decode(seed, es.drop_last()) == Ok::<WorkerView, Field>(seed));
}

} // verus!
