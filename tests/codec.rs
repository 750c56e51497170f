use database::{AttrValue, Field, GetUniqueId, WorkerInfo};

fn sample() -> WorkerInfo {
    WorkerInfo {
        GroundNum: String::from("ABC_DEF_1234"),
        HelmetNum: String::from("5678"),
        Spo2Level: 97,
        Temperature: 300,
        GasLevel: 65000,
        HeartRate: 0,
    }
}

fn entry(k: &str, v: AttrValue) -> (String, AttrValue) {
    (String::from(k), v)
}

fn s(t: &str) -> AttrValue {
    AttrValue::S(String::from(t))
}

fn n(t: &str) -> AttrValue {
    AttrValue::N(String::from(t))
}

fn is_synthetic_ground(g: &str) -> bool {
    let c: Vec<char> = g.chars().collect();
    c.len() == 12
        && c[..3].iter().all(|x| x.is_ascii_uppercase())
        && c[3] == '_'
        && c[4..7].iter().all(|x| x.is_ascii_uppercase())
        && c[7] == '_'
        && c[8..].iter().all(|x| x.is_ascii_digit())
}

fn is_synthetic_helmet(h: &str) -> bool {
    h.len() == 4 && h.chars().all(|x| x.is_ascii_digit())
}

#[test]
fn unique_id_concatenates_codes() {
    let g = String::from("ABC_DEF_1234");
    let h = String::from("5678");
    assert_eq!(GetUniqueId(&g, &h), "ABC_DEF_12345678");
    assert_eq!(GetUniqueId(&String::new(), &String::new()), "");
}

#[test]
fn random_record_is_synthetic() {
    for _ in 0..50 {
        let r = WorkerInfo::GetRandRecord();
        assert!(is_synthetic_ground(&r.GroundNum));
        assert!(is_synthetic_helmet(&r.HelmetNum));
        assert!(r.Temperature <= 255);
        assert!(r.GasLevel <= 65000);
    }
}

#[test]
fn attribute_mapping_lists_six_tagged_fields() {
    let m = sample().ToAttributeMapping();
    assert_eq!(
        m,
        vec![
            entry("GroundNum", s("ABC_DEF_1234")),
            entry("HelmetNum", s("5678")),
            entry("Spo2Level", n("97")),
            entry("Temperature", n("300")),
            entry("HeartRate", n("0")),
            entry("GasLevel", n("65000")),
        ]
    );
}

#[test]
fn item_adds_the_key() {
    let m = sample().ToItem("PrimKey");
    assert_eq!(m.len(), 7);
    assert_eq!(m[6], entry("PrimKey", s("ABC_DEF_12345678")));
}

#[test]
fn attribute_mapping_round_trip() {
    let r = sample();
    assert_eq!(WorkerInfo::GetWorkInfo(&r.ToAttributeMapping()), Ok(r.clone()));
    assert_eq!(WorkerInfo::GetWorkInfo(&r.ToItem("PrimKey")), Ok(r));
    for _ in 0..20 {
        let r = WorkerInfo::GetRandRecord();
        assert_eq!(WorkerInfo::GetWorkInfo(&r.ToAttributeMapping()), Ok(r));
    }
}

#[test]
fn partial_mapping_keeps_synthetic_defaults() {
    let item = vec![entry("GasLevel", n("42"))];
    let w = WorkerInfo::GetWorkInfo(&item).unwrap();
    assert_eq!(w.GasLevel, 42);
    assert!(is_synthetic_ground(&w.GroundNum));
    assert!(is_synthetic_helmet(&w.HelmetNum));
    assert!(w.Temperature <= 255);
}

#[test]
fn overlay_on_a_given_seed() {
    let item = vec![
        entry("GasLevel", n("42")),
        entry("PrimKey", s("anything")),
        entry("HelmetNum", s("0001")),
        entry("GasLevel", n("+43")),
    ];
    let mut want = sample();
    want.GasLevel = 43;
    want.HelmetNum = String::from("0001");
    assert_eq!(WorkerInfo::FromAttributeMappingOver(sample(), &item), Ok(want));
    assert_eq!(WorkerInfo::FromAttributeMappingOver(sample(), &vec![]), Ok(sample()));
}

#[test]
fn malformed_heart_rate_names_the_field() {
    let item = vec![entry("HeartRate", n("not-a-number"))];
    let e = WorkerInfo::GetWorkInfo(&item).unwrap_err();
    assert_eq!(e.field, Field::HeartRate);
}

#[test]
fn malformed_attributes_are_rejected() {
    let cases = vec![
        (entry("Spo2Level", n("256")), Field::Spo2Level),
        (entry("Temperature", n("65536")), Field::Temperature),
        (entry("GasLevel", s("12")), Field::GasLevel),
        (entry("GroundNum", n("12")), Field::GroundNum),
        (entry("HelmetNum", n("12")), Field::HelmetNum),
        (entry("HeartRate", n("")), Field::HeartRate),
    ];
    for (e, f) in cases {
        let got = WorkerInfo::FromAttributeMappingOver(sample(), &vec![e]).unwrap_err();
        assert_eq!(got.field, f);
    }
}

#[test]
fn first_malformed_entry_is_reported() {
    let item = vec![
        entry("HeartRate", n("x")),
        entry("Spo2Level", n("y")),
    ];
    let e = WorkerInfo::FromAttributeMappingOver(sample(), &item).unwrap_err();
    assert_eq!(e.field, Field::HeartRate);
}

#[test]
fn text_of_a_reading() {
    assert_eq!(
        sample().ToJSON(),
        "{\"GasLevel\":65000,\"GroundNum\":\"ABC_DEF_1234\",\"HeartRate\":0,\
         \"HelmetNum\":\"5678\",\"Spo2Level\":97,\"Temperature\":300}"
    );
}

#[test]
fn text_escapes_quotes_and_controls() {
    let mut r = sample();
    r.GroundNum = String::from("a\"b\\c\u{1}d\n");
    r.HelmetNum = String::from("\u{e9}");
    let t = r.ToJSON();
    assert!(t.contains("\"GroundNum\":\"a\\\"b\\\\c\\u0001d\\n\""));
    assert_eq!(WorkerInfo::FromJSON(&t), Ok(r));
}

#[test]
fn text_round_trip() {
    let r = sample();
    assert_eq!(WorkerInfo::FromJSON(&r.ToJSON()), Ok(r));
    for _ in 0..20 {
        let r = WorkerInfo::GetRandRecord();
        assert_eq!(WorkerInfo::FromJSON(&r.ToJSON()), Ok(r));
    }
}

#[test]
fn synthetic_text_is_accepted() {
    for _ in 0..50 {
        let t = WorkerInfo::GetRandData();
        let w = WorkerInfo::FromJSON(&t).unwrap();
        assert!(is_synthetic_ground(&w.GroundNum));
        assert!(is_synthetic_helmet(&w.HelmetNum));
        let v: serde_json::Value = serde_json::from_str(&t).unwrap();
        assert_eq!(v["GasLevel"].as_u64(), Some(w.GasLevel as u64));
        assert_eq!(v["GroundNum"].as_str(), Some(w.GroundNum.as_str()));
    }
}

#[test]
fn text_decoding_reads_any_json_layout() {
    let t = "{ \"HeartRate\" : 3,\n  \"GasLevel\": 2, \"Temperature\": 1,\n\
             \"Spo2Level\": 7, \"HelmetNum\": \"\\u20ac\\n\", \"GroundNum\": \"A\\u0042\",\n\
             \"PrimKey\": \"ignored\" }\n";
    let w = WorkerInfo::FromJSON(t).unwrap();
    assert_eq!(w.GroundNum, "AB");
    assert_eq!(w.HelmetNum, "\u{20ac}\n");
    assert_eq!(w.Spo2Level, 7);
    assert_eq!(w.Temperature, 1);
    assert_eq!(w.GasLevel, 2);
    assert_eq!(w.HeartRate, 3);
}

#[test]
fn text_in_sorted_key_order_is_read() {
    let t = "{\"GasLevel\":10,\"GroundNum\":\"ABC_DEF_1234\",\"HeartRate\":0,\
             \"HelmetNum\":\"5678\",\"Spo2Level\":97,\"Temperature\":300}";
    let mut want = sample();
    want.GasLevel = 10;
    assert_eq!(WorkerInfo::FromJSON(t), Ok(want));
    let padded = sample().ToJSON() + " \n";
    assert_eq!(WorkerInfo::FromJSON(&padded), Ok(sample()));
}

#[test]
fn json_fields_are_checked() {
    let ok = WorkerInfo::FromJsonFields(
        Some(String::from("ABC_DEF_1234")),
        Some(String::from("5678")),
        Some(97),
        Some(300),
        Some(65000),
        Some(0),
    );
    assert_eq!(ok, Ok(sample()));
    let wide = WorkerInfo::FromJsonFields(
        Some(String::from("a")),
        Some(String::from("b")),
        Some(256),
        Some(1),
        Some(1),
        Some(1),
    );
    assert!(wide.is_err());
    let absent = WorkerInfo::FromJsonFields(
        Some(String::from("a")),
        None,
        Some(1),
        Some(1),
        Some(1),
        Some(1),
    );
    assert!(absent.is_err());
    let gas = WorkerInfo::FromJsonFields(
        Some(String::from("a")),
        Some(String::from("b")),
        Some(1),
        Some(1),
        Some(65536),
        Some(1),
    );
    assert!(gas.is_err());
}

#[test]
fn malformed_text_is_rejected() {
    let good = sample().ToJSON();
    let bad = vec![
        String::new(),
        String::from("{}"),
        String::from("[1, 2]"),
        good.replace("\"HeartRate\":0,", ""),
        good.replace("\"Spo2Level\":97", "\"Spo2Level\":\"97\""),
        good.replace("\"Spo2Level\":97", "\"Spo2Level\":297"),
        good.replace("\"Spo2Level\":97", "\"Spo2Level\":097"),
        good.replace("\"Spo2Level\":97", "\"Spo2Level\":-1"),
        good.replace("\"Spo2Level\":97", "\"Spo2Level\":9.5"),
        good.replace("\"HelmetNum\":\"5678\"", "\"HelmetNum\":5678"),
        good.clone() + " x",
        good.replace("ABC", "A\\qC"),
    ];
    for t in bad {
        assert!(WorkerInfo::FromJSON(&t).is_err(), "{}", t);
    }
}
