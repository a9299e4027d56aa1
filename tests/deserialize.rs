use kale_duration::{decode_entries, AbsoluteDuration, DecodeError, DurationFields, Field};
use serde::de::{Deserializer, MapAccess, Visitor};

/// Reads a JSON object into its key/value entries, in order, keeping repeats.
struct EntriesVisitor;

impl<'de> Visitor<'de> for EntriesVisitor {
    type Value = Vec<(String, u64)>;

    fn expecting(&self, formatter: &mut std::fmt::Formatter) -> std::fmt::Result {
        formatter.write_str("a map of unit fields")
    }

    fn visit_map<A>(self, mut map: A) -> Result<Self::Value, A::Error>
    where
        A: MapAccess<'de>,
    {
        let mut entries = Vec::new();
        while let Some(key) = map.next_key::<String>()? {
            let value = map.next_value::<u64>()?;
            entries.push((key, value));
        }
        Ok(entries)
    }
}

fn decode_json(json: &str) -> Result<AbsoluteDuration, DecodeError> {
    let mut deserializer = serde_json::Deserializer::from_str(json);
    let entries = deserializer
        .deserialize_map(EntriesVisitor)
        .expect("not a JSON object of unsigned integers");
    decode_entries(&entries)
}

fn entry(key: &str, value: u64) -> (String, u64) {
    (key.to_string(), value)
}

#[test]
fn test_ns() {
    let testee = decode_json(r#"{"nanoseconds":12}"#).expect("Unable to parse");

    assert_eq!(testee.as_nanos(), 12);
}

#[test]
fn test_us() {
    let testee = decode_json(r#"{"microseconds":8}"#).expect("Unable to parse");

    assert_eq!(testee.as_nanos(), 8000);
}

#[test]
fn test_ms() {
    let testee = decode_json(r#"{"milliseconds":89}"#).expect("Unable to parse");

    assert_eq!(testee.as_nanos(), 89_000_000);
}

#[test]
fn test_s() {
    let testee = decode_json(r#"{"seconds":2}"#).expect("Unable to parse");

    assert_eq!(testee.as_nanos(), 2_000_000_000);
}

#[test]
fn test_m() {
    let testee = decode_json(r#"{"minutes":3}"#).expect("Unable to parse");

    assert_eq!(testee.as_nanos(), 180_000_000_000);
}

#[test]
fn test_h() {
    let testee = decode_json(r#"{"hours":4}"#).expect("Unable to parse");

    assert_eq!(testee.as_nanos(), 14_400_000_000_000);
}

#[test]
fn test_d() {
    let testee = decode_json(r#"{"days":5}"#).expect("Unable to parse");

    assert_eq!(testee.as_nanos(), 432_000_000_000_000);
}

#[test]
fn test_w() {
    let testee = decode_json(r#"{"weeks":1}"#).expect("Unable to parse");

    assert_eq!(testee.as_nanos(), 604_800_000_000_000);
}

#[test]
fn test_two() {
    let testee = decode_json(r#"{"nanoseconds":100, "seconds": 1}"#).expect("Unable to parse");

    assert_eq!(testee.as_nanos(), 1_000_000_100);
}

#[test]
fn test_none() {
    decode_json(r#"{}"#).expect_err("Somehow able to parse");
}

#[test]
fn empty_input_is_missing_any_field() {
    assert_eq!(decode_entries(&vec![]), Err(DecodeError::MissingAnyField));
}

#[test]
fn order_of_fields_does_not_matter() {
    let forward = decode_entries(&vec![entry("nanoseconds", 100), entry("seconds", 1)]).unwrap();
    let backward = decode_entries(&vec![entry("seconds", 1), entry("nanoseconds", 100)]).unwrap();
    assert_eq!(forward.as_nanos(), 1_000_000_100);
    assert_eq!(backward.as_nanos(), 1_000_000_100);
    assert_eq!(forward, backward);
}

#[test]
fn duplicate_field_is_named() {
    assert_eq!(
        decode_json(r#"{"nanoseconds":1,"nanoseconds":2}"#),
        Err(DecodeError::DuplicateField(Field::Nanos))
    );
    assert_eq!(Field::Nanos.name(), "nanoseconds");
}

#[test]
fn unknown_field_is_named() {
    assert_eq!(
        decode_json(r#"{"fortnights":1}"#),
        Err(DecodeError::UnknownField("fortnights".to_string()))
    );
}

#[test]
fn keys_are_case_sensitive() {
    assert_eq!(
        decode_entries(&vec![entry("Seconds", 1)]),
        Err(DecodeError::UnknownField("Seconds".to_string()))
    );
}

#[test]
fn first_bad_entry_is_reported() {
    let entries = vec![
        entry("hours", 1),
        entry("hours", 2),
        entry("fortnights", 1),
    ];
    assert_eq!(decode_entries(&entries), Err(DecodeError::DuplicateField(Field::Hours)));
    let entries = vec![entry("hours", 1), entry("fortnights", 1), entry("hours", 2)];
    assert_eq!(
        decode_entries(&entries),
        Err(DecodeError::UnknownField("fortnights".to_string()))
    );
}

#[test]
fn all_fields_at_their_largest_add_up() {
    let names = [
        "nanoseconds",
        "microseconds",
        "milliseconds",
        "seconds",
        "minutes",
        "hours",
        "days",
        "weeks",
    ];
    let entries: Vec<(String, u64)> = names.iter().map(|n| entry(n, u64::MAX)).collect();
    let scale_sum: u128 = 1
        + 1_000
        + 1_000_000
        + 1_000_000_000
        + 60_000_000_000
        + 3_600_000_000_000
        + 86_400_000_000_000
        + 604_800_000_000_000;
    let d = decode_entries(&entries).unwrap();
    assert_eq!(d.as_nanos(), u64::MAX as u128 * scale_sum);
}

#[test]
fn field_names_and_scales() {
    let fields = [
        (Field::Nanos, "nanoseconds", 1u128),
        (Field::Micros, "microseconds", 1_000),
        (Field::Millis, "milliseconds", 1_000_000),
        (Field::Secs, "seconds", 1_000_000_000),
        (Field::Mins, "minutes", 60_000_000_000),
        (Field::Hours, "hours", 3_600_000_000_000),
        (Field::Days, "days", 86_400_000_000_000),
        (Field::Weeks, "weeks", 604_800_000_000_000),
    ];
    for (field, name, scale) in fields {
        assert_eq!(field.name(), name);
        assert_eq!(Field::from_name(name), Some(field));
        assert_eq!(field.nanos_per_unit(), scale);
    }
    assert_eq!(Field::from_name("fortnights"), None);
    assert_eq!(Field::from_name(""), None);
}

#[test]
fn fields_step_by_step() {
    let mut fields = DurationFields::new();
    assert_eq!(fields.finish(), Err(DecodeError::MissingAnyField));
    assert_eq!(fields.accept_key("days"), Ok(Field::Days));
    fields.record(Field::Days, 2);
    assert_eq!(fields.get(Field::Days), Some(2));
    assert_eq!(fields.get(Field::Hours), None);
    assert_eq!(fields.accept_key("days"), Err(DecodeError::DuplicateField(Field::Days)));
    assert_eq!(
        fields.accept_key("fortnights"),
        Err(DecodeError::UnknownField("fortnights".to_string()))
    );
    assert_eq!(fields.accept_key("hours"), Ok(Field::Hours));
    fields.record(Field::Hours, 3);
    assert_eq!(
        fields.finish().unwrap().as_nanos(),
        2 * 86_400_000_000_000 + 3 * 3_600_000_000_000
    );
}

#[test]
fn whole_seconds_are_truncated() {
    let d = decode_json(r#"{"seconds":2,"nanoseconds":500000000}"#).expect("Unable to parse");
    assert_eq!(d.as_nanos(), 2_500_000_000);
    assert_eq!(d.as_secs(), 2);
}
