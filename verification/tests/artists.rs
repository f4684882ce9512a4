use lfmc::{read_artists, read_record, ArtistField, ArtistRecord, FormatError};
use serde_json::Value;

fn decode(text: &str) -> Value {
    serde_json::from_str(text).unwrap()
}

fn record(name: &str, playcount: &str) -> ArtistRecord {
    ArtistRecord { name: name.to_string(), playcount: playcount.to_string() }
}

#[test]
fn records_in_the_order_of_the_response() {
    let json = decode(
        r#"{"topartists":{"artist":[
            {"name":"Low","playcount":"31"},
            {"name":"Can","playcount":"27"},
            {"name":"Low","playcount":"31"}]}}"#,
    );
    assert_eq!(
        read_artists(&json),
        Ok(vec![record("Low", "31"), record("Can", "27"), record("Low", "31")])
    );
}

#[test]
fn empty_array_gives_no_records() {
    let json = decode(r#"{"topartists":{"artist":[]}}"#);
    assert_eq!(read_artists(&json), Ok(Vec::new()));
}

#[test]
fn no_array_gives_no_records() {
    assert_eq!(read_artists(&decode("{}")), Err(FormatError::MalformedResponse));
    assert_eq!(read_artists(&Value::Null), Err(FormatError::MalformedResponse));
    assert_eq!(
        read_artists(&decode(r#"{"artist":[{"name":"A","playcount":"1"}]}"#)),
        Err(FormatError::MalformedResponse)
    );
}

#[test]
fn one_incomplete_entry_gives_no_records() {
    let json = decode(
        r#"{"topartists":{"artist":[
            {"name":"Low","playcount":"31"},
            {"name":"Can"},
            {"name":"Neu!","playcount":"5"}]}}"#,
    );
    assert_eq!(read_artists(&json), Err(FormatError::MissingField(ArtistField::Playcount)));
}

#[test]
fn record_of_an_entry() {
    let entry = decode(r#"{"name":"Low","playcount":"31","mbid":""}"#);
    assert_eq!(read_record(&entry), Ok(record("Low", "31")));
}

#[test]
fn record_keeps_empty_texts() {
    let entry = decode(r#"{"name":"","playcount":""}"#);
    assert_eq!(read_record(&entry), Ok(record("", "")));
}

#[test]
fn record_of_what_is_no_entry() {
    assert_eq!(
        read_record(&decode(r#"{"Name":"Low","playcount":"31"}"#)),
        Err(FormatError::MissingField(ArtistField::Name))
    );
    assert_eq!(
        read_record(&decode(r#"{"name":"Low","playcount":31}"#)),
        Err(FormatError::MissingField(ArtistField::Playcount))
    );
    assert_eq!(
        read_record(&decode(r#"{"name":null,"playcount":"31"}"#)),
        Err(FormatError::MissingField(ArtistField::Name))
    );
    assert_eq!(
        read_record(&decode(r#"["Low","31"]"#)),
        Err(FormatError::MissingField(ArtistField::Name))
    );
    assert_eq!(
        read_record(&decode(r#""Low""#)),
        Err(FormatError::MissingField(ArtistField::Name))
    );
}
