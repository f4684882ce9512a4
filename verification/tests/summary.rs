use lfmc::{
    construct_output, entry_ending, format_summary, period_phrase, ArtistField, ArtistRecord,
    Config, FormatError,
};
use serde_json::Value;

fn config(limit: u16, period: &str) -> Config {
    Config::new("key".to_string(), "someone".to_string(), limit, period.to_string())
}

fn response(artists: &[(&str, &str)]) -> Value {
    let mut entries = Vec::new();
    for (name, playcount) in artists {
        let mut entry = serde_json::Map::new();
        entry.insert("name".to_string(), Value::String(name.to_string()));
        entry.insert("playcount".to_string(), Value::String(playcount.to_string()));
        entries.push(Value::Object(entry));
    }
    let mut top = serde_json::Map::new();
    top.insert("artist".to_string(), Value::Array(entries));
    let mut root = serde_json::Map::new();
    root.insert("topartists".to_string(), Value::Object(top));
    Value::Object(root)
}

fn parse(text: &str) -> Value {
    serde_json::from_str(text).unwrap()
}

const FIVE: [(&str, &str); 5] = [("A", "10"), ("B", "9"), ("C", "8"), ("D", "7"), ("E", "6")];

#[test]
fn five_artists_in_the_past_week() {
    let out = construct_output(config(5, "7day"), response(&FIVE));
    assert_eq!(
        out,
        Ok("♫ My Top 5 played artists in the past week: A (10), B (9), C (8), D (7), & E (6). Via #LastFM ♫"
            .to_string())
    );
}

#[test]
fn five_artists_from_response_text() {
    let json = parse(
        r#"{"topartists":{"artist":[
            {"name":"A","playcount":"10","url":"https://www.last.fm/music/A"},
            {"name":"B","playcount":"9"},
            {"name":"C","playcount":"8"},
            {"name":"D","playcount":"7"},
            {"name":"E","playcount":"6"}],
            "@attr":{"user":"someone","page":"1"}}}"#,
    );
    let out = construct_output(config(5, "7day"), json).unwrap();
    assert_eq!(
        out,
        "♫ My Top 5 played artists in the past week: A (10), B (9), C (8), D (7), & E (6). Via #LastFM ♫"
    );
}

#[test]
fn header_phrase_overall() {
    let out = construct_output(config(5, "overall"), response(&[])).unwrap();
    assert_eq!(out, "♫ My Top 5 played artists in the past:. Via #LastFM ♫");
}

#[test]
fn header_phrase_7day() {
    let out = construct_output(config(5, "7day"), response(&[])).unwrap();
    assert_eq!(out, "♫ My Top 5 played artists in the past week:. Via #LastFM ♫");
}

#[test]
fn header_phrase_1month() {
    let out = construct_output(config(5, "1month"), response(&[])).unwrap();
    assert_eq!(out, "♫ My Top 5 played artists in the past month:. Via #LastFM ♫");
}

#[test]
fn header_phrase_3month() {
    let out = construct_output(config(5, "3month"), response(&[])).unwrap();
    assert_eq!(out, "♫ My Top 5 played artists in the past 3 months:. Via #LastFM ♫");
}

#[test]
fn header_phrase_6month() {
    let out = construct_output(config(5, "6month"), response(&[])).unwrap();
    assert_eq!(out, "♫ My Top 5 played artists in the past 6 months:. Via #LastFM ♫");
}

#[test]
fn header_phrase_12month() {
    let out = construct_output(config(5, "12month"), response(&[])).unwrap();
    assert_eq!(out, "♫ My Top 5 played artists in the past year:. Via #LastFM ♫");
}

#[test]
fn period_table() {
    assert_eq!(period_phrase("overall"), Some(""));
    assert_eq!(period_phrase("7day"), Some(" week"));
    assert_eq!(period_phrase("1month"), Some(" month"));
    assert_eq!(period_phrase("3month"), Some(" 3 months"));
    assert_eq!(period_phrase("6month"), Some(" 6 months"));
    assert_eq!(period_phrase("12month"), Some(" year"));
}

#[test]
fn period_outside_the_table() {
    assert_eq!(period_phrase(""), None);
    assert_eq!(period_phrase("7days"), None);
    assert_eq!(period_phrase("7DAY"), None);
    assert_eq!(period_phrase(" 7day"), None);
    assert_eq!(period_phrase("week"), None);
    assert_eq!(period_phrase("2month"), None);
}

#[test]
fn invalid_period_carries_the_value() {
    let out = construct_output(config(5, "fortnight"), response(&FIVE));
    assert_eq!(out, Err(FormatError::InvalidPeriod("fortnight".to_string())));
}

#[test]
fn invalid_period_is_reported_before_a_malformed_response() {
    let out = construct_output(config(5, "fortnight"), parse("{}"));
    assert_eq!(out, Err(FormatError::InvalidPeriod("fortnight".to_string())));
}

#[test]
fn single_artist_with_limit_one() {
    let out = construct_output(config(1, "7day"), response(&[("Solo", "42")])).unwrap();
    assert_eq!(out, "♫ My Top 1 played artists in the past week: Solo (42). Via #LastFM ♫");
    assert!(!out.contains(','));
    assert!(!out.contains('&'));
}

#[test]
fn limit_one_never_joins() {
    for index in 0..10 {
        assert_eq!(entry_ending(index, 1), "");
    }
}

#[test]
fn two_artists_with_limit_two() {
    let out = construct_output(config(2, "7day"), response(&[("A", "2"), ("B", "1")])).unwrap();
    assert_eq!(out, "♫ My Top 2 played artists in the past week: A (2), & B (1). Via #LastFM ♫");
}

#[test]
fn limit_two_endings() {
    assert_eq!(entry_ending(0, 2), ", &");
    assert_eq!(entry_ending(1, 2), "");
    assert_eq!(entry_ending(2, 2), "");
}

#[test]
fn limit_zero_endings() {
    assert_eq!(entry_ending(0, 0), "");
    assert_eq!(entry_ending(1, 0), "");
    assert_eq!(entry_ending(usize::MAX, 0), "");
}

#[test]
fn limit_zero_still_writes_the_header() {
    let out = construct_output(config(0, "overall"), response(&[])).unwrap();
    assert_eq!(out, "♫ My Top 0 played artists in the past:. Via #LastFM ♫");
}

#[test]
fn limit_zero_with_artists_joins_nothing() {
    let out = construct_output(config(0, "7day"), response(&[("A", "2"), ("B", "1")])).unwrap();
    assert_eq!(out, "♫ My Top 0 played artists in the past week: A (2) B (1). Via #LastFM ♫");
}

#[test]
fn limit_three_endings() {
    assert_eq!(entry_ending(0, 3), ",");
    assert_eq!(entry_ending(1, 3), ", &");
    assert_eq!(entry_ending(2, 3), "");
    assert_eq!(entry_ending(3, 3), "");
}

#[test]
fn endings_at_the_largest_limit() {
    assert_eq!(entry_ending(0, u16::MAX), ",");
    assert_eq!(entry_ending(65532, u16::MAX), ",");
    assert_eq!(entry_ending(65533, u16::MAX), ", &");
    assert_eq!(entry_ending(65534, u16::MAX), "");
    assert_eq!(entry_ending(usize::MAX, u16::MAX), "");
}

#[test]
fn fewer_artists_than_the_limit() {
    let out = construct_output(config(5, "1month"), response(&[("A", "2"), ("B", "1")])).unwrap();
    assert_eq!(out, "♫ My Top 5 played artists in the past month: A (2), B (1),. Via #LastFM ♫");
}

#[test]
fn more_artists_than_the_limit() {
    let out = construct_output(
        config(2, "12month"),
        response(&[("A", "3"), ("B", "2"), ("C", "1")]),
    )
    .unwrap();
    assert_eq!(
        out,
        "♫ My Top 2 played artists in the past year: A (3), & B (2) C (1). Via #LastFM ♫"
    );
}

#[test]
fn names_are_written_as_they_are() {
    let out = construct_output(
        config(2, "overall"),
        response(&[("Björk", "1 200"), ("坂本龍一 & Friends, Ltd.", "n/a")]),
    )
    .unwrap();
    assert_eq!(
        out,
        "♫ My Top 2 played artists in the past: Björk (1 200), & 坂本龍一 & Friends, Ltd. (n/a). Via #LastFM ♫"
    );
}

#[test]
fn format_summary_of_records() {
    let artists = vec![
        ArtistRecord { name: "A".to_string(), playcount: "10".to_string() },
        ArtistRecord { name: "B".to_string(), playcount: "9".to_string() },
        ArtistRecord { name: "C".to_string(), playcount: "8".to_string() },
    ];
    assert_eq!(
        format_summary(3, " 3 months", &artists),
        "♫ My Top 3 played artists in the past 3 months: A (10), B (9), & C (8). Via #LastFM ♫"
    );
}

#[test]
fn format_summary_writes_the_limit_in_decimal() {
    let artists = Vec::new();
    assert_eq!(
        format_summary(65535, "", &artists),
        "♫ My Top 65535 played artists in the past:. Via #LastFM ♫"
    );
    assert_eq!(
        format_summary(100, " year", &artists),
        "♫ My Top 100 played artists in the past year:. Via #LastFM ♫"
    );
}

#[test]
fn response_without_topartists() {
    let out = construct_output(config(5, "7day"), parse(r#"{"error":6,"message":"User not found"}"#));
    assert_eq!(out, Err(FormatError::MalformedResponse));
}

#[test]
fn response_without_artist() {
    let out = construct_output(config(5, "7day"), parse(r#"{"topartists":{"@attr":{}}}"#));
    assert_eq!(out, Err(FormatError::MalformedResponse));
}

#[test]
fn response_with_artist_of_another_shape() {
    for text in [
        r#"{"topartists":{"artist":{"name":"A","playcount":"1"}}}"#,
        r#"{"topartists":{"artist":"A"}}"#,
        r#"{"topartists":{"artist":null}}"#,
        r#"{"topartists":{"artist":3}}"#,
        r#"{"topartists":[{"artist":[]}]}"#,
        r#"{"topartists":"artist"}"#,
        r#"[{"topartists":{"artist":[]}}]"#,
        r#"null"#,
        r#""topartists""#,
        r#"17"#,
    ] {
        let out = construct_output(config(5, "7day"), parse(text));
        assert_eq!(out, Err(FormatError::MalformedResponse), "{}", text);
    }
}

#[test]
fn entry_without_name() {
    let json = parse(r#"{"topartists":{"artist":[{"name":"A","playcount":"1"},{"playcount":"2"}]}}"#);
    let out = construct_output(config(5, "7day"), json);
    assert_eq!(out, Err(FormatError::MissingField(ArtistField::Name)));
}

#[test]
fn entry_without_playcount() {
    let json = parse(r#"{"topartists":{"artist":[{"name":"A","playcount":"1"},{"name":"B"}]}}"#);
    let out = construct_output(config(5, "7day"), json);
    assert_eq!(out, Err(FormatError::MissingField(ArtistField::Playcount)));
}

#[test]
fn entry_without_both_names_the_name() {
    let json = parse(r#"{"topartists":{"artist":[{}]}}"#);
    let out = construct_output(config(5, "7day"), json);
    assert_eq!(out, Err(FormatError::MissingField(ArtistField::Name)));
}

#[test]
fn first_incomplete_entry_decides() {
    let json = parse(r#"{"topartists":{"artist":[{"name":"A"},{"playcount":"2"}]}}"#);
    let out = construct_output(config(5, "7day"), json);
    assert_eq!(out, Err(FormatError::MissingField(ArtistField::Playcount)));
}

#[test]
fn fields_of_another_type_count_as_missing() {
    let json = parse(r#"{"topartists":{"artist":[{"name":"A","playcount":12}]}}"#);
    let out = construct_output(config(5, "7day"), json);
    assert_eq!(out, Err(FormatError::MissingField(ArtistField::Playcount)));
    let json = parse(r#"{"topartists":{"artist":[{"name":["A"],"playcount":"12"}]}}"#);
    let out = construct_output(config(5, "7day"), json);
    assert_eq!(out, Err(FormatError::MissingField(ArtistField::Name)));
    let json = parse(r#"{"topartists":{"artist":["A"]}}"#);
    let out = construct_output(config(5, "7day"), json);
    assert_eq!(out, Err(FormatError::MissingField(ArtistField::Name)));
}

#[test]
fn messages() {
    assert_eq!(
        FormatError::InvalidPeriod("fortnight".to_string()).message(),
        "Period fortnight not allowed. Only allow \"overall\", \"7day\", \"1month\", \"3month\", \"6month\", or \"12month\"."
    );
    assert_eq!(FormatError::MalformedResponse.message(), "Error parsing JSON.");
    assert_eq!(FormatError::MissingField(ArtistField::Name).message(), "Artist not found.");
    assert_eq!(
        FormatError::MissingField(ArtistField::Playcount).message(),
        "Playcount not found."
    );
}

#[test]
fn field_keys() {
    assert_eq!(ArtistField::Name.key(), "name");
    assert_eq!(ArtistField::Playcount.key(), "playcount");
}
