use lfmc::{env_file_path, summarize, ArtistField, Config, FormatError, SummaryError};

fn config(limit: u16, period: &str) -> Config {
    Config::new("key".to_string(), "someone".to_string(), limit, period.to_string())
}

#[test]
fn summary_of_a_body() {
    let body = br#"{"topartists":{"artist":[
        {"name":"Stereolab","playcount":"120"},
        {"name":"Broadcast","playcount":"64"},
        {"name":"Pram","playcount":"9"}]}}"#;
    assert_eq!(
        summarize(config(3, "6month"), body),
        Ok("♫ My Top 3 played artists in the past 6 months: Stereolab (120), Broadcast (64), & Pram (9). Via #LastFM ♫"
            .to_string())
    );
}

#[test]
fn summary_of_a_body_with_escapes() {
    let body = r#" {"topartists": {"artist": [{"name": "Sigur Rós \"live\" \u266b", "playcount": "7"}]}} "#;
    assert_eq!(
        summarize(config(1, "overall"), body.as_bytes()),
        Ok("♫ My Top 1 played artists in the past: Sigur Rós \"live\" ♫ (7). Via #LastFM ♫".to_string())
    );
}

#[test]
fn body_that_is_no_json() {
    for body in [
        &b""[..],
        &b"   "[..],
        &b"<html>Service Unavailable</html>"[..],
        &br#"{"topartists":{"artist":[]}"#[..],
        &br#"{"topartists":{"artist":[]}} trailing"#[..],
        &br#"{'topartists':{}}"#[..],
        &b"{\"topartists\":\"\xff\"}"[..],
    ] {
        assert_eq!(summarize(config(5, "7day"), body), Err(SummaryError::Decoding));
    }
}

#[test]
fn body_that_is_no_json_is_reported_before_the_period() {
    assert_eq!(summarize(config(5, "fortnight"), b"oops"), Err(SummaryError::Decoding));
}

#[test]
fn decoded_body_with_a_format_error() {
    assert_eq!(
        summarize(config(5, "fortnight"), b"{}"),
        Err(SummaryError::Format(FormatError::InvalidPeriod("fortnight".to_string())))
    );
    assert_eq!(
        summarize(config(5, "7day"), b"{}"),
        Err(SummaryError::Format(FormatError::MalformedResponse))
    );
    assert_eq!(
        summarize(config(5, "7day"), br#"{"topartists":{"artist":[{"name":"A"}]}}"#),
        Err(SummaryError::Format(FormatError::MissingField(ArtistField::Playcount)))
    );
}

#[test]
fn summary_messages() {
    assert_eq!(SummaryError::Decoding.message(), "Could not convert response to JSON.");
    assert_eq!(
        SummaryError::Format(FormatError::MalformedResponse).message(),
        "Error parsing JSON."
    );
    assert_eq!(
        SummaryError::Format(FormatError::MissingField(ArtistField::Name)).message(),
        "Artist not found."
    );
}

#[test]
fn settings_file_of_a_home_directory() {
    assert_eq!(env_file_path("/home/rj"), "/home/rj/.config/lfmc/.env");
    assert_eq!(env_file_path(""), "/.config/lfmc/.env");
    assert_eq!(env_file_path("/home/rj/"), "/home/rj//.config/lfmc/.env");
}
