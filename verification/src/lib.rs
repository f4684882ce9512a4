//! Writes the one-sentence summary of a Last.fm user's most played artists.
//!
//! The library holds everything of a run that computes: the request
//! address of a configuration (`Config::get_uri`), with its three texts
//! percent-encoded, the reading of the decoded response (`read_artists`),
//! and the sentence itself (`construct_output`, or `summarize` from the
//! bytes of the response). Fetching the response is left to the caller.

pub mod artist;
pub mod config;
pub mod error;
pub mod escape;
pub mod json;
pub mod output;
pub mod period;
pub mod query;
pub mod round_trip;
pub mod text;

pub use artist::{read_artists, read_record, ArtistRecord};
pub use config::{env_file_path, Config, ConfigError, ConfigField, DEFAULT_LIMIT, DEFAULT_PERIOD};
pub use error::{ArtistField, FormatError, SummaryError};
pub use escape::{percent_decode, percent_encode};
pub use output::{construct_output, entry_ending, format_summary, summarize};
pub use period::period_phrase;
pub use query::{decoded_param, query_param};
