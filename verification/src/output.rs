//! The summary sentence: header, one entry per artist with its joining
//! token, and the closing words.

use crate::artist::{
    artist_entries, artists_of, field_of, lemma_first_incomplete_entry,
    lemma_incomplete_entry_fails, read_artists, record_of, record_views, ArtistRecord, ArtistView,
};
use crate::config::{Config, ConfigView};
use crate::error::{ArtistField, FormatFailure, FormatError, SummaryError, SummaryFailure};
use crate::json::{decoded, from_slice, json_view, Json};
use crate::period::{is_period_code, lemma_period_table, period_phrase, phrase_of};
use crate::text::{decimal, decimal_string};
use serde_json::Value;
use vstd::prelude::*;
use vstd::string::*;

verus! {

/// The token that follows the entry at `index` when `limit` artists were
/// asked for: a comma up to the third entry from the end, `", &"` after the
/// second from the end, nothing from there on. The positions are counted
/// from `limit`, not from the number of entries at hand, and the
/// subtractions are those of the integers: below a limit of three no index
/// gets a comma, below two none gets the ampersand.
pub open spec fn ending_of(index: int, limit: int) -> Seq<char> {
    if index <= limit - 3 {
        ","@
    } else if index == limit - 2 {
        ", &"@
    } else {
        ""@
    }
}

/// The text of one entry: a blank, the name, the play count in brackets,
/// and the joining token of its position.
pub open spec fn entry_text(artist: ArtistView, index: int, limit: int) -> Seq<char> {
    " "@ + artist.name + " ("@ + artist.playcount + ")"@ + ending_of(index, limit)
}

/// The entries of all artists, in order.
pub open spec fn entries_text(artists: Seq<ArtistView>, limit: int) -> Seq<char>
    decreases artists.len(),
{
    if artists.len() == 0 {
        Seq::empty()
    } else {
        entries_text(artists.drop_last(), limit) + entry_text(
            artists.last(),
            artists.len() - 1,
            limit,
        )
    }
}

/// The opening words, with the limit in decimal and the phrase of the period.
pub open spec fn header_text(limit: int, phrase: Seq<char>) -> Seq<char> {
    "♫ My Top "@ + decimal(limit as nat) + " played artists in the past"@ + phrase + ":"@
}

/// The whole sentence.
pub open spec fn summary_text(limit: int, phrase: Seq<char>, artists: Seq<ArtistView>) -> Seq<
    char,
> {
    header_text(limit, phrase) + entries_text(artists, limit) + ". Via #LastFM ♫"@
}

/// What `construct_output` returns for a configuration and a document: the
/// period is judged first, then the shape of the document, then its entries
/// in order.
pub open spec fn output_of(config: ConfigView, doc: Json) -> Result<Seq<char>, FormatFailure> {
    match phrase_of(config.period) {
        None => Err(FormatFailure::InvalidPeriod(config.period)),
        Some(phrase) => match artists_of(doc) {
            Err(failure) => Err(failure),
            Ok(artists) => Ok(summary_text(config.limit as int, phrase, artists)),
        },
    }
}

/// A result of `construct_output` as plain values.
pub open spec fn outcome_view(outcome: Result<String, FormatError>) -> Result<
    Seq<char>,
    FormatFailure,
> {
    match outcome {
        Ok(text) => Ok(text@),
        Err(e) => Err(e@),
    }
}

/// The joining token after the entry at `index`.
pub fn entry_ending(index: usize, limit: u16) -> (ending: &'static str)
    ensures
        ending@ == ending_of(index as int, limit as int),
{
    let limit: usize = limit as usize;
    if limit >= 3 && index <= limit - 3 {
        ","
    } else if limit >= 2 && index == limit - 2 {
        ", &"
    } else {
        ""
    }
}

/// Writes the sentence for records at hand and a phrase already looked up.
pub fn format_summary(limit: u16, phrase: &str, artists: &Vec<ArtistRecord>) -> (text: String)
    ensures
        text@ == summary_text(limit as int, phrase@, record_views(artists@)),
{
    let count = decimal_string(limit);
    let mut text = String::from_str("♫ My Top ");
    text.append(count.as_str());
    text.append(" played artists in the past");
    text.append(phrase);
    text.append(":");
    let ghost header = header_text(limit as int, phrase@);
    let ghost views = record_views(artists@);
    let mut i: usize = 0;
    while i < artists.len()
        invariant
            i <= artists.len(),
            views == record_views(artists@),
            text@ == header + entries_text(views.take(i as int), limit as int),
        decreases artists.len() - i,
    {
        let artist = &artists[i];
        text.append(" ");
        text.append(artist.name.as_str());
        text.append(" (");
        text.append(artist.playcount.as_str());
        text.append(")");
        text.append(entry_ending(i, limit));
        assert(views.take(i + 1).drop_last() =~= views.take(i as int));
        i += 1;
    }
    assert(views.take(i as int) =~= views);
    text.append(". Via #LastFM ♫");
    text
}

/// Writes the summary of a decoded response, or says why there is none.
/// Nothing of the sentence is handed out when any part fails.
pub fn construct_output(config: Config, json: Value) -> (outcome: Result<String, FormatError>)
    ensures
        outcome_view(outcome) == output_of(config@, json_view(json)),
{
    let phrase = match period_phrase(config.period()) {
        Some(phrase) => phrase,
        None => {
            return Err(FormatError::InvalidPeriod(String::from_str(config.period())));
        },
    };
    match read_artists(&json) {
        Err(e) => Err(e),
        Ok(artists) => Ok(format_summary(config.limit(), phrase, &artists)),
    }
}

/// What `summarize` returns for a configuration and the body of a response:
/// the body is decoded first, and the summary written from the document.
pub open spec fn summary_of(config: ConfigView, body: Seq<u8>) -> Result<
    Seq<char>,
    SummaryFailure,
> {
    match decoded(body) {
        None => Err(SummaryFailure::Decoding),
        Some(doc) => match output_of(config, doc) {
            Ok(text) => Ok(text),
            Err(failure) => Err(SummaryFailure::Format(failure)),
        },
    }
}

/// A result of `summarize` as plain values.
pub open spec fn summary_view(outcome: Result<String, SummaryError>) -> Result<
    Seq<char>,
    SummaryFailure,
> {
    match outcome {
        Ok(text) => Ok(text@),
        Err(e) => Err(e@),
    }
}

/// Writes the summary from the body of a response as it was received.
pub fn summarize(config: Config, body: &[u8]) -> (outcome: Result<String, SummaryError>)
    ensures
        summary_view(outcome) == summary_of(config@, body@),
{
    match from_slice(body) {
        Err(_) => Err(SummaryError::Decoding),
        Ok(json) => match construct_output(config, json) {
            Ok(text) => Ok(text),
            Err(e) => Err(SummaryError::Format(e)),
        },
    }
}

/// Below a limit of three the comparison against `limit - 3` is met by no
/// index, so no entry is followed by a comma: the one that stands two
/// before the limit gets `", &"`, every other one nothing.
pub proof fn lemma_small_limit_endings(index: int, limit: int)
    requires
        0 <= index,
        0 <= limit < 3,
    ensures
        ending_of(index, limit) != ","@,
        ending_of(index, limit) == if index == limit - 2 {
            ", &"@
        } else {
            ""@
        },
{
    reveal_strlit(",");
    reveal_strlit(", &");
    reveal_strlit("");
    assert(","@.len() == 1 && ", &"@.len() == 3 && ""@.len() == 0);
}

/// With a limit of one, no entry at all is followed by a comma or an
/// ampersand, and one artist is written as the bare entry.
pub proof fn lemma_single_artist(artist: ArtistView, index: int)
    requires
        0 <= index,
    ensures
        ending_of(index, 1) == Seq::<char>::empty(),
        entries_text(seq![artist], 1) == " "@ + artist.name + " ("@ + artist.playcount + ")"@,
{
    reveal_strlit("");
    assert(entries_text(seq![artist].drop_last(), 1) =~= Seq::<char>::empty());
}

/// With a limit of two, the first of two artists is followed by `", &"`
/// and the second by nothing.
pub proof fn lemma_two_artists(first: ArtistView, second: ArtistView)
    ensures
        ending_of(0, 2) == ", &"@,
        ending_of(1, 2) == Seq::<char>::empty(),
        entries_text(seq![first, second], 2) == " "@ + first.name + " ("@ + first.playcount
            + "), &"@ + " "@ + second.name + " ("@ + second.playcount + ")"@,
{
    reveal_strlit("");
    reveal_strlit(")");
    reveal_strlit(", &");
    reveal_strlit("), &");
    let one = seq![first, second].drop_last();
    assert(entries_text(one.drop_last(), 2) =~= Seq::<char>::empty());
    assert(entries_text(one, 2) =~= entry_text(first, 0, 2));
    assert(entries_text(seq![first, second], 2) =~= " "@ + first.name + " ("@ + first.playcount
        + "), &"@ + " "@ + second.name + " ("@ + second.playcount + ")"@);
}

/// A period that is none of the six codes is reported with its value,
/// whatever the document holds.
pub proof fn lemma_invalid_period(config: ConfigView, doc: Json)
    requires
        !is_period_code(config.period),
    ensures
        output_of(config, doc) == Err::<Seq<char>, FormatFailure>(
            FormatFailure::InvalidPeriod(config.period),
        ),
{
    lemma_period_table();
}

/// With a valid period, a document without an array at `topartists.artist`
/// is reported as malformed.
pub proof fn lemma_malformed_response(config: ConfigView, doc: Json)
    requires
        is_period_code(config.period),
        artist_entries(doc) is None,
    ensures
        output_of(config, doc) == Err::<Seq<char>, FormatFailure>(FormatFailure::MalformedResponse),
{
    lemma_period_table();
}

/// With a valid period, any entry that lacks its name or its play count
/// leaves the response without a sentence, and the error names a missing
/// field.
pub proof fn lemma_missing_field(config: ConfigView, doc: Json, i: int)
    requires
        is_period_code(config.period),
        artist_entries(doc) is Some,
        0 <= i < artist_entries(doc).unwrap().len(),
        record_of(artist_entries(doc).unwrap()[i]) is Err,
    ensures
        output_of(config, doc) is Err,
        output_of(config, doc)->Err_0 is MissingField,
{
    lemma_period_table();
    lemma_incomplete_entry_fails(artist_entries(doc).unwrap(), i);
}

/// With a valid period, the first entry that lacks its name or its play
/// count is reported with the field it lacks, the name before the play
/// count.
pub proof fn lemma_first_missing_field(config: ConfigView, doc: Json, i: int)
    requires
        is_period_code(config.period),
        artist_entries(doc) is Some,
        0 <= i < artist_entries(doc).unwrap().len(),
        forall|j: int| 0 <= j < i ==> (#[trigger] record_of(artist_entries(doc).unwrap()[j])) is Ok,
        record_of(artist_entries(doc).unwrap()[i]) is Err,
    ensures
        output_of(config, doc) == Err::<Seq<char>, FormatFailure>(
            if field_of(artist_entries(doc).unwrap()[i], ArtistField::Name) is None {
                FormatFailure::MissingField(ArtistField::Name)
            } else {
                FormatFailure::MissingField(ArtistField::Playcount)
            },
        ),
{
    lemma_period_table();
    lemma_first_incomplete_entry(artist_entries(doc).unwrap(), i);
}

} // verus!
