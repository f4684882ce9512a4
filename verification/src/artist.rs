//! Artist records and how they are read out of a decoded response.

use crate::error::{ArtistField, FormatFailure, FormatError};
use crate::json::{as_array, as_str, json_view, json_views, member, Json};
use serde_json::Value;
use vstd::prelude::*;
use vstd::string::*;

verus! {

/// One artist of the response: the name and the play count, both as the
/// service wrote them.
#[derive(Debug, Clone, PartialEq, Eq)]
pub struct ArtistRecord {
    pub name: String,
    pub playcount: String,
}

/// An `ArtistRecord` as plain values.
pub struct ArtistView {
    pub name: Seq<char>,
    pub playcount: Seq<char>,
}

impl View for ArtistRecord {
    type V = ArtistView;

    open spec fn view(&self) -> ArtistView {
        ArtistView { name: self.name@, playcount: self.playcount@ }
    }
}

/// The views of a run of records, element by element.
pub open spec fn record_views(records: Seq<ArtistRecord>) -> Seq<ArtistView> {
    Seq::new(records.len(), |i: int| records[i]@)
}

/// The entries of the array at `topartists.artist`, if the document holds
/// an array there.
pub open spec fn artist_entries(doc: Json) -> Option<Seq<Json>> {
    doc.member("topartists"@).member("artist"@).items()
}

/// The text that an entry holds for a field: the member under the key of
/// the field, when the entry is an object and the member a string.
pub open spec fn field_of(entry: Json, field: ArtistField) -> Option<Seq<char>> {
    entry.member(field.key_text()).text()
}

/// The record that an entry gives. The name is looked at before the play
/// count.
pub open spec fn record_of(entry: Json) -> Result<ArtistView, FormatFailure> {
    match field_of(entry, ArtistField::Name) {
        None => Err(FormatFailure::MissingField(ArtistField::Name)),
        Some(name) => match field_of(entry, ArtistField::Playcount) {
            None => Err(FormatFailure::MissingField(ArtistField::Playcount)),
            Some(playcount) => Ok(ArtistView { name, playcount }),
        },
    }
}

/// The records of all entries in order, or the error of the first entry
/// that gives none.
pub open spec fn records_of(entries: Seq<Json>) -> Result<Seq<ArtistView>, FormatFailure>
    decreases entries.len(),
{
    if entries.len() == 0 {
        Ok(Seq::empty())
    } else {
        match records_of(entries.drop_last()) {
            Err(e) => Err(e),
            Ok(front) => match record_of(entries.last()) {
                Err(e) => Err(e),
                Ok(record) => Ok(front.push(record)),
            },
        }
    }
}

/// What `read_artists` returns for a document.
pub open spec fn artists_of(doc: Json) -> Result<Seq<ArtistView>, FormatFailure> {
    match artist_entries(doc) {
        None => Err(FormatFailure::MalformedResponse),
        Some(entries) => records_of(entries),
    }
}

/// Reads one field of an entry.
fn read_field(entry: &Value, field: ArtistField) -> (read: Result<String, FormatError>)
    ensures
        match read {
            Ok(text) => field_of(json_view(*entry), field) == Some(text@),
            Err(e) => field_of(json_view(*entry), field) is None
                && e@ == FormatFailure::MissingField(field),
        },
{
    match as_str(member(entry, field.key())) {
        Some(text) => Ok(String::from_str(text)),
        None => Err(FormatError::MissingField(field)),
    }
}

/// Reads one entry of the artist array.
pub fn read_record(entry: &Value) -> (read: Result<ArtistRecord, FormatError>)
    ensures
        match read {
            Ok(record) => record_of(json_view(*entry)) == Ok::<ArtistView, FormatFailure>(record@),
            Err(e) => record_of(json_view(*entry)) == Err::<ArtistView, FormatFailure>(e@),
        },
{
    let name = match read_field(entry, ArtistField::Name) {
        Ok(text) => text,
        Err(e) => {
            return Err(e);
        },
    };
    let playcount = match read_field(entry, ArtistField::Playcount) {
        Ok(text) => text,
        Err(e) => {
            return Err(e);
        },
    };
    Ok(ArtistRecord { name, playcount })
}

/// Reads the artist records of a decoded response, in the order of the
/// response. Nothing is returned unless every entry is complete.
pub fn read_artists(json: &Value) -> (read: Result<Vec<ArtistRecord>, FormatError>)
    ensures
        match read {
            Ok(records) => artists_of(json_view(*json)) == Ok::<Seq<ArtistView>, FormatFailure>(
                record_views(records@),
            ),
            Err(e) => artists_of(json_view(*json)) == Err::<Seq<ArtistView>, FormatFailure>(e@),
        },
{
    let entries = match as_array(member(member(json, "topartists"), "artist")) {
        Some(entries) => entries,
        None => {
            return Err(FormatError::MalformedResponse);
        },
    };
    let ghost docs = json_views(entries@);
    let mut records: Vec<ArtistRecord> = Vec::new();
    let mut i: usize = 0;
    assert(record_views(records@) =~= Seq::<ArtistView>::empty());
    while i < entries.len()
        invariant
            i <= entries.len(),
            docs == json_views(entries@),
            artist_entries(json_view(*json)) == Some(docs),
            records.len() == i,
            records_of(docs.take(i as int)) == Ok::<Seq<ArtistView>, FormatFailure>(
                record_views(records@),
            ),
        decreases entries.len() - i,
    {
        assert(docs.take(i + 1).drop_last() =~= docs.take(i as int));
        match read_record(&entries[i]) {
            Err(e) => {
                proof {
                    lemma_records_fail_later(docs, i + 1);
                }
                return Err(e);
            },
            Ok(record) => {
                let ghost before = record_views(records@);
                records.push(record);
                assert(record_views(records@) =~= before.push(record@));
            },
        }
        i += 1;
    }
    assert(docs.take(i as int) =~= docs);
    Ok(records)
}

/// Once a prefix of the entries fails, the whole run fails in the same way.
pub proof fn lemma_records_fail_later(entries: Seq<Json>, k: int)
    requires
        0 <= k <= entries.len(),
        records_of(entries.take(k)) is Err,
    ensures
        records_of(entries) == records_of(entries.take(k)),
    decreases entries.len(),
{
    if k == entries.len() {
        assert(entries.take(k) =~= entries);
    } else {
        assert(entries.drop_last().take(k) =~= entries.take(k));
        lemma_records_fail_later(entries.drop_last(), k);
    }
}

/// As long as every entry gives a record, so does the run, one record for
/// each entry.
pub proof fn lemma_records_complete(entries: Seq<Json>)
    requires
        forall|j: int| 0 <= j < entries.len() ==> (#[trigger] record_of(entries[j])) is Ok,
    ensures
        records_of(entries) is Ok,
        records_of(entries)->Ok_0.len() == entries.len(),
        forall|j: int|
            0 <= j < entries.len() ==> record_of(entries[j]) == Ok::<ArtistView, FormatFailure>(
                #[trigger] records_of(entries)->Ok_0[j],
            ),
    decreases entries.len(),
{
    if entries.len() > 0 {
        let front = entries.drop_last();
        assert forall|j: int| 0 <= j < front.len() implies (#[trigger] record_of(
            front[j],
        )) is Ok by {
            assert(front[j] == entries[j]);
        }
        lemma_records_complete(front);
    }
}

/// The first entry that lacks a field decides the error: the name is named
/// when it is missing, the play count when only that is.
pub proof fn lemma_first_incomplete_entry(entries: Seq<Json>, i: int)
    requires
        0 <= i < entries.len(),
        forall|j: int| 0 <= j < i ==> (#[trigger] record_of(entries[j])) is Ok,
        record_of(entries[i]) is Err,
    ensures
        records_of(entries) == Err::<Seq<ArtistView>, FormatFailure>(
            if field_of(entries[i], ArtistField::Name) is None {
                FormatFailure::MissingField(ArtistField::Name)
            } else {
                FormatFailure::MissingField(ArtistField::Playcount)
            },
        ),
{
    let front = entries.take(i);
    assert forall|j: int| 0 <= j < front.len() implies (#[trigger] record_of(front[j])) is Ok by {
        assert(front[j] == entries[j]);
    }
    lemma_records_complete(front);
    assert(entries.take(i + 1).drop_last() =~= front);
    lemma_records_fail_later(entries, i + 1);
}

/// An entry that gives no record leaves the whole run without records, and
/// the error names a missing field.
pub proof fn lemma_incomplete_entry_fails(entries: Seq<Json>, i: int)
    requires
        0 <= i < entries.len(),
        record_of(entries[i]) is Err,
    ensures
        records_of(entries) is Err,
        records_of(entries)->Err_0 is MissingField,
    decreases entries.len(),
{
    let front = entries.drop_last();
    if i < front.len() {
        assert(front[i] == entries[i]);
        lemma_incomplete_entry_fails(front, i);
    } else if records_of(front) is Err {
        lemma_records_name_a_field(front);
    }
}

/// The only error of a run of entries is a missing field.
pub proof fn lemma_records_name_a_field(entries: Seq<Json>)
    requires
        records_of(entries) is Err,
    ensures
        records_of(entries)->Err_0 is MissingField,
    decreases entries.len(),
{
    if entries.len() > 0 && records_of(entries.drop_last()) is Err {
        lemma_records_name_a_field(entries.drop_last());
    }
}

} // verus!
