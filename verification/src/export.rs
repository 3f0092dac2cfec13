//! The CSV document that the log is exported as: a header row, then one row
//! per entry with its timestamp, key and interval in milliseconds.
use vstd::prelude::*;
use crate::entry::{LogEntry, LogEntryView, entries_view};
use crate::text::{decimal, decimal_string, string_of, strings_view};

verus! {

/// Characters that force a CSV field into quotes: the delimiter, the quote and
/// the two line-break characters.
pub open spec fn is_csv_special(c: char) -> bool {
    c == ',' || c == '"' || c == '\n' || c == '\r'
}

/// Whether a field must be quoted.
pub open spec fn needs_quotes(f: Seq<char>) -> bool {
    exists|i: int| 0 <= i < f.len() && is_csv_special(#[trigger] f[i])
}

/// `f` with each double quote doubled.
pub open spec fn double_quotes(f: Seq<char>) -> Seq<char>
    decreases f.len(),
{
    if f.len() == 0 {
        Seq::empty()
    } else {
        double_quotes(f.drop_last()) + if f.last() == '"' {
            seq!['"', '"']
        } else {
            seq![f.last()]
        }
    }
}

/// A field as written: as it is, or between double quotes with its quotes doubled.
pub open spec fn csv_field(f: Seq<char>) -> Seq<char> {
    if needs_quotes(f) {
        seq!['"'] + double_quotes(f) + seq!['"']
    } else {
        f
    }
}

/// The fields of a record, written and separated by commas.
pub open spec fn joined_fields(fields: Seq<Seq<char>>) -> Seq<char>
    decreases fields.len(),
{
    if fields.len() == 0 {
        Seq::empty()
    } else if fields.len() == 1 {
        csv_field(fields[0])
    } else {
        joined_fields(fields.drop_last()) + seq![','] + csv_field(fields.last())
    }
}

/// A record as the csv crate's default writer writes it: its joined fields, or
/// `""` where they would be empty, then a line feed.
pub open spec fn csv_record(fields: Seq<Seq<char>>) -> Seq<char> {
    (if joined_fields(fields).len() == 0 {
        seq!['"', '"']
    } else {
        joined_fields(fields)
    }) + seq!['\n']
}

/// The header row of the export.
pub open spec fn header_row() -> Seq<Seq<char>> {
    seq![
        seq!['t', 'i', 'm', 'e', 's', 't', 'a', 'm', 'p'],
        seq!['k', 'e', 'y'],
        seq!['l', 'a', 't', 'e', 'n', 'c', 'y', '_', 'm', 's'],
    ]
}

/// The latency column of an entry: its milliseconds, or empty for the first
/// entry of a session.
pub open spec fn latency_cell(latency_ms: Option<u64>) -> Seq<char> {
    match latency_ms {
        Some(ms) => decimal(ms as nat),
        None => Seq::empty(),
    }
}

/// The row of an entry.
pub open spec fn entry_row(e: LogEntryView) -> Seq<Seq<char>> {
    seq![e.timestamp, e.key, latency_cell(e.latency_ms)]
}

/// The rows of the entries, written one after the other.
pub open spec fn entry_records(logs: Seq<LogEntryView>) -> Seq<char>
    decreases logs.len(),
{
    if logs.len() == 0 {
        Seq::empty()
    } else {
        entry_records(logs.drop_last()) + csv_record(entry_row(logs.last()))
    }
}

/// The exported document: the header row, then one row per entry.
pub open spec fn csv_document(logs: Seq<LogEntryView>) -> Seq<char> {
    csv_record(header_row()) + entry_records(logs)
}

/// Writes one record with the csv crate's default writer (`Writer::from_writer`
/// on a byte vector, `write_record`, `into_inner`) and reads the bytes back as
/// text. The claim is that this succeeds and that the writer has quoted exactly
/// the fields holding a comma, a double quote, a carriage return or a line feed,
/// doubled the quotes inside them, separated the fields by commas, written `""`
/// for a record that would otherwise be empty and ended the record with a line
/// feed. Success follows from the csv source: its only errors are I/O errors of
/// the underlying writer, which a byte vector never returns, and a record length
/// differing from the first record's, which a fresh writer cannot meet; the
/// bytes are the fields' UTF-8 bytes with ASCII bytes inserted between
/// characters, so they read back as text.
#[verifier::external_body]
fn write_csv_record(fields: &Vec<String>) -> (r: Option<String>)
    ensures
        r is Some,
        r matches Some(s) ==> s@ == csv_record(strings_view(fields@)),
{
    let mut writer = csv::Writer::from_writer(Vec::new());
    if writer.write_record(fields).is_err() {
        return None;
    }
    match writer.into_inner() {
        Ok(bytes) => String::from_utf8(bytes).ok(),
        Err(_) => None,
    }
}

/// The latency column of an entry, as text.
pub fn latency_cell_text(latency_ms: Option<u64>) -> (s: String)
    ensures
        s@ == latency_cell(latency_ms),
{
    match latency_ms {
        Some(ms) => decimal_string(ms),
        None => String::new(),
    }
}

/// The header row.
fn header_fields() -> (v: Vec<String>)
    ensures
        strings_view(v@) == header_row(),
{
    let v = vec![
        string_of(&['t', 'i', 'm', 'e', 's', 't', 'a', 'm', 'p']),
        string_of(&['k', 'e', 'y']),
        string_of(&['l', 'a', 't', 'e', 'n', 'c', 'y', '_', 'm', 's']),
    ];
    assert(strings_view(v@) =~= header_row());
    v
}

/// The row of an entry.
pub fn entry_fields(e: &LogEntry) -> (v: Vec<String>)
    ensures
        strings_view(v@) == entry_row(e@),
{
    let v = vec![e.timestamp.clone(), e.key.clone(), latency_cell_text(e.latency_ms)];
    assert(strings_view(v@) =~= entry_row(e@));
    v
}

/// The log as a CSV document; the csv writer never fails on these rows.
pub fn csv_document_text(logs: &Vec<LogEntry>) -> (r: Option<String>)
    ensures
        r is Some,
        r matches Some(d) ==> d@ == csv_document(entries_view(logs@)),
{
    let ghost entries = entries_view(logs@);
    let mut doc = match write_csv_record(&header_fields()) {
        Some(h) => h,
        None => {
            return None;
        },
    };
    for i in 0..logs.len()
        invariant
            entries == entries_view(logs@),
            doc@ == csv_record(header_row()) + entry_records(entries.take(i as int)),
    {
        let line = match write_csv_record(&entry_fields(&logs[i])) {
            Some(l) => l,
            None => {
                return None;
            },
        };
        proof {
            let p = entries.take(i + 1);
            assert(p.drop_last() =~= entries.take(i as int));
            assert(p.last() == logs@[i as int]@);
        }
        doc.append(line.as_str());
        proof {
            assert(doc@ =~= csv_record(header_row()) + entry_records(entries.take(i + 1)));
        }
    }
    proof {
        assert(entries.take(logs@.len() as int) =~= entries);
    }
    Some(doc)
}

/// The latency column of a timed entry reads back as its milliseconds, and that
/// of the first entry of a session is empty.
pub proof fn lemma_latency_cell_reads_back(latency_ms: Option<u64>)
    ensures
        latency_ms matches Some(ms) ==> crate::text::decimal_value(latency_cell(latency_ms))
            == ms,
        latency_ms matches Some(ms) ==> latency_cell(latency_ms).len() > 0,
        latency_ms is None ==> latency_cell(latency_ms).len() == 0,
{
    if let Some(ms) = latency_ms {
        crate::text::lemma_decimal_value(ms as nat);
    }
}

/// A field without a comma, a double quote or a line break is written as it is.
pub proof fn lemma_plain_field_unquoted(f: Seq<char>)
    requires
        forall|i: int| 0 <= i < f.len() ==> !is_csv_special(#[trigger] f[i]),
    ensures
        csv_field(f) == f,
{
}

/// The row of an entry whose timestamp and key hold no comma, double quote or
/// line break is its timestamp, a comma, its key, a comma, its milliseconds
/// (nothing for the first entry of a session) and a line feed.
pub proof fn lemma_plain_entry_record(e: LogEntryView)
    requires
        forall|i: int| 0 <= i < e.timestamp.len() ==> !is_csv_special(#[trigger] e.timestamp[i]),
        forall|i: int| 0 <= i < e.key.len() ==> !is_csv_special(#[trigger] e.key[i]),
    ensures
        csv_record(entry_row(e)) == e.timestamp + seq![','] + e.key + seq![','] + latency_cell(
            e.latency_ms,
        ) + seq!['\n'],
{
    let row = entry_row(e);
    let cell = latency_cell(e.latency_ms);
    assert forall|i: int| 0 <= i < cell.len() implies !is_csv_special(#[trigger] cell[i]) by {
        if let Some(ms) = e.latency_ms {
            lemma_decimal_digits(ms as nat, i);
        }
    }
    assert(row.drop_last() =~= seq![e.timestamp, e.key]);
    assert(row.drop_last().drop_last() =~= seq![e.timestamp]);
    assert(row.last() == cell);
    assert(row.drop_last().last() == e.key);
    assert(row.drop_last()[0] == e.timestamp);
    lemma_plain_field_unquoted(e.timestamp);
    lemma_plain_field_unquoted(e.key);
    lemma_plain_field_unquoted(cell);
    let one = row.drop_last().drop_last();
    assert(joined_fields(one) == csv_field(e.timestamp));
    assert(joined_fields(row.drop_last()) == joined_fields(one) + seq![','] + csv_field(e.key));
    assert(joined_fields(row) == joined_fields(row.drop_last()) + seq![','] + csv_field(cell));
    let joined = e.timestamp + seq![','] + e.key + seq![','] + cell;
    assert(joined_fields(row) =~= joined);
    assert(joined.len() > 0);
}

/// Every character of a decimal notation is a digit.
proof fn lemma_decimal_digits(n: nat, i: int)
    requires
        0 <= i < decimal(n).len(),
    ensures
        '0' <= decimal(n)[i] <= '9',
    decreases n,
{
    if n >= 10 && i < decimal(n).len() - 1 {
        lemma_decimal_digits(n / 10, i);
    }
}

/// The document starts with the header line `timestamp,key,latency_ms`.
pub proof fn lemma_document_starts_with_header(logs: Seq<LogEntryView>)
    ensures
        csv_document(logs).subrange(0, 25) == seq![
            't', 'i', 'm', 'e', 's', 't', 'a', 'm', 'p', ',', 'k', 'e', 'y', ',', 'l', 'a', 't',
            'e', 'n', 'c', 'y', '_', 'm', 's', '\n',
        ],
{
    let h = header_row();
    let (f0, f1, f2) = (h[0], h[1], h[2]);
    assert forall|i: int| 0 <= i < f0.len() implies !is_csv_special(#[trigger] f0[i]) by {}
    assert forall|i: int| 0 <= i < f1.len() implies !is_csv_special(#[trigger] f1[i]) by {}
    assert forall|i: int| 0 <= i < f2.len() implies !is_csv_special(#[trigger] f2[i]) by {}
    lemma_plain_field_unquoted(f0);
    lemma_plain_field_unquoted(f1);
    lemma_plain_field_unquoted(f2);
    assert(h.drop_last() =~= seq![f0, f1]);
    assert(h.drop_last().drop_last() =~= seq![f0]);
    assert(joined_fields(h.drop_last().drop_last()) == f0);
    assert(joined_fields(h.drop_last()) == f0 + seq![','] + f1);
    assert(joined_fields(h) == f0 + seq![','] + f1 + seq![','] + f2);
    assert(csv_record(h) =~= seq![
        't', 'i', 'm', 'e', 's', 't', 'a', 'm', 'p', ',', 'k', 'e', 'y', ',', 'l', 'a', 't',
        'e', 'n', 'c', 'y', '_', 'm', 's', '\n',
    ]);
    assert(csv_document(logs).subrange(0, 25) =~= csv_record(h));
}

} // verus!
