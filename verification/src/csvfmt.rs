//! CSV encoding of one record: the comma-joined, newline-terminated
//! line that the log sink appends for a header or a data row.
//!
//! The encoding itself is done by the `csv` crate; its writer, with the
//! default configuration, writes a field verbatim whenever the field is
//! nonempty and contains no delimiter, quote or record-terminator
//! character, so for such fields the produced line is stated exactly.

use vstd::prelude::*;

verus! {

/// A character that the csv writer never quotes or escapes under its
/// default configuration: not the delimiter, not the quote character,
/// and not part of a record terminator.
pub open spec fn csv_plain_char(c: char) -> bool {
    c != ',' && c != '"' && c != '\n' && c != '\r'
}

/// A field that the csv writer copies into the output verbatim.
pub open spec fn csv_plain_field(s: Seq<char>) -> bool {
    s.len() > 0 && forall|i: int| 0 <= i < s.len() ==> csv_plain_char(#[trigger] s[i])
}

pub open spec fn all_csv_plain(fields: Seq<Seq<char>>) -> bool {
    forall|i: int| 0 <= i < fields.len() ==> csv_plain_field(#[trigger] fields[i])
}

/// The fields joined by the `,` delimiter, without a terminator.
pub open spec fn csv_join(fields: Seq<Seq<char>>) -> Seq<char>
    decreases fields.len(),
{
    if fields.len() == 0 {
        Seq::empty()
    } else if fields.len() == 1 {
        fields[0]
    } else {
        fields[0] + seq![','] + csv_join(fields.drop_first())
    }
}

/// One encoded record: the joined fields followed by the `\n` terminator.
pub open spec fn csv_line(fields: Seq<Seq<char>>) -> Seq<char> {
    csv_join(fields) + seq!['\n']
}

/// How many times `c` occurs in `s`.
pub open spec fn count_char(s: Seq<char>, c: char) -> nat
    decreases s.len(),
{
    if s.len() == 0 {
        0
    } else {
        count_char(s.drop_last(), c) + (if s.last() == c {
            1nat
        } else {
            0nat
        })
    }
}

/// Occurrence counts add up over concatenation.
pub proof fn lemma_count_char_add(a: Seq<char>, b: Seq<char>, c: char)
    ensures
        count_char(a + b, c) == count_char(a, c) + count_char(b, c),
    decreases b.len(),
{
    if b.len() == 0 {
        assert(a + b =~= a);
    } else {
        lemma_count_char_add(a, b.drop_last(), c);
        assert((a + b).drop_last() =~= a + b.drop_last());
        assert((a + b).last() == b.last());
    }
}

proof fn lemma_count_char_none(s: Seq<char>, c: char)
    requires
        forall|i: int| 0 <= i < s.len() ==> s[i] != c,
    ensures
        count_char(s, c) == 0,
    decreases s.len(),
{
    if s.len() > 0 {
        lemma_count_char_none(s.drop_last(), c);
    }
}

/// The joined fields of a plain record contain no record terminator.
proof fn lemma_csv_join_no_newline(fields: Seq<Seq<char>>)
    requires
        all_csv_plain(fields),
    ensures
        forall|i: int| 0 <= i < csv_join(fields).len() ==> csv_join(fields)[i] != '\n',
    decreases fields.len(),
{
    if fields.len() <= 1 {
    } else {
        assert(all_csv_plain(fields.drop_first()));
        lemma_csv_join_no_newline(fields.drop_first());
        assert forall|i: int| 0 <= i < csv_join(fields).len() implies csv_join(fields)[i]
            != '\n' by {
            let head = fields[0];
            let rest = csv_join(fields.drop_first());
            if i < head.len() {
                assert(csv_join(fields)[i] == head[i]);
            } else if i == head.len() {
                assert(csv_join(fields)[i] == ',');
            } else {
                assert(csv_join(fields)[i] == rest[i - head.len() - 1]);
            }
        }
    }
}

/// An encoded record of plain fields holds exactly one record
/// terminator: the `\n` it ends with.
pub proof fn lemma_csv_line_one_newline(fields: Seq<Seq<char>>)
    requires
        all_csv_plain(fields),
    ensures
        count_char(csv_line(fields), '\n') == 1,
{
    lemma_csv_join_no_newline(fields);
    lemma_count_char_none(csv_join(fields), '\n');
    lemma_count_char_add(csv_join(fields), seq!['\n'], '\n');
    let s = seq!['\n'];
    assert(s.drop_last() =~= Seq::<char>::empty());
    assert(count_char(Seq::<char>::empty(), '\n') == 0);
    assert(s.last() == '\n');
    assert(count_char(s, '\n') == 1);
}

/// Relies on `csv::Writer` (via `WriterBuilder::from_writer` over an
/// in-memory buffer, `write_record`, `into_inner`): with the default
/// delimiter `,`, terminator `\n` and necessary-only quoting, a record
/// of nonempty fields that hold no `,`, `"`, `\r` or `\n` is written as
/// the fields verbatim, comma-separated and newline-terminated. Writing
/// into an in-memory buffer cannot fail.
#[verifier::external_body]
pub(crate) fn csv_encode_record(fields: &Vec<String>) -> (line: String)
    requires
        fields@.len() > 0,
        all_csv_plain(fields@.map_values(|f: String| f@)),
    ensures
        line@ == csv_line(fields@.map_values(|f: String| f@)),
{
    let mut wtr = csv::WriterBuilder::new().from_writer(Vec::new());
    wtr.write_record(fields.iter()).unwrap();
    let bytes = wtr.into_inner().unwrap();
    String::from_utf8(bytes).unwrap()
}

} // verus!
