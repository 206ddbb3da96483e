use vstd::prelude::*;

use encoding::Encoding;

use crate::errors::LdError;
use crate::record::{record_of_line, spec_field, spec_record, LdMnq, LdMnqV};
use crate::split::{split_comma, split_crlf, split_crlf_exec};

verus! {

/// What strict GBK decoding makes of a byte sequence: its text when every
/// byte sequence is valid under the encoding, nothing otherwise.  The
/// result depends on the bytes alone.
pub uninterp spec fn gbk_decoded(b: Seq<u8>) -> Option<Seq<char>>;

/// Relies on `encoding::all::GBK`'s `decode` with `DecoderTrap::Strict`:
/// it returns the decoded text, or an error as soon as some byte sequence
/// is invalid under GBK, and its result is a function of the input bytes
/// alone.
#[verifier::external_body]
fn gbk_decode(bytes: &Vec<u8>) -> (r: Option<Vec<char>>)
    ensures
        r is Some <==> gbk_decoded(bytes@) is Some,
        (r matches Some(t) ==> gbk_decoded(bytes@) == Some(t@)),
{
    match encoding::all::GBK.decode(bytes.as_slice(), encoding::DecoderTrap::Strict) {
        Ok(s) => Some(s.chars().collect()),
        Err(_) => None,
    }
}

/// The records the given lines denote: one per non-empty line, in order.
pub open spec fn spec_records_from_lines(lines: Seq<Seq<char>>) -> Seq<LdMnqV>
    decreases lines.len(),
{
    if lines.len() == 0 {
        Seq::empty()
    } else {
        let rest = spec_records_from_lines(lines.drop_last());
        if lines.last().len() > 0 {
            rest.push(spec_record(lines.last()))
        } else {
            rest
        }
    }
}

/// The records decoded listing text denotes.
pub open spec fn spec_records(t: Seq<char>) -> Seq<LdMnqV> {
    spec_records_from_lines(split_crlf(t))
}

/// What the listing operation makes of captured output bytes: the records
/// of the decoded text, or nothing when strict decoding fails.
pub open spec fn spec_list2(b: Seq<u8>) -> Option<Seq<LdMnqV>> {
    match gbk_decoded(b) {
        Some(t) => Some(spec_records(t)),
        None => None,
    }
}

/// Maps decoded listing text into records: one per non-empty
/// CRLF-terminated line, in the order the lines appear.
pub fn parse_records(text: &Vec<char>) -> (r: Vec<LdMnq>)
    ensures
        r.deep_view() == spec_records(text@),
{
    let lines = split_crlf_exec(text);
    let ghost lv = lines.deep_view();
    let mut out: Vec<LdMnq> = Vec::new();
    let mut k: usize = 0;
    proof {
        assert(lv.take(0) =~= Seq::<Seq<char>>::empty());
        assert(out.deep_view() =~~= spec_records_from_lines(lv.take(0)));
    }
    while k < lines.len()
        invariant
            k <= lines@.len(),
            lv == lines.deep_view(),
            lv.len() == lines@.len(),
            out.deep_view() =~~= spec_records_from_lines(lv.take(k as int)),
        decreases lines@.len() - k,
    {
        let ghost old_out = out.deep_view();
        proof {
            assert(lv.take(k + 1).drop_last() =~= lv.take(k as int));
            assert(lv.take(k + 1).last() == lv[k as int]);
            assert(lv[k as int] =~= lines@[k as int]@);
        }
        if lines[k].len() > 0 {
            let rec = record_of_line(&lines[k]);
            out.push(rec);
            proof {
                assert(out.deep_view() =~~= old_out.push(spec_record(lv[k as int])));
                assert(spec_records_from_lines(lv.take(k + 1)) =~~= old_out.push(
                    spec_record(lv[k as int]),
                ));
            }
        } else {
            proof {
                assert(spec_records_from_lines(lv.take(k + 1)) =~~= old_out);
            }
        }
        k += 1;
    }
    proof {
        assert(lv.take(lv.len() as int) =~= lv);
    }
    out
}

/// The listing operation's pure half: decodes the manager's captured
/// standard output strictly from GBK and maps it into records.  Invalid
/// bytes fail the whole operation with an encoding error and yield no
/// records; unparsable numeric fields are never an error.
pub fn parse_list2_output(stdout: &Vec<u8>) -> (r: Result<Vec<LdMnq>, LdError>)
    ensures
        (match r {
            Ok(records) => spec_list2(stdout@) == Some(records.deep_view()),
            Err(e) => e is EncodingError && spec_list2(stdout@) is None,
        }),
{
    match gbk_decode(stdout) {
        Some(text) => Ok(parse_records(&text)),
        None => Err(LdError::EncodingError),
    }
}

/// The non-empty lines among the given lines, in order.
pub open spec fn spec_nonempty_lines(lines: Seq<Seq<char>>) -> Seq<Seq<char>>
    decreases lines.len(),
{
    if lines.len() == 0 {
        Seq::empty()
    } else {
        let rest = spec_nonempty_lines(lines.drop_last());
        if lines.last().len() > 0 {
            rest.push(lines.last())
        } else {
            rest
        }
    }
}

proof fn lemma_records_from_lines(lines: Seq<Seq<char>>)
    ensures
        spec_records_from_lines(lines).len() == spec_nonempty_lines(lines).len(),
        forall|i: int|
            0 <= i < spec_records_from_lines(lines).len() ==> #[trigger] spec_records_from_lines(
                lines,
            )[i] == spec_record(spec_nonempty_lines(lines)[i]),
    decreases lines.len(),
{
    if lines.len() > 0 {
        lemma_records_from_lines(lines.drop_last());
    }
}

/// Parsed listing text yields exactly one record per non-empty line, in
/// the order the lines appear, each the positional image of its line.
pub proof fn lemma_records_match_lines(t: Seq<char>)
    ensures
        spec_records(t).len() == spec_nonempty_lines(split_crlf(t)).len(),
        forall|i: int|
            0 <= i < spec_records(t).len() ==> #[trigger] spec_records(t)[i] == spec_record(
                spec_nonempty_lines(split_crlf(t))[i],
            ),
{
    lemma_records_from_lines(split_crlf(t));
}

/// A numeric field that does not denote an integer of the target type
/// contributes its field-specific default to the record, and nothing else
/// about the line changes that.
pub proof fn lemma_unparsable_fields_default(l: Seq<char>)
    ensures
        crate::num::spec_parse_int(spec_field(split_comma(l), 0)) is None ==> spec_record(l).index
            == -1,
        crate::num::spec_parse_int(spec_field(split_comma(l), 2)) is None ==> spec_record(
            l,
        ).top_handle == 0,
        crate::num::spec_parse_int(spec_field(split_comma(l), 3)) is None ==> spec_record(
            l,
        ).bind_handle == 0,
        crate::num::spec_parse_int(spec_field(split_comma(l), 4)) is None ==> spec_record(
            l,
        ).is_enter_system == 0,
        crate::num::spec_parse_int(spec_field(split_comma(l), 5)) is None ==> spec_record(l).pid
            == -1,
        crate::num::spec_parse_int(spec_field(split_comma(l), 6)) is None ==> spec_record(
            l,
        ).vbox_pid == -1,
{
}

/// Listing against unchanged external output is idempotent: equal captured
/// bytes denote equal record sequences, in the same order.
pub proof fn lemma_list2_idempotent(b1: Seq<u8>, b2: Seq<u8>)
    requires
        b1 == b2,
    ensures
        spec_list2(b1) == spec_list2(b2),
{
}

} // verus!
