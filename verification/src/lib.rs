//! Extraction of case-mapping declarations from a semicolon-delimited
//! character database, and rendering of those declarations as an indexed
//! textual block.

use vstd::prelude::*;

pub mod config;
pub mod mappings;
pub mod numerals;
pub mod record;
pub mod render;

use crate::mappings::{record_contrib, record_ok, CaseMappings, CodePointMapping, ParseError};
use crate::record::{split_fields, split_fields_spec, texts_view};
use crate::render::{block_spec, render_block};

verus! {

/// The entries one input line contributes to the collection fed from
/// field position `idx`: none for a blank line.
pub open spec fn line_contrib(line: Seq<char>, idx: int) -> Seq<CodePointMapping> {
    if line.len() == 0 {
        Seq::empty()
    } else {
        record_contrib(split_fields_spec(line), idx)
    }
}

/// A line is acceptable when it is blank or all its consumed fields parse.
pub open spec fn line_ok(line: Seq<char>) -> bool {
    line.len() == 0 || record_ok(split_fields_spec(line))
}

/// Every line of the input is acceptable.
pub open spec fn all_lines_ok(lines: Seq<Seq<char>>) -> bool {
    forall|i: int| 0 <= i < lines.len() ==> line_ok(#[trigger] lines[i])
}

/// The entries of the collection fed from field position `idx` after
/// reading `lines` in order.
pub open spec fn entries_spec(lines: Seq<Seq<char>>, idx: int) -> Seq<CodePointMapping>
    decreases lines.len(),
{
    if lines.len() == 0 {
        Seq::empty()
    } else {
        entries_spec(lines.drop_last(), idx) + line_contrib(lines.last(), idx)
    }
}

/// The declaration block the pipeline appends for `lines`.
pub open spec fn output_spec(lines: Seq<Seq<char>>) -> Seq<char> {
    block_spec(entries_spec(lines, 13), entries_spec(lines, 12), entries_spec(lines, 14))
}

/// Order preservation of extraction: reading one more line appends that
/// line's entries at the end of a collection, leaving every earlier entry
/// at its position, so insertion order equals input record order.
pub proof fn lemma_entries_order(lines: Seq<Seq<char>>, line: Seq<char>, idx: int)
    ensures
        entries_spec(lines.push(line), idx) == entries_spec(lines, idx) + line_contrib(line, idx),
{
    assert(lines.push(line).drop_last() =~= lines);
    assert(lines.push(line).last() == line);
}

/// Determinism of the pipeline: any two successful runs over the same
/// lines produce the same declaration block, character for character,
/// since `run` pins its output to `output_spec` of the input alone.
pub proof fn lemma_output_deterministic(
    lines: Seq<Seq<char>>,
    first: Seq<char>,
    second: Seq<char>,
)
    requires
        first == output_spec(lines),
        second == output_spec(lines),
    ensures
        first == second,
{
}

/// Reads every input line in order and builds the three mapping
/// collections.  Succeeds exactly when every line is blank or parses as a
/// record; fails on the first line that does not, reading no further.
pub fn extract(lines: &Vec<String>) -> (r: Result<CaseMappings, ParseError>)
    ensures
        r is Ok <==> all_lines_ok(texts_view(lines@)),
        r is Ok ==> r->Ok_0.to_lower@ == entries_spec(texts_view(lines@), 13),
        r is Ok ==> r->Ok_0.to_upper@ == entries_spec(texts_view(lines@), 12),
        r is Ok ==> r->Ok_0.to_title@ == entries_spec(texts_view(lines@), 14),
{
    let ghost all = texts_view(lines@);
    let mut m = CaseMappings::new();
    let mut i: usize = 0;
    while i < lines.len()
        invariant
            0 <= i <= lines@.len(),
            all == texts_view(lines@),
            all.len() == lines@.len(),
            forall|j: int| 0 <= j < i ==> line_ok(#[trigger] all[j]),
            m.to_lower@ == entries_spec(all.take(i as int), 13),
            m.to_upper@ == entries_spec(all.take(i as int), 12),
            m.to_title@ == entries_spec(all.take(i as int), 14),
        decreases lines@.len() - i,
    {
        proof {
            assert(all[i as int] == lines@[i as int]@);
            assert(all.take(i + 1).drop_last() =~= all.take(i as int));
            assert(all.take(i + 1).last() == all[i as int]);
        }
        let line = &lines[i];
        if line.as_str().unicode_len() > 0 {
            let fields = split_fields(line.as_str());
            match m.read_mappings(&fields) {
                Ok(_) => {},
                Err(e) => {
                    proof {
                        assert(!line_ok(all[i as int]));
                        assert(!all_lines_ok(all));
                    }
                    return Err(e);
                },
            }
        }
        i = i + 1;
    }
    proof {
        assert(all.take(lines@.len() as int) =~= all);
    }
    Ok(m)
}

/// Runs the whole pipeline over the input lines: extracts the three
/// mapping collections and renders the declaration block to append after
/// the template.  Succeeds exactly when every line is blank or parses as
/// a record, and then returns exactly the block that `output_spec` gives.
pub fn run(lines: &Vec<String>) -> (r: Result<String, ParseError>)
    ensures
        r is Ok <==> all_lines_ok(texts_view(lines@)),
        r is Ok ==> r->Ok_0@ == output_spec(texts_view(lines@)),
{
    match extract(lines) {
        Ok(m) => Ok(render_block(&m)),
        Err(e) => Err(e),
    }
}

} // verus!
