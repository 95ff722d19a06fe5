//! Rendering of the three mapping collections as an appended block of
//! indexed declarations.

use vstd::prelude::*;
use crate::mappings::{CaseMappings, CodePointMapping};
use crate::numerals::{dec_digits, dec_str, hex_digits, hex_str};

verus! {

/// The declaration line for entry `e` at position `i` of its collection:
/// the prefix (such as `to_lower(`), the decimal index, then
/// `)=(from=0x<from>,to=0x<to>)` and a newline.
pub open spec fn line_spec(prefix: Seq<char>, i: nat, e: CodePointMapping) -> Seq<char> {
    prefix + dec_digits(i) + ")=(from=0x"@ + hex_digits(e.from as nat) + ",to=0x"@ + hex_digits(
        e.to as nat,
    ) + ")\n"@
}

/// The declaration lines for all entries of a collection, in insertion
/// order, indexed from 0.
pub open spec fn lines_spec(prefix: Seq<char>, es: Seq<CodePointMapping>) -> Seq<char>
    decreases es.len(),
{
    if es.len() == 0 {
        Seq::empty()
    } else {
        lines_spec(prefix, es.drop_last()) + line_spec(prefix, (es.len() - 1) as nat, es.last())
    }
}

/// The whole appended block: the opening marker line, the opening brace,
/// the lowercase, uppercase and titlecase declaration lines (each group
/// indexed from 0), then the closing brace.
pub open spec fn block_spec(
    lower: Seq<CodePointMapping>,
    upper: Seq<CodePointMapping>,
    title: Seq<CodePointMapping>,
) -> Seq<char> {
    "defaultproperties\n"@ + "{\n"@ + lines_spec("to_lower("@, lower) + lines_spec(
        "to_upper("@,
        upper,
    ) + lines_spec("to_title("@, title) + "}\n"@
}

/// The line terminator used for every line of the appended block.
pub fn get_new_line_sequence() -> (r: String)
    ensures
        r@ == "\n"@,
{
    String::from_str("\n")
}

/// Appends the declaration lines of one collection to `out`.
fn append_lines(out: &mut String, prefix: &str, entries: &Vec<CodePointMapping>)
    ensures
        final(out)@ == old(out)@ + lines_spec(prefix@, entries@),
{
    let mut i: usize = 0;
    while i < entries.len()
        invariant
            0 <= i <= entries@.len(),
            out@ == old(out)@ + lines_spec(prefix@, entries@.take(i as int)),
        decreases entries@.len() - i,
    {
        let e = entries[i];
        out.append(prefix);
        let d = dec_str(i);
        out.append(d.as_str());
        out.append(")=(from=0x");
        let h_from = hex_str(e.from);
        out.append(h_from.as_str());
        out.append(",to=0x");
        let h_to = hex_str(e.to);
        out.append(h_to.as_str());
        out.append(")\n");
        proof {
            assert(entries@.take(i + 1).drop_last() =~= entries@.take(i as int));
            assert(entries@.take(i + 1).last() == entries@[i as int]);
            assert(out@ =~= old(out)@ + lines_spec(prefix@, entries@.take(i + 1)));
        }
        i = i + 1;
    }
    proof {
        assert(entries@.take(entries@.len() as int) =~= entries@);
    }
}

/// Renders the whole declaration block for `m`.
pub fn render_block(m: &CaseMappings) -> (r: String)
    ensures
        r@ == block_spec(m.to_lower@, m.to_upper@, m.to_title@),
{
    let mut out = String::from_str("defaultproperties\n");
    out.append("{\n");
    append_lines(&mut out, "to_lower(", &m.to_lower);
    append_lines(&mut out, "to_upper(", &m.to_upper);
    append_lines(&mut out, "to_title(", &m.to_title);
    out.append("}\n");
    out
}

/// The lines of the first `j` entries are a prefix of the lines of the
/// whole collection.
pub proof fn lemma_lines_spec_prefix(prefix: Seq<char>, es: Seq<CodePointMapping>, j: int)
    requires
        0 <= j <= es.len(),
    ensures
        lines_spec(prefix, es.take(j)).len() <= lines_spec(prefix, es).len(),
        lines_spec(prefix, es).take(lines_spec(prefix, es.take(j)).len() as int) == lines_spec(
            prefix,
            es.take(j),
        ),
    decreases es.len(),
{
    if j == es.len() {
        assert(es.take(j) =~= es);
        assert(lines_spec(prefix, es).take(lines_spec(prefix, es).len() as int) =~= lines_spec(
            prefix,
            es,
        ));
    } else {
        assert(es.take(j) =~= es.drop_last().take(j));
        lemma_lines_spec_prefix(prefix, es.drop_last(), j);
        assert(lines_spec(prefix, es).take(lines_spec(prefix, es.take(j)).len() as int)
            =~= lines_spec(prefix, es.drop_last()).take(
            lines_spec(prefix, es.take(j)).len() as int,
        ));
    }
}

/// Round trip from an extracted entry to its rendered text: the entry at
/// position `i` of a collection is rendered exactly as
/// `<prefix><i>)=(from=0x<from>,to=0x<to>)` with a closing newline, at the
/// offset where the lines of the first `i` entries end.
pub proof fn lemma_entry_rendered_at(prefix: Seq<char>, es: Seq<CodePointMapping>, i: int)
    requires
        0 <= i < es.len(),
    ensures
        ({
            let off = lines_spec(prefix, es.take(i)).len() as int;
            let line = line_spec(prefix, i as nat, es[i]);
            &&& off + line.len() <= lines_spec(prefix, es).len()
            &&& lines_spec(prefix, es).subrange(off, off + line.len() as int) == line
        }),
{
    let off = lines_spec(prefix, es.take(i)).len() as int;
    let line = line_spec(prefix, i as nat, es[i]);
    assert(es.take(i + 1).drop_last() =~= es.take(i));
    assert(es.take(i + 1).last() == es[i]);
    assert(lines_spec(prefix, es.take(i + 1)) == lines_spec(prefix, es.take(i)) + line);
    lemma_lines_spec_prefix(prefix, es, i + 1);
    let l1 = off + line.len() as int;
    assert(lines_spec(prefix, es.take(i + 1)).len() == l1);
    assert(lines_spec(prefix, es).take(l1) == lines_spec(prefix, es.take(i + 1)));
    assert forall|k: int| 0 <= k < line.len() implies lines_spec(prefix, es)[off + k] == line[k] by {
        assert(lines_spec(prefix, es)[off + k] == lines_spec(prefix, es).take(l1)[off + k]);
        assert(lines_spec(prefix, es.take(i + 1))[off + k] == line[k]);
    }
    assert(lines_spec(prefix, es).subrange(off, off + line.len() as int) =~= line);
}

/// Round trip for the `lower` collection within the whole block: the
/// entry at position `i` of `lower` is rendered exactly as
/// `to_lower(<i>)=(from=0x<from>,to=0x<to>)` with a closing newline, at
/// the offset where the block's opening lines and the lines of the first
/// `i` lower entries end.
pub proof fn lemma_lower_entry_in_block(
    lower: Seq<CodePointMapping>,
    upper: Seq<CodePointMapping>,
    title: Seq<CodePointMapping>,
    i: int,
)
    requires
        0 <= i < lower.len(),
    ensures
        ({
            let opening = "defaultproperties\n"@ + "{\n"@;
            let off = opening.len() + lines_spec("to_lower("@, lower.take(i)).len();
            let line = line_spec("to_lower("@, i as nat, lower[i]);
            &&& off + line.len() <= block_spec(lower, upper, title).len()
            &&& block_spec(lower, upper, title).subrange(
                off as int,
                off + line.len() as int,
            ) == line
        }),
{
    let opening = "defaultproperties\n"@ + "{\n"@;
    let block = block_spec(lower, upper, title);
    let ls = lines_spec("to_lower("@, lower);
    let off0 = lines_spec("to_lower("@, lower.take(i)).len() as int;
    let line = line_spec("to_lower("@, i as nat, lower[i]);
    lemma_entry_rendered_at("to_lower("@, lower, i);
    let off = opening.len() as int + off0;
    assert forall|k: int| 0 <= k < line.len() implies block[off + k] == line[k] by {
        assert(block[off + k] == ls[off0 + k]);
        assert(ls[off0 + k] == ls.subrange(off0, off0 + line.len() as int)[k]);
    }
    assert(block.subrange(off, off + line.len() as int) =~= line);
}

} // verus!
