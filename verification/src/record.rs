//! Splitting one input line into its semicolon-delimited fields.

use vstd::prelude::*;

verus! {

/// The fields of `s` split on `;`.  An empty line has one empty field;
/// a trailing separator yields a trailing empty field.
pub open spec fn split_fields_spec(s: Seq<char>) -> Seq<Seq<char>>
    decreases s.len(),
{
    if s.len() == 0 {
        seq![Seq::empty()]
    } else {
        let rest = split_fields_spec(s.drop_last());
        if s.last() == ';' {
            rest + seq![Seq::empty()]
        } else {
            rest.update(rest.len() - 1, rest.last() + seq![s.last()])
        }
    }
}

/// Splitting always yields at least one field.
pub proof fn lemma_split_fields_nonempty(s: Seq<char>)
    ensures
        split_fields_spec(s).len() >= 1,
    decreases s.len(),
{
    if s.len() > 0 {
        lemma_split_fields_nonempty(s.drop_last());
    }
}

/// The views of a sequence of strings, as a sequence of character
/// sequences.  Used both for the fields of one record and for the lines
/// of the whole input.
pub open spec fn texts_view(texts: Seq<String>) -> Seq<Seq<char>> {
    texts.map_values(|t: String| t@)
}

/// Splits `line` on `;` into its fields.
pub fn split_fields(line: &str) -> (fields: Vec<String>)
    ensures
        texts_view(fields@) == split_fields_spec(line@),
{
    let n = line.unicode_len();
    let mut fields: Vec<String> = Vec::new();
    let mut cur = String::new();
    let mut i: usize = 0;
    while i < n
        invariant
            0 <= i <= n,
            n == line@.len(),
            texts_view(fields@).push(cur@) =~~= split_fields_spec(line@.take(i as int)),
        decreases n - i,
    {
        let c = line.get_char(i);
        proof {
            assert(line@.take(i + 1).drop_last() =~= line@.take(i as int));
            assert(line@.take(i + 1).last() == line@[i as int]);
            lemma_split_fields_nonempty(line@.take(i as int));
        }
        if c == ';' {
            let ghost prev_fields = fields@;
            let ghost prev_cur = cur@;
            fields.push(cur);
            cur = String::new();
            proof {
                assert(texts_view(fields@).push(cur@) =~~= texts_view(prev_fields).push(
                    prev_cur,
                ).push(Seq::empty()));
            }
        } else {
            let ghost prev_cur = cur@;
            cur.append(line.substring_char(i, i + 1));
            proof {
                assert(line@.subrange(i as int, i + 1) =~= seq![line@[i as int]]);
                let prev = split_fields_spec(line@.take(i as int));
                assert(texts_view(fields@).push(cur@) =~~= prev.update(
                    prev.len() - 1,
                    prev.last() + seq![line@[i as int]],
                ));
            }
        }
        i = i + 1;
    }
    proof {
        assert(line@.take(n as int) =~= line@);
    }
    fields.push(cur);
    proof {
        assert(texts_view(fields@) =~~= split_fields_spec(line@));
    }
    fields
}

} // verus!
