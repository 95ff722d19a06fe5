//! Case-mapping entries extracted from the fields of one input record.

use vstd::prelude::*;
use crate::numerals::{hex_val, parse_hex, valid_hex_u32};
use crate::record::texts_view;

verus! {

/// The field position that holds the uppercase mapping of a record.
pub const UPPERCASE_MAPPING_INDEX: usize = 12;

/// The field position that holds the lowercase mapping of a record.
pub const LOWERCASE_MAPPING_INDEX: usize = 13;

/// The field position that holds the titlecase mapping of a record.
pub const TITLECASE_MAPPING_INDEX: usize = 14;

/// A record field that should hold a hexadecimal numeral but does not
/// parse as one: the whole run is abandoned on the first such field.
#[derive(Clone, Copy, PartialEq, Eq, Structural, Debug)]
pub struct ParseError;

/// One directed case mapping between two code points.
#[derive(Clone, Copy, PartialEq, Eq, Structural, Debug)]
pub struct CodePointMapping {
    pub from: u32,
    pub to: u32,
}

/// The three ordered collections of case mappings, one per mapping kind.
pub struct CaseMappings {
    pub to_lower: Vec<CodePointMapping>,
    pub to_upper: Vec<CodePointMapping>,
    pub to_title: Vec<CodePointMapping>,
}

/// The field of a record at position `i`; a position past the end of the
/// record is an absent field and reads as empty.
pub open spec fn field_of(fields: Seq<Seq<char>>, i: int) -> Seq<char> {
    if 0 <= i < fields.len() {
        fields[i]
    } else {
        Seq::empty()
    }
}

/// Every consumed field of the record parses: field 0 must be a valid
/// hexadecimal numeral, and each non-empty mapping field must be one too.
pub open spec fn record_ok(fields: Seq<Seq<char>>) -> bool {
    &&& valid_hex_u32(field_of(fields, 0))
    &&& (field_of(fields, 12).len() == 0 || valid_hex_u32(field_of(fields, 12)))
    &&& (field_of(fields, 13).len() == 0 || valid_hex_u32(field_of(fields, 13)))
    &&& (field_of(fields, 14).len() == 0 || valid_hex_u32(field_of(fields, 14)))
}

/// The entries a record contributes to the collection fed from field
/// position `idx`: none when that field is empty, otherwise the single
/// mapping from the record's own code point to the field's value.
pub open spec fn record_contrib(fields: Seq<Seq<char>>, idx: int) -> Seq<CodePointMapping> {
    if field_of(fields, idx).len() == 0 {
        Seq::empty()
    } else {
        seq![
            (CodePointMapping {
                from: hex_val(field_of(fields, 0)) as u32,
                to: hex_val(field_of(fields, idx)) as u32,
            }),
        ]
    }
}

/// A record with all three mapping fields empty contributes no entry to
/// any collection.
pub proof fn lemma_empty_mapping_fields_contribute_nothing(fields: Seq<Seq<char>>)
    requires
        field_of(fields, 12).len() == 0,
        field_of(fields, 13).len() == 0,
        field_of(fields, 14).len() == 0,
    ensures
        record_contrib(fields, 12) == Seq::<CodePointMapping>::empty(),
        record_contrib(fields, 13) == Seq::<CodePointMapping>::empty(),
        record_contrib(fields, 14) == Seq::<CodePointMapping>::empty(),
{
}

/// A record with exactly one non-empty mapping field contributes exactly
/// one entry, to the matching collection, and that entry's `from` is the
/// value of the record's field 0.
pub proof fn lemma_single_mapping_field_single_entry(fields: Seq<Seq<char>>, idx: int)
    requires
        record_ok(fields),
        idx == 12 || idx == 13 || idx == 14,
        field_of(fields, idx).len() > 0,
        forall|j: int| (j == 12 || j == 13 || j == 14) && j != idx ==> #[trigger] field_of(
            fields,
            j,
        ).len() == 0,
    ensures
        record_contrib(fields, idx).len() == 1,
        record_contrib(fields, idx)[0].from == hex_val(field_of(fields, 0)),
        record_contrib(fields, idx)[0].to == hex_val(field_of(fields, idx)),
        forall|j: int| (j == 12 || j == 13 || j == 14) && j != idx ==> #[trigger] record_contrib(
            fields,
            j,
        ).len() == 0,
{
}

/// Parses the field at position `idx` of `record`, treating an absent or
/// empty field as no mapping.  `Ok(None)` means no mapping; `Err` means a
/// non-empty field that is not a valid hexadecimal numeral.
fn parse_mapping_field(record: &Vec<String>, idx: usize) -> (r: Result<Option<u32>, ParseError>)
    ensures
        r is Ok <==> (field_of(texts_view(record@), idx as int).len() == 0
            || valid_hex_u32(field_of(texts_view(record@), idx as int))),
        r is Ok ==> (r->Ok_0 is Some <==> field_of(
            texts_view(record@),
            idx as int,
        ).len() != 0),
        r is Ok && r->Ok_0 is Some ==> r->Ok_0->0 == hex_val(
            field_of(texts_view(record@), idx as int),
        ),
{
    if idx >= record.len() {
        return Ok(None);
    }
    let field = record[idx].as_str();
    if field.unicode_len() == 0 {
        return Ok(None);
    }
    match parse_hex(field) {
        Some(v) => Ok(Some(v)),
        None => Err(ParseError),
    }
}

impl CaseMappings {
    /// Creates an empty set of case mappings.
    pub fn new() -> (m: CaseMappings)
        ensures
            m.to_lower@ == Seq::<CodePointMapping>::empty(),
            m.to_upper@ == Seq::<CodePointMapping>::empty(),
            m.to_title@ == Seq::<CodePointMapping>::empty(),
    {
        let m = CaseMappings { to_lower: Vec::new(), to_upper: Vec::new(), to_title: Vec::new() };
        proof {
            assert(m.to_lower@ =~= Seq::<CodePointMapping>::empty());
            assert(m.to_upper@ =~= Seq::<CodePointMapping>::empty());
            assert(m.to_title@ =~= Seq::<CodePointMapping>::empty());
        }
        m
    }

    /// Reads one record's fields and appends the mappings it contributes,
    /// in the fixed order uppercase, lowercase, titlecase.  Fails, leaving
    /// the collections unchanged, exactly when a consumed field does not
    /// parse.
    pub fn read_mappings(&mut self, record: &Vec<String>) -> (r: Result<(), ParseError>)
        ensures
            r is Ok <==> record_ok(texts_view(record@)),
            r is Ok ==> final(self).to_upper@ == old(self).to_upper@ + record_contrib(
                texts_view(record@),
                12,
            ),
            r is Ok ==> final(self).to_lower@ == old(self).to_lower@ + record_contrib(
                texts_view(record@),
                13,
            ),
            r is Ok ==> final(self).to_title@ == old(self).to_title@ + record_contrib(
                texts_view(record@),
                14,
            ),
            r is Err ==> final(self).to_upper@ == old(self).to_upper@ && final(self).to_lower@
                == old(self).to_lower@ && final(self).to_title@ == old(self).to_title@,
    {
        let ghost fields = texts_view(record@);
        let code_point: u32;
        if record.len() == 0 {
            proof {
                assert(!valid_hex_u32(field_of(fields, 0)));
            }
            return Err(ParseError);
        } else {
            match parse_hex(record[0].as_str()) {
                Some(v) => {
                    code_point = v;
                },
                None => {
                    return Err(ParseError);
                },
            }
        }
        let upper = match parse_mapping_field(record, UPPERCASE_MAPPING_INDEX) {
            Ok(o) => o,
            Err(_) => {
                return Err(ParseError);
            },
        };
        let lower = match parse_mapping_field(record, LOWERCASE_MAPPING_INDEX) {
            Ok(o) => o,
            Err(_) => {
                return Err(ParseError);
            },
        };
        let title = match parse_mapping_field(record, TITLECASE_MAPPING_INDEX) {
            Ok(o) => o,
            Err(_) => {
                return Err(ParseError);
            },
        };
        let ghost prev_upper = self.to_upper@;
        let ghost prev_lower = self.to_lower@;
        let ghost prev_title = self.to_title@;
        if let Some(to) = upper {
            self.to_upper.push(CodePointMapping { from: code_point, to });
        }
        if let Some(to) = lower {
            self.to_lower.push(CodePointMapping { from: code_point, to });
        }
        if let Some(to) = title {
            self.to_title.push(CodePointMapping { from: code_point, to });
        }
        proof {
            assert(self.to_upper@ =~= prev_upper + record_contrib(fields, 12));
            assert(self.to_lower@ =~= prev_lower + record_contrib(fields, 13));
            assert(self.to_title@ =~= prev_title + record_contrib(fields, 14));
        }
        Ok(())
    }
}

} // verus!
