//! Loads the location/variable table from a definitions source: one
//! `<name> <literal>` pair per line, with the same comment marker and
//! literal syntax as assembly source. The table is complete before
//! parsing begins and offers no forward references.

use vstd::prelude::*;
use vstd::string::StrSliceExecFns;
use crate::errors::AsmError;
use crate::name_map::NameMap;
use crate::source_cursor::SourceCodeCursor;
use crate::tokens::{
    after_line, after_token, consume_rest_of_line, consume_whitespace, convert_str_to_imm,
    skip_ws, spec_convert_str_to_imm, token_of,
};

verus! {

/// What loading a definitions source yields.
pub enum SpecLocs {
    /// The completed table.
    Done(Map<Seq<char>, u16>),
    /// Loading aborted on the first bad line.
    Aborted(AsmError),
}

/// The meaning of a definitions source, one line at a time: blank and
/// comment lines contribute nothing; any other line is a name and a
/// literal. An empty name or a token that is not a literal is fatal.
pub open spec fn spec_create_location_map(s: Seq<char>, acc: Map<Seq<char>, u16>) -> SpecLocs
    decreases s.len(),
    via spec_create_location_map_dec
{
    if s.len() == 0 {
        SpecLocs::Done(acc)
    } else {
        let w = skip_ws(s);
        if w.len() == 0 {
            SpecLocs::Done(acc)
        } else if w[0] == '\n' || w[0] == ';' {
            spec_create_location_map(after_line(w), acc)
        } else {
            let name = token_of(w);
            if name.len() == 0 {
                SpecLocs::Aborted(AsmError::EmptyName)
            } else {
                let val_tok = token_of(skip_ws(after_token(w)));
                match spec_convert_str_to_imm(val_tok, Map::empty()) {
                    Some(v) => spec_create_location_map(after_line(w), acc.insert(name, v)),
                    None => SpecLocs::Aborted(AsmError::BadLiteral),
                }
            }
        }
    }
}

#[via_fn]
proof fn spec_create_location_map_dec(s: Seq<char>, acc: Map<Seq<char>, u16>) {
    if s.len() > 0 {
        crate::text::lemma_lead_count(s, crate::tokens::line_ws_p());
        let w = skip_ws(s);
        if w.len() > 0 {
            crate::tokens::lemma_after_line_lt(w);
        }
    }
}

/// Loads the location table from the text of a definitions source.
pub fn create_location_map(contents: String) -> (r: Result<NameMap, AsmError>)
    ensures
        match r {
            Ok(map) => spec_create_location_map(contents@, Map::empty()) == SpecLocs::Done(map@),
            Err(e) => spec_create_location_map(contents@, Map::empty()) == SpecLocs::Aborted(e),
        },
{
    let mut cursor = SourceCodeCursor::new(contents);
    let mut map = NameMap::new();
    while crate::tokens::peek_some(&cursor)
        invariant
            cursor.wf(),
            spec_create_location_map(cursor.rest(), map@) == spec_create_location_map(
                contents@,
                Map::empty(),
            ),
        decreases cursor.rest().len(),
    {
        let ghost iter_rest = cursor.rest();
        consume_whitespace(&mut cursor);
        let ghost w = cursor.rest();
        match cursor.peek() {
            None => {
            },
            Some(c) => {
                if c == '\n' || c == ';' {
                    consume_rest_of_line(&mut cursor);
                    proof {
                        crate::tokens::lemma_after_line_lt(w);
                    }
                } else {
                    let var_name = crate::tokens::read_token(&mut cursor);
                    if var_name.as_str().is_empty() {
                        return Err(AsmError::EmptyName);
                    }
                    consume_whitespace(&mut cursor);
                    let operand_str = crate::tokens::read_token(&mut cursor);
                    let empty_table = NameMap::new();
                    match convert_str_to_imm(operand_str.as_str(), &empty_table) {
                        Some(val) => {
                            map.insert(var_name, val);
                        },
                        None => {
                            return Err(AsmError::BadLiteral);
                        },
                    }
                    consume_rest_of_line(&mut cursor);
                    proof {
                        crate::tokens::lemma_after_line_after_token(
                            skip_ws(after_token(w)),
                        );
                        crate::tokens::lemma_after_line_skip_ws(after_token(w));
                        crate::tokens::lemma_after_line_after_token(w);
                        crate::tokens::lemma_after_line_lt(w);
                    }
                }
            },
        }
    }
    Ok(map)
}

} // verus!
