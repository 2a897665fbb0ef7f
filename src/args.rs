use vstd::prelude::*;

use crate::float_text::{float_syntax, float_text_ok};
use crate::text::{
    chars_of, digits_value, parse_unsigned, parses_unsigned, split_chars,
    split_on, unsigned_body,
};

verus! {

/// The value of an unsigned decimal text that is known to parse.
pub open spec fn unsigned_value(s: Seq<char>) -> nat {
    digits_value(unsigned_body(s))
}

/// What `parse_tripple` gives for `s`: the first three comma separated pieces, each
/// an 8-bit value; pieces after the third are not read.
pub open spec fn tripple_of(s: Seq<char>) -> Option<(u8, u8, u8)> {
    let f = split_on(s, ',');
    if f.len() >= 3 && parses_unsigned(f[0], 255) && parses_unsigned(f[1], 255)
        && parses_unsigned(f[2], 255) {
        Some(
            (
                unsigned_value(f[0]) as u8,
                unsigned_value(f[1]) as u8,
                unsigned_value(f[2]) as u8,
            ),
        )
    } else {
        None
    }
}

/// Every piece of `s` between spaces reads as a 64-bit float.
pub open spec fn float_list_syntax(s: Seq<char>) -> bool {
    let f = split_on(s, ' ');
    forall|k: int| 0 <= k < f.len() ==> float_syntax(#[trigger] f[k])
}

/// Reads an `R,G,B` colour such as `255,128,0`.
pub fn parse_tripple(s: &str) -> (r: Option<(u8, u8, u8)>)
    ensures
        r == tripple_of(s@),
{
    let chars = chars_of(s);
    let fields = split_chars(&chars, ',');
    if fields.len() < 3 {
        return None;
    }
    let r = parse_unsigned(&fields[0], 255);
    let g = parse_unsigned(&fields[1], 255);
    let b = parse_unsigned(&fields[2], 255);
    match (r, g, b) {
        (Some(r), Some(g), Some(b)) => Some((r as u8, g as u8, b as u8)),
        _ => None,
    }
}

/// Accepts `s` when it reads as an unsigned 32-bit integer.
pub fn is_u32(s: String) -> (r: Result<(), String>)
    ensures
        r is Ok <==> parses_unsigned(s@, u32::MAX as nat),
        r matches Err(e) ==> e@ == "Not a valid u32!"@,
{
    let chars = chars_of(s.as_str());
    match parse_unsigned(&chars, 4294967295) {
        Some(_) => Ok(()),
        None => Err("Not a valid u32!".to_owned()),
    }
}

/// Accepts `s` when it reads as a 64-bit float.
pub fn is_f64(s: String) -> (r: Result<(), String>)
    ensures
        r is Ok <==> float_syntax(s@),
        r matches Err(e) ==> e@ == "Not a valid f64!"@,
{
    let chars = chars_of(s.as_str());
    if float_text_ok(&chars) {
        Ok(())
    } else {
        Err("Not a valid f64!".to_owned())
    }
}

/// Accepts `s` when each of its space separated pieces reads as a 64-bit float.
pub fn is_list_of_f64(s: String) -> (r: Result<(), String>)
    ensures
        r is Ok <==> float_list_syntax(s@),
        r matches Err(e) ==> e@ == "Not a valid f64!"@,
{
    let chars = chars_of(s.as_str());
    let fields = split_chars(&chars, ' ');
    let mut i: usize = 0;
    while i < fields.len()
        invariant
            i <= fields@.len(),
            fields@.len() == split_on(s@, ' ').len(),
            forall|k: int|
                0 <= k < fields@.len() ==> (#[trigger] fields@[k])@ == split_on(s@, ' ')[k],
            forall|k: int| 0 <= k < i ==> float_syntax(#[trigger] split_on(s@, ' ')[k]),
        decreases fields@.len() - i,
    {
        if !float_text_ok(&fields[i]) {
            assert(!float_syntax(split_on(s@, ' ')[i as int]));
            return Err("Not a valid f64!".to_owned());
        }
        i = i + 1;
    }
    Ok(())
}

} // verus!
