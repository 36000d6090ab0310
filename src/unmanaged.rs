//! Interpretation of LHAPDF's raw answers.
use vstd::prelude::*;

verus! {

/// Whether LHAPDF's raw answer to an index lookup, a set name and a member number, denotes an
/// entry: LHAPDF answers an empty name and member `-1` for an unknown ID.
pub open spec fn is_index_entry(setname: Seq<char>, memberid: i32) -> bool {
    !(setname.len() == 0 && memberid == -1)
}

/// Turns LHAPDF's raw answer to an index lookup into the set name and member number, or `None`
/// where the index has no entry.
pub fn pdf_name_and_member_via_lhaid(setname: String, memberid: i32) -> (r: Option<(String, i32)>)
    ensures
        r == (if is_index_entry(setname@, memberid) {
            Some((setname, memberid))
        } else {
            None
        }),
{
    if setname.as_str().is_empty() && memberid == -1 {
        None
    } else {
        Some((setname, memberid))
    }
}

} // verus!
