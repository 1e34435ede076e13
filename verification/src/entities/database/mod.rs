//! Records of the local database: peers and chats.
use vstd::prelude::*;

pub mod chat;
pub mod peer;

verus! {

/// "Nothing was inserted."
pub open spec fn nothing_changed_text() -> Seq<char> {
    seq!['N', 'o', 't', 'h', 'i', 'n', 'g', ' ', 'w', 'a', 's', ' ', 'i', 'n', 's', 'e', 'r', 't', 'e', 'd', '.']
}

/// The outcome of a statement that must change a row, given how many rows it changed: an
/// error when it changed none.
pub fn require_changed(rows: usize) -> (r: Result<(), String>)
    ensures
        r is Ok <==> rows != 0,
        r matches Err(e) ==> e@ == nothing_changed_text(),
{
    if rows == 0 {
        let text = "Nothing was inserted.".to_owned();
        proof {
            reveal_strlit("Nothing was inserted.");
        }
        assert(text@ =~= nothing_changed_text());
        Err(text)
    } else {
        Ok(())
    }
}

} // verus!
