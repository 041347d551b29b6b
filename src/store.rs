use vstd::prelude::*;
use vstd::string::*;

use crate::net::text_of;
use crate::text::{chars_of, is_space_spec, trim, trim_bounds, trim_end, trim_start};

verus! {

/// What the file of the last address gives when read: its trimmed text, or
/// nothing where that is empty.
pub open spec fn stored_text(content: Seq<char>) -> Option<Seq<char>> {
    if trim(content).len() == 0 {
        None
    } else {
        Some(trim(content))
    }
}

/// Reads the content of the file of the last address.
pub fn stored_address(content: &str) -> (r: Option<String>)
    ensures
        text_of(r) == stored_text(content@),
{
    let cs = chars_of(content);
    let (a, b) = trim_bounds(&cs, 0, cs.len());
    assert(cs@.subrange(0, cs@.len() as int) =~= content@);
    if a < b {
        Some(content.substring_char(a, b).to_owned())
    } else {
        None
    }
}

proof fn lemma_trim_start_clean(s: Seq<char>)
    ensures
        trim_start(s).len() == 0 || !is_space_spec(trim_start(s)[0]),
    decreases s.len(),
{
    if s.len() > 0 && is_space_spec(s[0]) {
        lemma_trim_start_clean(s.drop_first());
    }
}

proof fn lemma_trim_end_clean(s: Seq<char>)
    ensures
        trim_end(s).len() <= s.len(),
        trim_end(s) == s.subrange(0, trim_end(s).len() as int),
        trim_end(s).len() == 0 || !is_space_spec(trim_end(s).last()),
    decreases s.len(),
{
    if s.len() > 0 && is_space_spec(s.last()) {
        lemma_trim_end_clean(s.drop_last());
        assert(s.drop_last().subrange(0, trim_end(s).len() as int) =~= s.subrange(
            0,
            trim_end(s).len() as int,
        ));
    } else {
        assert(s.subrange(0, s.len() as int) =~= s);
    }
}

/// Trimming twice trims no more than trimming once.
pub proof fn lemma_trim_idempotent(s: Seq<char>)
    ensures
        trim(trim(s)) == trim(s),
{
    let t = trim(s);
    lemma_trim_start_clean(s);
    lemma_trim_end_clean(trim_start(s));
    if t.len() > 0 {
        assert(t[0] == trim_start(s)[0]);
    }
    assert(trim_start(t) == t);
    assert(trim_end(t) == t);
}

/// An address written to the file and read back is the written text, trimmed;
/// and what was read, written again, reads back unchanged.
pub proof fn lemma_round_trip(written: Seq<char>)
    ensures
        stored_text(written) matches Some(t) ==> t == trim(written) && stored_text(t) == Some(t),
        stored_text(written) is None ==> trim(written).len() == 0,
{
    lemma_trim_idempotent(written);
}

} // verus!
