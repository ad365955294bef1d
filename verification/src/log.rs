//! Helpers for naming log targets.

use vstd::prelude::*;
use vstd::string::StringSliceAdditionalSpecFns;
use vstd::utf8::{
    encode_utf8_valid_utf8, is_char_boundary_iff_not_is_continuation_byte,
    is_char_boundary_start_end_of_seq,
};

verus! {

/// The number of bytes of a module path that stand before its first `::`,
/// or its whole length where it holds none.
pub open spec fn crate_name_len(path: Seq<u8>) -> int
    decreases path.len(),
{
    if path.len() == 0 {
        0
    } else if path.len() >= 2 && path[0] == 0x3a && path[1] == 0x3a {
        0
    } else {
        1 + crate_name_len(path.skip(1))
    }
}

/// Whether a `::` stands at position `i` of `bytes`.
fn at_separator(bytes: &[u8], i: usize) -> (found: bool)
    requires
        i < bytes@.len(),
    ensures
        found == (i + 1 < bytes@.len() && bytes@[i as int] == 0x3a && bytes@[i + 1] == 0x3a),
{
    i < bytes.len() - 1 && bytes[i] == 0x3a && bytes[i + 1] == 0x3a
}

/// The name of the crate that a module path begins with: the part before
/// the first `::`, or the whole path where it is a crate's name alone.
pub fn extract_crate_name(path: &str) -> (name: &str)
    ensures
        name.spec_bytes() == path.spec_bytes().take(crate_name_len(path.spec_bytes())),
{
    let bytes = path.as_bytes();
    let ghost all = path.spec_bytes();
    let mut end_index: usize = 0;
    assert(all.skip(0) =~= all);
    while end_index < bytes.len() && !at_separator(bytes, end_index)
        invariant
            end_index <= bytes.len(),
            bytes@ == all,
            crate_name_len(all) == end_index + crate_name_len(all.skip(end_index as int)),
        decreases bytes.len() - end_index,
    {
        let ghost rest = all.skip(end_index as int);
        assert(rest[0] == all[end_index as int]);
        assert(rest.len() >= 2 ==> rest[1] == all[end_index + 1]);
        assert(rest.skip(1) =~= all.skip(end_index + 1));
        end_index += 1;
    }
    proof {
        let rest = all.skip(end_index as int);
        encode_utf8_valid_utf8(path@);
        if end_index < all.len() {
            assert(rest[0] == all[end_index as int]);
            assert(rest[1] == all[end_index + 1]);
            is_char_boundary_iff_not_is_continuation_byte(all, end_index as int);
        } else {
            is_char_boundary_start_end_of_seq(all);
        }
        assert(crate_name_len(rest) == 0);
        assert(all.subrange(0, end_index as int) =~= all.take(end_index as int));
    }
    let (name, _) = path.split_at(end_index);
    name
}

} // verus!
