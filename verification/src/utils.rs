//! Inflection helpers used when an editor fills in a form: the regular
//! plural of a noun, and the ordinal and approximate forms of a number.

use vstd::prelude::*;
use vstd::string::StringExecFns;
use vstd::string::StrSliceExecFns;
use crate::text::{spec_ends_with, str_ends_with, str_prefix};

verus! {

/// The regular plural: -al/-au and -ail become -aux, -eu/-ou gain an x,
/// words already ending in s, x or z stay, everything else gains an s.
pub open spec fn spec_get_plural(s: Seq<char>) -> Seq<char> {
    if spec_ends_with(s, "al"@) || spec_ends_with(s, "au"@) {
        s.take(s.len() - 2) + "aux"@
    } else if spec_ends_with(s, "ail"@) {
        s.take(s.len() - 3) + "aux"@
    } else if spec_ends_with(s, "eu"@) || spec_ends_with(s, "ou"@) {
        s + "x"@
    } else if !spec_ends_with(s, "s"@) && !spec_ends_with(s, "x"@) && !spec_ends_with(s, "z"@) {
        s + "s"@
    } else {
        s
    }
}

pub fn get_plural(string: &str) -> (r: String)
    ensures
        r@ == spec_get_plural(string@),
{
    proof {
        reveal_strlit("al");
        reveal_strlit("au");
        reveal_strlit("ail");
        reveal_strlit("eu");
        reveal_strlit("ou");
        reveal_strlit("s");
        reveal_strlit("x");
        reveal_strlit("z");
    }
    let len = string.unicode_len();
    if str_ends_with(string, "al") || str_ends_with(string, "au") {
        str_prefix(string, len - 2).concat("aux")
    } else if str_ends_with(string, "ail") {
        str_prefix(string, len - 3).concat("aux")
    } else if str_ends_with(string, "eu") || str_ends_with(string, "ou") {
        string.to_owned().concat("x")
    } else if !str_ends_with(string, "s") && !str_ends_with(string, "x") && !str_ends_with(
        string,
        "z",
    ) {
        string.to_owned().concat("s")
    } else {
        string.to_owned()
    }
}

/// The ordinal of a cardinal: a final e is dropped before -ième.
pub open spec fn spec_ordinal(c: Seq<char>) -> Seq<char> {
    if spec_ends_with(c, "e"@) {
        c.take(c.len() - 1) + "ième"@
    } else {
        c + "ième"@
    }
}

/// The approximate form of a cardinal: a final e is dropped before -aine, a
/// final x is replaced by -zaine.
pub open spec fn spec_approximate(c: Seq<char>) -> Seq<char> {
    if spec_ends_with(c, "e"@) {
        c.take(c.len() - 1) + "aine"@
    } else if spec_ends_with(c, "x"@) {
        c.take(c.len() - 1) + "zaine"@
    } else {
        c + "aine"@
    }
}

/// The ordinal and approximate forms generated from a cardinal.
pub fn number_forms(cardinal: &str) -> (r: (String, String))
    ensures
        r.0@ == spec_ordinal(cardinal@),
        r.1@ == spec_approximate(cardinal@),
{
    proof {
        reveal_strlit("e");
        reveal_strlit("x");
    }
    let len = cardinal.unicode_len();
    let ordinal = if str_ends_with(cardinal, "e") {
        str_prefix(cardinal, len - 1).concat("ième")
    } else {
        cardinal.to_owned().concat("ième")
    };
    let approximate = if str_ends_with(cardinal, "e") {
        str_prefix(cardinal, len - 1).concat("aine")
    } else if str_ends_with(cardinal, "x") {
        str_prefix(cardinal, len - 1).concat("zaine")
    } else {
        cardinal.to_owned().concat("aine")
    };
    (ordinal, approximate)
}

} // verus!
