use vstd::prelude::*;

use crate::text::{chars_of, is_strip_char, strip};
use crate::v2::strings_view;

verus! {

/// The least time between two requests to the service, in milliseconds.
pub const REQUEST_SPACING_MS: u64 = 1600;

/// A name ending in `.ls` stands for a list of identifiers, one per line.
pub open spec fn is_list_file(name: Seq<char>) -> bool {
    name.len() >= 3 && name.skip(name.len() - 3) == seq!['.', 'l', 's']
}

/// Whether `name` names a list of identifiers rather than one identifier.
pub fn is_list_file_name(name: &str) -> (r: bool)
    ensures
        r == is_list_file(name@),
{
    let cs = chars_of(name);
    let n = cs.len();
    if n < 3 {
        return false;
    }
    let r = cs[n - 3] == '.' && cs[n - 2] == 'l' && cs[n - 1] == 's';
    proof {
        let tail = name@.skip(n - 3);
        if r {
            assert(tail == seq!['.', 'l', 's']);
        } else {
            assert(tail[0] != '.' || tail[1] != 'l' || tail[2] != 's');
        }
    }
    r
}

/// An identifier as it is looked up: without spaces, newlines or tabs.
pub open spec fn stripped(s: Seq<char>) -> Seq<char> {
    s.filter(|c: char| !is_strip_char(c))
}

/// The identifiers of a list, in order: each line stripped, empty ones left
/// out.
pub open spec fn spec_identifiers(lines: Seq<Seq<char>>) -> Seq<Seq<char>> {
    lines.map_values(|l: Seq<char>| stripped(l)).filter(|s: Seq<char>| s.len() > 0)
}

/// The identifiers to look up for the lines of a list, one request each.
pub fn identifiers_to_check(lines: &Vec<String>) -> (r: Vec<String>)
    ensures
        strings_view(r@) == spec_identifiers(strings_view(lines@)),
{
    let ghost lv = strings_view(lines@);
    let mut out: Vec<String> = Vec::new();
    let mut i: usize = 0;
    while i < lines.len()
        invariant
            i <= lines@.len(),
            lv == strings_view(lines@),
            strings_view(out@) == spec_identifiers(lv.take(i as int)),
        decreases lines.len() - i,
    {
        let ghost before = strings_view(out@);
        let ghost mapped = lv.take(i as int).map_values(|l: Seq<char>| stripped(l));
        let s = strip(lines[i].as_str());
        proof {
            reveal(Seq::filter);
            assert(lv.take(i + 1).map_values(|l: Seq<char>| stripped(l)) == mapped.push(s@));
            assert(lv.take(i + 1).map_values(|l: Seq<char>| stripped(l)).drop_last() == mapped);
        }
        if !s.as_str().is_empty() {
            out.push(s);
            proof {
                assert(strings_view(out@) == before.push(s@));
            }
        }
        i = i + 1;
    }
    proof {
        assert(lv.take(lines@.len() as int) == lv);
    }
    out
}

} // verus!
