use vstd::prelude::*;

verus! {

/// Relies on `String::push`: appends one character.
#[verifier::external_body]
fn push_char(s: &mut String, c: char)
    ensures
        final(s)@ == old(s)@.push(c),
{
    s.push(c)
}

/// Relies on `str`'s `==`: equal exactly when the characters are equal.
#[verifier::external_body]
pub(crate) fn str_eq(a: &str, b: &str) -> (r: bool)
    ensures
        r == (a@ == b@),
{
    a == b
}

/// The characters of `s`, in order.
pub fn chars_of(s: &str) -> (r: Vec<char>)
    ensures
        r@ == s@,
{
    let mut r: Vec<char> = Vec::new();
    for c in it: s.chars()
        invariant
            it.seq() == s@,
            r@ == it.seq().take(it.index() as int),
    {
        proof {
            assert(it.seq().take(it.index() as int).push(c) == it.seq().take(it.index() + 1));
        }
        r.push(c);
    }
    proof {
        assert(r@ == s@);
    }
    r
}

/// The string made of `cs[from..to]`.
pub fn string_from_chars(cs: &Vec<char>, from: usize, to: usize) -> (r: String)
    requires
        from <= to <= cs@.len(),
    ensures
        r@ == cs@.subrange(from as int, to as int),
{
    let mut r = String::new();
    let mut i: usize = from;
    while i < to
        invariant
            from <= i <= to <= cs@.len(),
            r@ == cs@.subrange(from as int, i as int),
        decreases to - i,
    {
        push_char(&mut r, cs[i]);
        proof {
            assert(cs@.subrange(from as int, i as int).push(cs@[i as int]) == cs@.subrange(
                from as int,
                i + 1,
            ));
        }
        i = i + 1;
    }
    r
}

/// The ASCII upper case of `c`; every other character is kept.
pub open spec fn spec_ascii_upper(c: char) -> char {
    if 'a' <= c && c <= 'z' {
        (((c as u32) - 32) as u8) as char
    } else {
        c
    }
}

pub open spec fn upper_chars(s: Seq<char>) -> Seq<char> {
    s.map_values(|c: char| spec_ascii_upper(c))
}

pub fn ascii_upper(c: char) -> (r: char)
    ensures
        r == spec_ascii_upper(c),
{
    if 'a' <= c && c <= 'z' {
        (((c as u32) - 32) as u8) as char
    } else {
        c
    }
}

/// `cs[from..to]` in ASCII upper case, as a string.
pub fn upper_string_from_chars(cs: &Vec<char>, from: usize, to: usize) -> (r: String)
    requires
        from <= to <= cs@.len(),
    ensures
        r@ == upper_chars(cs@.subrange(from as int, to as int)),
{
    let mut r = String::new();
    let mut i: usize = from;
    while i < to
        invariant
            from <= i <= to <= cs@.len(),
            r@ == upper_chars(cs@.subrange(from as int, i as int)),
        decreases to - i,
    {
        let u = ascii_upper(cs[i]);
        push_char(&mut r, u);
        proof {
            assert(upper_chars(cs@.subrange(from as int, i as int)).push(u) == upper_chars(
                cs@.subrange(from as int, i + 1),
            ));
        }
        i = i + 1;
    }
    r
}

/// What `strip` removes: spaces, newlines and tabs.
pub open spec fn is_strip_char(c: char) -> bool {
    c == ' ' || c == '\n' || c == '\t'
}

/// What `strip_white_new` removes: spaces and newlines.
pub open spec fn is_white_new(c: char) -> bool {
    c == ' ' || c == '\n'
}

/// Removes every space, newline and tab from `string`.
pub fn strip(string: &str) -> (r: String)
    ensures
        r@ == string@.filter(|c: char| !is_strip_char(c)),
{
    let cs = chars_of(string);
    let mut r = String::new();
    let mut i: usize = 0;
    while i < cs.len()
        invariant
            i <= cs@.len(),
            cs@ == string@,
            r@ == cs@.take(i as int).filter(|c: char| !is_strip_char(c)),
        decreases cs.len() - i,
    {
        let c = cs[i];
        proof {
            reveal(Seq::filter);
            assert(cs@.take(i + 1).drop_last() == cs@.take(i as int));
        }
        if !(c == ' ' || c == '\n' || c == '\t') {
            push_char(&mut r, c);
        }
        i = i + 1;
    }
    proof {
        assert(cs@.take(cs@.len() as int) == cs@);
    }
    r
}

/// Removes every space and newline from `string`.
pub fn strip_white_new(string: &str) -> (r: String)
    ensures
        r@ == string@.filter(|c: char| !is_white_new(c)),
{
    let cs = chars_of(string);
    let mut r = String::new();
    let mut i: usize = 0;
    while i < cs.len()
        invariant
            i <= cs@.len(),
            cs@ == string@,
            r@ == cs@.take(i as int).filter(|c: char| !is_white_new(c)),
        decreases cs.len() - i,
    {
        let c = cs[i];
        proof {
            reveal(Seq::filter);
            assert(cs@.take(i + 1).drop_last() == cs@.take(i as int));
        }
        if !(c == ' ' || c == '\n') {
            push_char(&mut r, c);
        }
        i = i + 1;
    }
    proof {
        assert(cs@.take(cs@.len() as int) == cs@);
    }
    r
}

} // verus!
