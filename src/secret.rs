use vstd::prelude::*;

verus! {

/// Relies on `zeroize::Zeroize` for `String`: the bytes are overwritten with
/// zeros and the string is left empty.
#[verifier::external_body]
fn wipe(s: &mut String)
    ensures
        final(s)@ == Seq::<char>::empty(),
    opens_invariants none
    no_unwind
{
    zeroize::Zeroize::zeroize(s)
}

/// A password (or its digest) held for the length of one check.
///
/// Its text is wiped when the value goes out of scope, on every path out of
/// the check, early errors included.
pub struct PassArg {
    pub password: String,
}

impl PassArg {
    /// Wipes the password now, leaving it empty.
    pub fn clear(&mut self)
        ensures
            final(self).password@ == Seq::<char>::empty(),
    {
        wipe(&mut self.password);
    }
}

impl Drop for PassArg {
    fn drop(&mut self)
        opens_invariants none
        no_unwind
    {
        wipe(&mut self.password);
    }
}

} // verus!
