use vstd::prelude::*;
use vstd::string::StringSliceAdditionalSpecFns;

use crate::digest::hex_digit_upper;
use crate::text::{chars_of, str_eq, string_from_chars};

verus! {

pub const ACC_ROUTE: &'static str = "https://haveibeenpwned.com/api/v3/breachedaccount/";

pub const PASS_ROUTE: &'static str = "https://api.pwnedpasswords.com/range/";

pub const PASTE_ROUTE: &'static str = "https://haveibeenpwned.com/api/v3/pasteaccount/";

/// How many characters of a digest the password-range endpoint is sent.
pub const PREFIX_LEN: usize = 5;

/// The bytes that `percent_encoding::DEFAULT_ENCODE_SET` encodes: controls,
/// everything outside ASCII, space, `"`, `#`, `<`, `>`, backtick, `?`, `{`
/// and `}`.
pub open spec fn in_default_encode_set(b: u8) -> bool {
    b < 0x20 || b > 0x7e || b == 0x20 || b == 0x22 || b == 0x23 || b == 0x3c || b == 0x3e || b
        == 0x60 || b == 0x3f || b == 0x7b || b == 0x7d
}

pub open spec fn pct_encode_byte(b: u8) -> Seq<char> {
    if in_default_encode_set(b) {
        seq!['%', hex_digit_upper(b / 16), hex_digit_upper(b % 16)]
    } else {
        seq![b as char]
    }
}

/// Percent-encoding of a byte string: each byte of the encode set becomes
/// `%` and two upper-case hexadecimal digits, every other byte stays.
pub open spec fn pct_encode(bytes: Seq<u8>) -> Seq<char>
    decreases bytes.len(),
{
    if bytes.len() == 0 {
        seq![]
    } else {
        pct_encode_byte(bytes[0]) + pct_encode(bytes.skip(1))
    }
}

/// Relies on `percent_encoding::utf8_percent_encode` with `DEFAULT_ENCODE_SET`,
/// rendered through its `Display`: the UTF-8 bytes of `s`, each byte of the set
/// written as `%XX` with upper-case digits.
#[verifier::external_body]
pub(crate) fn percent_encode_default(s: &str) -> (r: String)
    ensures
        r@ == pct_encode(s.spec_bytes()),
{
    percent_encoding::utf8_percent_encode(s, percent_encoding::DEFAULT_ENCODE_SET).to_string()
}

/// The endpoints a lookup can go to.
#[derive(Debug, Clone, Copy, PartialEq, Eq, Structural)]
pub enum CheckableChoices {
    /// The account-breach endpoint.
    ACC,
    /// The password-range endpoint.
    PASS,
    /// The paste endpoint.
    PASTE,
}

/// The first characters of a digest that may be sent: never more than five.
pub open spec fn digest_prefix(d: Seq<char>) -> Seq<char> {
    if d.len() <= PREFIX_LEN {
        d
    } else {
        d.take(PREFIX_LEN as int)
    }
}

impl CheckableChoices {
    /// The endpoint URL that the search term is appended to.
    pub open spec fn spec_route(&self) -> Seq<char> {
        match self {
            CheckableChoices::ACC => ACC_ROUTE@,
            CheckableChoices::PASS => PASS_ROUTE@,
            CheckableChoices::PASTE => PASTE_ROUTE@,
        }
    }

    /// What follows the endpoint URL for `input`: a digest prefix on the
    /// password path, the percent-encoded identifier on the others.
    pub open spec fn spec_tail(&self, input: Seq<char>) -> Seq<char> {
        match self {
            CheckableChoices::PASS => digest_prefix(input),
            _ => pct_encode(vstd::utf8::encode_utf8(input)),
        }
    }

    /// The choice named by a command word, if any.
    pub open spec fn spec_from_arg(arg: Seq<char>) -> Option<CheckableChoices> {
        if arg == "acc"@ {
            Some(CheckableChoices::ACC)
        } else if arg == "pass"@ {
            Some(CheckableChoices::PASS)
        } else if arg == "paste"@ {
            Some(CheckableChoices::PASTE)
        } else {
            None
        }
    }

    /// Reads the command words `acc`, `pass` and `paste`.
    pub fn from_arg(arg: &str) -> (r: Option<CheckableChoices>)
        ensures
            r == Self::spec_from_arg(arg@),
    {
        if str_eq(arg, "acc") {
            Some(CheckableChoices::ACC)
        } else if str_eq(arg, "pass") {
            Some(CheckableChoices::PASS)
        } else if str_eq(arg, "paste") {
            Some(CheckableChoices::PASTE)
        } else {
            None
        }
    }

    /// The endpoint URL with `search_term` appended as it is.
    pub fn get_api_route(&self, search_term: &str) -> (r: String)
        ensures
            r@ == self.spec_route() + search_term@,
    {
        let mut r = match self {
            CheckableChoices::ACC => String::from_str(ACC_ROUTE),
            CheckableChoices::PASS => String::from_str(PASS_ROUTE),
            CheckableChoices::PASTE => String::from_str(PASTE_ROUTE),
        };
        r.append(search_term);
        r
    }
}

/// The first `PREFIX_LEN` characters of `digest`, or all of it when shorter.
pub fn prefix_of(digest: &str) -> (r: String)
    ensures
        r@ == digest_prefix(digest@),
{
    let cs = chars_of(digest);
    let n = if cs.len() <= PREFIX_LEN {
        cs.len()
    } else {
        PREFIX_LEN
    };
    let r = string_from_chars(&cs, 0, n);
    proof {
        if cs@.len() <= PREFIX_LEN {
            assert(cs@.subrange(0, n as int) == cs@);
        }
    }
    r
}

/// The request URL for a lookup.
///
/// On the password path `input_data` is the digest, of which only the first
/// five characters are sent, whatever its length; an account or paste
/// identifier is percent-encoded.
pub fn arg_to_api_route(arg: &CheckableChoices, input_data: &str) -> (r: String)
    ensures
        r@ == arg.spec_route() + arg.spec_tail(input_data@),
{
    match arg {
        CheckableChoices::PASS => {
            let prefix = prefix_of(input_data);
            arg.get_api_route(prefix.as_str())
        },
        _ => {
            let encoded = percent_encode_default(input_data);
            arg.get_api_route(encoded.as_str())
        },
    }
}

} // verus!
