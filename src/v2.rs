//! The version 2 interface of the breach service: no API key, command words
//! instead of [`CheckableChoices`], and query parameters on account lookups.

use vstd::prelude::*;
use vstd::string::StringSliceAdditionalSpecFns;
use vstd::utf8::{decode_utf8, valid_utf8};

use crate::digest::{digest_text, hash_password};
use crate::error::CheckpwnError;
use crate::range::{digest_suffix, parse_body, parse_range_response, suffix_of};
use crate::route::{
    digest_prefix, pct_encode, percent_encode_default, prefix_of, CheckableChoices, PASS_ROUTE,
};

pub use crate::text::strip_white_new;

verus! {

pub const ACC_ROUTE: &'static str = "https://haveibeenpwned.com/api/v2/breachedaccount/";

pub const PASTE_ROUTE: &'static str = "https://haveibeenpwned.com/api/v2/pasteaccount/";

pub const INCLUDE_UNVERIFIED: &'static str = "includeUnverified=true";

pub const TRUNCATE_RESPONSE: &'static str = "truncateResponse=true";

/// `sep` and the parameter, when there is one.
pub open spec fn query_part(sep: Seq<char>, p: Option<&str>) -> Seq<char> {
    match p {
        Some(x) => sep + x@,
        None => seq![],
    }
}

/// `api_route` and `search_term`, followed by `?p3` and `&p4` where given.
pub fn format_req(api_route: &str, search_term: &str, p3: Option<&str>, p4: Option<&str>) -> (r:
    String)
    ensures
        r@ == api_route@ + search_term@ + query_part("?"@, p3) + query_part("&"@, p4),
{
    let mut request = String::from_str(api_route);
    request.append(search_term);
    if let Some(path3) = p3 {
        request.append("?");
        request.append(path3);
    }
    if let Some(path4) = p4 {
        request.append("&");
        request.append(path4);
    }
    proof {
        assert(request@ == api_route@ + search_term@ + query_part("?"@, p3) + query_part("&"@, p4));
    }
    request
}

/// The version 2 request URL for a lookup of `input`.
pub open spec fn spec_route_v2(choice: CheckableChoices, input: &str) -> Seq<char> {
    match choice {
        CheckableChoices::ACC => ACC_ROUTE@ + pct_encode(input.spec_bytes()) + "?"@
            + INCLUDE_UNVERIFIED@ + "&"@ + TRUNCATE_RESPONSE@,
        CheckableChoices::PASS => PASS_ROUTE@ + digest_prefix(digest_text(input.spec_bytes())),
        CheckableChoices::PASTE => PASTE_ROUTE@ + pct_encode(input.spec_bytes()),
    }
}

/// The request URL for the command word `arg` (`acc`, `pass` or `paste`).
///
/// Account and paste identifiers are percent-encoded; account lookups ask for
/// unverified breaches and a truncated answer. On the password path
/// `input_data` is the password itself: it is hashed here, and only the first
/// five digits of its digest go into the URL. Any other word is
/// `InvalidQueryKind`.
pub fn arg_to_api_route(arg: &str, input_data: &str) -> (r: Result<String, CheckpwnError>)
    ensures
        match CheckableChoices::spec_from_arg(arg@) {
            Some(choice) => r is Ok && r->Ok_0@ == spec_route_v2(choice, input_data),
            None => r == Err::<String, CheckpwnError>(CheckpwnError::InvalidQueryKind),
        },
{
    match CheckableChoices::from_arg(arg) {
        None => Err(CheckpwnError::InvalidQueryKind),
        Some(CheckableChoices::ACC) => {
            let encoded = percent_encode_default(input_data);
            let r = format_req(
                ACC_ROUTE,
                encoded.as_str(),
                Some(INCLUDE_UNVERIFIED),
                Some(TRUNCATE_RESPONSE),
            );
            Ok(r)
        },
        Some(CheckableChoices::PASS) => {
            let digest = hash_password(input_data);
            let prefix = prefix_of(digest.as_str());
            let r = format_req(PASS_ROUTE, prefix.as_str(), None, None);
            proof {
                assert(r@ == PASS_ROUTE@ + prefix@);
            }
            Ok(r)
        },
        Some(CheckableChoices::PASTE) => {
            let encoded = percent_encode_default(input_data);
            let r = format_req(PASTE_ROUTE, encoded.as_str(), None, None);
            proof {
                assert(r@ == PASTE_ROUTE@ + encoded@);
            }
            Ok(r)
        },
    }
}

/// The text of a byte string as `String::from_utf8_lossy` reads it.
pub uninterp spec fn lossy_text_of(b: Seq<u8>) -> Seq<char>;

/// Relies on `String::from_utf8_lossy`: the bytes read as UTF-8, each invalid
/// sequence replaced by U+FFFD, so that valid UTF-8 is decoded unchanged.
#[verifier::external_body]
fn text_from_bytes(b: &[u8]) -> (r: String)
    ensures
        r@ == lossy_text_of(b@),
        valid_utf8(b@) ==> r@ == decode_utf8(b@),
{
    String::from_utf8_lossy(b).into_owned()
}

pub open spec fn strings_view(v: Seq<String>) -> Seq<Seq<char>> {
    v.map_values(|s: String| s@)
}

/// The suffixes of the candidates that are not padding, in order.
pub open spec fn nonpadding_suffixes(cs: Seq<(Seq<char>, u64)>) -> Seq<Seq<char>> {
    cs.filter(|c: (Seq<char>, u64)| c.1 != 0).map_values(|c: (Seq<char>, u64)| c.0)
}

/// The suffixes of a password-range response, padding left out.
///
/// The bytes are read as UTF-8 (invalid sequences become U+FFFD) and parsed as
/// `parse_range_response` does; a malformed body is `MalformedRangeResponse`.
pub fn split_range(response: &[u8]) -> (r: Result<Vec<String>, CheckpwnError>)
    ensures
        match parse_body(lossy_text_of(response@)) {
            Some(cs) => r is Ok && strings_view(r->Ok_0@) == nonpadding_suffixes(cs),
            None => r == Err::<Vec<String>, CheckpwnError>(
                CheckpwnError::MalformedRangeResponse,
            ),
        },
{
    let text = text_from_bytes(response);
    let candidates = match parse_range_response(text.as_str()) {
        Err(e) => {
            return Err(e);
        },
        Ok(v) => v,
    };
    let ghost cv = crate::range::candidates_view(candidates@);
    let mut out: Vec<String> = Vec::new();
    let mut i: usize = 0;
    while i < candidates.len()
        invariant
            i <= candidates@.len(),
            cv == crate::range::candidates_view(candidates@),
            strings_view(out@) == nonpadding_suffixes(cv.take(i as int)),
        decreases candidates.len() - i,
    {
        let ghost before = strings_view(out@);
        let ghost kept = cv.take(i as int).filter(|c: (Seq<char>, u64)| c.1 != 0);
        proof {
            reveal(Seq::filter);
            assert(cv.take(i + 1).drop_last() == cv.take(i as int));
            assert(cv.take(i + 1).last() == candidates@[i as int]@);
        }
        if candidates[i].count != 0 {
            let s = candidates[i].suffix.clone();
            out.push(s);
            proof {
                assert(strings_view(out@) == before.push(s@));
                assert(cv.take(i + 1).filter(|c: (Seq<char>, u64)| c.1 != 0) == kept.push(
                    cv[i as int],
                ));
                assert(kept.push(cv[i as int]).map_values(|c: (Seq<char>, u64)| c.0)
                    == kept.map_values(|c: (Seq<char>, u64)| c.0).push(s@));
            }
        } else {
            proof {
                assert(cv.take(i + 1).filter(|c: (Seq<char>, u64)| c.1 != 0) == kept);
            }
        }
        i = i + 1;
    }
    proof {
        assert(cv.take(candidates@.len() as int) == cv);
    }
    Ok(out)
}

/// Whether the suffix of the digest of `search_key` is one of `search_space`.
pub fn search_in_range(search_space: Vec<String>, search_key: &str) -> (r: bool)
    ensures
        r == exists|i: int|
            0 <= i < search_space@.len() && (#[trigger] search_space@[i])@ == digest_suffix(
                digest_text(search_key.spec_bytes()),
            ),
{
    let hashed_key = hash_password(search_key);
    let suffix = suffix_of(hashed_key.as_str());
    let mut res = false;
    let mut i: usize = 0;
    while i < search_space.len()
        invariant
            i <= search_space@.len(),
            suffix@ == digest_suffix(digest_text(search_key.spec_bytes())),
            res == exists|j: int| 0 <= j < i && (#[trigger] search_space@[j])@ == suffix@,
        decreases search_space.len() - i,
    {
        if search_space[i] == suffix {
            res = true;
        }
        i = i + 1;
    }
    res
}

} // verus!
