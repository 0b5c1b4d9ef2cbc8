use vstd::prelude::*;

use crate::error::CheckpwnError;
use crate::range::{search_in_range, spec_search};

verus! {

/// The outcome of one request to the breach service, as far as the decision
/// rules care about it.
#[derive(Debug, Clone, Copy, PartialEq, Eq, Structural)]
pub enum RemoteStatus {
    /// The service holds data for the identifier (HTTP 200).
    Found,
    /// The service holds no data for the identifier (HTTP 404).
    NotFound,
    /// The service refused the identifier itself (HTTP 400).
    ClientError(u16),
    /// The service refused the API key (HTTP 401).
    Unauthorized,
    /// Any other status code.
    Other(u16),
}

pub const STATUS_OK: u16 = 200;
pub const STATUS_BAD_REQUEST: u16 = 400;
pub const STATUS_UNAUTHORIZED: u16 = 401;
pub const STATUS_NOT_FOUND: u16 = 404;

impl RemoteStatus {
    pub open spec fn spec_from_code(code: u16) -> RemoteStatus {
        if code == STATUS_OK {
            RemoteStatus::Found
        } else if code == STATUS_NOT_FOUND {
            RemoteStatus::NotFound
        } else if code == STATUS_BAD_REQUEST {
            RemoteStatus::ClientError(code)
        } else if code == STATUS_UNAUTHORIZED {
            RemoteStatus::Unauthorized
        } else {
            RemoteStatus::Other(code)
        }
    }

    /// Classifies an HTTP status code.
    pub fn from_code(code: u16) -> (r: RemoteStatus)
        ensures
            r == Self::spec_from_code(code),
    {
        if code == STATUS_OK {
            RemoteStatus::Found
        } else if code == STATUS_NOT_FOUND {
            RemoteStatus::NotFound
        } else if code == STATUS_BAD_REQUEST {
            RemoteStatus::ClientError(code)
        } else if code == STATUS_UNAUTHORIZED {
            RemoteStatus::Unauthorized
        } else {
            RemoteStatus::Other(code)
        }
    }
}

/// The final answer of one lookup.
#[derive(Debug, Clone, Copy, PartialEq, Eq, Structural)]
pub enum BreachVerdict {
    Breached,
    NotBreached,
}

impl BreachVerdict {
    /// Whether the verdict reports a breach.
    pub fn is_breached(&self) -> (r: bool)
        ensures
            r == (*self == BreachVerdict::Breached),
    {
        match self {
            BreachVerdict::Breached => true,
            BreachVerdict::NotBreached => false,
        }
    }

    /// The words shown to the user for this verdict.
    pub fn text(&self) -> (r: String)
        ensures
            *self == BreachVerdict::Breached ==> r@ == "BREACH FOUND"@,
            *self == BreachVerdict::NotBreached ==> r@ == "NO BREACH FOUND"@,
    {
        match self {
            BreachVerdict::Breached => String::from_str("BREACH FOUND"),
            BreachVerdict::NotBreached => String::from_str("NO BREACH FOUND"),
        }
    }
}

/// The password path: a password is breached exactly when its digest suffix
/// was among the non-padding candidates.
pub fn decide_password(range_match: bool) -> (r: BreachVerdict)
    ensures
        r == (if range_match {
            BreachVerdict::Breached
        } else {
            BreachVerdict::NotBreached
        }),
{
    if range_match {
        BreachVerdict::Breached
    } else {
        BreachVerdict::NotBreached
    }
}

/// The account path, as a table over the answers of the account-breach
/// endpoint and of the paste endpoint.
///
/// A breach is reported when either endpoint found data. A clean result needs
/// both to have found nothing, where the paste endpoint may also have refused
/// the identifier (it accepts e-mail addresses only). Every other combination
/// is an error: an ambiguous answer is never turned into a verdict.
pub open spec fn account_verdict(acc: RemoteStatus, paste: RemoteStatus) -> Result<
    BreachVerdict,
    CheckpwnError,
> {
    match (acc, paste) {
        (RemoteStatus::Unauthorized, RemoteStatus::Unauthorized) => Err(
            CheckpwnError::InvalidCredential,
        ),
        (RemoteStatus::Other(code), _) => Err(CheckpwnError::UnrecognizedUpstreamStatus(code)),
        (RemoteStatus::Found, _) => Ok(BreachVerdict::Breached),
        (RemoteStatus::ClientError(_), _) => Err(CheckpwnError::UpstreamRejected),
        (RemoteStatus::Unauthorized, _) => Err(CheckpwnError::InvalidCredential),
        (RemoteStatus::NotFound, RemoteStatus::NotFound) => Ok(BreachVerdict::NotBreached),
        (RemoteStatus::NotFound, RemoteStatus::ClientError(_)) => Ok(BreachVerdict::NotBreached),
        (RemoteStatus::NotFound, RemoteStatus::Found) => Ok(BreachVerdict::Breached),
        (RemoteStatus::NotFound, RemoteStatus::Unauthorized) => Err(
            CheckpwnError::InvalidCredential,
        ),
        (RemoteStatus::NotFound, RemoteStatus::Other(code)) => Err(
            CheckpwnError::UnrecognizedUpstreamStatus(code),
        ),
    }
}

/// Combines the account-breach and paste answers into one verdict.
pub fn decide_account(acc: RemoteStatus, paste: RemoteStatus) -> (r: Result<
    BreachVerdict,
    CheckpwnError,
>)
    ensures
        r == account_verdict(acc, paste),
        r == Ok::<BreachVerdict, CheckpwnError>(BreachVerdict::Breached) <==> (acc
            == RemoteStatus::Found || (acc == RemoteStatus::NotFound && paste
            == RemoteStatus::Found)),
        r == Ok::<BreachVerdict, CheckpwnError>(BreachVerdict::NotBreached) <==> (acc
            == RemoteStatus::NotFound && (paste == RemoteStatus::NotFound
            || paste is ClientError)),
{
    match (acc, paste) {
        (RemoteStatus::Unauthorized, RemoteStatus::Unauthorized) => Err(
            CheckpwnError::InvalidCredential,
        ),
        (RemoteStatus::Other(code), _) => Err(CheckpwnError::UnrecognizedUpstreamStatus(code)),
        (RemoteStatus::Found, _) => Ok(BreachVerdict::Breached),
        (RemoteStatus::ClientError(_), _) => Err(CheckpwnError::UpstreamRejected),
        (RemoteStatus::Unauthorized, _) => Err(CheckpwnError::InvalidCredential),
        (RemoteStatus::NotFound, RemoteStatus::NotFound) => Ok(BreachVerdict::NotBreached),
        (RemoteStatus::NotFound, RemoteStatus::ClientError(_)) => Ok(BreachVerdict::NotBreached),
        (RemoteStatus::NotFound, RemoteStatus::Found) => Ok(BreachVerdict::Breached),
        (RemoteStatus::NotFound, RemoteStatus::Unauthorized) => Err(
            CheckpwnError::InvalidCredential,
        ),
        (RemoteStatus::NotFound, RemoteStatus::Other(code)) => Err(
            CheckpwnError::UnrecognizedUpstreamStatus(code),
        ),
    }
}

/// Combines the raw status codes of the account-breach and paste requests
/// into one verdict.
pub fn evaluate_acc_breach(acc_stat: u16, paste_stat: u16) -> (r: Result<
    BreachVerdict,
    CheckpwnError,
>)
    ensures
        r == account_verdict(
            RemoteStatus::spec_from_code(acc_stat),
            RemoteStatus::spec_from_code(paste_stat),
        ),
{
    let acc = RemoteStatus::from_code(acc_stat);
    let paste = RemoteStatus::from_code(paste_stat);
    decide_account(acc, paste)
}

/// The label under which a lookup is shown: a password is never displayed.
pub fn display_label(searchterm: &str, is_password: bool) -> (r: String)
    ensures
        is_password ==> r@ == "********"@,
        !is_password ==> r@ == searchterm@,
{
    if is_password {
        String::from_str("********")
    } else {
        String::from_str(searchterm)
    }
}

/// The verdict of the password path for a range response and the digest
/// whose prefix was sent.
pub open spec fn spec_password_verdict(body: Seq<char>, digest: Seq<char>) -> Result<
    BreachVerdict,
    CheckpwnError,
> {
    match spec_search(body, digest) {
        Ok(true) => Ok(BreachVerdict::Breached),
        Ok(false) => Ok(BreachVerdict::NotBreached),
        Err(e) => Err(e),
    }
}

/// Parses a password-range response, matches the digest's suffix against it
/// and turns the outcome into a verdict.
pub fn password_verdict(password_range_response: &str, hashed_key: &str) -> (r: Result<
    BreachVerdict,
    CheckpwnError,
>)
    ensures
        r == spec_password_verdict(password_range_response@, hashed_key@),
{
    match search_in_range(password_range_response, hashed_key) {
        Ok(found) => Ok(decide_password(found)),
        Err(e) => Err(e),
    }
}

/// The verdict of the password path from the range endpoint's answer: only
/// an answer with status 200 carries candidates, any other status is
/// `UnrecognizedUpstreamStatus`.
pub fn range_answer_verdict(status_code: u16, body: &str, hashed_key: &str) -> (r: Result<
    BreachVerdict,
    CheckpwnError,
>)
    ensures
        status_code == STATUS_OK ==> r == spec_password_verdict(body@, hashed_key@),
        status_code != STATUS_OK ==> r == Err::<BreachVerdict, CheckpwnError>(
            CheckpwnError::UnrecognizedUpstreamStatus(status_code),
        ),
{
    if status_code != STATUS_OK {
        return Err(CheckpwnError::UnrecognizedUpstreamStatus(status_code));
    }
    password_verdict(body, hashed_key)
}

} // verus!
