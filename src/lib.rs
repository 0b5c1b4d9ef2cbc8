//! Breach lookups against a k-anonymity password-range service and an
//! account/paste breach service.
//!
//! Only a five character prefix of a password's SHA-1 digest ever leaves the
//! machine; the digest suffix is matched locally against the candidates the
//! service returns. Account lookups combine the answers of the breach and the
//! paste endpoints into one verdict. The [`v2`] module keeps the interface of
//! version 2 of the service.

pub mod bulk;
pub mod config;
pub mod decision;
pub mod digest;
pub mod error;
pub mod range;
pub mod route;
pub mod secret;
pub mod text;
pub mod v2;

pub use bulk::{identifiers_to_check, is_list_file_name, REQUEST_SPACING_MS};
pub use config::Config;
pub use decision::{
    decide_account, decide_password, display_label, evaluate_acc_breach, password_verdict,
    range_answer_verdict, BreachVerdict, RemoteStatus,
};
pub use digest::{hash_bytes, hash_password};
pub use error::CheckpwnError;
pub use range::{candidates_match, parse_range_response, search_in_range, RangeCandidate};
pub use route::{arg_to_api_route, CheckableChoices};
pub use secret::PassArg;
pub use text::strip;
