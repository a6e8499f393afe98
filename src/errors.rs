//! The process-wide destination of operational errors.
use vstd::prelude::*;

verus! {

/// Where operational errors go: always the console, and also the remote
/// error tracker that `sentry_dsn` names, when it names one.
#[derive(Clone, Debug, PartialEq, Eq)]
pub struct ErrorHandler {
    pub sentry_dsn: Option<String>,
}

} // verus!
