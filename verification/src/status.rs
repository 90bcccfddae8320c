//! The availability verdicts: what the tool reports about a provider after
//! probing its binary.
//!
//! The probes themselves (looking the binary up, running it with a version
//! flag, checking config files) are I/O and belong to the caller; their
//! outcome arrives here as a `VersionProbe` plus the authentication verdict,
//! and the decision below is pure.

use vstd::prelude::*;
use vstd::string::StringExecFns;
use crate::provider::Provider;
use crate::text::lower_of;

verus! {

/// The outcome of probing a provider binary with its version flag.
#[derive(Clone, Debug)]
pub enum VersionProbe {
    /// No binary was found at any candidate path.
    NotFound,
    /// The binary ran and reported success.
    RanOk,
    /// The binary ran and failed; its two output streams are carried along.
    RanWithFailure { stderr: String, stdout: String },
    /// The binary could not be run at all.
    RunFailed { message: String },
}

/// What a provider probe reports to the user interface.
#[derive(Clone, Debug)]
pub struct ProviderStatus {
    pub available: bool,
    pub error: Option<String>,
    pub error_type: Option<String>,
    pub auth_instructions: Option<String>,
}

/// What the legacy single-provider probe reports.
#[derive(Clone, Debug)]
pub struct PilotStatus {
    pub available: bool,
    pub error: Option<String>,
    pub error_type: Option<String>,
}

/// The view of an optional owned string.
pub open spec fn opt_string_view(s: Option<String>) -> Option<Seq<char>> {
    match s {
        Some(v) => Some(v@),
        None => None,
    }
}

/// Decides a provider's availability from the probe outcome and the
/// authentication verdict.
///
/// A missing binary and a binary that cannot be run are installation
/// problems; a run that failed is an authentication problem when the
/// combined output says so, otherwise an unknown one; a successful run
/// leaves only authentication to decide.
pub fn check_provider_available(
    provider: Provider,
    probe: &VersionProbe,
    authenticated: bool,
) -> (r: ProviderStatus)
    ensures
        match *probe {
            VersionProbe::NotFound => {
                &&& !r.available
                &&& opt_string_view(r.error) == Some(provider.spec_not_installed_message())
                &&& opt_string_view(r.error_type) == Some("not_installed"@)
                &&& r.auth_instructions is None
            },
            VersionProbe::RanOk => {
                if authenticated {
                    &&& r.available
                    &&& r.error is None
                    &&& r.error_type is None
                    &&& r.auth_instructions is None
                } else {
                    &&& !r.available
                    &&& opt_string_view(r.error) == Some(provider.spec_not_logged_in_message())
                    &&& opt_string_view(r.error_type) == Some("not_logged_in"@)
                    &&& opt_string_view(r.auth_instructions) == Some(
                        provider.spec_auth_instructions(),
                    )
                }
            },
            VersionProbe::RanWithFailure { stderr, stdout } => {
                if provider.spec_is_auth_error(lower_of(stderr@ + " "@ + stdout@)) {
                    &&& !r.available
                    &&& opt_string_view(r.error) == Some(provider.spec_not_logged_in_message())
                    &&& opt_string_view(r.error_type) == Some("not_logged_in"@)
                    &&& opt_string_view(r.auth_instructions) == Some(
                        provider.spec_auth_instructions(),
                    )
                } else {
                    &&& !r.available
                    &&& opt_string_view(r.error) == Some(
                        provider.spec_display_name() + " error: "@ + stderr@,
                    )
                    &&& opt_string_view(r.error_type) == Some("unknown"@)
                    &&& r.auth_instructions is None
                }
            },
            VersionProbe::RunFailed { message } => {
                &&& !r.available
                &&& opt_string_view(r.error) == Some(
                    "Failed to run "@ + provider.spec_display_name() + ": "@ + message@,
                )
                &&& opt_string_view(r.error_type) == Some("not_installed"@)
                &&& r.auth_instructions is None
            },
        },
{
    match probe {
        VersionProbe::NotFound => ProviderStatus {
            available: false,
            error: Some(provider.not_installed_message()),
            error_type: Some(String::from_str("not_installed")),
            auth_instructions: None,
        },
        VersionProbe::RanOk => {
            if authenticated {
                ProviderStatus {
                    available: true,
                    error: None,
                    error_type: None,
                    auth_instructions: None,
                }
            } else {
                ProviderStatus {
                    available: false,
                    error: Some(String::from_str(provider.not_logged_in_message())),
                    error_type: Some(String::from_str("not_logged_in")),
                    auth_instructions: Some(String::from_str(provider.auth_instructions())),
                }
            }
        },
        VersionProbe::RanWithFailure { stderr, stdout } => {
            let combined = String::from_str(stderr.as_str()).concat(" ").concat(stdout.as_str());
            if provider.is_auth_error(combined.as_str()) {
                ProviderStatus {
                    available: false,
                    error: Some(String::from_str(provider.not_logged_in_message())),
                    error_type: Some(String::from_str("not_logged_in")),
                    auth_instructions: Some(String::from_str(provider.auth_instructions())),
                }
            } else {
                let msg = String::from_str(provider.display_name()).concat(" error: ").concat(
                    stderr.as_str(),
                );
                ProviderStatus {
                    available: false,
                    error: Some(msg),
                    error_type: Some(String::from_str("unknown")),
                    auth_instructions: None,
                }
            }
        },
        VersionProbe::RunFailed { message } => {
            let msg = String::from_str("Failed to run ").concat(provider.display_name()).concat(
                ": ",
            ).concat(message.as_str());
            ProviderStatus {
                available: false,
                error: Some(msg),
                error_type: Some(String::from_str("not_installed")),
                auth_instructions: None,
            }
        },
    }
}

/// Decides the legacy single-provider availability verdict, which never
/// consults authentication.
pub fn check_pilot_available(probe: &VersionProbe) -> (r: PilotStatus)
    ensures
        match *probe {
            VersionProbe::NotFound => {
                &&& !r.available
                &&& opt_string_view(r.error) == Some(
                    Provider::Pilot.spec_not_installed_message(),
                )
                &&& opt_string_view(r.error_type) == Some("not_installed"@)
            },
            VersionProbe::RanOk => {
                &&& r.available
                &&& r.error is None
                &&& r.error_type is None
            },
            VersionProbe::RanWithFailure { stderr, stdout } => {
                &&& !r.available
                &&& opt_string_view(r.error) == Some("Pilot error: "@ + stderr@)
                &&& opt_string_view(r.error_type) == Some("unknown"@)
            },
            VersionProbe::RunFailed { message } => {
                &&& !r.available
                &&& opt_string_view(r.error) == Some("Failed to run Pilot: "@ + message@)
                &&& opt_string_view(r.error_type) == Some("not_installed"@)
            },
        },
{
    match probe {
        VersionProbe::NotFound => PilotStatus {
            available: false,
            error: Some(Provider::Pilot.not_installed_message()),
            error_type: Some(String::from_str("not_installed")),
        },
        VersionProbe::RanOk => PilotStatus { available: true, error: None, error_type: None },
        VersionProbe::RanWithFailure { stderr, stdout: _ } => {
            let msg = String::from_str("Pilot error: ").concat(stderr.as_str());
            PilotStatus {
                available: false,
                error: Some(msg),
                error_type: Some(String::from_str("unknown")),
            }
        },
        VersionProbe::RunFailed { message } => {
            let msg = String::from_str("Failed to run Pilot: ").concat(message.as_str());
            PilotStatus {
                available: false,
                error: Some(msg),
                error_type: Some(String::from_str("not_installed")),
            }
        },
    }
}

} // verus!
