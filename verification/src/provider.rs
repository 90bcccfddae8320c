//! Provider descriptors: the interchangeable command-line agents the tool
//! can drive, with their binary locations, argument vectors and
//! authentication messages.
//!
//! Everything here is decision logic over plain values.  The caller performs
//! the probes (path existence, running the binary, reading config files) and
//! hands their outcomes in.

use vstd::prelude::*;
use vstd::string::StringExecFns;
use crate::text::contains_seq;
use crate::text::contains_str;
use crate::text::lower_of;
use crate::text::to_lowercase;
use crate::text::views_of;

verus! {

/// An interchangeable external interactive agent, invoked as a subprocess.
#[derive(Clone, Copy, Debug, PartialEq, Eq, Structural)]
pub enum Provider {
    Pilot,
    Amp,
}

impl Default for Provider {
    /// The provider assumed when none was chosen.
    fn default() -> (r: Self)
        ensures
            r == Provider::Pilot,
    {
        Provider::Pilot
    }
}

/// The view of an optional borrowed string.
pub open spec fn opt_str_view(s: Option<&str>) -> Option<Seq<char>> {
    match s {
        Some(v) => Some(v@),
        None => None,
    }
}

impl Provider {
    /// The provider's binary name.
    pub open spec fn spec_binary_name(self) -> Seq<char> {
        match self {
            Provider::Pilot => "pilot"@,
            Provider::Amp => "amp"@,
        }
    }

    /// The name of the provider's executable.
    pub fn binary_name(&self) -> (r: &'static str)
        ensures
            r@ == self.spec_binary_name(),
    {
        match self {
            Provider::Pilot => "pilot",
            Provider::Amp => "amp",
        }
    }

    /// The provider's human-readable name.
    pub open spec fn spec_display_name(self) -> Seq<char> {
        match self {
            Provider::Pilot => "Pilot"@,
            Provider::Amp => "Amp"@,
        }
    }

    /// The human-readable name.
    pub fn display_name(&self) -> (r: &'static str)
        ensures
            r@ == self.spec_display_name(),
    {
        match self {
            Provider::Pilot => "Pilot",
            Provider::Amp => "Amp",
        }
    }

    /// Where the provider can be installed from.
    pub open spec fn spec_install_url(self) -> Seq<char> {
        match self {
            Provider::Pilot => "https://pilot.dev"@,
            Provider::Amp => "https://ampcode.com"@,
        }
    }

    /// The installation URL.
    pub fn install_url(&self) -> (r: &'static str)
        ensures
            r@ == self.spec_install_url(),
    {
        match self {
            Provider::Pilot => "https://pilot.dev",
            Provider::Amp => "https://ampcode.com",
        }
    }

    /// The message shown when the provider's binary cannot be found.
    pub open spec fn spec_not_installed_message(self) -> Seq<char> {
        self.spec_display_name() + " is not installed. Please install it from "@
            + self.spec_install_url()
    }

    /// The not-installed message: display name, a fixed middle, and the
    /// installation URL.
    pub fn not_installed_message(&self) -> (r: String)
        ensures
            r@ == self.spec_not_installed_message(),
    {
        let s = String::from_str(self.display_name());
        let s = s.concat(" is not installed. Please install it from ");
        s.concat(self.install_url())
    }

    /// The message shown when the provider is installed but not logged in.
    pub open spec fn spec_not_logged_in_message(self) -> Seq<char> {
        match self {
            Provider::Pilot =>
                "Pilot is not logged in. Please run 'pilot' in your terminal to authenticate."@,
            Provider::Amp => "Amp is not logged in. Please run 'amp login' to authenticate."@,
        }
    }

    /// The not-logged-in message.
    pub fn not_logged_in_message(&self) -> (r: &'static str)
        ensures
            r@ == self.spec_not_logged_in_message(),
    {
        match self {
            Provider::Pilot =>
                "Pilot is not logged in. Please run 'pilot' in your terminal to authenticate.",
            Provider::Amp => "Amp is not logged in. Please run 'amp login' to authenticate.",
        }
    }

    /// How the user authenticates the provider.
    pub open spec fn spec_auth_instructions(self) -> Seq<char> {
        match self {
            Provider::Pilot => "Run 'pilot' in your terminal to authenticate"@,
            Provider::Amp => "Run 'amp login' to authenticate"@,
        }
    }

    /// The authentication instructions.
    pub fn auth_instructions(&self) -> (r: &'static str)
        ensures
            r@ == self.spec_auth_instructions(),
    {
        match self {
            Provider::Pilot => "Run 'pilot' in your terminal to authenticate",
            Provider::Amp => "Run 'amp login' to authenticate",
        }
    }

    /// The argument vector for one invocation: the base flags, the resume
    /// flags when a session is resumed, and the message.
    pub open spec fn spec_build_args(
        self,
        message: Seq<char>,
        session: Option<Seq<char>>,
    ) -> Seq<Seq<char>> {
        match self {
            Provider::Pilot => {
                let base = seq![
                    "-p"@,
                    "--output-format"@,
                    "stream-json"@,
                    "--verbose"@,
                    "--dangerously-skip-permissions"@,
                ];
                let with_resume = match session {
                    Some(sid) => base + seq!["--resume"@, sid],
                    None => base,
                };
                with_resume.push(message)
            },
            Provider::Amp => {
                let base = match session {
                    Some(sid) => seq!["threads"@, "continue"@, sid, "-x"@],
                    None => seq!["-x"@],
                };
                base + seq![message, "--stream-json"@, "--dangerously-allow-all"@]
            },
        }
    }

    /// Builds the command arguments for running this provider, either for a
    /// new conversation or to resume the given session.
    pub fn build_args(&self, message: &str, session_id: Option<&str>) -> (args: Vec<String>)
        ensures
            views_of(args@) == self.spec_build_args(message@, opt_str_view(session_id)),
    {
        let mut args: Vec<String> = Vec::new();
        match self {
            Provider::Pilot => {
                args.push(String::from_str("-p"));
                args.push(String::from_str("--output-format"));
                args.push(String::from_str("stream-json"));
                args.push(String::from_str("--verbose"));
                args.push(String::from_str("--dangerously-skip-permissions"));
                if let Some(sid) = session_id {
                    args.push(String::from_str("--resume"));
                    args.push(String::from_str(sid));
                }
                args.push(String::from_str(message));
            },
            Provider::Amp => {
                if let Some(sid) = session_id {
                    args.push(String::from_str("threads"));
                    args.push(String::from_str("continue"));
                    args.push(String::from_str(sid));
                }
                args.push(String::from_str("-x"));
                args.push(String::from_str(message));
                args.push(String::from_str("--stream-json"));
                args.push(String::from_str("--dangerously-allow-all"));
            },
        }
        proof {
            assert(views_of(args@) =~= self.spec_build_args(message@, opt_str_view(session_id)));
        }
        args
    }

    /// The paths where the provider's binary is looked for, in order.
    /// Desktop applications do not inherit the user's shell path, so common
    /// installation locations are probed directly.
    pub open spec fn spec_binary_candidates(self, home: Seq<char>) -> Seq<Seq<char>> {
        match self {
            Provider::Pilot => seq![
                home + "/.local/bin/pilot"@,
                "/usr/local/bin/pilot"@,
                "/opt/homebrew/bin/pilot"@,
                "/usr/bin/pilot"@,
            ],
            Provider::Amp => seq![
                home + "/.amp/bin/amp"@,
                home + "/.local/bin/amp"@,
                "/usr/local/bin/amp"@,
                "/opt/homebrew/bin/amp"@,
                "/usr/bin/amp"@,
            ],
        }
    }

    /// The candidate binary paths for this provider under the given home
    /// directory.  The caller probes them in order and may fall back to a
    /// path lookup when none exists.
    pub fn binary_candidates(&self, home: &str) -> (r: Vec<String>)
        ensures
            views_of(r@) == self.spec_binary_candidates(home@),
    {
        let mut r: Vec<String> = Vec::new();
        match self {
            Provider::Pilot => {
                r.push(String::from_str(home).concat("/.local/bin/pilot"));
                r.push(String::from_str("/usr/local/bin/pilot"));
                r.push(String::from_str("/opt/homebrew/bin/pilot"));
                r.push(String::from_str("/usr/bin/pilot"));
            },
            Provider::Amp => {
                r.push(String::from_str(home).concat("/.amp/bin/amp"));
                r.push(String::from_str(home).concat("/.local/bin/amp"));
                r.push(String::from_str("/usr/local/bin/amp"));
                r.push(String::from_str("/opt/homebrew/bin/amp"));
                r.push(String::from_str("/usr/bin/amp"));
            },
        }
        proof {
            assert(views_of(r@) =~= self.spec_binary_candidates(home@));
        }
        r
    }

    /// The configuration files whose presence marks the provider as
    /// authenticated, under the given home directory.
    pub open spec fn spec_auth_config_paths(self, home: Seq<char>) -> Seq<Seq<char>> {
        match self {
            Provider::Pilot => seq![
                home + "/.pilot/.credentials.json"@,
                home + "/.pilot.json"@,
            ],
            Provider::Amp => seq![home + "/.config/amp/settings.json"@],
        }
    }

    /// The candidate authentication config paths.  The provider counts as
    /// authenticated when any of them exists.
    pub fn auth_config_paths(&self, home: &str) -> (r: Vec<String>)
        ensures
            views_of(r@) == self.spec_auth_config_paths(home@),
    {
        let mut r: Vec<String> = Vec::new();
        match self {
            Provider::Pilot => {
                r.push(String::from_str(home).concat("/.pilot/.credentials.json"));
                r.push(String::from_str(home).concat("/.pilot.json"));
            },
            Provider::Amp => {
                r.push(String::from_str(home).concat("/.config/amp/settings.json"));
            },
        }
        proof {
            assert(views_of(r@) =~= self.spec_auth_config_paths(home@));
        }
        r
    }

    /// The authentication verdict, given whether any of the provider's
    /// config files exists.
    pub fn check_authenticated(&self, any_config_exists: bool) -> (r: Result<(), String>)
        ensures
            any_config_exists ==> r is Ok,
            !any_config_exists ==> (match r {
                Err(e) => e@ == self.spec_not_logged_in_message(),
                Ok(_) => false,
            }),
    {
        if any_config_exists {
            Ok(())
        } else {
            Err(String::from_str(self.not_logged_in_message()))
        }
    }

    /// The provider's output names an authentication failure, judged on the
    /// case-folded text.
    pub open spec fn spec_is_auth_error(self, low: Seq<char>) -> bool {
        ||| contains_seq(low, "not logged in"@)
        ||| contains_seq(low, "authentication"@)
        ||| contains_seq(low, "invalid api key"@)
        ||| contains_seq(low, "unauthorized"@)
        ||| match self {
            Provider::Pilot => contains_seq(low, "please run 'pilot'"@),
            Provider::Amp => contains_seq(low, "amp login"@) || contains_seq(low, "please login"@),
        }
    }

    /// Detects authentication errors in the provider's output.
    pub fn is_auth_error(&self, output: &str) -> (r: bool)
        ensures
            r == self.spec_is_auth_error(lower_of(output@)),
    {
        let low = to_lowercase(output);
        let l = low.as_str();
        let common = contains_str(l, "not logged in") || contains_str(l, "authentication")
            || contains_str(l, "invalid api key") || contains_str(l, "unauthorized");
        match self {
            Provider::Pilot => common || contains_str(l, "please run 'pilot'"),
            Provider::Amp => common || contains_str(l, "amp login") || contains_str(
                l,
                "please login",
            ),
        }
    }
}

} // verus!
