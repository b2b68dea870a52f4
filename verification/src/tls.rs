//! TLS policy: which scheme a target is reached with, and how strictly.

use vstd::prelude::*;

verus! {

/// Port on which TLS is taken for granted.
pub const HTTPS_PORT: u32 = 443;

/// TLS options declared on a target.
#[derive(Clone, Copy, Debug, PartialEq, Eq, Structural)]
pub struct TlsConfig {
    pub insecure_skip_verify: bool,
}

/// How much the HTTP client insists on TLS.
#[derive(Clone, Copy, Debug, PartialEq, Eq, Structural)]
pub enum TlsMode {
    /// Plain HTTP, the client is left as it is.
    Disabled,
    /// HTTPS is used, but the client is not restricted to it.
    Preferred,
    /// The client refuses anything but HTTPS.
    Required,
}

/// What the HTTP client is configured with.
#[derive(Clone, Copy, Debug, PartialEq, Eq, Structural)]
pub struct TlsSettings {
    pub mode: TlsMode,
    /// Host names in certificates are not checked.
    pub skip_hostname_verification: bool,
}

impl TlsSettings {
    /// The client only speaks HTTPS.
    pub open spec fn https_only(self) -> bool {
        self.mode == TlsMode::Required
    }

    /// Host names in certificates are checked.
    pub open spec fn verifies_hostnames(self) -> bool {
        !self.skip_hostname_verification
    }
}

/// The scheme of the policy table: `https` on port 443 or with TLS options,
/// `http` otherwise.
pub open spec fn tls_scheme(port: u32, tls: Option<TlsConfig>) -> Seq<char> {
    if port == HTTPS_PORT || tls.is_some() {
        "https"@
    } else {
        "http"@
    }
}

/// The client settings of the policy table.
pub open spec fn tls_settings(port: u32, tls: Option<TlsConfig>) -> TlsSettings {
    TlsSettings {
        mode: if port == HTTPS_PORT {
            TlsMode::Required
        } else if tls.is_some() {
            TlsMode::Preferred
        } else {
            TlsMode::Disabled
        },
        skip_hostname_verification: match tls {
            Some(cfg) => cfg.insecure_skip_verify,
            None => false,
        },
    }
}

/// Derives the scheme and the client settings from the port and the TLS
/// options of a target.
pub fn tls_cfg(tls: &Option<TlsConfig>, port: u32) -> (r: (String, TlsSettings))
    ensures
        r.0@ == tls_scheme(port, *tls),
        r.1 == tls_settings(port, *tls),
{
    match tls {
        None => {
            if port == HTTPS_PORT {
                (
                    "https".to_string(),
                    TlsSettings { mode: TlsMode::Required, skip_hostname_verification: false },
                )
            } else {
                (
                    "http".to_string(),
                    TlsSettings { mode: TlsMode::Disabled, skip_hostname_verification: false },
                )
            }
        },
        Some(cfg) => {
            let mode = if port == HTTPS_PORT {
                TlsMode::Required
            } else {
                TlsMode::Preferred
            };
            (
                "https".to_string(),
                TlsSettings { mode, skip_hostname_verification: cfg.insecure_skip_verify },
            )
        },
    }
}

} // verus!
