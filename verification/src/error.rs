//! What can go wrong with an upstream, at request time and in a health probe.

use vstd::prelude::*;
use vstd::std_specs::convert::FromSpecImpl;
use vstd::string::StringExecFns;

verus! {

#[verifier::external_type_specification]
#[verifier::external_body]
pub struct ExJsonError(simd_json::Error);

#[verifier::external_type_specification]
#[verifier::external_body]
pub struct ExTransportError(reqwest::Error);

/// A failed health probe.
#[derive(Debug)]
pub enum HealthError {
    Unresponsive,
    TimedOut,
    GetSafeBlockError(String),
    OutOfBounds,
    InvalidResponse(String),
}

/// A failed request to an upstream.
#[derive(Debug)]
pub enum RpcError {
    Unresponsive,
    OutOfBounds,
    InvalidResponse(String),
}

impl RpcError {
    /// The text shown for this error.
    pub open spec fn spec_message(self) -> Seq<char> {
        match self {
            RpcError::Unresponsive => "RPC is unresponsive"@,
            RpcError::OutOfBounds =>
                "Request out of bounds. Most likeley a bad response from the current RPC node."@,
            RpcError::InvalidResponse(reason) => "Invalid RPC response: "@ + reason@,
        }
    }

    /// The text shown for this error.
    pub fn message(&self) -> (text: String)
        ensures
            text@ == self.spec_message(),
    {
        match self {
            RpcError::Unresponsive => String::from_str("RPC is unresponsive"),
            RpcError::OutOfBounds => String::from_str(
                "Request out of bounds. Most likeley a bad response from the current RPC node.",
            ),
            RpcError::InvalidResponse(reason) => {
                let mut text = String::from_str("Invalid RPC response: ");
                text.append(reason.as_str());
                text
            },
        }
    }
}

impl HealthError {
    /// The text shown for this error.
    pub open spec fn spec_message(self) -> Seq<char> {
        match self {
            HealthError::Unresponsive => "RPC is unresponsive"@,
            HealthError::TimedOut => "Health check timed out!"@,
            HealthError::GetSafeBlockError(reason) => "Could not get safe block: "@ + reason@,
            HealthError::OutOfBounds =>
                "Request out of bounds. Most likeley a bad response from the current RPC node."@,
            HealthError::InvalidResponse(reason) => "Invalid RPC response: "@ + reason@,
        }
    }

    /// The text shown for this error.
    pub fn message(&self) -> (text: String)
        ensures
            text@ == self.spec_message(),
    {
        match self {
            HealthError::Unresponsive => String::from_str("RPC is unresponsive"),
            HealthError::TimedOut => String::from_str("Health check timed out!"),
            HealthError::GetSafeBlockError(reason) => {
                let mut text = String::from_str("Could not get safe block: ");
                text.append(reason.as_str());
                text
            },
            HealthError::OutOfBounds => String::from_str(
                "Request out of bounds. Most likeley a bad response from the current RPC node.",
            ),
            HealthError::InvalidResponse(reason) => {
                let mut text = String::from_str("Invalid RPC response: ");
                text.append(reason.as_str());
                text
            },
        }
    }
}

impl From<RpcError> for HealthError {
    /// A request error met during a probe, kept by its text.
    fn from(error: RpcError) -> (health: HealthError)
        ensures
            health matches HealthError::GetSafeBlockError(reason) && reason@
                == error.spec_message(),
    {
        HealthError::GetSafeBlockError(error.message())
    }
}

impl FromSpecImpl<RpcError> for HealthError {
    open spec fn obeys_from_spec() -> bool {
        false
    }

    open spec fn from_spec(error: RpcError) -> HealthError {
        HealthError::Unresponsive
    }
}

impl From<simd_json::Error> for RpcError {
    /// Any JSON parse failure, whatever its cause.
    fn from(error: simd_json::Error) -> (rpc: RpcError)
        ensures
            rpc matches RpcError::InvalidResponse(reason) && reason@
                == "Error while trying to parse JSON"@,
    {
        RpcError::InvalidResponse(String::from_str("Error while trying to parse JSON"))
    }
}

impl FromSpecImpl<simd_json::Error> for RpcError {
    open spec fn obeys_from_spec() -> bool {
        false
    }

    open spec fn from_spec(error: simd_json::Error) -> RpcError {
        RpcError::Unresponsive
    }
}

/// `reqwest::Error`'s `to_string`. Trusted; nothing is stated of the text.
#[verifier::external_body]
fn transport_text(error: &reqwest::Error) -> String {
    error.to_string()
}

impl From<reqwest::Error> for HealthError {
    /// A transport failure met during a probe, kept by its text.
    fn from(error: reqwest::Error) -> (health: HealthError)
        ensures
            health is GetSafeBlockError,
    {
        HealthError::GetSafeBlockError(transport_text(&error))
    }
}

impl FromSpecImpl<reqwest::Error> for HealthError {
    open spec fn obeys_from_spec() -> bool {
        false
    }

    open spec fn from_spec(error: reqwest::Error) -> HealthError {
        HealthError::Unresponsive
    }
}

/// A table or key of the configuration file.
#[derive(Debug, Clone, Copy)]
pub enum ConfigKey {
    Trident,
    Address,
    SortOnStartup,
    MaLength,
    HealthCheck,
    Ttl,
    MaxRetries,
    HealthCheckTtl,
    Upstream,
    MaxConsecutive,
    MaxPerSecond,
    Url,
    WsUrl,
}

/// Why the settings could not be made, or an upstream not be taken into
/// the active list at startup.
#[derive(Debug)]
pub enum ConfigError {
    /// The upstream answers, but not as a synced node does.
    Syncing,
    /// The upstream could not be asked.
    RpcError(String),
    /// The configuration is not TOML.
    Parse,
    /// A table or key that must be there is not.
    Missing(ConfigKey),
    /// A table or key holds a value of the wrong type.
    IllTyped(ConfigKey),
}

impl From<RpcError> for ConfigError {
    /// A request error met while measuring an upstream, kept by its text.
    fn from(error: RpcError) -> (config: ConfigError)
        ensures
            config matches ConfigError::RpcError(reason) && reason@ == error.spec_message(),
    {
        ConfigError::RpcError(error.message())
    }
}

impl FromSpecImpl<RpcError> for ConfigError {
    open spec fn obeys_from_spec() -> bool {
        false
    }

    open spec fn from_spec(error: RpcError) -> ConfigError {
        ConfigError::Syncing
    }
}

} // verus!
