//! The plugin's configuration, as the configuration file holds it.

use vstd::prelude::*;

verus! {

/// How the publisher signs in to the broker: a client-credentials flow.
#[derive(Clone, Debug, PartialEq, Eq)]
pub struct StreamNativeOAuth2Config {
    pub issuer_url: String,
    pub credentials_url: String,
    pub audience: String,
}

/// Which account updates are forwarded, and where to.
#[derive(Clone, Debug, PartialEq, Eq)]
pub struct TokenAccountFilter {
    /// The mint that a token account must name, in base58.
    pub mint_address: String,
    /// The program that must own the account, in base58.
    pub token_program: String,
    /// The topic that the updates are published to.
    pub topic: String,
}

/// The whole configuration of the plugin.
#[derive(Clone, Debug, PartialEq, Eq)]
pub struct CarrotPluginConfig {
    pub pulsar_url: String,
    pub streamnative_oauth2: StreamNativeOAuth2Config,
    pub token_account_filter: TokenAccountFilter,
}

/// What the publisher needs to reach the broker.
#[derive(Clone, Debug, PartialEq, Eq)]
pub struct PulsarConfig {
    pub pulsar_url: String,
    pub issuer_url: String,
    pub credentials_url: String,
    pub audience: String,
}

impl CarrotPluginConfig {
    /// The connection parameters of this configuration.
    pub open spec fn connection(&self) -> PulsarConfig {
        PulsarConfig {
            pulsar_url: self.pulsar_url,
            issuer_url: self.streamnative_oauth2.issuer_url,
            credentials_url: self.streamnative_oauth2.credentials_url,
            audience: self.streamnative_oauth2.audience,
        }
    }

    /// Splits the configuration into the connection parameters and the
    /// filter.
    pub fn into_parts(self) -> (parts: (PulsarConfig, TokenAccountFilter))
        ensures
            parts == (self.connection(), self.token_account_filter),
    {
        let pulsar = PulsarConfig {
            pulsar_url: self.pulsar_url,
            issuer_url: self.streamnative_oauth2.issuer_url,
            credentials_url: self.streamnative_oauth2.credentials_url,
            audience: self.streamnative_oauth2.audience,
        };
        (pulsar, self.token_account_filter)
    }
}

} // verus!
