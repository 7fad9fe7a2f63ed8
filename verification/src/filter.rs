//! The filter evaluator: which account updates are forwarded.
//!
//! An update passes if the account's owner is the configured token program
//! and, in the extended mode, the account's bytes hold a token account whose
//! mint is the configured mint. A token account starts with the mint, 32
//! bytes, followed by the owner that it names, 32 bytes.

use crate::config::TokenAccountFilter;
use crate::identifier::{base58_decoding, Identifier, IdentifierError};
use vstd::prelude::*;

verus! {

/// Where the mint stands in a token account.
pub const MINT_OFFSET: usize = 0;

/// Where the owner stands in a token account.
pub const OWNER_OFFSET: usize = 32;

/// How many bytes of a token account the extended mode reads.
pub const TOKEN_ACCOUNT_WINDOW: usize = 64;

/// The two deployment modes.
#[derive(Clone, Copy, Debug, PartialEq, Eq, Structural)]
pub enum FilterMode {
    /// Every account of the token program passes; a message holds the
    /// account, the slot and the write version.
    Minimal,
    /// The account must also be a token account of the configured mint; a
    /// message also holds the owner that it names and the account's bytes.
    Extended,
}

/// Why a configuration gives no filter.
#[derive(Clone, Copy, Debug, PartialEq, Eq, Structural)]
pub enum ConfigError {
    /// The token program is no identifier.
    TokenProgram(IdentifierError),
    /// The mint address is no identifier.
    MintAddress(IdentifierError),
}

/// What the filter says of one update.
#[derive(Clone, Copy, Debug, PartialEq, Eq, Structural)]
pub enum FilterDecision {
    /// The update passes.
    Accept,
    /// The account belongs to another program.
    OwnerMismatch,
    /// The token account is of another mint.
    MintMismatch,
    /// The account's bytes are too short to hold a token account.
    MalformedPayload,
}

/// The filter, ready for use: the identifiers decoded.
#[derive(Clone, Debug, PartialEq, Eq)]
pub struct FilterSpec {
    /// The program that must own the account.
    pub token_program: Identifier,
    /// The mint that a token account must name; `None` in the minimal mode.
    pub mint_address: Option<Identifier>,
    /// The topic that the updates are published to.
    pub topic: String,
}

/// The fields that the extended mode reads from a token account.
#[derive(Clone, Copy, Debug, PartialEq, Eq)]
pub struct TokenAccountFields {
    pub mint: Identifier,
    pub owner: Identifier,
}

/// A decision, with the fields of the token account where the extended mode
/// accepted it.
#[derive(Clone, Copy, Debug, PartialEq, Eq)]
pub struct Evaluation {
    pub decision: FilterDecision,
    pub fields: Option<TokenAccountFields>,
}

/// The mint of a token account.
pub open spec fn mint_field(data: Seq<u8>) -> Seq<u8> {
    data.subrange(MINT_OFFSET as int, MINT_OFFSET + 32)
}

/// The owner that a token account names.
pub open spec fn owner_field(data: Seq<u8>) -> Seq<u8> {
    data.subrange(OWNER_OFFSET as int, OWNER_OFFSET + 32)
}

/// The bytes of an identifier that may be absent.
pub open spec fn identifier_view(id: Option<Identifier>) -> Option<Seq<u8>> {
    match id {
        Some(id) => Some(id@),
        None => None,
    }
}

/// What the filter says of an update with this owner and these bytes:
/// `mint_address` is the configured mint in the extended mode, and `None` in
/// the minimal mode.
pub open spec fn filter_decision(
    token_program: Seq<u8>,
    mint_address: Option<Seq<u8>>,
    owner: Seq<u8>,
    data: Seq<u8>,
) -> FilterDecision {
    if owner != token_program {
        FilterDecision::OwnerMismatch
    } else {
        match mint_address {
            None => FilterDecision::Accept,
            Some(mint) => if data.len() < TOKEN_ACCOUNT_WINDOW {
                FilterDecision::MalformedPayload
            } else if mint_field(data) != mint {
                FilterDecision::MintMismatch
            } else {
                FilterDecision::Accept
            },
        }
    }
}

/// Whether `r` is what a configured filter gives in this mode: the filter
/// with the identifiers that the texts denote, the mint only in the extended
/// mode, or the error of the first text that denotes none, the token
/// program's before the mint's.
pub open spec fn is_filter_of(
    configured: TokenAccountFilter,
    mode: FilterMode,
    r: Result<FilterSpec, ConfigError>,
) -> bool {
    match r {
        Ok(spec) => {
            &&& base58_decoding(configured.token_program@) == Ok::<Seq<u8>, IdentifierError>(
                spec.token_program@,
            )
            &&& spec.spec_mode() == mode
            &&& mode is Extended ==> base58_decoding(configured.mint_address@) == Ok::<
                Seq<u8>,
                IdentifierError,
            >(spec.mint_address->0@)
            &&& spec.topic@ == configured.topic@
        },
        Err(ConfigError::TokenProgram(e)) => base58_decoding(configured.token_program@) == Err::<
            Seq<u8>,
            IdentifierError,
        >(e),
        Err(ConfigError::MintAddress(e)) => {
            &&& mode is Extended
            &&& base58_decoding(configured.token_program@) is Ok
            &&& base58_decoding(configured.mint_address@) == Err::<Seq<u8>, IdentifierError>(e)
        },
    }
}

impl FilterSpec {
    /// The mode that this filter works in.
    pub open spec fn spec_mode(&self) -> FilterMode {
        if self.mint_address is Some {
            FilterMode::Extended
        } else {
            FilterMode::Minimal
        }
    }

    /// What this filter says of an update with this owner and these bytes.
    pub open spec fn decision(&self, owner: Seq<u8>, data: Seq<u8>) -> FilterDecision {
        filter_decision(self.token_program@, identifier_view(self.mint_address), owner, data)
    }

    /// The mode that this filter works in.
    pub fn mode(&self) -> (mode: FilterMode)
        ensures
            mode == self.spec_mode(),
    {
        match self.mint_address {
            Some(_) => FilterMode::Extended,
            None => FilterMode::Minimal,
        }
    }

    /// The filter for identifiers that were decoded already: the first error
    /// is reported, the token program's before the mint's. No mint stands for
    /// the minimal mode.
    pub fn from_decoded(
        token_program: Result<Identifier, IdentifierError>,
        mint_address: Option<Result<Identifier, IdentifierError>>,
        topic: String,
    ) -> (r: Result<FilterSpec, ConfigError>)
        ensures
            match r {
                Ok(filter) => {
                    &&& token_program == Ok::<Identifier, IdentifierError>(filter.token_program)
                    &&& match mint_address {
                        Some(mint) => mint is Ok && filter.mint_address == Some(mint->Ok_0),
                        None => filter.mint_address is None,
                    }
                    &&& filter.topic == topic
                },
                Err(ConfigError::TokenProgram(e)) => token_program == Err::<
                    Identifier,
                    IdentifierError,
                >(e),
                Err(ConfigError::MintAddress(e)) => token_program is Ok && mint_address == Some(
                    Err::<Identifier, IdentifierError>(e),
                ),
            },
    {
        let token_program = match token_program {
            Ok(id) => id,
            Err(e) => {
                return Err(ConfigError::TokenProgram(e));
            },
        };
        let mint_address = match mint_address {
            Some(Ok(id)) => Some(id),
            Some(Err(e)) => {
                return Err(ConfigError::MintAddress(e));
            },
            None => None,
        };
        Ok(FilterSpec { token_program, mint_address, topic })
    }

    /// Decodes the identifiers of a configured filter. The mint is decoded in
    /// the extended mode only.
    pub fn from_config(filter: &TokenAccountFilter, mode: FilterMode) -> (r: Result<
        FilterSpec,
        ConfigError,
    >)
        ensures
            is_filter_of(*filter, mode, r),
    {
        let token_program = Identifier::from_base58(filter.token_program.as_str());
        let mint_address = match mode {
            FilterMode::Extended => Some(Identifier::from_base58(filter.mint_address.as_str())),
            FilterMode::Minimal => None,
        };
        FilterSpec::from_decoded(token_program, mint_address, filter.topic.clone())
    }

    /// Evaluates the filter on an update with this owner and these bytes, and
    /// reads the fields of the token account where the extended mode accepts
    /// it.
    pub fn evaluate(&self, owner: &[u8], data: &[u8]) -> (r: Evaluation)
        ensures
            r.decision == self.decision(owner@, data@),
            r.fields is Some <==> r.decision is Accept && self.mint_address is Some,
            r.fields matches Some(fields) ==> fields.mint@ == mint_field(data@) && fields.owner@
                == owner_field(data@),
    {
        if !self.token_program.matches(owner) {
            return Evaluation { decision: FilterDecision::OwnerMismatch, fields: None };
        }
        let expected = match self.mint_address {
            Some(mint) => mint,
            None => {
                return Evaluation { decision: FilterDecision::Accept, fields: None };
            },
        };
        let mint = match Identifier::read_at(data, MINT_OFFSET) {
            Some(mint) => mint,
            None => {
                return Evaluation { decision: FilterDecision::MalformedPayload, fields: None };
            },
        };
        let owner = match Identifier::read_at(data, OWNER_OFFSET) {
            Some(owner) => owner,
            None => {
                return Evaluation { decision: FilterDecision::MalformedPayload, fields: None };
            },
        };
        if !expected.matches(mint.bytes.as_slice()) {
            return Evaluation { decision: FilterDecision::MintMismatch, fields: None };
        }
        Evaluation {
            decision: FilterDecision::Accept,
            fields: Some(TokenAccountFields { mint, owner }),
        }
    }
}

} // verus!
