//! The flat, closed error taxonomy of the gateway.

use vstd::prelude::*;

verus! {

/// Every failure of the pipeline is one of these kinds. The layers return
/// errors by value; no layer retries.
#[derive(Clone, Copy, Debug, PartialEq, Eq, Structural)]
pub enum Error {
    ApiParseId,
    ApiParseNum,
    ApiParseHash,
    ApiMissingEntry,
    ApiUnknownQueryType,
    ApiMissingQueryType,
    ApiMethod,

    AuthInvalidAccessToken,
    AuthInvalidRefreshToken,
    AuthNotAuthenticated,
    AuthInvalidPhone,
    AuthInvalidUid,
    AuthTokensMismatch,

    CostInsufficientCredit,
    CostTime,
    CostSpace,
    CostSpaceTooLarge,
    CostTraffic,
    CostTip,
    CostCheckInTooEarly,

    Fed,

    Gene,
    GeneInvalidId,
    GeneMapNotFound,
    GeneMapExpired,

    MemeNotFound,
    MemePut,
    MemeGet,

    Todo,
    GeoDim,
    Logical,
    Namespace,
    NumCheck,
    ReservedKey,
}

impl Error {
    /// The wire name of the kind, as the contracts see it.
    pub open spec fn spec_text(&self) -> Seq<char> {
        match self {
            Error::ApiParseId => "ApiParseId"@,
            Error::ApiParseNum => "ApiParseNum"@,
            Error::ApiParseHash => "ApiParseHash"@,
            Error::ApiMissingEntry => "ApiMissingEntry"@,
            Error::ApiUnknownQueryType => "ApiUnknownQueryType"@,
            Error::ApiMissingQueryType => "ApiMissingQueryType"@,
            Error::ApiMethod => "ApiMethod"@,
            Error::AuthInvalidAccessToken => "AuthInvalidAccessToken"@,
            Error::AuthInvalidRefreshToken => "AuthInvalidRefreshToken"@,
            Error::AuthNotAuthenticated => "AuthNotAuthenticated"@,
            Error::AuthInvalidPhone => "AuthInvalidPhone"@,
            Error::AuthInvalidUid => "AuthInvalidUid"@,
            Error::AuthTokensMismatch => "AuthTokensMismatch"@,
            Error::CostInsufficientCredit => "CostInsufficientCredit"@,
            Error::CostTime => "CostTime"@,
            Error::CostSpace => "CostSpace"@,
            Error::CostSpaceTooLarge => "CostSpaceTooLarge"@,
            Error::CostTraffic => "CostTraffic"@,
            Error::CostTip => "CostTip"@,
            Error::CostCheckInTooEarly => "CostCheckInTooEarly"@,
            Error::Fed => "Fed"@,
            Error::Gene => "Gene"@,
            Error::GeneInvalidId => "GeneInvalidId"@,
            Error::GeneMapNotFound => "GeneMapNotFound"@,
            Error::GeneMapExpired => "GeneMapExpired"@,
            Error::MemeNotFound => "MemeNotFound"@,
            Error::MemePut => "MemePut"@,
            Error::MemeGet => "MemeGet"@,
            Error::Todo => "Todo"@,
            Error::GeoDim => "GeoDim"@,
            Error::Logical => "Logical"@,
            Error::Namespace => "Namespace"@,
            Error::NumCheck => "NumCheck"@,
            Error::ReservedKey => "ReservedKey"@,
        }
    }

    /// The wire name of the kind, carried in the `error` response header.
    pub fn as_text(&self) -> (r: &'static str)
        ensures
            r@ == self.spec_text(),
    {
        match self {
            Error::ApiParseId => "ApiParseId",
            Error::ApiParseNum => "ApiParseNum",
            Error::ApiParseHash => "ApiParseHash",
            Error::ApiMissingEntry => "ApiMissingEntry",
            Error::ApiUnknownQueryType => "ApiUnknownQueryType",
            Error::ApiMissingQueryType => "ApiMissingQueryType",
            Error::ApiMethod => "ApiMethod",
            Error::AuthInvalidAccessToken => "AuthInvalidAccessToken",
            Error::AuthInvalidRefreshToken => "AuthInvalidRefreshToken",
            Error::AuthNotAuthenticated => "AuthNotAuthenticated",
            Error::AuthInvalidPhone => "AuthInvalidPhone",
            Error::AuthInvalidUid => "AuthInvalidUid",
            Error::AuthTokensMismatch => "AuthTokensMismatch",
            Error::CostInsufficientCredit => "CostInsufficientCredit",
            Error::CostTime => "CostTime",
            Error::CostSpace => "CostSpace",
            Error::CostSpaceTooLarge => "CostSpaceTooLarge",
            Error::CostTraffic => "CostTraffic",
            Error::CostTip => "CostTip",
            Error::CostCheckInTooEarly => "CostCheckInTooEarly",
            Error::Fed => "Fed",
            Error::Gene => "Gene",
            Error::GeneInvalidId => "GeneInvalidId",
            Error::GeneMapNotFound => "GeneMapNotFound",
            Error::GeneMapExpired => "GeneMapExpired",
            Error::MemeNotFound => "MemeNotFound",
            Error::MemePut => "MemePut",
            Error::MemeGet => "MemeGet",
            Error::Todo => "Todo",
            Error::GeoDim => "GeoDim",
            Error::Logical => "Logical",
            Error::Namespace => "Namespace",
            Error::NumCheck => "NumCheck",
            Error::ReservedKey => "ReservedKey",
        }
    }
}

} // verus!
