//! The calls that the contracts make into the chain libraries that only compute:
//! fixed-point decimal arithmetic, URL parsing and the decoding of instantiate replies.
use vstd::prelude::*;
use crate::chain::{Reply, ParseReplyError};

verus! {

/// The number of atomic units in one unit of a `Decimal` (18 fractional digits).
pub const DECIMAL_FRACTIONAL: u128 = 1_000_000_000_000_000_000u128;

/// `cosmwasm_std::Decimal` division, on the atomic units of both operands.
/// `Decimal::div` computes `a * 10^18 / b` rounded down in 256 bits and panics when
/// `b` is zero or when the quotient does not fit in 128 bits; the `requires` rules
/// both out and the `ensures` states the floored quotient.
#[verifier::external_body]
pub(crate) fn decimal_div(a: u128, b: u128) -> (r: u128)
    requires
        b > 0,
        a as int * DECIMAL_FRACTIONAL as int / b as int <= u128::MAX,
    ensures
        r as int == a as int * DECIMAL_FRACTIONAL as int / b as int,
{
    (cosmwasm_std::Decimal::raw(a) / cosmwasm_std::Decimal::raw(b)).atomics().u128()
}

/// `Uint128 * Decimal` of `cosmwasm_std`: the amount times the decimal whose atomic
/// units are `atomics`, rounded down. The library computes `amount * atomics / 10^18`
/// in 256 bits and panics when the result does not fit in 128 bits, which the
/// `requires` rules out.
#[verifier::external_body]
pub(crate) fn uint128_mul_decimal(amount: u128, atomics: u128) -> (r: u128)
    requires
        amount as int * atomics as int / DECIMAL_FRACTIONAL as int <= u128::MAX,
    ensures
        r as int == amount as int * atomics as int / DECIMAL_FRACTIONAL as int,
{
    (cosmwasm_std::Uint128::new(amount) * cosmwasm_std::Decimal::raw(atomics)).u128()
}

/// The scheme of `text` when `url::Url::parse` accepts it, `None` when it refuses it.
pub uninterp spec fn url_scheme(text: Seq<char>) -> Option<Seq<char>>;

/// Parses `text` with `url::Url::parse` and returns the scheme of the parsed URL, or
/// `None` if the text is not a URL. What WHATWG URL parsing accepts is not restated:
/// the result is named `url_scheme` of the text.
#[verifier::external_body]
pub(crate) fn parse_url_scheme(text: &str) -> (r: Option<String>)
    ensures
        match r {
            Some(s) => url_scheme(text@) == Some(s@),
            None => url_scheme(text@) == None::<Seq<char>>,
        },
{
    url::Url::parse(text).ok().map(|u| u.scheme().to_string())
}

/// The decoding of the protobuf `MsgInstantiateContractResponse` carried in the
/// data of a reply: the instantiated contract address; on failure, the text of a
/// parse failure, or `None` for a broken UTF-8 address.
pub uninterp spec fn instantiate_response_parse(data: Seq<u8>) -> Result<Seq<char>, Option<Seq<char>>>;

/// `cw_utils::parse_reply_instantiate_data` on a reply. As its source shows, a
/// failed submessage gives `SubMsgFailure` with the error text, a reply without
/// data gives `ParseFailure("Missing reply data")`, and otherwise the data is
/// decoded by `parse_instantiate_response_data`, whose protobuf decoding is not
/// restated: its result is named `instantiate_response_parse` of the bytes.
#[verifier::external_body]
pub(crate) fn parse_reply_instantiate_data(msg: Reply) -> (r: Result<String, ParseReplyError>)
    ensures
        match msg.result {
            Err(s) => r == Err::<String, ParseReplyError>(ParseReplyError::SubMsgFailure(s)),
            Ok(None) => r matches Err(ParseReplyError::ParseFailure(t)) && t@ == "Missing reply data"@,
            Ok(Some(data)) => match r {
                Ok(a) => instantiate_response_parse(data@) == Ok::<Seq<char>, Option<Seq<char>>>(a@),
                Err(ParseReplyError::ParseFailure(t)) => instantiate_response_parse(data@) == Err::<Seq<char>, Option<Seq<char>>>(Some(t@)),
                Err(ParseReplyError::BrokenUtf8 {}) => instantiate_response_parse(data@) == Err::<Seq<char>, Option<Seq<char>>>(None),
                Err(ParseReplyError::SubMsgFailure(_)) => false,
            },
        },
{
    let result = match msg.result {
        Ok(data) => cosmwasm_std::SubMsgResult::Ok(cosmwasm_std::SubMsgResponse { events: vec![], data: data.map(cosmwasm_std::Binary::from) }),
        Err(s) => cosmwasm_std::SubMsgResult::Err(s),
    };
    match cw_utils::parse_reply_instantiate_data(cosmwasm_std::Reply { id: msg.id, result }) {
        Ok(res) => Ok(res.contract_address),
        Err(cw_utils::ParseReplyError::SubMsgFailure(s)) => Err(ParseReplyError::SubMsgFailure(s)),
        Err(cw_utils::ParseReplyError::ParseFailure(s)) => Err(ParseReplyError::ParseFailure(s)),
        Err(cw_utils::ParseReplyError::BrokenUtf8(_)) => Err(ParseReplyError::BrokenUtf8 {}),
    }
}

} // verus!
