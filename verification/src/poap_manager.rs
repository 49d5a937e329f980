//! The POAP manager contract: it instantiates a POAP event contract as its
//! minter, lets users with a Desmos profile claim their POAP, and lets anyone
//! ask for a POAP to be minted for a valid recipient.
use vstd::prelude::*;
use vstd::string::*;
use crate::coins::{Coin, StdError, coins_view, clone_coins};
use crate::chain::{Response, MessageInfo, Env, Reply, ParseReplyError, attrs_view};
use crate::outside::{instantiate_response_parse, parse_reply_instantiate_data};
use crate::text::{decimal, u128_to_decimal, is_blank, is_blank_text};
use crate::poap_event;

verus! {

/// The id of the reply to the instantiation of the POAP contract.
pub const INSTANTIATE_POAP_REPLY_ID: u64 = 1;

/// The errors of the POAP manager.
#[derive(Debug, PartialEq, Eq)]
pub enum ContractError {
    Std(StdError),
    InvalidReplyID {},
    InvalidPOAPCodeID {},
    InstantiatePOAPError {},
    NotAdmin { caller: String },
    ParseReplyError(ParseReplyError),
    NoEligibilityError {},
    /// A message field is missing or malformed.
    InvalidMessage { message: String },
}

/// The message that instantiates the manager and, through it, the POAP contract.
pub struct InstantiateMsg {
    pub admin: String,
    pub poap_code_id: u64,
    pub poap_instantiate_msg: poap_event::InstantiateMsg,
}

/// The messages that the manager executes.
pub enum ExecuteMsg {
    /// The sender, who must have a profile, claims a POAP.
    Claim {},
    /// Asks the POAP contract to mint a POAP for `recipient`.
    MintTo { recipient: String },
    /// The admin hands the admin rights on.
    UpdateAdmin { new_admin: String },
}

/// The configuration of the manager.
pub struct Config {
    pub admin: String,
    pub poap_code_id: u64,
}

/// The state of the manager.
pub struct ManagerState {
    pub config: Config,
    /// The address of the POAP contract, once it was instantiated.
    pub poap_address: Option<String>,
}

/// The messages that the manager sends to the POAP contract.
pub enum ManagerMsg {
    /// Instantiates the POAP contract.
    InstantiatePoap { code_id: u64, instantiate_msg: poap_event::InstantiateMsg, funds: Vec<Coin>, label: String },
    /// Executes a message on the POAP contract at `contract`.
    ExecutePoap { contract: String, execute_msg: poap_event::ExecuteMsg, funds: Vec<Coin> },
}

/// An `InvalidMessage` error with the given text.
pub open spec fn invalid(r: Result<(), ContractError>, text: Seq<char>) -> bool {
    r matches Err(ContractError::InvalidMessage { message }) && message@ == text
}

impl InstantiateMsg {
    /// Checks that the admin is not blank and the POAP code is set.
    pub fn validate(&self) -> (r: Result<(), ContractError>)
        ensures
            if is_blank_text(self.admin@) {
                invalid(r, "admin can not be empty or blank"@)
            } else if self.poap_code_id == 0 {
                invalid(r, "code id can not be zero"@)
            } else {
                r is Ok
            },
    {
        if is_blank(self.admin.as_str()) {
            return Err(ContractError::InvalidMessage { message: String::from_str("admin can not be empty or blank") });
        }
        if self.poap_code_id == 0 {
            return Err(ContractError::InvalidMessage { message: String::from_str("code id can not be zero") });
        }
        Ok(())
    }
}

impl ExecuteMsg {
    /// Checks that the addresses that the message names are not blank.
    pub fn validate(&self) -> (r: Result<(), ContractError>)
        ensures
            match *self {
                ExecuteMsg::Claim {} => r is Ok,
                ExecuteMsg::MintTo { recipient } => if is_blank_text(recipient@) {
                    invalid(r, "recipient can not be empty or blank"@)
                } else {
                    r is Ok
                },
                ExecuteMsg::UpdateAdmin { new_admin } => if is_blank_text(new_admin@) {
                    invalid(r, "new admin can not be empty or blank"@)
                } else {
                    r is Ok
                },
            },
    {
        match self {
            ExecuteMsg::Claim {} => Ok(()),
            ExecuteMsg::MintTo { recipient } => {
                if is_blank(recipient.as_str()) {
                    return Err(ContractError::InvalidMessage { message: String::from_str("recipient can not be empty or blank") });
                }
                Ok(())
            },
            ExecuteMsg::UpdateAdmin { new_admin } => {
                if is_blank(new_admin.as_str()) {
                    return Err(ContractError::InvalidMessage { message: String::from_str("new admin can not be empty or blank") });
                }
                Ok(())
            },
        }
    }
}

/// Instantiates the manager. `admin` is the validation of the admin address.
/// The answer asks the chain to instantiate the POAP contract with the manager
/// as its minter.
pub fn instantiate(env: &Env, info: &MessageInfo, msg: InstantiateMsg, admin: Result<String, StdError>)
    -> (r: Result<(ManagerState, Response<ManagerMsg>), ContractError>)
    ensures
        if msg.poap_code_id == 0 {
            r == Err::<(ManagerState, Response<ManagerMsg>), ContractError>(ContractError::InvalidPOAPCodeID {})
        } else if is_blank_text(msg.admin@) {
            r matches Err(ContractError::InvalidMessage { message }) && message@ == "admin can not be empty or blank"@
        } else {
            match admin {
                Err(e) => r == Err::<(ManagerState, Response<ManagerMsg>), ContractError>(ContractError::Std(e)),
                Ok(a) => r matches Ok((st, resp)) && {
                    &&& st.config == Config { admin: a, poap_code_id: msg.poap_code_id } && st.poap_address is None
                    &&& attrs_view(resp.attributes@) == seq![("action"@, "instantiate"@), ("admin"@, a@),
                        ("poap_code_id"@, decimal(msg.poap_code_id as nat))]
                    &&& resp.messages@.len() == 1
                    &&& resp.messages@[0] matches ManagerMsg::InstantiatePoap { code_id, instantiate_msg: m, funds, label }
                    &&& code_id == msg.poap_code_id && label@ == "poap"@ && coins_view(funds@) == coins_view(info.funds@)
                    &&& m == poap_event::InstantiateMsg { minter: env.contract_address, ..msg.poap_instantiate_msg }
                },
            }
        },
{
    if msg.poap_code_id == 0 {
        return Err(ContractError::InvalidPOAPCodeID {});
    }
    match msg.validate() {
        Ok(()) => {},
        Err(e) => return Err(e),
    }
    let admin = match admin { Ok(a) => a, Err(e) => return Err(ContractError::Std(e)) };
    let InstantiateMsg { admin: _, poap_code_id, poap_instantiate_msg } = msg;
    let mut poap_msg = poap_instantiate_msg;
    poap_msg.minter = env.contract_address.clone();
    let code_text = u128_to_decimal(poap_code_id as u128);
    let mut resp: Response<ManagerMsg> = Response::new();
    resp.add_attribute("action", "instantiate");
    resp.add_attribute("admin", admin.as_str());
    resp.add_attribute("poap_code_id", code_text.as_str());
    resp.add_message(ManagerMsg::InstantiatePoap {
        code_id: poap_code_id,
        instantiate_msg: poap_msg,
        funds: clone_coins(info.funds.as_slice()),
        label: String::from_str("poap"),
    });
    proof {
        reveal_strlit("poap");
        assert(attrs_view(resp.attributes@) =~= seq![("action"@, "instantiate"@), ("admin"@, admin@),
            ("poap_code_id"@, decimal(poap_code_id as nat))]);
    }
    Ok((ManagerState { config: Config { admin, poap_code_id }, poap_address: None }, resp))
}

} // verus!

verus! {

/// The address that the reply to the instantiation of the POAP contract
/// carries, or why it carries none.
pub open spec fn reply_outcome(msg: Reply, r: Result<String, ContractError>) -> bool {
    if msg.id != INSTANTIATE_POAP_REPLY_ID {
        r == Err::<String, ContractError>(ContractError::InvalidReplyID {})
    } else {
        match msg.result {
            Err(s) => r == Err::<String, ContractError>(ContractError::ParseReplyError(ParseReplyError::SubMsgFailure(s))),
            Ok(None) => r matches Err(ContractError::ParseReplyError(ParseReplyError::ParseFailure(t))) && t@ == "Missing reply data"@,
            Ok(Some(data)) => match instantiate_response_parse(data@) {
                Ok(a) => r matches Ok(b) && b@ == a,
                Err(Some(t)) => r matches Err(ContractError::ParseReplyError(ParseReplyError::ParseFailure(u))) && u@ == t,
                Err(None) => r == Err::<String, ContractError>(ContractError::ParseReplyError(ParseReplyError::BrokenUtf8 {})),
            },
        }
    }
}

/// Reads the address of the POAP contract from the reply to its
/// instantiation; the address is then validated and recorded with
/// `ManagerState::record_poap_address`.
pub fn reply(msg: Reply) -> (r: Result<String, ContractError>)
    ensures
        reply_outcome(msg, r),
{
    if msg.id != INSTANTIATE_POAP_REPLY_ID {
        return Err(ContractError::InvalidReplyID {});
    }
    resolve_instantiate_poap_reply(msg)
}

/// Reads the address of the instantiated POAP contract from the reply data.
pub fn resolve_instantiate_poap_reply(msg: Reply) -> (r: Result<String, ContractError>)
    requires
        msg.id == INSTANTIATE_POAP_REPLY_ID,
    ensures
        reply_outcome(msg, r),
{
    match parse_reply_instantiate_data(msg) {
        Ok(a) => Ok(a),
        Err(e) => Err(ContractError::ParseReplyError(e)),
    }
}

/// The answer to a handler that only records attributes.
pub open spec fn attrs_only(r: Result<Response<ManagerMsg>, ContractError>, attrs: Seq<(Seq<char>, Seq<char>)>) -> bool {
    r matches Ok(resp) && attrs_view(resp.attributes@) == attrs && resp.messages@.len() == 0
}

/// The kind of the storage error that reading a missing address gives.
pub open spec fn addr_not_found(e: StdError) -> bool {
    e matches StdError::NotFound { kind } && kind@ == "cosmwasm_std::addresses::Addr"@
}

fn addr_not_found_error() -> (e: StdError)
    ensures
        addr_not_found(e),
{
    StdError::NotFound { kind: String::from_str("cosmwasm_std::addresses::Addr") }
}

/// The answer asks the POAP contract to mint for `recipient`, forwarding the
/// funds of the message, and records `action` and the sender.
pub open spec fn forwards_mint(r: Result<Response<ManagerMsg>, ContractError>, contract: String, info: MessageInfo,
    action: Seq<char>, recipient: Seq<char>) -> bool {
    &&& r matches Ok(resp)
    &&& attrs_view(resp.attributes@) == seq![("action"@, action), ("sender"@, info.sender@)]
    &&& resp.messages@.len() == 1
    &&& resp.messages@[0] matches ManagerMsg::ExecutePoap { contract: c, execute_msg: poap_event::ExecuteMsg::MintTo { recipient: rc }, funds }
    &&& c@ == contract@ && rc@ == recipient && coins_view(funds@) == coins_view(info.funds@)
}

impl ManagerState {
    /// Records the validated address of the POAP contract; `addr` is the
    /// validation of the address that `reply` read.
    pub fn record_poap_address(&mut self, addr: Result<String, StdError>) -> (r: Result<Response<ManagerMsg>, ContractError>)
        ensures
            match addr {
                Err(e) => r == Err::<Response<ManagerMsg>, ContractError>(ContractError::Std(e)) && *final(self) == *old(self),
                Ok(a) => final(self).poap_address == Some(a) && final(self).config == old(self).config
                    && attrs_only(r, seq![("action"@, "instantiate_poap_reply"@)]),
            },
    {
        let a = match addr { Ok(a) => a, Err(e) => return Err(ContractError::Std(e)) };
        self.poap_address = Some(a);
        let mut resp: Response<ManagerMsg> = Response::new();
        resp.add_attribute("action", "instantiate_poap_reply");
        proof { assert(attrs_view(resp.attributes@) =~= seq![("action"@, "instantiate_poap_reply"@)]); }
        Ok(resp)
    }

    /// Lets the sender claim a POAP; `profile` is the answer of the profile
    /// query for the sender, an error when the sender has no profile.
    pub fn execute_claim(&self, info: &MessageInfo, profile: Result<(), StdError>) -> (r: Result<Response<ManagerMsg>, ContractError>)
        ensures
            match self.poap_address {
                None => r matches Err(ContractError::Std(e)) && addr_not_found(e),
                Some(c) => match profile {
                    Err(e) => r == Err::<Response<ManagerMsg>, ContractError>(ContractError::Std(e)),
                    Ok(()) => forwards_mint(r, c, *info, "claim"@, info.sender@),
                },
            },
    {
        let contract = match &self.poap_address {
            Some(a) => a.clone(),
            None => return Err(ContractError::Std(addr_not_found_error())),
        };
        match profile {
            Ok(()) => {},
            Err(e) => return Err(ContractError::Std(e)),
        }
        let mut resp: Response<ManagerMsg> = Response::new();
        resp.add_attribute("action", "claim");
        resp.add_attribute("sender", info.sender.as_str());
        resp.add_message(ManagerMsg::ExecutePoap {
            contract,
            execute_msg: poap_event::ExecuteMsg::MintTo { recipient: info.sender.clone() },
            funds: clone_coins(info.funds.as_slice()),
        });
        proof { assert(attrs_view(resp.attributes@) =~= seq![("action"@, "claim"@), ("sender"@, info.sender@)]); }
        Ok(resp)
    }

    /// Asks the POAP contract to mint for `recipient`; `addr` is the validation
    /// of `recipient`.
    pub fn execute_mint_to(&self, info: &MessageInfo, recipient: String, addr: Result<String, StdError>)
        -> (r: Result<Response<ManagerMsg>, ContractError>)
        ensures
            match self.poap_address {
                None => r matches Err(ContractError::Std(e)) && addr_not_found(e),
                Some(c) => match addr {
                    Err(e) => r == Err::<Response<ManagerMsg>, ContractError>(ContractError::Std(e)),
                    Ok(_) => forwards_mint(r, c, *info, "mint_to"@, recipient@),
                },
            },
    {
        let contract = match &self.poap_address {
            Some(a) => a.clone(),
            None => return Err(ContractError::Std(addr_not_found_error())),
        };
        match addr {
            Ok(_) => {},
            Err(e) => return Err(ContractError::Std(e)),
        }
        let mut resp: Response<ManagerMsg> = Response::new();
        resp.add_attribute("action", "mint_to");
        resp.add_attribute("sender", info.sender.as_str());
        resp.add_message(ManagerMsg::ExecutePoap {
            contract,
            execute_msg: poap_event::ExecuteMsg::MintTo { recipient },
            funds: clone_coins(info.funds.as_slice()),
        });
        proof { assert(attrs_view(resp.attributes@) =~= seq![("action"@, "mint_to"@), ("sender"@, info.sender@)]); }
        Ok(resp)
    }

    /// Hands the admin rights to the validated `addr` of the new admin; only
    /// the admin may. The address is validated first.
    pub fn execute_update_admin(&mut self, info: &MessageInfo, addr: Result<String, StdError>)
        -> (r: Result<Response<ManagerMsg>, ContractError>)
        ensures
            match addr {
                Err(e) => r == Err::<Response<ManagerMsg>, ContractError>(ContractError::Std(e)) && *final(self) == *old(self),
                Ok(a) => if old(self).config.admin@ != info.sender@ {
                    r == Err::<Response<ManagerMsg>, ContractError>(ContractError::NotAdmin { caller: info.sender }) && *final(self) == *old(self)
                } else {
                    *final(self) == ManagerState { config: Config { admin: a, ..old(self).config }, ..*old(self) }
                        && attrs_only(r, seq![("action"@, "update_admin"@), ("new_admin"@, a@), ("sender"@, info.sender@)])
                },
            },
    {
        let a = match addr { Ok(a) => a, Err(e) => return Err(ContractError::Std(e)) };
        if !(self.config.admin == info.sender) {
            return Err(ContractError::NotAdmin { caller: info.sender.clone() });
        }
        let mut resp: Response<ManagerMsg> = Response::new();
        resp.add_attribute("action", "update_admin");
        resp.add_attribute("new_admin", a.as_str());
        resp.add_attribute("sender", info.sender.as_str());
        proof {
            assert(attrs_view(resp.attributes@) =~= seq![("action"@, "update_admin"@), ("new_admin"@, a@), ("sender"@, info.sender@)]);
        }
        self.config.admin = a;
        Ok(resp)
    }

    /// Executes a message. `answer` is what the chain answered for it: the
    /// profile query of the sender for `Claim`, the validation of the named
    /// address otherwise.
    pub fn execute(&mut self, info: &MessageInfo, msg: ExecuteMsg, answer: Result<(), StdError>, addr: Result<String, StdError>)
        -> (r: Result<Response<ManagerMsg>, ContractError>)
        ensures
            match msg {
                ExecuteMsg::Claim {} => *final(self) == *old(self) && match old(self).poap_address {
                    None => r matches Err(ContractError::Std(e)) && addr_not_found(e),
                    Some(c) => match answer {
                        Err(e) => r == Err::<Response<ManagerMsg>, ContractError>(ContractError::Std(e)),
                        Ok(()) => forwards_mint(r, c, *info, "claim"@, info.sender@),
                    },
                },
                ExecuteMsg::MintTo { recipient } => *final(self) == *old(self) && match old(self).poap_address {
                    None => r matches Err(ContractError::Std(e)) && addr_not_found(e),
                    Some(c) => match addr {
                        Err(e) => r == Err::<Response<ManagerMsg>, ContractError>(ContractError::Std(e)),
                        Ok(_) => forwards_mint(r, c, *info, "mint_to"@, recipient@),
                    },
                },
                ExecuteMsg::UpdateAdmin { .. } => match addr {
                    Err(e) => r == Err::<Response<ManagerMsg>, ContractError>(ContractError::Std(e)) && *final(self) == *old(self),
                    Ok(a) => if old(self).config.admin@ != info.sender@ {
                        r == Err::<Response<ManagerMsg>, ContractError>(ContractError::NotAdmin { caller: info.sender }) && *final(self) == *old(self)
                    } else {
                        *final(self) == ManagerState { config: Config { admin: a, ..old(self).config }, ..*old(self) }
                            && attrs_only(r, seq![("action"@, "update_admin"@), ("new_admin"@, a@), ("sender"@, info.sender@)])
                    },
                },
            },
    {
        match msg {
            ExecuteMsg::Claim {} => self.execute_claim(info, answer),
            ExecuteMsg::MintTo { recipient } => self.execute_mint_to(info, recipient, addr),
            ExecuteMsg::UpdateAdmin { .. } => self.execute_update_admin(info, addr),
        }
    }
}

/// The answer to `QueryMsg::Config`.
pub struct QueryConfigResponse {
    pub admin: String,
    pub poap_code_id: u64,
    pub poap_contract_address: String,
}

impl ManagerState {
    /// The configuration with the address of the POAP contract; fails while
    /// that address is not known.
    pub fn query_config(&self) -> (r: Result<QueryConfigResponse, StdError>)
        ensures
            match self.poap_address {
                None => r matches Err(e) && addr_not_found(e),
                Some(a) => r == Ok::<QueryConfigResponse, StdError>(QueryConfigResponse { admin: self.config.admin,
                    poap_code_id: self.config.poap_code_id, poap_contract_address: a }),
            },
    {
        let a = match &self.poap_address {
            Some(a) => a.clone(),
            None => return Err(addr_not_found_error()),
        };
        Ok(QueryConfigResponse { admin: self.config.admin.clone(), poap_code_id: self.config.poap_code_id, poap_contract_address: a })
    }
}

} // verus!
