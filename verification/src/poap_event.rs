//! The POAP event contract: an event with a time frame during which users mint
//! POAPs on a CW721 contract that this contract instantiates and controls, up to
//! a limit per address.
use vstd::prelude::*;
use vstd::string::*;
use crate::coins::{Coin, StdError, clone_coins, coins_view};
use crate::chain::{Response, MessageInfo, Env, Reply, ParseReplyError, attrs_view};
use crate::outside::{url_scheme, parse_url_scheme, instantiate_response_parse, parse_reply_instantiate_data};
use crate::text::{str_eq, decimal, u128_to_decimal, timestamp_text, timestamp_to_string};

verus! {

/// The id of the reply to the instantiation of the CW721 contract.
pub const INSTANTIATE_CW721_REPLY_ID: u64 = 1;

/// The errors of the POAP event contract. Times are in nanoseconds.
#[derive(Debug, PartialEq, Eq)]
pub enum ContractError {
    Std(StdError),
    Unauthorized {},
    InvalidReplyID {},
    InstantiateCw721Error {},
    StartTimeAfterEndTime { start: u64, end: u64 },
    EndTimeBeforeCurrentTime { current_time: u64, end_time: u64 },
    StartTimeBeforeCurrentTime { current_time: u64, start_time: u64 },
    InvalidPoapUri {},
    InvalidPerAddressLimit {},
    InvalidEventUri {},
    MintDisabled {},
    MaxPerAddressLimitExceeded { recipient_addr: String },
    EventStarted { current_time: u64, start_time: u64 },
    EventNotStarted { current_time: u64, start_time: u64 },
    EventTerminated { current_time: u64, end_time: u64 },
}

/// The message that instantiates the CW721 contract.
pub struct Cw721InstantiateMsg {
    pub name: String,
    pub symbol: String,
    pub minter: String,
}

/// The event as given at instantiation.
pub struct EventInfo {
    /// The user that created the event.
    pub creator: String,
    /// When the event begins, in nanoseconds.
    pub start_time: u64,
    /// When the event ends, in nanoseconds.
    pub end_time: u64,
    /// The most POAPs that one address may get.
    pub per_address_limit: u32,
    /// The IPFS URI of the assets and metadata of the POAPs.
    pub poap_uri: String,
}

/// The message that instantiates the contract.
pub struct InstantiateMsg {
    pub admin: String,
    pub minter: String,
    pub cw721_code_id: u64,
    pub cw721_instantiate_msg: Cw721InstantiateMsg,
    pub event_info: EventInfo,
}

/// The messages that the contract executes.
pub enum ExecuteMsg {
    /// The admin enables `Mint`.
    EnableMint {},
    /// The admin disables `Mint`.
    DisableMint {},
    /// The sender mints a POAP for themself.
    Mint {},
    /// The admin or the minter mints a POAP for `recipient`.
    MintTo { recipient: String },
    /// The creator moves the event before it started.
    UpdateEventInfo { start_time: u64, end_time: u64 },
    /// The admin hands the admin rights on.
    UpdateAdmin { new_admin: String },
    /// The admin hands the minting rights on.
    UpdateMinter { new_minter: String },
}

/// The configuration of the contract.
pub struct Config {
    pub admin: String,
    pub minter: String,
    pub per_address_limit: u32,
    pub cw721_code_id: u64,
    pub mint_enabled: bool,
}

/// The event as stored.
pub struct StoredEvent {
    pub creator: String,
    pub start_time: u64,
    pub end_time: u64,
    pub poap_uri: String,
}

/// The number of POAPs minted for an address.
pub struct MintCount {
    pub user: String,
    pub amount: u32,
}

/// The messages that the contract sends to other contracts.
#[derive(Debug, PartialEq, Eq)]
pub enum EventMsg {
    /// Instantiates the CW721 contract that holds the POAPs.
    InstantiateCw721 { code_id: u64, name: String, symbol: String, minter: String, funds: Vec<Coin>, label: String },
    /// Mints a POAP on the CW721 contract at `contract`.
    MintPoap { contract: String, token_id: String, owner: String, token_uri: String, claimer: String },
}

/// The state of the contract.
pub struct EventState {
    pub config: Config,
    pub event: StoredEvent,
    /// Every change of a minted amount, oldest first; the newest entry of an
    /// address holds its amount.
    pub minted: Vec<MintCount>,
    /// The id of the next POAP.
    pub next_poap_id: u64,
    /// The address of the CW721 contract, once it was instantiated.
    pub cw721_address: Option<String>,
}

/// The amounts minted per address.
pub open spec fn minted_map(s: Seq<MintCount>) -> Map<Seq<char>, u32>
    decreases s.len(),
{
    if s.len() == 0 {
        Map::empty()
    } else {
        minted_map(s.drop_last()).insert(s.last().user@, s.last().amount)
    }
}

/// The number of POAPs minted for `user`.
pub open spec fn minted_amount(s: Seq<MintCount>, user: Seq<char>) -> u32 {
    if minted_map(s).contains_key(user) { minted_map(s)[user] } else { 0 }
}

/// The event has started at `now`.
pub open spec fn is_started(e: StoredEvent, now: u64) -> bool {
    e.start_time <= now
}

/// The event has ended at `now`.
pub open spec fn is_ended(e: StoredEvent, now: u64) -> bool {
    e.end_time <= now
}

/// What `InstantiateMsg::validate` answers, given the scheme that URL parsing
/// finds in the POAP URI.
pub open spec fn instantiate_check(msg: InstantiateMsg, scheme: Option<Seq<char>>) -> Result<(), ContractError> {
    if msg.event_info.start_time >= msg.event_info.end_time {
        Err(ContractError::StartTimeAfterEndTime { start: msg.event_info.start_time, end: msg.event_info.end_time })
    } else if msg.event_info.per_address_limit == 0 {
        Err(ContractError::InvalidPerAddressLimit {})
    } else if scheme != Some("ipfs"@) {
        Err(ContractError::InvalidPoapUri {})
    } else {
        Ok(())
    }
}

impl InstantiateMsg {
    /// Checks the message given the scheme that URL parsing found in the POAP
    /// URI (`None` when it is no URL): the event must end after it starts,
    /// allow at least one POAP per address, and keep its POAPs on IPFS.
    pub fn validate_with_scheme(&self, scheme: Option<String>) -> (r: Result<(), ContractError>)
        ensures
            r == instantiate_check(*self, match scheme { Some(s) => Some(s@), None => None }),
    {
        if self.event_info.start_time >= self.event_info.end_time {
            return Err(ContractError::StartTimeAfterEndTime { start: self.event_info.start_time, end: self.event_info.end_time });
        }
        if self.event_info.per_address_limit == 0 {
            return Err(ContractError::InvalidPerAddressLimit {});
        }
        proof { reveal_strlit("ipfs"); }
        match scheme {
            Some(s) => if !str_eq(s.as_str(), "ipfs") {
                return Err(ContractError::InvalidPoapUri {});
            },
            None => return Err(ContractError::InvalidPoapUri {}),
        }
        Ok(())
    }

    /// Checks that the data of the message are coherent; addresses are not
    /// checked here.
    pub fn validate(&self) -> (r: Result<(), ContractError>)
        ensures
            r == instantiate_check(*self, url_scheme(self.event_info.poap_uri@)),
    {
        let scheme = parse_url_scheme(self.event_info.poap_uri.as_str());
        self.validate_with_scheme(scheme)
    }
}

impl ExecuteMsg {
    /// Checks that the data of the message are coherent: a new time frame must
    /// end after it starts.
    pub fn validate(&self) -> (r: Result<(), ContractError>)
        ensures
            match *self {
                ExecuteMsg::UpdateEventInfo { start_time, end_time } => if start_time >= end_time {
                    r == Err::<(), ContractError>(ContractError::StartTimeAfterEndTime { start: start_time, end: end_time })
                } else {
                    r is Ok
                },
                _ => r is Ok,
            },
    {
        match self {
            ExecuteMsg::UpdateEventInfo { start_time, end_time } => if *start_time >= *end_time {
                Err(ContractError::StartTimeAfterEndTime { start: *start_time, end: *end_time })
            } else {
                Ok(())
            },
            _ => Ok(()),
        }
    }
}


/// The kind of the storage error that reading a missing address gives.
pub open spec fn addr_not_found(e: StdError) -> bool {
    e matches StdError::NotFound { kind } && kind@ == "cosmwasm_std::addresses::Addr"@
}

fn addr_not_found_error() -> (e: StdError)
    ensures
        addr_not_found(e),
{
    StdError::NotFound { kind: String::from_str("cosmwasm_std::addresses::Addr") }
}

/// The result of the checks of a mint for `recipient` sent by `sender` at `now`.
pub open spec fn mint_check(st: EventState, now: u64, sender: Seq<char>, recipient: String,
    bypass_mint_enable: bool, check_authorized_to_mint: bool) -> Result<(), ContractError> {
    if !is_started(st.event, now) {
        Err(ContractError::EventNotStarted { current_time: now, start_time: st.event.start_time })
    } else if is_ended(st.event, now) {
        Err(ContractError::EventTerminated { current_time: now, end_time: st.event.end_time })
    } else if !bypass_mint_enable && !st.config.mint_enabled {
        Err(ContractError::MintDisabled {})
    } else if check_authorized_to_mint && sender != st.config.minter@ && sender != st.config.admin@ {
        Err(ContractError::Unauthorized {})
    } else if minted_amount(st.minted@, recipient@) >= st.config.per_address_limit {
        Err(ContractError::MaxPerAddressLimitExceeded { recipient_addr: recipient })
    } else {
        Ok(())
    }
}

/// Everything but the minted amounts, the next id and the CW721 address is the
/// same in both states.
pub open spec fn same_settings(a: EventState, b: EventState) -> bool {
    &&& a.config == b.config
    &&& a.event == b.event
}

/// What minting does.
pub open spec fn mint_post(old: EventState, new: EventState, now: u64, sender: Seq<char>, action: Seq<char>,
    recipient: String, bypass_mint_enable: bool, check_authorized_to_mint: bool,
    r: Result<Response<EventMsg>, ContractError>) -> bool {
    let check = mint_check(old, now, sender, recipient, bypass_mint_enable, check_authorized_to_mint);
    if check is Err {
        r == Err::<Response<EventMsg>, ContractError>(check->Err_0) && new == old
    } else {
        match old.cw721_address {
            None => r matches Err(ContractError::Std(e)) && addr_not_found(e) && new == old,
            Some(contract) => {
                let id = decimal(old.next_poap_id as nat);
                &&& r matches Ok(resp)
                &&& attrs_view(resp.attributes@) == seq![("action"@, action), ("sender"@, sender),
                    ("recipient"@, recipient@), ("poap_id"@, id)]
                &&& resp.messages@.len() == 1
                &&& resp.messages@[0] matches EventMsg::MintPoap { contract: c, token_id, owner, token_uri, claimer }
                &&& c@ == contract@ && token_id@ == id && owner@ == recipient@
                &&& token_uri@ == old.event.poap_uri@ && claimer@ == recipient@
                &&& new.next_poap_id == old.next_poap_id + 1
                &&& minted_map(new.minted@) == minted_map(old.minted@).insert(recipient@,
                    (minted_amount(old.minted@, recipient@) + 1) as u32)
                &&& same_settings(old, new) && new.cw721_address == old.cw721_address
            },
        }
    }
}

/// Looking up the newest entry of `user` in the first `i` entries.
proof fn lemma_minted_step(s: Seq<MintCount>, i: int, user: Seq<char>)
    requires
        0 < i <= s.len(),
    ensures
        minted_amount(s.take(i), user) == if s[i - 1].user@ == user { s[i - 1].amount } else { minted_amount(s.take(i - 1), user) },
{
    assert(s.take(i).drop_last() =~= s.take(i - 1));
}

impl EventState {
    /// The number of POAPs minted for `user`.
    pub fn minted_of(&self, user: &String) -> (r: u32)
        ensures
            r == minted_amount(self.minted@, user@),
    {
        let mut i: usize = self.minted.len();
        proof { assert(self.minted@.take(i as int) =~= self.minted@); }
        while i > 0
            invariant
                i <= self.minted@.len(),
                minted_amount(self.minted@.take(i as int), user@) == minted_amount(self.minted@, user@),
            decreases i,
        {
            proof { lemma_minted_step(self.minted@, i as int, user@); }
            if self.minted[i - 1].user == *user {
                return self.minted[i - 1].amount;
            }
            i = i - 1;
        }
        proof { assert(minted_map(self.minted@.take(0)) == Map::<Seq<char>, u32>::empty()); }
        0
    }

    /// Mints a POAP for `recipient` on the CW721 contract. The event must be
    /// running; unless `bypass_mint_enable`, minting must be enabled; with
    /// `check_authorized_to_mint` the sender must be the minter or the admin;
    /// and the recipient must be under the limit per address.
    pub fn execute_mint(&mut self, env: &Env, sender: &String, action: &str, recipient: String,
        bypass_mint_enable: bool, check_authorized_to_mint: bool) -> (r: Result<Response<EventMsg>, ContractError>)
        requires
            old(self).next_poap_id < u64::MAX,
        ensures
            mint_post(*old(self), *final(self), env.block_time, sender@, action@, recipient,
                bypass_mint_enable, check_authorized_to_mint, r),
    {
        let now = env.block_time;
        if !(self.event.start_time <= now) {
            return Err(ContractError::EventNotStarted { current_time: now, start_time: self.event.start_time });
        }
        if self.event.end_time <= now {
            return Err(ContractError::EventTerminated { current_time: now, end_time: self.event.end_time });
        }
        if !bypass_mint_enable && !self.config.mint_enabled {
            return Err(ContractError::MintDisabled {});
        }
        if check_authorized_to_mint && !(*sender == self.config.minter) && !(*sender == self.config.admin) {
            return Err(ContractError::Unauthorized {});
        }
        let count = self.minted_of(&recipient);
        if count >= self.config.per_address_limit {
            return Err(ContractError::MaxPerAddressLimitExceeded { recipient_addr: recipient });
        }
        let poap_id = self.next_poap_id;
        let contract = match &self.cw721_address {
            Some(a) => a.clone(),
            None => return Err(ContractError::Std(addr_not_found_error())),
        };
        let token_id = u128_to_decimal(poap_id as u128);
        let mint_msg = EventMsg::MintPoap {
            contract,
            token_id: token_id.clone(),
            owner: recipient.clone(),
            token_uri: self.event.poap_uri.clone(),
            claimer: recipient.clone(),
        };
        self.next_poap_id = poap_id + 1;
        let ghost before = self.minted@;
        self.minted.push(MintCount { user: recipient.clone(), amount: count + 1 });
        proof { assert(self.minted@.drop_last() =~= before); }
        let mut resp: Response<EventMsg> = Response::new();
        resp.add_attribute("action", action);
        resp.add_attribute("sender", sender.as_str());
        resp.add_attribute("recipient", recipient.as_str());
        resp.add_attribute("poap_id", token_id.as_str());
        resp.add_message(mint_msg);
        proof {
            assert(attrs_view(resp.attributes@) =~= seq![("action"@, action@), ("sender"@, sender@),
                ("recipient"@, recipient@), ("poap_id"@, token_id@)]);
        }
        Ok(resp)
    }
}


} // verus!

verus! {

/// The result of the checks of an instantiation at `now`: the message, the
/// admin, minter and creator addresses, then the time frame.
pub open spec fn instantiate_outcome_error(msg: InstantiateMsg, scheme: Option<Seq<char>>, now: u64,
    admin: Result<String, StdError>, minter: Result<String, StdError>, creator: Result<String, StdError>)
    -> Option<ContractError> {
    if instantiate_check(msg, scheme) is Err {
        Some(instantiate_check(msg, scheme)->Err_0)
    } else if admin is Err {
        Some(ContractError::Std(admin->Err_0))
    } else if minter is Err {
        Some(ContractError::Std(minter->Err_0))
    } else if creator is Err {
        Some(ContractError::Std(creator->Err_0))
    } else if !(msg.event_info.end_time > now) {
        Some(ContractError::EndTimeBeforeCurrentTime { current_time: now, end_time: msg.event_info.end_time })
    } else if !(msg.event_info.start_time > now) {
        Some(ContractError::StartTimeBeforeCurrentTime { current_time: now, start_time: msg.event_info.start_time })
    } else {
        None
    }
}

/// Instantiates the contract. `admin`, `minter` and `creator` are the
/// validations of the addresses that the message names. Minting starts
/// disabled; the answer asks the chain to instantiate the CW721 contract with
/// this contract as its minter.
pub fn instantiate(env: &Env, info: &MessageInfo, msg: InstantiateMsg, admin: Result<String, StdError>,
    minter: Result<String, StdError>, creator: Result<String, StdError>)
    -> (r: Result<(EventState, Response<EventMsg>), ContractError>)
    ensures
        ({
            let err = instantiate_outcome_error(msg, url_scheme(msg.event_info.poap_uri@), env.block_time, admin, minter, creator);
            match err {
                Some(e) => r == Err::<(EventState, Response<EventMsg>), ContractError>(e),
                None => r matches Ok((st, resp)) && {
                    let (a, m, c) = (admin->Ok_0, minter->Ok_0, creator->Ok_0);
                    &&& st.config == Config { admin: a, minter: m, per_address_limit: msg.event_info.per_address_limit,
                        cw721_code_id: msg.cw721_code_id, mint_enabled: false }
                    &&& st.event == StoredEvent { creator: c, start_time: msg.event_info.start_time,
                        end_time: msg.event_info.end_time, poap_uri: msg.event_info.poap_uri }
                    &&& st.minted@.len() == 0 && st.next_poap_id == 1 && st.cw721_address is None
                    &&& attrs_view(resp.attributes@) == seq![("action"@, "instantiate"@), ("creator"@, c@), ("admin"@, a@),
                        ("minter"@, m@), ("start_time"@, timestamp_text(msg.event_info.start_time)),
                        ("end_time"@, timestamp_text(msg.event_info.end_time)),
                        ("per_address_limit"@, decimal(msg.event_info.per_address_limit as nat)),
                        ("poap_uri"@, msg.event_info.poap_uri@), ("cw721_code_id"@, decimal(msg.cw721_code_id as nat))]
                    &&& resp.messages@.len() == 1
                    &&& resp.messages@[0] matches EventMsg::InstantiateCw721 { code_id, name, symbol, minter: mm, funds, label }
                    &&& code_id == msg.cw721_code_id && name == msg.cw721_instantiate_msg.name
                    &&& symbol == msg.cw721_instantiate_msg.symbol && mm@ == env.contract_address@
                    &&& coins_view(funds@) == coins_view(info.funds@) && label@ == "poap_cw721"@
                },
            }
        }),
{
    match msg.validate() {
        Ok(()) => {},
        Err(e) => return Err(e),
    }
    let admin = match admin { Ok(a) => a, Err(e) => return Err(ContractError::Std(e)) };
    let minter = match minter { Ok(a) => a, Err(e) => return Err(ContractError::Std(e)) };
    let creator = match creator { Ok(a) => a, Err(e) => return Err(ContractError::Std(e)) };
    let now = env.block_time;
    if !(msg.event_info.end_time > now) {
        return Err(ContractError::EndTimeBeforeCurrentTime { current_time: now, end_time: msg.event_info.end_time });
    }
    if !(msg.event_info.start_time > now) {
        return Err(ContractError::StartTimeBeforeCurrentTime { current_time: now, start_time: msg.event_info.start_time });
    }
    let InstantiateMsg { admin: _, minter: _, cw721_code_id, cw721_instantiate_msg, event_info } = msg;
    let start_text = timestamp_to_string(event_info.start_time);
    let end_text = timestamp_to_string(event_info.end_time);
    let limit_text = u128_to_decimal(event_info.per_address_limit as u128);
    let code_text = u128_to_decimal(cw721_code_id as u128);
    let mut resp: Response<EventMsg> = Response::new();
    resp.add_attribute("action", "instantiate");
    resp.add_attribute("creator", creator.as_str());
    resp.add_attribute("admin", admin.as_str());
    resp.add_attribute("minter", minter.as_str());
    resp.add_attribute("start_time", start_text.as_str());
    resp.add_attribute("end_time", end_text.as_str());
    resp.add_attribute("per_address_limit", limit_text.as_str());
    resp.add_attribute("poap_uri", event_info.poap_uri.as_str());
    resp.add_attribute("cw721_code_id", code_text.as_str());
    resp.add_message(EventMsg::InstantiateCw721 {
        code_id: cw721_code_id,
        name: cw721_instantiate_msg.name,
        symbol: cw721_instantiate_msg.symbol,
        minter: env.contract_address.clone(),
        funds: clone_coins(info.funds.as_slice()),
        label: String::from_str("poap_cw721"),
    });
    proof {
        reveal_strlit("poap_cw721");
        assert(attrs_view(resp.attributes@) =~= seq![("action"@, "instantiate"@), ("creator"@, creator@), ("admin"@, admin@),
            ("minter"@, minter@), ("start_time"@, timestamp_text(event_info.start_time)),
            ("end_time"@, timestamp_text(event_info.end_time)),
            ("per_address_limit"@, decimal(event_info.per_address_limit as nat)),
            ("poap_uri"@, event_info.poap_uri@), ("cw721_code_id"@, decimal(cw721_code_id as nat))]);
    }
    let st = EventState {
        config: Config { admin, minter, per_address_limit: event_info.per_address_limit, cw721_code_id, mint_enabled: false },
        event: StoredEvent { creator, start_time: event_info.start_time, end_time: event_info.end_time, poap_uri: event_info.poap_uri },
        minted: Vec::new(),
        next_poap_id: 1,
        cw721_address: None,
    };
    Ok((st, resp))
}

} // verus!

verus! {

/// The answer to a handler that only records attributes.
pub open spec fn attrs_only(r: Result<Response<EventMsg>, ContractError>, attrs: Seq<(Seq<char>, Seq<char>)>) -> bool {
    r matches Ok(resp) && attrs_view(resp.attributes@) == attrs && resp.messages@.len() == 0
}

/// What `UpdateEventInfo` does at `now`.
pub open spec fn update_event_post(old: EventState, new: EventState, now: u64, sender: Seq<char>,
    start_time: u64, end_time: u64, r: Result<Response<EventMsg>, ContractError>) -> bool {
    if old.event.creator@ != sender {
        r == Err::<Response<EventMsg>, ContractError>(ContractError::Unauthorized {}) && new == old
    } else if is_ended(old.event, now) {
        r == Err::<Response<EventMsg>, ContractError>(ContractError::EventTerminated { current_time: now, end_time: old.event.end_time }) && new == old
    } else if is_started(old.event, now) {
        r == Err::<Response<EventMsg>, ContractError>(ContractError::EventStarted { current_time: now, start_time: old.event.start_time }) && new == old
    } else if now >= start_time {
        r == Err::<Response<EventMsg>, ContractError>(ContractError::StartTimeBeforeCurrentTime { current_time: now, start_time }) && new == old
    } else {
        &&& new == EventState { event: StoredEvent { start_time, end_time, ..old.event }, ..old }
        &&& attrs_only(r, seq![("action"@, "update_event_info"@), ("sender"@, sender),
            ("new_start_time"@, timestamp_text(start_time)), ("new_end_time"@, timestamp_text(end_time))])
    }
}

/// What handing on the admin or the minter rights does: only the admin may, and
/// the new address must be valid.
pub open spec fn hand_on_post(old: EventState, new: EventState, sender: Seq<char>, raw: Seq<char>,
    addr: Result<String, StdError>, to_admin: bool, r: Result<Response<EventMsg>, ContractError>) -> bool {
    if old.config.admin@ != sender {
        r == Err::<Response<EventMsg>, ContractError>(ContractError::Unauthorized {}) && new == old
    } else {
        match addr {
            Err(e) => r == Err::<Response<EventMsg>, ContractError>(ContractError::Std(e)) && new == old,
            Ok(a) => if to_admin {
                new == EventState { config: Config { admin: a, ..old.config }, ..old }
                    && attrs_only(r, seq![("action"@, "update_admin"@), ("new_admin"@, raw)])
            } else {
                new == EventState { config: Config { minter: a, ..old.config }, ..old }
                    && attrs_only(r, seq![("action"@, "update_minter"@), ("new_minter"@, raw)])
            },
        }
    }
}

impl EventState {
    /// Enables or disables minting by users; only the admin may.
    pub fn execute_set_mint_enabled(&mut self, sender: &String, mint_enabled: bool) -> (r: Result<Response<EventMsg>, ContractError>)
        ensures
            if old(self).config.admin@ != sender@ {
                r == Err::<Response<EventMsg>, ContractError>(ContractError::Unauthorized {}) && *final(self) == *old(self)
            } else {
                &&& *final(self) == EventState { config: Config { mint_enabled, ..old(self).config }, ..*old(self) }
                &&& attrs_only(r, seq![("action"@, if mint_enabled { "enable_mint"@ } else { "disable_mint"@ }), ("sender"@, sender@)])
            },
    {
        if !(*sender == self.config.admin) {
            return Err(ContractError::Unauthorized {});
        }
        self.config.mint_enabled = mint_enabled;
        let action = if mint_enabled { "enable_mint" } else { "disable_mint" };
        let mut resp: Response<EventMsg> = Response::new();
        resp.add_attribute("action", action);
        resp.add_attribute("sender", sender.as_str());
        proof {
            assert(attrs_view(resp.attributes@) =~= seq![("action"@, action@), ("sender"@, sender@)]);
        }
        Ok(resp)
    }

    /// Moves the event; only the creator may, before the event started, to a
    /// start in the future.
    pub fn execute_update_event_info(&mut self, env: &Env, sender: &String, start_time: u64, end_time: u64)
        -> (r: Result<Response<EventMsg>, ContractError>)
        ensures
            update_event_post(*old(self), *final(self), env.block_time, sender@, start_time, end_time, r),
    {
        let now = env.block_time;
        if !(self.event.creator == *sender) {
            return Err(ContractError::Unauthorized {});
        }
        if self.event.end_time <= now {
            return Err(ContractError::EventTerminated { current_time: now, end_time: self.event.end_time });
        }
        if self.event.start_time <= now {
            return Err(ContractError::EventStarted { current_time: now, start_time: self.event.start_time });
        }
        if now >= start_time {
            return Err(ContractError::StartTimeBeforeCurrentTime { current_time: now, start_time });
        }
        self.event.start_time = start_time;
        self.event.end_time = end_time;
        let start_text = timestamp_to_string(start_time);
        let end_text = timestamp_to_string(end_time);
        let mut resp: Response<EventMsg> = Response::new();
        resp.add_attribute("action", "update_event_info");
        resp.add_attribute("sender", sender.as_str());
        resp.add_attribute("new_start_time", start_text.as_str());
        resp.add_attribute("new_end_time", end_text.as_str());
        proof {
            assert(attrs_view(resp.attributes@) =~= seq![("action"@, "update_event_info"@), ("sender"@, sender@),
                ("new_start_time"@, timestamp_text(start_time)), ("new_end_time"@, timestamp_text(end_time))]);
        }
        Ok(resp)
    }

    /// Hands the admin rights to `new_admin`; only the admin may. `addr` is the
    /// validation of `new_admin`.
    pub fn execute_update_admin(&mut self, sender: &String, new_admin: &String, addr: Result<String, StdError>)
        -> (r: Result<Response<EventMsg>, ContractError>)
        ensures
            hand_on_post(*old(self), *final(self), sender@, new_admin@, addr, true, r),
    {
        if !(*sender == self.config.admin) {
            return Err(ContractError::Unauthorized {});
        }
        let a = match addr { Ok(a) => a, Err(e) => return Err(ContractError::Std(e)) };
        self.config.admin = a;
        let mut resp: Response<EventMsg> = Response::new();
        resp.add_attribute("action", "update_admin");
        resp.add_attribute("new_admin", new_admin.as_str());
        proof {
            assert(attrs_view(resp.attributes@) =~= seq![("action"@, "update_admin"@), ("new_admin"@, new_admin@)]);
        }
        Ok(resp)
    }

    /// Hands the minting rights to `new_minter`; only the admin may. `addr` is
    /// the validation of `new_minter`.
    pub fn execute_update_minter(&mut self, sender: &String, new_minter: &String, addr: Result<String, StdError>)
        -> (r: Result<Response<EventMsg>, ContractError>)
        ensures
            hand_on_post(*old(self), *final(self), sender@, new_minter@, addr, false, r),
    {
        if !(*sender == self.config.admin) {
            return Err(ContractError::Unauthorized {});
        }
        let a = match addr { Ok(a) => a, Err(e) => return Err(ContractError::Std(e)) };
        self.config.minter = a;
        let mut resp: Response<EventMsg> = Response::new();
        resp.add_attribute("action", "update_minter");
        resp.add_attribute("new_minter", new_minter.as_str());
        proof {
            assert(attrs_view(resp.attributes@) =~= seq![("action"@, "update_minter"@), ("new_minter"@, new_minter@)]);
        }
        Ok(resp)
    }
}

/// The message names an address to validate.
pub open spec fn names_address(msg: ExecuteMsg) -> bool {
    msg is MintTo || msg is UpdateAdmin || msg is UpdateMinter
}

/// What executing `msg` does; `addr` is the validation of the address that
/// the message names, if any.
pub open spec fn execute_post(old: EventState, new: EventState, env: Env, info: MessageInfo, msg: ExecuteMsg,
    addr: Option<Result<String, StdError>>, r: Result<Response<EventMsg>, ContractError>) -> bool {
    match msg {
        ExecuteMsg::UpdateEventInfo { start_time, end_time } => if start_time >= end_time {
            r == Err::<Response<EventMsg>, ContractError>(ContractError::StartTimeAfterEndTime { start: start_time, end: end_time }) && new == old
        } else {
            update_event_post(old, new, env.block_time, info.sender@, start_time, end_time, r)
        },
        ExecuteMsg::EnableMint {} | ExecuteMsg::DisableMint {} => {
            let enabled = msg is EnableMint;
            if old.config.admin@ != info.sender@ {
                r == Err::<Response<EventMsg>, ContractError>(ContractError::Unauthorized {}) && new == old
            } else {
                &&& new == EventState { config: Config { mint_enabled: enabled, ..old.config }, ..old }
                &&& attrs_only(r, seq![("action"@, if enabled { "enable_mint"@ } else { "disable_mint"@ }), ("sender"@, info.sender@)])
            }
        },
        ExecuteMsg::Mint {} => mint_post(old, new, env.block_time, info.sender@, "mint"@, info.sender, false, false, r),
        ExecuteMsg::MintTo { .. } => match addr->Some_0 {
            Err(e) => r == Err::<Response<EventMsg>, ContractError>(ContractError::Std(e)) && new == old,
            Ok(a) => mint_post(old, new, env.block_time, info.sender@, "mint_to"@, a, true, true, r),
        },
        ExecuteMsg::UpdateAdmin { new_admin } => hand_on_post(old, new, info.sender@, new_admin@, addr->Some_0, true, r),
        ExecuteMsg::UpdateMinter { new_minter } => hand_on_post(old, new, info.sender@, new_minter@, addr->Some_0, false, r),
    }
}

impl EventState {
    /// Executes a message after checking it. `addr` is the validation of the
    /// address that the message names (the recipient, new admin or new minter).
    pub fn execute(&mut self, env: &Env, info: &MessageInfo, msg: ExecuteMsg, addr: Option<Result<String, StdError>>)
        -> (r: Result<Response<EventMsg>, ContractError>)
        requires
            addr is Some <==> names_address(msg),
            old(self).next_poap_id < u64::MAX,
        ensures
            execute_post(*old(self), *final(self), *env, *info, msg, addr, r),
    {
        match msg.validate() {
            Ok(()) => {},
            Err(e) => return Err(e),
        }
        match msg {
            ExecuteMsg::EnableMint {} => self.execute_set_mint_enabled(&info.sender, true),
            ExecuteMsg::DisableMint {} => self.execute_set_mint_enabled(&info.sender, false),
            ExecuteMsg::Mint {} => {
                let recipient = info.sender.clone();
                self.execute_mint(env, &info.sender, "mint", recipient, false, false)
            },
            ExecuteMsg::MintTo { .. } => {
                let recipient = match addr {
                    Some(Ok(a)) => a,
                    Some(Err(e)) => return Err(ContractError::Std(e)),
                    None => return Err(ContractError::Unauthorized {}),
                };
                self.execute_mint(env, &info.sender, "mint_to", recipient, true, true)
            },
            ExecuteMsg::UpdateEventInfo { start_time, end_time } =>
                self.execute_update_event_info(env, &info.sender, start_time, end_time),
            ExecuteMsg::UpdateAdmin { new_admin } => match addr {
                Some(a) => self.execute_update_admin(&info.sender, &new_admin, a),
                None => Err(ContractError::Unauthorized {}),
            },
            ExecuteMsg::UpdateMinter { new_minter } => match addr {
                Some(a) => self.execute_update_minter(&info.sender, &new_minter, a),
                None => Err(ContractError::Unauthorized {}),
            },
        }
    }
}

} // verus!

verus! {

/// The answer to `QueryMsg::Config`.
pub struct QueryConfigResponse {
    pub admin: String,
    pub minter: String,
    pub mint_enabled: bool,
    pub per_address_limit: u32,
    pub cw721_contract_code: u64,
    pub cw721_contract: String,
}

/// The answer to `QueryMsg::EventInfo`.
pub struct QueryEventInfoResponse {
    pub creator: String,
    pub start_time: u64,
    pub end_time: u64,
    pub poap_uri: String,
}

/// The answer to `QueryMsg::MintedAmount`.
pub struct QueryMintedAmountResponse {
    pub user: String,
    pub amount: u32,
}

/// The queries of the contract.
pub enum QueryMsg {
    Config {},
    EventInfo {},
    MintedAmount { user: String },
}

/// The answers to the queries.
pub enum QueryResponse {
    Config(QueryConfigResponse),
    EventInfo(QueryEventInfoResponse),
    MintedAmount(QueryMintedAmountResponse),
}

impl EventState {
    /// The configuration; fails while the CW721 contract is not known.
    pub fn query_config(&self) -> (r: Result<QueryConfigResponse, StdError>)
        ensures
            match self.cw721_address {
                None => r matches Err(e) && addr_not_found(e),
                Some(a) => r == Ok::<QueryConfigResponse, StdError>(QueryConfigResponse {
                    admin: self.config.admin, minter: self.config.minter, mint_enabled: self.config.mint_enabled,
                    per_address_limit: self.config.per_address_limit, cw721_contract_code: self.config.cw721_code_id,
                    cw721_contract: a }),
            },
    {
        let contract = match &self.cw721_address {
            Some(a) => a.clone(),
            None => return Err(addr_not_found_error()),
        };
        Ok(QueryConfigResponse {
            admin: self.config.admin.clone(),
            minter: self.config.minter.clone(),
            mint_enabled: self.config.mint_enabled,
            per_address_limit: self.config.per_address_limit,
            cw721_contract_code: self.config.cw721_code_id,
            cw721_contract: contract,
        })
    }

    /// The event.
    pub fn query_event_info(&self) -> (r: QueryEventInfoResponse)
        ensures
            r == (QueryEventInfoResponse { creator: self.event.creator, start_time: self.event.start_time,
                end_time: self.event.end_time, poap_uri: self.event.poap_uri }),
    {
        QueryEventInfoResponse {
            creator: self.event.creator.clone(),
            start_time: self.event.start_time,
            end_time: self.event.end_time,
            poap_uri: self.event.poap_uri.clone(),
        }
    }

    /// The number of POAPs minted for a user; `user` is the validation of the
    /// queried address.
    pub fn query_minted_amount(&self, user: Result<String, StdError>) -> (r: Result<QueryMintedAmountResponse, StdError>)
        ensures
            match user {
                Err(e) => r == Err::<QueryMintedAmountResponse, StdError>(e),
                Ok(u) => r matches Ok(resp) && resp.user == u && resp.amount == minted_amount(self.minted@, u@),
            },
    {
        let u = match user { Ok(u) => u, Err(e) => return Err(e) };
        let amount = self.minted_of(&u);
        Ok(QueryMintedAmountResponse { user: u, amount })
    }

    /// Answers a query; `user` is the validation of the address of
    /// `MintedAmount`.
    pub fn query(&self, msg: QueryMsg, user: Option<Result<String, StdError>>) -> (r: Result<QueryResponse, StdError>)
        requires
            user is Some <==> msg is MintedAmount,
        ensures
            match msg {
                QueryMsg::Config {} => match self.cw721_address {
                    None => r matches Err(e) && addr_not_found(e),
                    Some(a) => r matches Ok(QueryResponse::Config(c)) && c.cw721_contract == a && c.admin == self.config.admin
                        && c.minter == self.config.minter && c.mint_enabled == self.config.mint_enabled
                        && c.per_address_limit == self.config.per_address_limit && c.cw721_contract_code == self.config.cw721_code_id,
                },
                QueryMsg::EventInfo {} => r matches Ok(QueryResponse::EventInfo(e)) && e.creator == self.event.creator
                    && e.start_time == self.event.start_time && e.end_time == self.event.end_time && e.poap_uri == self.event.poap_uri,
                QueryMsg::MintedAmount { .. } => match user->Some_0 {
                    Err(e) => r == Err::<QueryResponse, StdError>(e),
                    Ok(u) => r matches Ok(QueryResponse::MintedAmount(m)) && m.user == u && m.amount == minted_amount(self.minted@, u@),
                },
            },
    {
        match msg {
            QueryMsg::Config {} => match self.query_config() {
                Ok(c) => Ok(QueryResponse::Config(c)),
                Err(e) => Err(e),
            },
            QueryMsg::EventInfo {} => Ok(QueryResponse::EventInfo(self.query_event_info())),
            QueryMsg::MintedAmount { .. } => match user {
                Some(u) => match self.query_minted_amount(u) {
                    Ok(m) => Ok(QueryResponse::MintedAmount(m)),
                    Err(e) => Err(e),
                },
                None => Err(addr_not_found_error()),
            },
        }
    }

    /// Records the address of the CW721 contract from the reply to its
    /// instantiation.
    pub fn reply(&mut self, msg: Reply) -> (r: Result<Response<EventMsg>, ContractError>)
        ensures
            if msg.id != INSTANTIATE_CW721_REPLY_ID {
                r == Err::<Response<EventMsg>, ContractError>(ContractError::InvalidReplyID {}) && *final(self) == *old(self)
            } else {
                match msg.result {
                    Ok(Some(data)) => match instantiate_response_parse(data@) {
                        Ok(a) => final(self).cw721_address matches Some(c) && c@ == a
                            && *final(self) == EventState { cw721_address: final(self).cw721_address, ..*old(self) }
                            && attrs_only(r, seq![("action"@, "instantiate_cw721_reply"@)]),
                        Err(_) => r == Err::<Response<EventMsg>, ContractError>(ContractError::InstantiateCw721Error {}) && *final(self) == *old(self),
                    },
                    _ => r == Err::<Response<EventMsg>, ContractError>(ContractError::InstantiateCw721Error {}) && *final(self) == *old(self),
                }
            },
    {
        if msg.id != INSTANTIATE_CW721_REPLY_ID {
            return Err(ContractError::InvalidReplyID {});
        }
        let parsed = parse_reply_instantiate_data(msg);
        self.record_cw721_address(parsed)
    }

    /// Records the address that decoding the reply to the instantiation of the
    /// CW721 contract gave; a failed decoding is an `InstantiateCw721Error`.
    pub fn record_cw721_address(&mut self, parsed: Result<String, ParseReplyError>) -> (r: Result<Response<EventMsg>, ContractError>)
        ensures
            match parsed {
                Ok(a) => final(self).cw721_address == Some(a)
                    && *final(self) == EventState { cw721_address: Some(a), ..*old(self) }
                    && attrs_only(r, seq![("action"@, "instantiate_cw721_reply"@)]),
                Err(_) => r == Err::<Response<EventMsg>, ContractError>(ContractError::InstantiateCw721Error {}) && *final(self) == *old(self),
            },
    {
        match parsed {
            Ok(a) => {
                self.cw721_address = Some(a);
                let mut resp: Response<EventMsg> = Response::new();
                resp.add_attribute("action", "instantiate_cw721_reply");
                proof {
                    assert(attrs_view(resp.attributes@) =~= seq![("action"@, "instantiate_cw721_reply"@)]);
                }
                Ok(resp)
            },
            Err(_) => Err(ContractError::InstantiateCw721Error {}),
        }
    }
}

} // verus!

verus! {

/// Every address holds at most the limit of POAPs per address.
pub open spec fn within_limit(st: EventState) -> bool {
    forall|u: Seq<char>| #[trigger] minted_amount(st.minted@, u) <= st.config.per_address_limit
}

/// No address ever gets more POAPs than the limit per address: every message
/// keeps the minted amounts within it.
pub proof fn law_per_address_limit(old: EventState, new: EventState, env: Env, info: MessageInfo, msg: ExecuteMsg,
    addr: Option<Result<String, StdError>>, r: Result<Response<EventMsg>, ContractError>)
    requires
        within_limit(old),
        execute_post(old, new, env, info, msg, addr, r),
    ensures
        within_limit(new),
{
    assert forall|u: Seq<char>| #[trigger] minted_amount(new.minted@, u) <= new.config.per_address_limit by {
        assert(minted_amount(old.minted@, u) <= old.config.per_address_limit);
        match msg {
            ExecuteMsg::Mint {} => {
                if mint_check(old, env.block_time, info.sender@, info.sender, false, false) is Ok && old.cw721_address is Some {
                    assert(minted_amount(old.minted@, info.sender@) < old.config.per_address_limit);
                }
            },
            ExecuteMsg::MintTo { .. } => {
                if let Some(Ok(a)) = addr {
                    if mint_check(old, env.block_time, info.sender@, a, true, true) is Ok && old.cw721_address is Some {
                        assert(minted_amount(old.minted@, a@) < old.config.per_address_limit);
                    }
                }
            },
            _ => {},
        }
    }
}

} // verus!
