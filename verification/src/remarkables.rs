//! The Remarkables contract: authors of posts of a subspace mint an NFT of a
//! rarity level for a post once its reactions from others reach the threshold
//! of that level and the mint fee of the level is paid.
use vstd::prelude::*;
use vstd::string::*;
use crate::coins::{Coin, CoinV, StdError, coins_view, clone_coins, coins_equal, has_coins, covers};
use crate::chain::{Response, MessageInfo, Env, Reply, ParseReplyError, attrs_view};
use crate::outside::{url_scheme, parse_url_scheme, instantiate_response_parse, parse_reply_instantiate_data};
use crate::text::{str_eq, decimal, u128_to_decimal};

verus! {

/// The id of the reply to the instantiation of the CW721 contract.
pub const INSTANTIATE_CW721_REPLY_ID: u64 = 1;

/// The errors of the Remarkables contract.
#[derive(Debug, PartialEq, Eq)]
pub enum ContractError {
    Std(StdError),
    InvalidRemarkablesUri {},
    NotSubspaceOwner { caller: String },
    InvalidReplyID {},
    InstantiateCw721Error {},
    NotAdmin { caller: String },
    RarityNotExists { level: u32 },
    MintFeesNotEnough {},
    NoEligibilityError {},
    NewMintFeesEqualToCurrent {},
    PostNotFound { id: u64 },
    SubspaceNotFound { id: u64 },
    InvalidPostId {},
    InvalidSubspaceId {},
    EmptyRarities {},
    InvalidCw721CodeId {},
    MinterNotPostAuthor { minter: String, author: String },
    TokenHasBeenMinted { token_id: String },
}

/// A rarity level: the reactions that a post needs and the fee of a mint.
#[derive(Debug, PartialEq, Eq)]
pub struct Rarity {
    pub engagement_threshold: u32,
    pub mint_fees: Vec<Coin>,
}

impl Rarity {
    /// A copy of this rarity.
    pub fn duplicate(&self) -> (r: Rarity)
        ensures
            r.engagement_threshold == self.engagement_threshold,
            coins_view(r.mint_fees@) == coins_view(self.mint_fees@),
    {
        Rarity { engagement_threshold: self.engagement_threshold, mint_fees: clone_coins(self.mint_fees.as_slice()) }
    }
}

/// The message that instantiates the CW721 contract.
pub struct Cw721InstantiateMsg {
    pub name: String,
    pub symbol: String,
    pub minter: String,
}

/// The message that instantiates the contract.
pub struct InstantiateMsg {
    pub admin: String,
    pub cw721_code_id: u64,
    pub cw721_instantiate_msg: Cw721InstantiateMsg,
    pub subspace_id: u64,
    pub rarities: Vec<Rarity>,
}

/// The messages that the contract executes.
pub enum ExecuteMsg {
    /// The author of a post mints the Remarkable of a rarity level for it.
    Mint { post_id: u64, remarkables_uri: String, rarity_level: u32 },
    /// The admin changes the mint fee of a rarity level.
    UpdateRarityMintFees { rarity_level: u32, new_fees: Vec<Coin> },
    /// The admin hands the admin rights on.
    UpdateAdmin { new_admin: String },
}

/// The configuration of the contract.
pub struct ConfigState {
    pub admin: String,
    pub subspace_id: u64,
    pub cw721_code_id: u64,
}

/// The state of the contract.
pub struct RemarkablesState {
    pub config: ConfigState,
    pub rarities: Vec<Rarity>,
    /// The address of the CW721 contract, once it was instantiated.
    pub cw721_address: Option<String>,
    /// The ids of the tokens minted so far.
    pub minted: Vec<String>,
}

/// The messages that the contract sends to other contracts.
#[derive(Debug, PartialEq, Eq)]
pub enum RemarkablesMsg {
    /// Instantiates the CW721 contract that holds the Remarkables.
    InstantiateCw721 { code_id: u64, name: String, symbol: String, minter: String, funds: Vec<Coin>, label: String },
    /// Mints a Remarkable on the CW721 contract at `contract`.
    MintRemarkable { contract: String, token_id: String, owner: String, token_uri: String,
        rarity_level: u32, subspace_id: u64, post_id: u64 },
}

/// The id of the token of a post at a rarity level: `<post id>-<rarity level>`.
pub open spec fn token_id_text(post_id: u64, rarity_level: u32) -> Seq<char> {
    decimal(post_id as nat) + "-"@ + decimal(rarity_level as nat)
}

/// Returns the token id as "<post-id>-<rarity-level>".
pub fn convert_post_id_to_token_id(post_id: u64, rarity_level: u32) -> (s: String)
    ensures
        s@ == token_id_text(post_id, rarity_level),
{
    let mut s = u128_to_decimal(post_id as u128);
    let level = u128_to_decimal(rarity_level as u128);
    proof { reveal_strlit("-"); }
    s.append("-");
    s.append(level.as_str());
    s
}

/// The funds cover every required coin.
pub open spec fn enough_fees(funds: Seq<CoinV>, required: Seq<CoinV>) -> bool {
    forall|j: int| 0 <= j < required.len() ==> covers(funds, #[trigger] required[j])
}

/// Checks that the funds reach every required fee.
pub fn is_enough_fees(funds: &[Coin], requireds: &[Coin]) -> (r: bool)
    ensures
        r == enough_fees(coins_view(funds@), coins_view(requireds@)),
{
    let ghost req = coins_view(requireds@);
    let mut j: usize = 0;
    while j < requireds.len()
        invariant
            j <= requireds@.len(),
            req == coins_view(requireds@),
            forall|q: int| 0 <= q < j ==> covers(coins_view(funds@), #[trigger] req[q]),
        decreases requireds.len() - j,
    {
        if !has_coins(funds, &requireds[j]) {
            assert(!covers(coins_view(funds@), req[j as int]));
            return false;
        }
        j = j + 1;
    }
    true
}

/// What the chain answers about a post: its author (`None` when the post
/// query failed), and the number of its reactions and of those of the sender,
/// as the paginated reaction queries count them (`None` when they give no
/// total).
pub struct PostFacts {
    pub author: Option<String>,
    pub total_reactions: Result<Option<u64>, StdError>,
    pub self_reactions: Result<Option<u64>, StdError>,
}

/// The count of a reaction query, zero when it gives none.
pub open spec fn count_of(q: Option<u64>) -> u64 {
    match q { Some(n) => n, None => 0 }
}

/// The result of checking that `sender` may mint for a post with `threshold`.
pub open spec fn eligibility(facts: PostFacts, sender: String, post_id: u64, threshold: u32) -> Result<(), ContractError> {
    match facts.author {
        None => Err(ContractError::PostNotFound { id: post_id }),
        Some(author) => if author@ != sender@ {
            Err(ContractError::MinterNotPostAuthor { minter: sender, author })
        } else {
            match facts.total_reactions {
                Err(e) => Err(ContractError::Std(e)),
                Ok(t) => match facts.self_reactions {
                    Err(e) => Err(ContractError::Std(e)),
                    Ok(o) => if count_of(t) < count_of(o) {
                        Err(ContractError::Std(StdError::SubOverflow { operand1: count_of(t) as u128, operand2: count_of(o) as u128 }))
                    } else if threshold > count_of(t) - count_of(o) {
                        Err(ContractError::NoEligibilityError {})
                    } else {
                        Ok(())
                    },
                },
            }
        },
    }
}

/// Checks that the sender wrote the post and that the reactions of others to
/// it reach the threshold.
pub fn check_eligibility(facts: PostFacts, sender: &String, post_id: u64, engagement_threshold: u32)
    -> (r: Result<(), ContractError>)
    ensures
        r == eligibility(facts, *sender, post_id, engagement_threshold),
{
    let author = match facts.author {
        Some(a) => a,
        None => return Err(ContractError::PostNotFound { id: post_id }),
    };
    if !(author == *sender) {
        return Err(ContractError::MinterNotPostAuthor { minter: sender.clone(), author });
    }
    let total = match facts.total_reactions {
        Ok(t) => match t { Some(n) => n, None => 0 },
        Err(e) => return Err(ContractError::Std(e)),
    };
    let own = match facts.self_reactions {
        Ok(t) => match t { Some(n) => n, None => 0 },
        Err(e) => return Err(ContractError::Std(e)),
    };
    if total < own {
        return Err(ContractError::Std(StdError::SubOverflow { operand1: total as u128, operand2: own as u128 }));
    }
    if engagement_threshold as u64 > total - own {
        return Err(ContractError::NoEligibilityError {});
    }
    Ok(())
}

} // verus!

verus! {

/// What `InstantiateMsg::validate` answers.
pub open spec fn instantiate_check(msg: InstantiateMsg) -> Result<(), ContractError> {
    if msg.subspace_id == 0 {
        Err(ContractError::InvalidSubspaceId {})
    } else if msg.cw721_code_id == 0 {
        Err(ContractError::InvalidCw721CodeId {})
    } else if msg.rarities@.len() == 0 {
        Err(ContractError::EmptyRarities {})
    } else {
        Ok(())
    }
}

impl InstantiateMsg {
    /// Checks that the subspace and the CW721 code are set and that there is at
    /// least one rarity; addresses are not checked here.
    pub fn validate(&self) -> (r: Result<(), ContractError>)
        ensures
            r == instantiate_check(*self),
    {
        if self.subspace_id == 0 {
            return Err(ContractError::InvalidSubspaceId {});
        }
        if self.cw721_code_id == 0 {
            return Err(ContractError::InvalidCw721CodeId {});
        }
        if self.rarities.len() == 0 {
            return Err(ContractError::EmptyRarities {});
        }
        Ok(())
    }
}

/// What `ExecuteMsg::validate` answers, given the scheme that URL parsing
/// finds in the URI of a mint.
pub open spec fn execute_check(msg: ExecuteMsg, scheme: Option<Seq<char>>) -> Result<(), ContractError> {
    match msg {
        ExecuteMsg::Mint { post_id, .. } => if post_id == 0 {
            Err(ContractError::InvalidPostId {})
        } else if scheme != Some("ipfs"@) {
            Err(ContractError::InvalidRemarkablesUri {})
        } else {
            Ok(())
        },
        _ => Ok(()),
    }
}

/// The scheme that URL parsing finds in the URI of a mint.
pub open spec fn uri_scheme(msg: ExecuteMsg) -> Option<Seq<char>> {
    match msg {
        ExecuteMsg::Mint { remarkables_uri, .. } => url_scheme(remarkables_uri@),
        _ => None,
    }
}

impl ExecuteMsg {
    /// Checks the message given the scheme that URL parsing found in the URI of
    /// a mint (`None` when it is no URL): a mint needs a post and an IPFS URI.
    pub fn validate_with_scheme(&self, scheme: Option<String>) -> (r: Result<(), ContractError>)
        ensures
            r == execute_check(*self, match scheme { Some(s) => Some(s@), None => None }),
    {
        match self {
            ExecuteMsg::Mint { post_id, .. } => {
                if *post_id == 0 {
                    return Err(ContractError::InvalidPostId {});
                }
                proof { reveal_strlit("ipfs"); }
                match scheme {
                    Some(s) => if !str_eq(s.as_str(), "ipfs") {
                        return Err(ContractError::InvalidRemarkablesUri {});
                    },
                    None => return Err(ContractError::InvalidRemarkablesUri {}),
                }
                Ok(())
            },
            _ => Ok(()),
        }
    }

    /// Checks that the data of the message are coherent; addresses are not
    /// checked here.
    pub fn validate(&self) -> (r: Result<(), ContractError>)
        ensures
            r == execute_check(*self, uri_scheme(*self)),
    {
        let scheme = match self {
            ExecuteMsg::Mint { remarkables_uri, .. } => parse_url_scheme(remarkables_uri.as_str()),
            _ => None,
        };
        self.validate_with_scheme(scheme)
    }
}

/// Instantiates the contract. `admin` is the validation of the admin address
/// and `subspace_owner` the owner of the subspace (`None` when the subspace
/// query failed); only that owner may instantiate. The answer asks the chain to
/// instantiate the CW721 contract with this contract as its minter.
pub fn instantiate(env: &Env, info: &MessageInfo, msg: InstantiateMsg, admin: Result<String, StdError>,
    subspace_owner: Option<String>) -> (r: Result<(RemarkablesState, Response<RemarkablesMsg>), ContractError>)
    ensures
        if instantiate_check(msg) is Err {
            r == Err::<(RemarkablesState, Response<RemarkablesMsg>), ContractError>(instantiate_check(msg)->Err_0)
        } else if admin is Err {
            r == Err::<(RemarkablesState, Response<RemarkablesMsg>), ContractError>(ContractError::Std(admin->Err_0))
        } else if subspace_owner is None {
            r == Err::<(RemarkablesState, Response<RemarkablesMsg>), ContractError>(ContractError::SubspaceNotFound { id: msg.subspace_id })
        } else if subspace_owner->Some_0@ != info.sender@ {
            r == Err::<(RemarkablesState, Response<RemarkablesMsg>), ContractError>(ContractError::NotSubspaceOwner { caller: info.sender })
        } else {
            r matches Ok((st, resp)) && {
                &&& st.config == ConfigState { admin: admin->Ok_0, subspace_id: msg.subspace_id, cw721_code_id: msg.cw721_code_id }
                &&& st.rarities == msg.rarities && st.cw721_address is None && st.minted@.len() == 0
                &&& attrs_view(resp.attributes@) == seq![("action"@, "instantiate"@), ("sender"@, info.sender@),
                    ("admin"@, msg.admin@), ("cw721_code_id"@, decimal(msg.cw721_code_id as nat))]
                &&& resp.messages@.len() == 1
                &&& resp.messages@[0] matches RemarkablesMsg::InstantiateCw721 { code_id, name, symbol, minter, funds, label }
                &&& code_id == msg.cw721_code_id && name == msg.cw721_instantiate_msg.name
                &&& symbol == msg.cw721_instantiate_msg.symbol && minter@ == env.contract_address@
                &&& coins_view(funds@) == coins_view(info.funds@) && label@ == "remarkables_cw721"@
            }
        },
{
    match msg.validate() {
        Ok(()) => {},
        Err(e) => return Err(e),
    }
    let admin = match admin { Ok(a) => a, Err(e) => return Err(ContractError::Std(e)) };
    let owner = match subspace_owner {
        Some(o) => o,
        None => return Err(ContractError::SubspaceNotFound { id: msg.subspace_id }),
    };
    if !(info.sender == owner) {
        return Err(ContractError::NotSubspaceOwner { caller: info.sender.clone() });
    }
    let InstantiateMsg { admin: admin_text, cw721_code_id, cw721_instantiate_msg, subspace_id, rarities } = msg;
    let code_text = u128_to_decimal(cw721_code_id as u128);
    let mut resp: Response<RemarkablesMsg> = Response::new();
    resp.add_attribute("action", "instantiate");
    resp.add_attribute("sender", info.sender.as_str());
    resp.add_attribute("admin", admin_text.as_str());
    resp.add_attribute("cw721_code_id", code_text.as_str());
    resp.add_message(RemarkablesMsg::InstantiateCw721 {
        code_id: cw721_code_id,
        name: cw721_instantiate_msg.name,
        symbol: cw721_instantiate_msg.symbol,
        minter: env.contract_address.clone(),
        funds: clone_coins(info.funds.as_slice()),
        label: String::from_str("remarkables_cw721"),
    });
    proof {
        reveal_strlit("remarkables_cw721");
        assert(attrs_view(resp.attributes@) =~= seq![("action"@, "instantiate"@), ("sender"@, info.sender@),
            ("admin"@, admin_text@), ("cw721_code_id"@, decimal(cw721_code_id as nat))]);
    }
    let st = RemarkablesState {
        config: ConfigState { admin, subspace_id, cw721_code_id },
        rarities,
        cw721_address: None,
        minted: Vec::new(),
    };
    Ok((st, resp))
}

} // verus!

verus! {

/// The kind of the storage error that reading a missing address gives.
pub open spec fn addr_not_found(e: StdError) -> bool {
    e matches StdError::NotFound { kind } && kind@ == "cosmwasm_std::addresses::Addr"@
}

fn addr_not_found_error() -> (e: StdError)
    ensures
        addr_not_found(e),
{
    StdError::NotFound { kind: String::from_str("cosmwasm_std::addresses::Addr") }
}

/// A token with the given id has been minted.
pub open spec fn is_minted(minted: Seq<String>, token_id: Seq<char>) -> bool {
    exists|i: int| 0 <= i < minted.len() && (#[trigger] minted[i])@ == token_id
}

/// The answer to a handler that only records attributes.
pub open spec fn attrs_only(r: Result<Response<RemarkablesMsg>, ContractError>, attrs: Seq<(Seq<char>, Seq<char>)>) -> bool {
    r matches Ok(resp) && attrs_view(resp.attributes@) == attrs && resp.messages@.len() == 0
}

/// What minting a Remarkable does.
pub open spec fn mint_post(old: RemarkablesState, new: RemarkablesState, info: MessageInfo, rarity_level: u32,
    post_id: u64, uri: String, facts: PostFacts, r: Result<Response<RemarkablesMsg>, ContractError>) -> bool {
    let id = token_id_text(post_id, rarity_level);
    if rarity_level >= old.rarities@.len() {
        r == Err::<Response<RemarkablesMsg>, ContractError>(ContractError::RarityNotExists { level: rarity_level }) && new == old
    } else {
        let rarity = old.rarities@[rarity_level as int];
        if !enough_fees(coins_view(info.funds@), coins_view(rarity.mint_fees@)) {
            r == Err::<Response<RemarkablesMsg>, ContractError>(ContractError::MintFeesNotEnough {}) && new == old
        } else if eligibility(facts, info.sender, post_id, rarity.engagement_threshold) is Err {
            r == Err::<Response<RemarkablesMsg>, ContractError>(eligibility(facts, info.sender, post_id, rarity.engagement_threshold)->Err_0)
                && new == old
        } else if is_minted(old.minted@, id) {
            r matches Err(ContractError::TokenHasBeenMinted { token_id }) && token_id@ == id && new == old
        } else {
            match old.cw721_address {
                None => r matches Err(ContractError::Std(e)) && addr_not_found(e) && new == old,
                Some(contract) => {
                    &&& r matches Ok(resp)
                    &&& attrs_view(resp.attributes@) == seq![("action"@, "mint"@), ("sender"@, info.sender@),
                        ("rarity_level"@, decimal(rarity_level as nat)), ("token_id"@, id),
                        ("recipient"@, info.sender@), ("token_uri"@, uri@)]
                    &&& resp.messages@.len() == 1
                    &&& resp.messages@[0] matches RemarkablesMsg::MintRemarkable { contract: c, token_id, owner, token_uri,
                        rarity_level: lv, subspace_id, post_id: p }
                    &&& c@ == contract@ && token_id@ == id && owner@ == info.sender@ && token_uri@ == uri@
                    &&& lv == rarity_level && subspace_id == old.config.subspace_id && p == post_id
                    &&& new.minted@.len() == old.minted@.len() + 1 && new.minted@.last()@ == id
                    &&& new.minted@.drop_last() == old.minted@
                    &&& new.config == old.config && new.rarities == old.rarities && new.cw721_address == old.cw721_address
                },
            }
        }
    }
}

impl RemarkablesState {
    /// Whether a token with id `token_id` has been minted.
    pub fn has_minted(&self, token_id: &String) -> (r: bool)
        ensures
            r == is_minted(self.minted@, token_id@),
    {
        let mut i: usize = 0;
        while i < self.minted.len()
            invariant
                i <= self.minted@.len(),
                forall|j: int| 0 <= j < i ==> (#[trigger] self.minted@[j])@ != token_id@,
            decreases self.minted.len() - i,
        {
            if self.minted[i] == *token_id {
                return true;
            }
            i = i + 1;
        }
        false
    }

    /// Mints the Remarkable of a post at a rarity level for its author, who
    /// pays the fee of the level; `facts` is what the chain answers about the
    /// post.
    pub fn execute_mint(&mut self, info: &MessageInfo, rarity_level: u32, post_id: u64, remarkables_uri: String,
        facts: PostFacts) -> (r: Result<Response<RemarkablesMsg>, ContractError>)
        ensures
            mint_post(*old(self), *final(self), *info, rarity_level, post_id, remarkables_uri, facts, r),
    {
        if rarity_level as usize >= self.rarities.len() {
            return Err(ContractError::RarityNotExists { level: rarity_level });
        }
        let level = rarity_level as usize;
        if !is_enough_fees(info.funds.as_slice(), self.rarities[level].mint_fees.as_slice()) {
            return Err(ContractError::MintFeesNotEnough {});
        }
        match check_eligibility(facts, &info.sender, post_id, self.rarities[level].engagement_threshold) {
            Ok(()) => {},
            Err(e) => return Err(e),
        }
        let token_id = convert_post_id_to_token_id(post_id, rarity_level);
        if self.has_minted(&token_id) {
            return Err(ContractError::TokenHasBeenMinted { token_id });
        }
        let contract = match &self.cw721_address {
            Some(a) => a.clone(),
            None => return Err(ContractError::Std(addr_not_found_error())),
        };
        self.minted.push(token_id.clone());
        let level_text = u128_to_decimal(rarity_level as u128);
        let mut resp: Response<RemarkablesMsg> = Response::new();
        resp.add_attribute("action", "mint");
        resp.add_attribute("sender", info.sender.as_str());
        resp.add_attribute("rarity_level", level_text.as_str());
        resp.add_attribute("token_id", token_id.as_str());
        resp.add_attribute("recipient", info.sender.as_str());
        resp.add_attribute("token_uri", remarkables_uri.as_str());
        resp.add_message(RemarkablesMsg::MintRemarkable {
            contract,
            token_id,
            owner: info.sender.clone(),
            token_uri: remarkables_uri,
            rarity_level,
            subspace_id: self.config.subspace_id,
            post_id,
        });
        proof {
            assert(self.minted@.drop_last() =~= old(self).minted@);
            assert(attrs_view(resp.attributes@) =~= seq![("action"@, "mint"@), ("sender"@, info.sender@),
                ("rarity_level"@, decimal(rarity_level as nat)), ("token_id"@, token_id_text(post_id, rarity_level)),
                ("recipient"@, info.sender@), ("token_uri"@, remarkables_uri@)]);
        }
        Ok(resp)
    }

    /// Checks that the sender is the admin.
    pub fn check_admin(&self, info: &MessageInfo) -> (r: Result<(), ContractError>)
        ensures
            if self.config.admin@ == info.sender@ { r is Ok } else {
                r == Err::<(), ContractError>(ContractError::NotAdmin { caller: info.sender })
            },
    {
        if !(self.config.admin == info.sender) {
            return Err(ContractError::NotAdmin { caller: info.sender.clone() });
        }
        Ok(())
    }

    /// Hands the admin rights to `new_admin`; only the admin may. `addr` is the
    /// validation of `new_admin`.
    pub fn execute_update_admin(&mut self, info: &MessageInfo, new_admin: &String, addr: Result<String, StdError>)
        -> (r: Result<Response<RemarkablesMsg>, ContractError>)
        ensures
            if old(self).config.admin@ != info.sender@ {
                r == Err::<Response<RemarkablesMsg>, ContractError>(ContractError::NotAdmin { caller: info.sender }) && *final(self) == *old(self)
            } else {
                match addr {
                    Err(e) => r == Err::<Response<RemarkablesMsg>, ContractError>(ContractError::Std(e)) && *final(self) == *old(self),
                    Ok(a) => *final(self) == RemarkablesState { config: ConfigState { admin: a, ..old(self).config }, ..*old(self) }
                        && attrs_only(r, seq![("action"@, "update_admin"@), ("sender"@, info.sender@),
                            ("admin"@, info.sender@), ("new_admin"@, new_admin@)]),
                }
            },
    {
        match self.check_admin(info) {
            Ok(()) => {},
            Err(e) => return Err(e),
        }
        let a = match addr { Ok(a) => a, Err(e) => return Err(ContractError::Std(e)) };
        self.config.admin = a;
        let mut resp: Response<RemarkablesMsg> = Response::new();
        resp.add_attribute("action", "update_admin");
        resp.add_attribute("sender", info.sender.as_str());
        resp.add_attribute("admin", info.sender.as_str());
        resp.add_attribute("new_admin", new_admin.as_str());
        proof {
            assert(attrs_view(resp.attributes@) =~= seq![("action"@, "update_admin"@), ("sender"@, info.sender@),
                ("admin"@, info.sender@), ("new_admin"@, new_admin@)]);
        }
        Ok(resp)
    }

    /// Sets the mint fee of a rarity level; only the admin may, and the fee must
    /// change.
    pub fn execute_update_rarity_mint_fees(&mut self, info: &MessageInfo, level: u32, new_fees: Vec<Coin>)
        -> (r: Result<Response<RemarkablesMsg>, ContractError>)
        ensures
            if old(self).config.admin@ != info.sender@ {
                r == Err::<Response<RemarkablesMsg>, ContractError>(ContractError::NotAdmin { caller: info.sender }) && *final(self) == *old(self)
            } else if level >= old(self).rarities@.len() {
                r == Err::<Response<RemarkablesMsg>, ContractError>(ContractError::RarityNotExists { level }) && *final(self) == *old(self)
            } else if coins_view(old(self).rarities@[level as int].mint_fees@) == coins_view(new_fees@) {
                r == Err::<Response<RemarkablesMsg>, ContractError>(ContractError::NewMintFeesEqualToCurrent {}) && *final(self) == *old(self)
            } else {
                &&& final(self).rarities@ == old(self).rarities@.update(level as int,
                    Rarity { mint_fees: new_fees, ..old(self).rarities@[level as int] })
                &&& final(self).config == old(self).config && final(self).minted == old(self).minted
                &&& final(self).cw721_address == old(self).cw721_address
                &&& attrs_only(r, seq![("action"@, "update_rarity_mint_fees"@), ("sender"@, info.sender@),
                    ("rarity_level"@, decimal(level as nat))])
            },
    {
        match self.check_admin(info) {
            Ok(()) => {},
            Err(e) => return Err(e),
        }
        if level as usize >= self.rarities.len() {
            return Err(ContractError::RarityNotExists { level });
        }
        let i = level as usize;
        if coins_equal(&self.rarities[i].mint_fees, &new_fees) {
            return Err(ContractError::NewMintFeesEqualToCurrent {});
        }
        let threshold = self.rarities[i].engagement_threshold;
        self.rarities.set(i, Rarity { engagement_threshold: threshold, mint_fees: new_fees });
        let level_text = u128_to_decimal(level as u128);
        let mut resp: Response<RemarkablesMsg> = Response::new();
        resp.add_attribute("action", "update_rarity_mint_fees");
        resp.add_attribute("sender", info.sender.as_str());
        resp.add_attribute("rarity_level", level_text.as_str());
        proof {
            assert(attrs_view(resp.attributes@) =~= seq![("action"@, "update_rarity_mint_fees"@), ("sender"@, info.sender@),
                ("rarity_level"@, decimal(level as nat))]);
        }
        Ok(resp)
    }
}

} // verus!

verus! {

/// What the chain answered for a message: the facts about the post of a mint,
/// or the validation of the new admin address.
pub enum ChainAnswer {
    Post(PostFacts),
    Address(Result<String, StdError>),
}

/// The answer fits the message: post facts for a mint, an address for
/// `UpdateAdmin`, and none otherwise.
pub open spec fn answer_fits(msg: ExecuteMsg, answer: Option<ChainAnswer>) -> bool {
    match msg {
        ExecuteMsg::Mint { .. } => answer matches Some(ChainAnswer::Post(_)),
        ExecuteMsg::UpdateAdmin { .. } => answer matches Some(ChainAnswer::Address(_)),
        _ => answer is None,
    }
}

impl RemarkablesState {
    /// Executes a message after checking it; `answer` is what the chain
    /// answered for it.
    pub fn execute(&mut self, info: &MessageInfo, msg: ExecuteMsg, answer: Option<ChainAnswer>)
        -> (r: Result<Response<RemarkablesMsg>, ContractError>)
        requires
            answer_fits(msg, answer),
        ensures
            execute_check(msg, uri_scheme(msg)) is Err ==>
                r == Err::<Response<RemarkablesMsg>, ContractError>(execute_check(msg, uri_scheme(msg))->Err_0) && *final(self) == *old(self),
            execute_check(msg, uri_scheme(msg)) is Ok ==> match msg {
                ExecuteMsg::Mint { post_id, remarkables_uri, rarity_level } => match answer {
                    Some(ChainAnswer::Post(facts)) =>
                        mint_post(*old(self), *final(self), *info, rarity_level, post_id, remarkables_uri, facts, r),
                    _ => false,
                },
                ExecuteMsg::UpdateAdmin { new_admin } => match answer {
                    Some(ChainAnswer::Address(addr)) => if old(self).config.admin@ != info.sender@ {
                        r == Err::<Response<RemarkablesMsg>, ContractError>(ContractError::NotAdmin { caller: info.sender }) && *final(self) == *old(self)
                    } else {
                        match addr {
                            Err(e) => r == Err::<Response<RemarkablesMsg>, ContractError>(ContractError::Std(e)) && *final(self) == *old(self),
                            Ok(a) => *final(self) == RemarkablesState { config: ConfigState { admin: a, ..old(self).config }, ..*old(self) }
                                && attrs_only(r, seq![("action"@, "update_admin"@), ("sender"@, info.sender@),
                                    ("admin"@, info.sender@), ("new_admin"@, new_admin@)]),
                        }
                    },
                    _ => false,
                },
                ExecuteMsg::UpdateRarityMintFees { rarity_level, new_fees } => if old(self).config.admin@ != info.sender@ {
                    r == Err::<Response<RemarkablesMsg>, ContractError>(ContractError::NotAdmin { caller: info.sender }) && *final(self) == *old(self)
                } else if rarity_level >= old(self).rarities@.len() {
                    r == Err::<Response<RemarkablesMsg>, ContractError>(ContractError::RarityNotExists { level: rarity_level }) && *final(self) == *old(self)
                } else if coins_view(old(self).rarities@[rarity_level as int].mint_fees@) == coins_view(new_fees@) {
                    r == Err::<Response<RemarkablesMsg>, ContractError>(ContractError::NewMintFeesEqualToCurrent {}) && *final(self) == *old(self)
                } else {
                    &&& final(self).rarities@ == old(self).rarities@.update(rarity_level as int,
                        Rarity { mint_fees: new_fees, ..old(self).rarities@[rarity_level as int] })
                    &&& final(self).config == old(self).config && final(self).minted == old(self).minted
                    &&& final(self).cw721_address == old(self).cw721_address
                    &&& attrs_only(r, seq![("action"@, "update_rarity_mint_fees"@), ("sender"@, info.sender@),
                        ("rarity_level"@, decimal(rarity_level as nat))])
                },
            },
    {
        match msg.validate() {
            Ok(()) => {},
            Err(e) => return Err(e),
        }
        match msg {
            ExecuteMsg::Mint { post_id, remarkables_uri, rarity_level } => match answer {
                Some(ChainAnswer::Post(facts)) => self.execute_mint(info, rarity_level, post_id, remarkables_uri, facts),
                _ => Err(ContractError::PostNotFound { id: post_id }),
            },
            ExecuteMsg::UpdateAdmin { new_admin } => match answer {
                Some(ChainAnswer::Address(addr)) => self.execute_update_admin(info, &new_admin, addr),
                _ => Err(ContractError::NotAdmin { caller: info.sender.clone() }),
            },
            ExecuteMsg::UpdateRarityMintFees { rarity_level, new_fees } =>
                self.execute_update_rarity_mint_fees(info, rarity_level, new_fees),
        }
    }
}

/// The answer to `QueryMsg::Config`.
pub struct QueryConfigResponse {
    pub admin: String,
    pub cw721_code_id: u64,
    pub cw721_address: String,
    pub subspace_id: u64,
}

/// The answer to `QueryMsg::Rarities`: the rarity levels with their thresholds
/// and fees.
pub struct QueryRaritiesResponse {
    pub rarities: Vec<Rarity>,
}

impl RemarkablesState {
    /// The configuration; fails while the CW721 contract is not known.
    pub fn query_config(&self) -> (r: Result<QueryConfigResponse, StdError>)
        ensures
            match self.cw721_address {
                None => r matches Err(e) && addr_not_found(e),
                Some(a) => r == Ok::<QueryConfigResponse, StdError>(QueryConfigResponse { admin: self.config.admin,
                    cw721_code_id: self.config.cw721_code_id, cw721_address: a, subspace_id: self.config.subspace_id }),
            },
    {
        let a = match &self.cw721_address {
            Some(a) => a.clone(),
            None => return Err(addr_not_found_error()),
        };
        Ok(QueryConfigResponse {
            admin: self.config.admin.clone(),
            cw721_code_id: self.config.cw721_code_id,
            cw721_address: a,
            subspace_id: self.config.subspace_id,
        })
    }

    /// The rarity levels, in order.
    pub fn query_rarities(&self) -> (r: QueryRaritiesResponse)
        ensures
            r.rarities@.len() == self.rarities@.len(),
            forall|i: int| 0 <= i < self.rarities@.len() ==> (#[trigger] r.rarities@[i]).engagement_threshold == self.rarities@[i].engagement_threshold
                && coins_view(r.rarities@[i].mint_fees@) == coins_view(self.rarities@[i].mint_fees@),
    {
        let mut out: Vec<Rarity> = Vec::new();
        let mut i: usize = 0;
        while i < self.rarities.len()
            invariant
                i <= self.rarities@.len(),
                out@.len() == i,
                forall|j: int| 0 <= j < i ==> (#[trigger] out@[j]).engagement_threshold == self.rarities@[j].engagement_threshold
                    && coins_view(out@[j].mint_fees@) == coins_view(self.rarities@[j].mint_fees@),
            decreases self.rarities.len() - i,
        {
            out.push(self.rarities[i].duplicate());
            i = i + 1;
        }
        QueryRaritiesResponse { rarities: out }
    }

    /// The address of the CW721 contract that the NFT queries are forwarded to.
    pub fn cw721_contract(&self) -> (r: Result<String, StdError>)
        ensures
            match self.cw721_address {
                None => r matches Err(e) && addr_not_found(e),
                Some(a) => r == Ok::<String, StdError>(a),
            },
    {
        match &self.cw721_address {
            Some(a) => Ok(a.clone()),
            None => Err(addr_not_found_error()),
        }
    }

    /// Records the address of the CW721 contract from the reply to its
    /// instantiation.
    pub fn reply(&mut self, msg: Reply) -> (r: Result<Response<RemarkablesMsg>, ContractError>)
        ensures
            if msg.id != INSTANTIATE_CW721_REPLY_ID {
                r == Err::<Response<RemarkablesMsg>, ContractError>(ContractError::InvalidReplyID {}) && *final(self) == *old(self)
            } else {
                match msg.result {
                    Ok(Some(data)) => match instantiate_response_parse(data@) {
                        Ok(a) => final(self).cw721_address matches Some(c) && c@ == a
                            && *final(self) == RemarkablesState { cw721_address: final(self).cw721_address, ..*old(self) }
                            && attrs_only(r, seq![("action"@, "instantiate_cw721_reply"@)]),
                        Err(_) => r == Err::<Response<RemarkablesMsg>, ContractError>(ContractError::InstantiateCw721Error {}) && *final(self) == *old(self),
                    },
                    _ => r == Err::<Response<RemarkablesMsg>, ContractError>(ContractError::InstantiateCw721Error {}) && *final(self) == *old(self),
                }
            },
    {
        if msg.id != INSTANTIATE_CW721_REPLY_ID {
            return Err(ContractError::InvalidReplyID {});
        }
        let parsed = parse_reply_instantiate_data(msg);
        self.record_cw721_address(parsed)
    }

    /// Records the address that decoding the reply to the instantiation of the
    /// CW721 contract gave; a failed decoding is an `InstantiateCw721Error`.
    pub fn record_cw721_address(&mut self, parsed: Result<String, ParseReplyError>) -> (r: Result<Response<RemarkablesMsg>, ContractError>)
        ensures
            match parsed {
                Ok(a) => final(self).cw721_address == Some(a)
                    && *final(self) == RemarkablesState { cw721_address: Some(a), ..*old(self) }
                    && attrs_only(r, seq![("action"@, "instantiate_cw721_reply"@)]),
                Err(_) => r == Err::<Response<RemarkablesMsg>, ContractError>(ContractError::InstantiateCw721Error {}) && *final(self) == *old(self),
            },
    {
        match parsed {
            Ok(a) => {
                self.cw721_address = Some(a);
                let mut resp: Response<RemarkablesMsg> = Response::new();
                resp.add_attribute("action", "instantiate_cw721_reply");
                proof {
                    assert(attrs_view(resp.attributes@) =~= seq![("action"@, "instantiate_cw721_reply"@)]);
                }
                Ok(resp)
            },
            Err(_) => Err(ContractError::InstantiateCw721Error {}),
        }
    }
}

} // verus!

verus! {

/// Different posts or rarity levels give different token ids: the id
/// `<post id>-<rarity level>` names one post at one level.
pub proof fn law_token_id_injective(post_a: u64, level_a: u32, post_b: u64, level_b: u32)
    requires
        post_a != post_b || level_a != level_b,
    ensures
        token_id_text(post_a, level_a) != token_id_text(post_b, level_b),
{
    let (pa, la, pb, lb) = (decimal(post_a as nat), decimal(level_a as nat), decimal(post_b as nat), decimal(level_b as nat));
    crate::text::lemma_decimal_digits(post_a as nat);
    crate::text::lemma_decimal_digits(level_a as nat);
    crate::text::lemma_decimal_digits(post_b as nat);
    crate::text::lemma_decimal_digits(level_b as nat);
    reveal_strlit("-");
    let ta = token_id_text(post_a, level_a);
    let tb = token_id_text(post_b, level_b);
    if ta == tb {
        if pa.len() < pb.len() {
            assert(ta[pa.len() as int] == '-');
            assert(tb[pa.len() as int] == pb[pa.len() as int]);
        } else if pb.len() < pa.len() {
            assert(tb[pb.len() as int] == '-');
            assert(ta[pb.len() as int] == pa[pb.len() as int]);
        } else {
            assert(pa =~= ta.subrange(0, pa.len() as int));
            assert(pb =~= tb.subrange(0, pb.len() as int));
            assert(la =~= ta.subrange(pa.len() as int + 1, ta.len() as int));
            assert(lb =~= tb.subrange(pb.len() as int + 1, tb.len() as int));
            if post_a != post_b {
                crate::poap::lemma_decimal_injective(post_a as nat, post_b as nat);
            } else {
                crate::poap::lemma_decimal_injective(level_a as nat, level_b as nat);
            }
        }
    }
}

/// No token id occurs twice.
pub open spec fn minted_unique(minted: Seq<String>) -> bool {
    forall|i: int, j: int| 0 <= i < j < minted.len() ==> (#[trigger] minted[i])@ != (#[trigger] minted[j])@
}

/// Each Remarkable is minted once at most: a mint keeps the minted token ids
/// free of repeats.
pub proof fn law_minted_once(old: RemarkablesState, new: RemarkablesState, info: MessageInfo, rarity_level: u32,
    post_id: u64, uri: String, facts: PostFacts, r: Result<Response<RemarkablesMsg>, ContractError>)
    requires
        minted_unique(old.minted@),
        mint_post(old, new, info, rarity_level, post_id, uri, facts, r),
    ensures
        minted_unique(new.minted@),
{
    if new.minted@.len() == old.minted@.len() + 1 && r is Ok {
        let id = token_id_text(post_id, rarity_level);
        assert forall|i: int, j: int| 0 <= i < j < new.minted@.len() implies (#[trigger] new.minted@[i])@ != (#[trigger] new.minted@[j])@ by {
            assert(new.minted@[i] == old.minted@[i]);
            if j < old.minted@.len() {
                assert(new.minted@[j] == old.minted@[j]);
            } else {
                assert(new.minted@[j]@ == id);
                assert(!is_minted(old.minted@, id));
            }
        }
    }
}

} // verus!
