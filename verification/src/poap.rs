//! The POAP contract: an NFT collection where each user may hold one POAP,
//! minted by the user while minting is open, or by the minter or the admin.
//! Transfers, sends, approvals and burns are handed to the CW721 base contract
//! once the POAP rules allow them.
use vstd::prelude::*;
use vstd::string::*;
use crate::coins::StdError;
use crate::chain::{Response, MessageInfo, Env, attrs_view};
use crate::text::{decimal, u128_to_decimal, timestamp_text, timestamp_to_string};

verus! {

/// The errors of the ownership of the contract.
#[derive(Debug, PartialEq, Eq)]
pub enum OwnershipError {
    /// Nobody owns the contract.
    NoOwner,
    /// The caller is not the owner.
    NotOwner,
}

/// The errors of the POAP contract.
#[derive(Debug, PartialEq, Eq)]
pub enum ContractError {
    Std(StdError),
    Ownership(OwnershipError),
    Claimed {},
    TransferDisabled {},
    MintDisabled {},
    MintUnauthorized {},
    EventNotStarted {},
    EventTerminated {},
    InvalidTimestampValues {},
    PoapAlreadyMinted { user: String },
}

/// A token of the collection: its id, owner, URI and the extension it was
/// minted with.
pub struct NftToken<T> {
    pub token_id: String,
    pub owner: String,
    pub token_uri: Option<String>,
    pub extension: T,
}

/// The id, owner and URI of a token.
pub type TokenV = (Seq<char>, Seq<char>, Option<Seq<char>>);

/// The id, owner and URI of a token, as values.
pub open spec fn token_view<T>(x: NftToken<T>) -> TokenV {
    (x.token_id@, x.owner@, match x.token_uri { Some(u) => Some(u@), None => None })
}

/// The ids, owners and URIs of the tokens.
pub open spec fn tokens_view<T>(t: Seq<NftToken<T>>) -> Seq<TokenV> {
    t.map_values(|x: NftToken<T>| token_view(x))
}

/// The extensions of the tokens, in the order of the tokens.
pub open spec fn extensions<T>(t: Seq<NftToken<T>>) -> Seq<T> {
    t.map_values(|x: NftToken<T>| x.extension)
}

/// The state of a POAP contract.
pub struct PoapContract<T> {
    /// The owner (admin) of the contract.
    pub owner: Option<String>,
    /// The URI of the metadata of the POAPs.
    pub metadata_uri: String,
    /// An address that may mint for other users.
    pub minter: Option<String>,
    /// Whether POAPs may change hands.
    pub is_transferable: bool,
    /// Whether users may mint their POAP.
    pub is_mintable: bool,
    /// When users may start minting, in nanoseconds; `None` means always.
    pub mint_start_time: Option<u64>,
    /// When users may no longer mint, in nanoseconds; `None` means never.
    pub mint_end_time: Option<u64>,
    /// The tokens of the collection.
    pub tokens: Vec<NftToken<T>>,
    /// The number of tokens of the collection.
    pub token_count: u64,
}

/// The message that instantiates the contract.
pub struct InstantiateMsg {
    pub name: String,
    pub symbol: String,
    /// The admin; `None` makes the sender the admin.
    pub admin: Option<String>,
    pub metadata_uri: String,
    pub minter: Option<String>,
    pub is_transferable: bool,
    pub is_mintable: bool,
    pub mint_start_time: Option<u64>,
    pub mint_end_time: Option<u64>,
}

/// The messages that the contract executes.
pub enum ExecuteMsg<T> {
    TransferNft { recipient: String, token_id: String },
    SendNft { contract: String, token_id: String, msg: Vec<u8> },
    Approve { spender: String, token_id: String },
    Revoke { spender: String, token_id: String },
    ApproveAll { operator: String },
    RevokeAll { operator: String },
    /// Mints a POAP for the sender, with the given extension.
    Mint { extension: T },
    /// Mints a POAP for each of the users, each with a clone of the extension;
    /// only the minter or the admin may.
    MintTo { users: Vec<String>, extension: T },
    Burn { token_id: String },
    UpdateMinter { minter: Option<String> },
    SetMintable { mintable: bool },
    SetTransferable { transferable: bool },
    SetMintStartEndTime { start_time: Option<u64>, end_time: Option<u64> },
    /// A message for the extension of the CW721 base contract.
    Extension {},
}

/// What executing a message leads to: a response of the POAP contract, or the
/// message handed on to the CW721 base contract.
pub enum Outcome {
    Respond(Response<()>),
    Forward,
}

/// The start lies at or after the end.
pub open spec fn bad_time_window(start: Option<u64>, end: Option<u64>) -> bool {
    match (start, end) {
        (Some(s), Some(e)) => s >= e,
        _ => false,
    }
}

/// Some token is owned by `user`.
pub open spec fn owns_token(tokens: Seq<TokenV>, user: Seq<char>) -> bool {
    exists|i: int| 0 <= i < tokens.len() && (#[trigger] tokens[i]).1 == user
}

/// Some token has id `id`.
pub open spec fn has_token(tokens: Seq<TokenV>, id: Seq<char>) -> bool {
    exists|i: int| 0 <= i < tokens.len() && (#[trigger] tokens[i]).0 == id
}

/// The result of checking that `sender` owns the contract.
pub open spec fn admin_check(owner: Option<String>, sender: Seq<char>) -> Result<(), ContractError> {
    match owner {
        None => Err(ContractError::Ownership(OwnershipError::NoOwner)),
        Some(o) => if o@ == sender { Ok(()) } else { Err(ContractError::Ownership(OwnershipError::NotOwner)) },
    }
}

/// The sender is the minter.
pub open spec fn is_minter(minter: Option<String>, sender: Seq<char>) -> bool {
    match minter {
        Some(m) => m@ == sender,
        None => false,
    }
}

/// The result of checking that `user` may mint a POAP at time `now`.
pub open spec fn can_mint_check<T>(c: PoapContract<T>, user: Seq<char>, now: u64) -> Result<(), ContractError> {
    if owns_token(tokens_view(c.tokens@), user) {
        Err(ContractError::PoapAlreadyMinted { user: arbitrary() })
    } else if is_minter(c.minter, user) || admin_check(c.owner, user) is Ok {
        Ok(())
    } else if !c.is_mintable {
        Err(ContractError::MintDisabled {})
    } else if c.mint_start_time matches Some(s) && s > now {
        Err(ContractError::EventNotStarted {})
    } else if c.mint_end_time matches Some(e) && now >= e {
        Err(ContractError::EventTerminated {})
    } else {
        Ok(())
    }
}

/// The error of `r` is the one that `expected` names; a `PoapAlreadyMinted`
/// error names `user`.
pub open spec fn same_error(r: Result<(), ContractError>, expected: Result<(), ContractError>, user: Seq<char>) -> bool {
    match expected {
        Ok(()) => r is Ok,
        Err(ContractError::PoapAlreadyMinted { .. }) => r matches Err(ContractError::PoapAlreadyMinted { user: u }) && u@ == user,
        Err(e) => r == Err::<(), ContractError>(e),
    }
}

impl<T> PoapContract<T> {
    /// Checks that `sender` owns the contract.
    pub fn assert_is_admin(&self, sender: &String) -> (r: Result<(), ContractError>)
        ensures
            r == admin_check(self.owner, sender@),
    {
        match &self.owner {
            None => Err(ContractError::Ownership(OwnershipError::NoOwner)),
            Some(o) => if *o == *sender { Ok(()) } else { Err(ContractError::Ownership(OwnershipError::NotOwner)) },
        }
    }

    /// Checks that `sender` is the minter.
    pub fn assert_is_minter(&self, sender: &String) -> (r: Result<(), ContractError>)
        ensures
            r is Ok <==> is_minter(self.minter, sender@),
            r is Err ==> r == Err::<(), ContractError>(ContractError::MintUnauthorized {}),
    {
        match &self.minter {
            Some(m) => if *m == *sender { Ok(()) } else { Err(ContractError::MintUnauthorized {}) },
            None => Err(ContractError::MintUnauthorized {}),
        }
    }

    /// Checks that `user` owns no POAP.
    pub fn assert_user_dont_own_a_poap(&self, user: &String) -> (r: Result<(), ContractError>)
        ensures
            r is Ok <==> !owns_token(tokens_view(self.tokens@), user@),
            r matches Err(e) ==> (e matches ContractError::PoapAlreadyMinted { user: u } && u@ == user@),
    {
        let ghost tv = tokens_view(self.tokens@);
        let mut i: usize = 0;
        while i < self.tokens.len()
            invariant
                i <= self.tokens.len(),
                tv == tokens_view(self.tokens@),
                forall|j: int| 0 <= j < i ==> (#[trigger] tv[j]).1 != user@,
            decreases self.tokens.len() - i,
        {
            if self.tokens[i].owner == *user {
                assert(tv[i as int].1 == user@);
                return Err(ContractError::PoapAlreadyMinted { user: user.clone() });
            }
            i = i + 1;
        }
        Ok(())
    }

    /// Checks that `user` may mint a POAP now: users hold one POAP at most; the
    /// minter and the admin may always mint; others only while minting is
    /// enabled and inside the minting window.
    pub fn assert_user_can_mint(&self, user: &String, env: &Env) -> (r: Result<(), ContractError>)
        ensures
            same_error(r, can_mint_check(*self, user@, env.block_time), user@),
    {
        match self.assert_user_dont_own_a_poap(user) {
            Ok(()) => {},
            Err(e) => return Err(e),
        }
        if self.assert_is_minter(user).is_ok() {
            return Ok(());
        }
        if self.assert_is_admin(user).is_ok() {
            return Ok(());
        }
        if !self.is_mintable {
            return Err(ContractError::MintDisabled {});
        }
        match self.mint_start_time {
            Some(start) => if start > env.block_time {
                return Err(ContractError::EventNotStarted {});
            },
            None => {},
        }
        match self.mint_end_time {
            Some(end) => if env.block_time >= end {
                return Err(ContractError::EventTerminated {});
            },
            None => {},
        }
        Ok(())
    }

    /// Checks that POAPs may change hands.
    pub fn assert_is_transferable(&self) -> (r: Result<(), ContractError>)
        ensures
            r is Ok <==> self.is_transferable,
            r is Err ==> r == Err::<(), ContractError>(ContractError::TransferDisabled {}),
    {
        if !self.is_transferable {
            return Err(ContractError::TransferDisabled {});
        }
        Ok(())
    }

    /// The id of the next POAP: one more than the number of tokens, in decimal.
    pub fn generate_poap_id(&self) -> (id: String)
        requires
            self.token_count < u64::MAX,
        ensures
            id@ == decimal((self.token_count + 1) as nat),
    {
        u128_to_decimal((self.token_count + 1) as u128)
    }

    /// Mints a POAP for `owner` with the next id; fails when a token with that id
    /// exists.
    #[verifier::loop_isolation(false)]
    pub fn mint_to_user(&mut self, owner: &String, extension: T) -> (r: Result<String, ContractError>)
        requires
            old(self).token_count < u64::MAX,
        ensures
            ({
                let id = decimal((old(self).token_count + 1) as nat);
                if has_token(tokens_view(old(self).tokens@), id) {
                    r == Err::<String, ContractError>(ContractError::Claimed {}) && *final(self) == *old(self)
                } else {
                    &&& r matches Ok(t) && t@ == id
                    &&& tokens_view(final(self).tokens@) == tokens_view(old(self).tokens@).push((id, owner@, Some(old(self).metadata_uri@)))
                    &&& extensions(final(self).tokens@) == extensions(old(self).tokens@).push(extension)
                    &&& final(self).token_count == old(self).token_count + 1
                    &&& same_settings(*old(self), *final(self))
                }
            }),
    {
        let token_id = self.generate_poap_id();
        let ghost tv = tokens_view(self.tokens@);
        let mut i: usize = 0;
        while i < self.tokens.len()
            invariant
                i <= self.tokens.len(),
                tv == tokens_view(self.tokens@),
                forall|j: int| 0 <= j < i ==> (#[trigger] tv[j]).0 != token_id@,
            decreases self.tokens.len() - i,
        {
            if self.tokens[i].token_id == token_id {
                assert(tv[i as int].0 == token_id@);
                return Err(ContractError::Claimed {});
            }
            i = i + 1;
        }
        assert(!has_token(tv, token_id@)) by {
            if has_token(tv, token_id@) {
                let j = choose|j: int| 0 <= j < tv.len() && (#[trigger] tv[j]).0 == token_id@;
            }
        }
        self.tokens.push(NftToken {
            token_id: token_id.clone(),
            owner: owner.clone(),
            token_uri: Some(self.metadata_uri.clone()),
            extension,
        });
        self.token_count = self.token_count + 1;
        proof {
            assert(tokens_view(self.tokens@) =~= tv.push((token_id@, owner@, Some(old(self).metadata_uri@))));
            assert(extensions(self.tokens@) =~= extensions(old(self).tokens@).push(extension));
        }
        Ok(token_id)
    }
}

/// The settings of the contract are the same in both states.
pub open spec fn same_settings<T>(a: PoapContract<T>, b: PoapContract<T>) -> bool {
    &&& a.owner == b.owner
    &&& a.metadata_uri == b.metadata_uri
    &&& a.minter == b.minter
    &&& a.is_transferable == b.is_transferable
    &&& a.is_mintable == b.is_mintable
    &&& a.mint_start_time == b.mint_start_time
    &&& a.mint_end_time == b.mint_end_time
}

} // verus!

verus! {

/// The text of a boolean.
pub open spec fn bool_text(b: bool) -> Seq<char> {
    if b { "true"@ } else { "false"@ }
}

fn bool_to_string(b: bool) -> (s: &'static str)
    ensures
        s@ == bool_text(b),
{
    if b { "true" } else { "false" }
}

/// The text of an optional timestamp; `none` when there is none.
pub open spec fn opt_time_text(t: Option<u64>) -> Seq<char> {
    match t {
        Some(n) => timestamp_text(n),
        None => "none"@,
    }
}

fn opt_time_to_string(t: Option<u64>) -> (s: String)
    ensures
        s@ == opt_time_text(t),
{
    match t {
        Some(n) => timestamp_to_string(n),
        None => String::from_str("none"),
    }
}

/// The text of an optional address; `none` when there is none.
pub open spec fn opt_addr_text(a: Option<String>) -> Seq<char> {
    match a {
        Some(s) => s@,
        None => "none"@,
    }
}

/// The response carries exactly the given attributes and no message.
pub open spec fn responds(r: Outcome, attrs: Seq<(Seq<char>, Seq<char>)>) -> bool {
    r matches Outcome::Respond(resp) && attrs_view(resp.attributes@) == attrs && resp.messages@.len() == 0
}

impl<T> PoapContract<T> {
    /// Instantiates the contract. `owner_addr` is the validation of the admin
    /// address (the sender when the message names none) and `minter_addr` the
    /// validation of the minter address when the message names one; without
    /// one, the admin is the minter.
    pub fn instantiate(msg: InstantiateMsg, owner_addr: Result<String, StdError>,
        minter_addr: Option<Result<String, StdError>>) -> (r: Result<(PoapContract<T>, Response<()>), ContractError>)
        ensures
            match owner_addr {
                Err(e) => r == Err::<(PoapContract<T>, Response<()>), ContractError>(ContractError::Std(e)),
                Ok(o) => match minter_addr {
                    Some(Err(e)) => r == Err::<(PoapContract<T>, Response<()>), ContractError>(ContractError::Std(e)),
                    _ => if bad_time_window(msg.mint_start_time, msg.mint_end_time) {
                        r == Err::<(PoapContract<T>, Response<()>), ContractError>(ContractError::InvalidTimestampValues {})
                    } else {
                        r matches Ok((c, resp)) && resp.attributes@.len() == 0 && resp.messages@.len() == 0
                            && c.owner == Some(o) && c.metadata_uri == msg.metadata_uri
                            && c.minter == (match minter_addr { Some(Ok(m)) => Some(m), _ => Some(o) })
                            && c.is_transferable == msg.is_transferable && c.is_mintable == msg.is_mintable
                            && c.mint_start_time == msg.mint_start_time && c.mint_end_time == msg.mint_end_time
                            && c.tokens@.len() == 0 && c.token_count == 0
                    },
                },
            },
    {
        let owner = match owner_addr {
            Ok(o) => o,
            Err(e) => return Err(ContractError::Std(e)),
        };
        let minter = match minter_addr {
            Some(Ok(m)) => Some(m),
            Some(Err(e)) => return Err(ContractError::Std(e)),
            None => Some(owner.clone()),
        };
        match (msg.mint_start_time, msg.mint_end_time) {
            (Some(s), Some(e)) => if s >= e {
                return Err(ContractError::InvalidTimestampValues {});
            },
            _ => {},
        }
        let c = PoapContract {
            owner: Some(owner),
            metadata_uri: msg.metadata_uri,
            minter,
            is_transferable: msg.is_transferable,
            is_mintable: msg.is_mintable,
            mint_start_time: msg.mint_start_time,
            mint_end_time: msg.mint_end_time,
            tokens: Vec::new(),
            token_count: 0,
        };
        Ok((c, Response::new()))
    }

    /// Transfers a POAP: allowed only when POAPs are transferable, then handed
    /// to the CW721 base contract.
    pub fn transfer_poap(&self) -> (r: Result<Outcome, ContractError>)
        ensures
            self.is_transferable ==> r matches Ok(Outcome::Forward),
            !self.is_transferable ==> r matches Err(ContractError::TransferDisabled {}),
    {
        match self.assert_is_transferable() {
            Ok(()) => Ok(Outcome::Forward),
            Err(e) => Err(e),
        }
    }

    /// Sends a POAP to a contract: allowed only when POAPs are transferable,
    /// then handed to the CW721 base contract.
    pub fn send_poap(&self) -> (r: Result<Outcome, ContractError>)
        ensures
            self.is_transferable ==> r matches Ok(Outcome::Forward),
            !self.is_transferable ==> r matches Err(ContractError::TransferDisabled {}),
    {
        self.transfer_poap()
    }

    /// Updates the minter; only the admin may. `minter_addr` is the validation
    /// of the new minter address, when there is one.
    pub fn update_minter(&mut self, info: &MessageInfo, minter_addr: Option<Result<String, StdError>>)
        -> (r: Result<Outcome, ContractError>)
        ensures
            update_minter_post(*old(self), *final(self), *info, minter_addr, r),

    {
        match self.assert_is_admin(&info.sender) {
            Ok(()) => {},
            Err(e) => return Err(e),
        }
        let new_minter = match minter_addr {
            Some(Ok(a)) => Some(a),
            Some(Err(e)) => return Err(ContractError::Std(e)),
            None => None,
        };
        let text = match &new_minter {
            Some(a) => a.clone(),
            None => String::from_str("none"),
        };
        self.minter = new_minter;
        let mut resp: Response<()> = Response::new();
        resp.add_attribute("action", "update_minter");
        resp.add_attribute("sender", info.sender.as_str());
        resp.add_attribute("new_minter", text.as_str());
        proof {
            assert(attrs_view(resp.attributes@) =~= seq![("action"@, "update_minter"@), ("sender"@, info.sender@), ("new_minter"@, opt_addr_text(self.minter))]);
        }
        Ok(Outcome::Respond(resp))
    }

    /// Sets whether users may mint their POAP; only the admin may.
    pub fn set_mintable(&mut self, info: &MessageInfo, mintable: bool) -> (r: Result<Outcome, ContractError>)
        ensures
            set_mintable_post(*old(self), *final(self), *info, mintable, r),

    {
        match self.assert_is_admin(&info.sender) {
            Ok(()) => {},
            Err(e) => return Err(e),
        }
        self.is_mintable = mintable;
        let mut resp: Response<()> = Response::new();
        resp.add_attribute("action", "set_mintable");
        resp.add_attribute("sender", info.sender.as_str());
        resp.add_attribute("mintable", bool_to_string(mintable));
        proof {
            assert(attrs_view(resp.attributes@) =~= seq![("action"@, "set_mintable"@), ("sender"@, info.sender@), ("mintable"@, bool_text(mintable))]);
        }
        Ok(Outcome::Respond(resp))
    }

    /// Sets whether POAPs may change hands; only the admin may.
    pub fn set_transferable(&mut self, info: &MessageInfo, transferable: bool) -> (r: Result<Outcome, ContractError>)
        ensures
            set_transferable_post(*old(self), *final(self), *info, transferable, r),

    {
        match self.assert_is_admin(&info.sender) {
            Ok(()) => {},
            Err(e) => return Err(e),
        }
        self.is_transferable = transferable;
        let mut resp: Response<()> = Response::new();
        resp.add_attribute("action", "set_transferable");
        resp.add_attribute("sender", info.sender.as_str());
        resp.add_attribute("transferable", bool_to_string(transferable));
        proof {
            assert(attrs_view(resp.attributes@) =~= seq![("action"@, "set_transferable"@), ("sender"@, info.sender@), ("transferable"@, bool_text(transferable))]);
        }
        Ok(Outcome::Respond(resp))
    }

    /// Sets the window in which users may mint; only the admin may, and the
    /// start must lie before the end.
    pub fn set_mint_start_end_time(&mut self, info: &MessageInfo, start_time: Option<u64>, end_time: Option<u64>)
        -> (r: Result<Outcome, ContractError>)
        ensures
            set_time_post(*old(self), *final(self), *info, start_time, end_time, r),

    {
        match self.assert_is_admin(&info.sender) {
            Ok(()) => {},
            Err(e) => return Err(e),
        }
        match (start_time, end_time) {
            (Some(s), Some(e)) => if s >= e {
                return Err(ContractError::InvalidTimestampValues {});
            },
            _ => {},
        }
        self.mint_start_time = start_time;
        self.mint_end_time = end_time;
        let start_text = opt_time_to_string(start_time);
        let end_text = opt_time_to_string(end_time);
        let mut resp: Response<()> = Response::new();
        resp.add_attribute("action", "set_mint_start_end_time");
        resp.add_attribute("sender", info.sender.as_str());
        resp.add_attribute("start_time", start_text.as_str());
        resp.add_attribute("end_time", end_text.as_str());
        proof {
            assert(attrs_view(resp.attributes@) =~= seq![("action"@, "set_mint_start_end_time"@), ("sender"@, info.sender@),
                ("start_time"@, opt_time_text(start_time)), ("end_time"@, opt_time_text(end_time))]);
        }
        Ok(Outcome::Respond(resp))
    }

    /// Mints a POAP with `extension` for the sender when the sender may mint.
    pub fn mint(&mut self, env: &Env, info: &MessageInfo, extension: T) -> (r: Result<Outcome, ContractError>)
        requires
            old(self).token_count < u64::MAX,
        ensures
            mint_post(*old(self), *final(self), *env, *info, extension, r),

    {
        match self.assert_user_can_mint(&info.sender, env) {
            Ok(()) => {},
            Err(e) => return Err(e),
        }
        let token_id = match self.mint_to_user(&info.sender, extension) {
            Ok(t) => t,
            Err(e) => return Err(e),
        };
        let mut resp: Response<()> = Response::new();
        resp.add_attribute("action", "mint");
        resp.add_attribute("owner", info.sender.as_str());
        resp.add_attribute("token_id", token_id.as_str());
        proof {
            assert(attrs_view(resp.attributes@) =~= seq![("action"@, "mint"@), ("owner"@, info.sender@), ("token_id"@, token_id@)]);
        }
        Ok(Outcome::Respond(resp))
    }
}

} // verus!

verus! {

/// The address of a validated user, or nothing when validation failed.
pub open spec fn addr_of(u: Result<String, StdError>) -> Seq<char> {
    match u {
        Ok(a) => a@,
        Err(_) => Seq::empty(),
    }
}

/// The `i`-th user of a `MintTo` can get a POAP: the address is valid, the user
/// owns no POAP and is not listed earlier, and the id of the new token is free.
pub open spec fn mint_to_user_ok(tokens: Seq<TokenV>, count: u64, users: Seq<Result<String, StdError>>, i: int) -> bool {
    &&& users[i] is Ok
    &&& !owns_token(tokens, addr_of(users[i]))
    &&& forall|j: int| 0 <= j < i ==> addr_of(#[trigger] users[j]) != addr_of(users[i])
    &&& !has_token(tokens, decimal((count + 1 + i) as nat))
}

/// The error that the `i`-th user of a `MintTo` meets.
pub open spec fn mint_to_user_error(tokens: Seq<TokenV>, count: u64, users: Seq<Result<String, StdError>>, i: int, e: ContractError) -> bool {
    match users[i] {
        Err(v) => e == ContractError::Std(v),
        Ok(a) => if owns_token(tokens, a@) || exists|j: int| 0 <= j < i && addr_of(#[trigger] users[j]) == a@ {
            e matches ContractError::PoapAlreadyMinted { user } && user@ == a@
        } else {
            e == ContractError::Claimed {}
        },
    }
}

/// The tokens that `MintTo` adds: one per user, with consecutive ids.
pub open spec fn minted_tokens(count: u64, users: Seq<Result<String, StdError>>, uri: Seq<char>) -> Seq<TokenV> {
    Seq::new(users.len(), |i: int| (decimal((count + 1 + i) as nat), addr_of(users[i]), Some(uri)))
}

/// The ids of consecutive tokens joined with ", ".
pub open spec fn joined_ids(first: nat, n: nat) -> Seq<char>
    decreases n,
{
    if n == 0 {
        Seq::empty()
    } else if n == 1 {
        decimal(first)
    } else {
        joined_ids(first, (n - 1) as nat) + ", "@ + decimal((first + n - 1) as nat)
    }
}

impl<T: Clone> PoapContract<T> {
    /// Mints a POAP for each user; only the minter or the admin may. `users` are
    /// the validations of the listed addresses. Nothing is minted if one user
    /// cannot get a POAP.
    #[verifier::loop_isolation(false)]
    pub fn mint_to(&mut self, info: &MessageInfo, users: Vec<Result<String, StdError>>, extension: T) -> (r: Result<Outcome, ContractError>)
        requires
            old(self).token_count as int + users@.len() < u64::MAX,
        ensures
            mint_to_post(*old(self), *final(self), *info, users@, extension, r),

    {
        let can_mint = self.assert_is_minter(&info.sender).is_ok() || self.assert_is_admin(&info.sender).is_ok();
        if !can_mint {
            return Err(ContractError::MintUnauthorized {});
        }
        let ghost tv = tokens_view(self.tokens@);
        let count = self.token_count;
        // Check every user before minting anything.
        let mut i: usize = 0;
        while i < users.len()
            invariant
                i <= users.len(),
                forall|j: int| 0 <= j < i ==> #[trigger] mint_to_user_ok(tv, count, users@, j),
            decreases users.len() - i,
        {
            let addr = match &users[i] {
                Ok(a) => a,
                Err(e) => {
                    let err = e.duplicate();
                    assert(!mint_to_user_ok(tv, count, users@, i as int));
                    assert(mint_to_user_error(tv, count, users@, i as int, ContractError::Std(err)));
                    return Err(ContractError::Std(err));
                },
            };
            match self.assert_user_dont_own_a_poap(addr) {
                Ok(()) => {},
                Err(e) => {
                    assert(!mint_to_user_ok(tv, count, users@, i as int));
                    return Err(e);
                },
            }
            let mut j: usize = 0;
            while j < i
                invariant
                    j <= i,
                    forall|q: int| 0 <= q < j ==> addr_of(#[trigger] users@[q]) != addr@,
                decreases i - j,
            {
                let earlier = match &users[j] {
                    Ok(a) => a.clone(),
                    Err(_) => String::new(),
                };
                assert(mint_to_user_ok(tv, count, users@, j as int));
                if earlier == *addr {
                    assert(addr_of(users@[j as int]) == addr@);
                    let user = addr.clone();
                    assert(!mint_to_user_ok(tv, count, users@, i as int));
                    assert(mint_to_user_error(tv, count, users@, i as int, ContractError::PoapAlreadyMinted { user }));
                    return Err(ContractError::PoapAlreadyMinted { user });
                }
                j = j + 1;
            }
            let id = u128_to_decimal((count as u128) + 1 + (i as u128));
            let mut k: usize = 0;
            while k < self.tokens.len()
                invariant
                    k <= self.tokens.len(),
                    forall|q: int| 0 <= q < k ==> (#[trigger] tv[q]).0 != id@,
                decreases self.tokens.len() - k,
            {
                if self.tokens[k].token_id == id {
                    assert(tv[k as int].0 == id@);
                    assert(!mint_to_user_ok(tv, count, users@, i as int));
                    assert(!(exists|q: int| 0 <= q < i && addr_of(#[trigger] users@[q]) == addr@));
                    assert(mint_to_user_error(tv, count, users@, i as int, ContractError::Claimed {}));
                    return Err(ContractError::Claimed {});
                }
                k = k + 1;
            }
            assert(!has_token(tv, id@)) by {
                if has_token(tv, id@) {
                    let q = choose|q: int| 0 <= q < tv.len() && (#[trigger] tv[q]).0 == id@;
                }
            }
            assert(mint_to_user_ok(tv, count, users@, i as int));
            i = i + 1;
        }
        // Mint, one user after the other.
        let mut ids = String::new();
        let mut n: usize = 0;
        let ghost uri = self.metadata_uri@;
        proof { reveal_strlit(", "); }
        while n < users.len()
            invariant
                n <= users.len(),
                forall|j: int| 0 <= j < users@.len() ==> #[trigger] mint_to_user_ok(tv, count, users@, j),
                self.token_count == count + n,
                tokens_view(self.tokens@) == tv + minted_tokens(count, users@, uri).take(n as int),
                extensions(self.tokens@).take(tv.len() as int) == extensions(old(self).tokens@),
                forall|k: int| tv.len() <= k < self.tokens@.len() ==> cloned(extension, #[trigger] extensions(self.tokens@)[k]),
                self.metadata_uri@ == uri,
                same_settings(*old(self), *self),
                ids@ == joined_ids((count + 1) as nat, n as nat),
            decreases users.len() - n,
        {
            let addr = match &users[n] {
                Ok(a) => a.clone(),
                Err(_) => String::new(),
            };
            assert(mint_to_user_ok(tv, count, users@, n as int));
            assert(addr@ == addr_of(users@[n as int]));
            let ghost cur = tokens_view(self.tokens@);
            proof {
                let id = decimal((count + 1 + n) as nat);
                assert(decimal((self.token_count + 1) as nat) == id);
                assert(!has_token(cur, id)) by {
                    if has_token(cur, id) {
                        let q = choose|q: int| 0 <= q < cur.len() && (#[trigger] cur[q]).0 == id;
                        if q >= tv.len() {
                            let m = q - tv.len();
                            assert(cur[q] == minted_tokens(count, users@, uri)[m]);
                            lemma_decimal_injective((count + 1 + m) as nat, (count + 1 + n) as nat);
                        } else {
                            assert(cur[q] == tv[q]);
                        }
                    }
                }
            }
            let ext = extension.clone();
            let ghost ext_v = ext;
            assert(cloned(extension, ext_v));
            let ghost before = extensions(self.tokens@);
            let token_id = match self.mint_to_user(&addr, ext) {
                Ok(t) => t,
                Err(e) => return Err(e),
            };
            proof {
                let after = extensions(self.tokens@);
                assert(after.take(tv.len() as int) =~= before.take(tv.len() as int));
                assert forall|k: int| tv.len() <= k < self.tokens@.len() implies cloned(extension, #[trigger] after[k]) by {
                    assert(after == before.push(ext_v));
                    if k < before.len() {
                        assert(after[k] == before[k]);
                    } else {
                        assert(after.len() == self.tokens@.len());
                        assert(k == before.len());
                        assert(before.push(ext_v)[k] == ext_v);
                    }
                }
            }
            if n > 0 {
                ids.append(", ");
            }
            ids.append(token_id.as_str());
            proof {
                assert(tokens_view(self.tokens@) =~= tv + minted_tokens(count, users@, uri).take(n + 1));
            }
            n = n + 1;
        }
        proof {
            assert(minted_tokens(count, users@, uri).take(users@.len() as int) =~= minted_tokens(count, users@, uri));
        }
        let mut resp: Response<()> = Response::new();
        resp.add_attribute("action", "mint_to");
        resp.add_attribute("minter", info.sender.as_str());
        resp.add_attribute("token_ids", ids.as_str());
        proof {
            assert(attrs_view(resp.attributes@) =~= seq![("action"@, "mint_to"@), ("minter"@, info.sender@),
                ("token_ids"@, joined_ids((count + 1) as nat, users@.len()))]);
        }
        Ok(Outcome::Respond(resp))
    }
}

/// Different numbers have different decimal texts.
pub proof fn lemma_decimal_injective(a: nat, b: nat)
    requires
        a != b,
    ensures
        decimal(a) != decimal(b),
    decreases a + b,
{
    if a < 10 && b < 10 {
        assert(decimal(a)[0] != decimal(b)[0]);
    } else if a < 10 {
        assert(decimal(b).len() >= 2) by { lemma_decimal_len_pos(b / 10); }
    } else if b < 10 {
        assert(decimal(a).len() >= 2) by { lemma_decimal_len_pos(a / 10); }
    } else {
        if a / 10 != b / 10 {
            lemma_decimal_injective(a / 10, b / 10);
            if decimal(a) == decimal(b) {
                assert(decimal(a).drop_last() =~= decimal(a / 10));
                assert(decimal(b).drop_last() =~= decimal(b / 10));
            }
        } else {
            assert(a % 10 != b % 10);
            if decimal(a) == decimal(b) {
                assert(decimal(a).last() == decimal(b).last());
            }
        }
    }
}

proof fn lemma_decimal_len_pos(n: nat)
    ensures
        decimal(n).len() >= 1,
    decreases n,
{
    if n >= 10 {
        lemma_decimal_len_pos(n / 10);
    }
}

/// What `update_minter` does: only the admin may set the minter, to the
/// validated address or to none.
pub open spec fn update_minter_post<T>(old: PoapContract<T>, new: PoapContract<T>, info: MessageInfo, minter_addr: Option<Result<String, StdError>>, r: Result<Outcome, ContractError>) -> bool {
    match admin_check(old.owner, info.sender@) {
        Err(e) => r == Err::<Outcome, ContractError>(e) && new == old,
        Ok(()) => match minter_addr {
            Some(Err(e)) => r == Err::<Outcome, ContractError>(ContractError::Std(e)) && new == old,
            _ => {
                let m = match minter_addr { Some(Ok(a)) => Some(a), _ => None::<String> };
                &&& new.minter == m
                &&& new.owner == old.owner && new.metadata_uri == old.metadata_uri
                &&& new.is_transferable == old.is_transferable && new.is_mintable == old.is_mintable
                &&& new.mint_start_time == old.mint_start_time && new.mint_end_time == old.mint_end_time
                &&& new.tokens == old.tokens && new.token_count == old.token_count
                &&& responds(r->Ok_0, seq![("action"@, "update_minter"@), ("sender"@, info.sender@), ("new_minter"@, opt_addr_text(m))])
                &&& r is Ok
            },
        },
    }
}

/// What `set_mintable` does: only the admin may switch minting by users.
pub open spec fn set_mintable_post<T>(old: PoapContract<T>, new: PoapContract<T>, info: MessageInfo, mintable: bool, r: Result<Outcome, ContractError>) -> bool {
    match admin_check(old.owner, info.sender@) {
        Err(e) => r == Err::<Outcome, ContractError>(e) && new == old,
        Ok(()) => r is Ok && new.is_mintable == mintable
            && new == (PoapContract { is_mintable: mintable, ..old })
            && responds(r->Ok_0, seq![("action"@, "set_mintable"@), ("sender"@, info.sender@), ("mintable"@, bool_text(mintable))]),
    }
}

/// What `set_transferable` does: only the admin may switch transfers.
pub open spec fn set_transferable_post<T>(old: PoapContract<T>, new: PoapContract<T>, info: MessageInfo, transferable: bool, r: Result<Outcome, ContractError>) -> bool {
    match admin_check(old.owner, info.sender@) {
        Err(e) => r == Err::<Outcome, ContractError>(e) && new == old,
        Ok(()) => r is Ok && new == (PoapContract { is_transferable: transferable, ..old })
            && responds(r->Ok_0, seq![("action"@, "set_transferable"@), ("sender"@, info.sender@), ("transferable"@, bool_text(transferable))]),
    }
}

/// What `set_mint_start_end_time` does: only the admin may set the minting
/// window, whose start must lie before its end.
pub open spec fn set_time_post<T>(old: PoapContract<T>, new: PoapContract<T>, info: MessageInfo, start_time: Option<u64>, end_time: Option<u64>, r: Result<Outcome, ContractError>) -> bool {
    match admin_check(old.owner, info.sender@) {
        Err(e) => r == Err::<Outcome, ContractError>(e) && new == old,
        Ok(()) => if bad_time_window(start_time, end_time) {
            r == Err::<Outcome, ContractError>(ContractError::InvalidTimestampValues {}) && new == old
        } else {
            r is Ok && new == (PoapContract { mint_start_time: start_time, mint_end_time: end_time, ..old })
                && responds(r->Ok_0, seq![("action"@, "set_mint_start_end_time"@), ("sender"@, info.sender@),
                    ("start_time"@, opt_time_text(start_time)), ("end_time"@, opt_time_text(end_time))])
        },
    }
}

/// What `mint` does: the sender gets the next POAP when allowed to mint.
pub open spec fn mint_post<T>(old: PoapContract<T>, new: PoapContract<T>, env: Env, info: MessageInfo, extension: T, r: Result<Outcome, ContractError>) -> bool {
    ({
        let check = can_mint_check(old, info.sender@, env.block_time);
        let id = decimal((old.token_count + 1) as nat);
        if check is Err {
            same_error(match r { Ok(_) => Ok(()), Err(e) => Err(e) }, check, info.sender@) && new == old
        } else if has_token(tokens_view(old.tokens@), id) {
            r == Err::<Outcome, ContractError>(ContractError::Claimed {}) && new == old
        } else {
            &&& tokens_view(new.tokens@) == tokens_view(old.tokens@).push((id, info.sender@, Some(old.metadata_uri@)))
            &&& extensions(new.tokens@) == extensions(old.tokens@).push(extension)
            &&& new.token_count == old.token_count + 1
            &&& same_settings(old, new)
            &&& r is Ok && responds(r->Ok_0, seq![("action"@, "mint"@), ("owner"@, info.sender@), ("token_id"@, id)])
        }
    })
}

/// What `mint_to` does: the minter or the admin mints one POAP per listed
/// user, or nothing when one of them cannot get one.
pub open spec fn mint_to_post<T: Clone>(old: PoapContract<T>, new: PoapContract<T>, info: MessageInfo, users: Seq<Result<String, StdError>>,
    extension: T, r: Result<Outcome, ContractError>) -> bool {
    ({
        let tv = tokens_view(old.tokens@);
        let count = old.token_count;
        if !(is_minter(old.minter, info.sender@) || admin_check(old.owner, info.sender@) is Ok) {
            r == Err::<Outcome, ContractError>(ContractError::MintUnauthorized {}) && new == old
        } else if forall|i: int| 0 <= i < users.len() ==> #[trigger] mint_to_user_ok(tv, count, users, i) {
            &&& tokens_view(new.tokens@) == tv + minted_tokens(count, users, old.metadata_uri@)
            &&& extensions(new.tokens@).take(old.tokens@.len() as int) == extensions(old.tokens@)
            &&& forall|k: int| old.tokens@.len() <= k < new.tokens@.len() ==> cloned(extension, #[trigger] extensions(new.tokens@)[k])
            &&& new.token_count == count + users.len()
            &&& same_settings(old, new)
            &&& r is Ok && responds(r->Ok_0, seq![("action"@, "mint_to"@), ("minter"@, info.sender@),
                ("token_ids"@, joined_ids((count + 1) as nat, users.len()))])
        } else {
            new == old && (r matches Err(e) && exists|i: int| 0 <= i < users.len()
                && !mint_to_user_ok(tv, count, users, i)
                && (forall|j: int| 0 <= j < i ==> #[trigger] mint_to_user_ok(tv, count, users, j))
                && mint_to_user_error(tv, count, users, i, e))
        }
    })
}


/// How many addresses a message names: the new minter of `UpdateMinter`, the
/// users of `MintTo`.
pub open spec fn named_addresses<T>(msg: ExecuteMsg<T>) -> nat {
    match msg {
        ExecuteMsg::UpdateMinter { minter: Some(_) } => 1,
        ExecuteMsg::MintTo { users, .. } => users@.len(),
        _ => 0,
    }
}

/// The counter of tokens leaves room for what the message may mint.
pub open spec fn room_to_mint<T>(c: PoapContract<T>, msg: ExecuteMsg<T>) -> bool {
    match msg {
        ExecuteMsg::Mint { .. } => c.token_count < u64::MAX,
        ExecuteMsg::MintTo { users, .. } => c.token_count as int + users@.len() < u64::MAX,
        _ => true,
    }
}

/// What executing `msg` does; `addrs` are the validations of the addresses
/// that the message names, in order.
pub open spec fn execute_post<T: Clone>(old: PoapContract<T>, new: PoapContract<T>, env: Env, info: MessageInfo, msg: ExecuteMsg<T>,
    addrs: Seq<Result<String, StdError>>, r: Result<Outcome, ContractError>) -> bool {
    match msg {
        ExecuteMsg::TransferNft { .. } | ExecuteMsg::SendNft { .. } => new == old && (
            if old.is_transferable { r matches Ok(Outcome::Forward) } else { r == Err::<Outcome, ContractError>(ContractError::TransferDisabled {}) }),
        ExecuteMsg::UpdateMinter { minter } => update_minter_post(old, new, info,
            match minter { Some(_) => Some(addrs[0]), None => None }, r),
        ExecuteMsg::SetMintable { mintable } => set_mintable_post(old, new, info, mintable, r),
        ExecuteMsg::SetTransferable { transferable } => set_transferable_post(old, new, info, transferable, r),
        ExecuteMsg::SetMintStartEndTime { start_time, end_time } => set_time_post(old, new, info, start_time, end_time, r),
        ExecuteMsg::Mint { extension } => mint_post(old, new, env, info, extension, r),
        ExecuteMsg::MintTo { extension, .. } => mint_to_post(old, new, info, addrs, extension, r),
        _ => new == old && r matches Ok(Outcome::Forward),
    }
}

impl<T: Clone> PoapContract<T> {
    /// Executes a message. Transfers and sends pass the POAP rules first;
    /// approvals, revocations and burns go to the CW721 base contract as they
    /// are. `addrs` are the validations of the addresses that the message names.
    pub fn execute(&mut self, env: &Env, info: &MessageInfo, msg: ExecuteMsg<T>, addrs: Vec<Result<String, StdError>>)
        -> (r: Result<Outcome, ContractError>)
        requires
            addrs@.len() == named_addresses(msg),
            room_to_mint(*old(self), msg),
        ensures
            execute_post(*old(self), *final(self), *env, *info, msg, addrs@, r),
    {
        let mut addrs = addrs;
        match msg {
            ExecuteMsg::TransferNft { .. } => self.transfer_poap(),
            ExecuteMsg::SendNft { .. } => self.send_poap(),
            ExecuteMsg::UpdateMinter { minter } => {
                let minter_addr = match minter {
                    Some(_) => Some(addrs.remove(0)),
                    None => None,
                };
                self.update_minter(info, minter_addr)
            },
            ExecuteMsg::SetMintable { mintable } => self.set_mintable(info, mintable),
            ExecuteMsg::SetTransferable { transferable } => self.set_transferable(info, transferable),
            ExecuteMsg::SetMintStartEndTime { start_time, end_time } => self.set_mint_start_end_time(info, start_time, end_time),
            ExecuteMsg::Mint { extension } => self.mint(env, info, extension),
            ExecuteMsg::MintTo { extension, .. } => self.mint_to(info, addrs, extension),
            _ => Ok(Outcome::Forward),
        }
    }
}

} // verus!

verus! {

/// No user owns two tokens.
pub open spec fn owners_unique(tokens: Seq<TokenV>) -> bool {
    forall|i: int, j: int| 0 <= i < j < tokens.len() ==> (#[trigger] tokens[i]).1 != (#[trigger] tokens[j]).1
}

/// Users hold one POAP at most: minting for the sender keeps every owner
/// unique.
pub proof fn law_one_poap_per_user_mint<T>(old: PoapContract<T>, new: PoapContract<T>, env: Env, info: MessageInfo,
    extension: T, r: Result<Outcome, ContractError>)
    requires
        owners_unique(tokens_view(old.tokens@)),
        mint_post(old, new, env, info, extension, r),
    ensures
        owners_unique(tokens_view(new.tokens@)),
{
    let tv = tokens_view(old.tokens@);
    if can_mint_check(old, info.sender@, env.block_time) is Ok && !has_token(tv, decimal((old.token_count + 1) as nat)) {
        let nv = tokens_view(new.tokens@);
        assert forall|i: int, j: int| 0 <= i < j < nv.len() implies (#[trigger] nv[i]).1 != (#[trigger] nv[j]).1 by {
            if j == tv.len() {
                assert(nv[i] == tv[i]);
                assert(!owns_token(tv, info.sender@));
            } else {
                assert(nv[i] == tv[i] && nv[j] == tv[j]);
            }
        }
    }
}

/// Users hold one POAP at most: minting for a list of users keeps every
/// owner unique.
pub proof fn law_one_poap_per_user_mint_to<T: Clone>(old: PoapContract<T>, new: PoapContract<T>, info: MessageInfo,
    users: Seq<Result<String, StdError>>, extension: T, r: Result<Outcome, ContractError>)
    requires
        owners_unique(tokens_view(old.tokens@)),
        mint_to_post(old, new, info, users, extension, r),
    ensures
        owners_unique(tokens_view(new.tokens@)),
{
    let tv = tokens_view(old.tokens@);
    let count = old.token_count;
    if (is_minter(old.minter, info.sender@) || admin_check(old.owner, info.sender@) is Ok)
        && forall|i: int| 0 <= i < users.len() ==> #[trigger] mint_to_user_ok(tv, count, users, i) {
        let nv = tokens_view(new.tokens@);
        let added = minted_tokens(count, users, old.metadata_uri@);
        assert(nv == tv + added);
        assert forall|i: int, j: int| 0 <= i < j < nv.len() implies (#[trigger] nv[i]).1 != (#[trigger] nv[j]).1 by {
            if j >= tv.len() {
                let b = j - tv.len();
                assert(nv[j] == added[b]);
                assert(mint_to_user_ok(tv, count, users, b));
                if i >= tv.len() {
                    let a = i - tv.len();
                    assert(nv[i] == added[a]);
                } else {
                    assert(nv[i] == tv[i]);
                    if nv[i].1 == nv[j].1 {
                        assert(owns_token(tv, addr_of(users[b])));
                    }
                }
            } else {
                assert(nv[i] == tv[i] && nv[j] == tv[j]);
            }
        }
    }
}

} // verus!

verus! {

/// Users hold one POAP at most, whatever message the contract executes.
pub proof fn law_one_poap_per_user<T: Clone>(old: PoapContract<T>, new: PoapContract<T>, env: Env, info: MessageInfo, msg: ExecuteMsg<T>,
    addrs: Seq<Result<String, StdError>>, r: Result<Outcome, ContractError>)
    requires
        owners_unique(tokens_view(old.tokens@)),
        execute_post(old, new, env, info, msg, addrs, r),
    ensures
        owners_unique(tokens_view(new.tokens@)),
{
    match msg {
        ExecuteMsg::Mint { extension } => law_one_poap_per_user_mint(old, new, env, info, extension, r),
        ExecuteMsg::MintTo { extension, .. } => law_one_poap_per_user_mint_to(old, new, info, addrs, extension, r),
        _ => {
            assert(new.tokens == old.tokens);
        },
    }
}

/// The admin and the minter may always mint: when the sender owns the contract
/// or is its minter and holds no POAP, checking whether it may mint succeeds,
/// whether minting is enabled or not and whatever the mint window.
pub proof fn law_admin_and_minter_may_always_mint<T>(c: PoapContract<T>, user: Seq<char>, now: u64)
    requires
        (c.owner matches Some(o) && o@ == user) || (c.minter matches Some(m) && m@ == user),
        !owns_token(tokens_view(c.tokens@), user),
    ensures
        can_mint_check(c, user, now) is Ok,
{
}

/// The admin may always mint: when the sender owns the contract and holds no
/// POAP, `Mint` succeeds whether minting is enabled or not and whatever the
/// mint window, and gives the sender the next POAP with the extension, when
/// that id is free.
pub proof fn law_admin_mint_succeeds<T>(old: PoapContract<T>, new: PoapContract<T>, env: Env, info: MessageInfo,
    extension: T, r: Result<Outcome, ContractError>)
    requires
        old.owner matches Some(o) && o@ == info.sender@,
        !owns_token(tokens_view(old.tokens@), info.sender@),
        !has_token(tokens_view(old.tokens@), decimal((old.token_count + 1) as nat)),
        mint_post(old, new, env, info, extension, r),
    ensures
        r is Ok,
        tokens_view(new.tokens@) == tokens_view(old.tokens@).push(
            (decimal((old.token_count + 1) as nat), info.sender@, Some(old.metadata_uri@))),
        extensions(new.tokens@) == extensions(old.tokens@).push(extension),
        new.token_count == old.token_count + 1,
{
}

} // verus!
