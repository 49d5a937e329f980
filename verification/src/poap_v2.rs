//! The second POAP contract: like the first, but it always has a minter (the
//! instantiating sender by default), numbers POAPs from zero, lets the minter
//! alone mint for others, and does not limit users to one POAP.
use vstd::prelude::*;
use vstd::string::*;
use crate::coins::StdError;
use crate::chain::{Response, MessageInfo, Env, attrs_view};
use crate::text::{decimal, u128_to_decimal, timestamp_text, timestamp_to_string};
use crate::poap::{NftToken, TokenV, tokens_view, extensions, has_token, OwnershipError, Outcome, responds, bool_text,
    bad_time_window, joined_ids, lemma_decimal_injective};

verus! {

/// The errors of the contract.
#[derive(Debug, PartialEq, Eq)]
pub enum ContractError {
    Std(StdError),
    Ownership(OwnershipError),
    Claimed {},
    Expired {},
    ApprovalNotFound { spender: String },
    TransferDisabled {},
    MintDisabled {},
    MintUnauthorized {},
    EventNotStarted {},
    EventTerminated {},
    InvalidTimestampValues {},
}

/// The state of the contract.
pub struct PoapContract<T> {
    pub owner: Option<String>,
    pub metadata_uri: String,
    /// The address that may mint for other users, and always for itself.
    pub minter: String,
    pub is_transferable: bool,
    pub is_mintable: bool,
    /// When users may start minting, in nanoseconds; `None` means always.
    pub mint_start_time: Option<u64>,
    /// When users may no longer mint, in nanoseconds; `None` means never.
    pub mint_end_time: Option<u64>,
    pub tokens: Vec<NftToken<T>>,
    pub token_count: u64,
}

/// The message that instantiates the contract.
pub struct InstantiateMsg {
    pub name: String,
    pub symbol: String,
    pub admin: Option<String>,
    pub metadata_uri: String,
    pub minter: Option<String>,
    pub is_transferable: bool,
    pub is_mintable: bool,
    pub mint_start_time: Option<u64>,
    pub mint_end_time: Option<u64>,
}

/// The messages that the contract executes.
pub enum ExecuteMsg<T> {
    TransferNft { recipient: String, token_id: String },
    SendNft { contract: String, token_id: String, msg: Vec<u8> },
    Approve { spender: String, token_id: String },
    Revoke { spender: String, token_id: String },
    ApproveAll { operator: String },
    RevokeAll { operator: String },
    /// Mints a POAP for the sender, with the given extension.
    Mint { extension: T },
    /// Mints a POAP for each of the users, each with a clone of the extension.
    MintTo { users: Vec<String>, extension: T },
    Burn { token_id: String },
    UpdateMinter { minter: String },
    SetMintable { mintable: bool },
    SetTransferable { transferable: bool },
    SetMintStartEndTime { start_time: Option<u64>, end_time: Option<u64> },
    /// A message for the extension of the CW721 base contract.
    Extension {},
}

/// The result of checking that `sender` owns the contract.
pub open spec fn admin_check(owner: Option<String>, sender: Seq<char>) -> Result<(), ContractError> {
    match owner {
        None => Err(ContractError::Ownership(OwnershipError::NoOwner)),
        Some(o) => if o@ == sender { Ok(()) } else { Err(ContractError::Ownership(OwnershipError::NotOwner)) },
    }
}

/// The result of checking that `user` may mint at `now`: the minter always
/// may; others while minting is enabled, from the start on and before
/// the end.
pub open spec fn can_mint_check<T>(c: PoapContract<T>, user: Seq<char>, now: u64) -> Result<(), ContractError> {
    if c.minter@ == user {
        Ok(())
    } else if !c.is_mintable {
        Err(ContractError::MintDisabled {})
    } else if c.mint_start_time matches Some(s) && s > now {
        Err(ContractError::EventNotStarted {})
    } else if c.mint_end_time matches Some(e) && now >= e {
        Err(ContractError::EventTerminated {})
    } else {
        Ok(())
    }
}

/// The settings of the contract are the same in both states.
pub open spec fn same_settings<T>(a: PoapContract<T>, b: PoapContract<T>) -> bool {
    &&& a.owner == b.owner && a.metadata_uri == b.metadata_uri && a.minter == b.minter
    &&& a.is_transferable == b.is_transferable && a.is_mintable == b.is_mintable
    &&& a.mint_start_time == b.mint_start_time && a.mint_end_time == b.mint_end_time
}

/// The text of an optional timestamp; `None` when there is none.
pub open spec fn opt_time_text(t: Option<u64>) -> Seq<char> {
    match t {
        Some(n) => timestamp_text(n),
        None => "None"@,
    }
}

fn opt_time_to_string(t: Option<u64>) -> (s: String)
    ensures
        s@ == opt_time_text(t),
{
    match t {
        Some(n) => timestamp_to_string(n),
        None => String::from_str("None"),
    }
}

fn bool_to_string(b: bool) -> (s: &'static str)
    ensures
        s@ == bool_text(b),
{
    if b { "true" } else { "false" }
}

impl<T> PoapContract<T> {
    /// Instantiates the contract. `owner_addr` is the validation of the admin
    /// (the sender when the message names none) and `minter_addr` that of the
    /// minter when the message names one; otherwise the sender is the minter.
    pub fn instantiate(info: &MessageInfo, msg: InstantiateMsg, owner_addr: Result<String, StdError>,
        minter_addr: Option<Result<String, StdError>>) -> (r: Result<(PoapContract<T>, Response<()>), StdError>)
        ensures
            match owner_addr {
                Err(e) => r == Err::<(PoapContract<T>, Response<()>), StdError>(e),
                Ok(o) => match minter_addr {
                    Some(Err(e)) => r == Err::<(PoapContract<T>, Response<()>), StdError>(e),
                    _ => r matches Ok((c, resp)) && resp.attributes@.len() == 0 && resp.messages@.len() == 0
                        && c.owner == Some(o) && c.metadata_uri == msg.metadata_uri
                        && c.minter == (match minter_addr { Some(Ok(m)) => m, _ => info.sender })
                        && c.is_transferable == msg.is_transferable && c.is_mintable == msg.is_mintable
                        && c.mint_start_time == msg.mint_start_time && c.mint_end_time == msg.mint_end_time
                        && c.tokens@.len() == 0 && c.token_count == 0,
                },
            },
    {
        let owner = match owner_addr { Ok(o) => o, Err(e) => return Err(e) };
        let minter = match minter_addr {
            Some(Ok(m)) => m,
            Some(Err(e)) => return Err(e),
            None => info.sender.clone(),
        };
        let c = PoapContract {
            owner: Some(owner),
            metadata_uri: msg.metadata_uri,
            minter,
            is_transferable: msg.is_transferable,
            is_mintable: msg.is_mintable,
            mint_start_time: msg.mint_start_time,
            mint_end_time: msg.mint_end_time,
            tokens: Vec::new(),
            token_count: 0,
        };
        Ok((c, Response::new()))
    }

    /// Checks that `sender` owns the contract.
    pub fn assert_is_admin(&self, sender: &String) -> (r: Result<(), ContractError>)
        ensures
            r == admin_check(self.owner, sender@),
    {
        match &self.owner {
            None => Err(ContractError::Ownership(OwnershipError::NoOwner)),
            Some(o) => if *o == *sender { Ok(()) } else { Err(ContractError::Ownership(OwnershipError::NotOwner)) },
        }
    }

    /// Checks that `sender` is the minter.
    pub fn assert_is_minter(&self, sender: &String) -> (r: Result<(), ContractError>)
        ensures
            if self.minter@ == sender@ { r is Ok } else { r == Err::<(), ContractError>(ContractError::MintUnauthorized {}) },
    {
        if !(*sender == self.minter) {
            return Err(ContractError::MintUnauthorized {});
        }
        Ok(())
    }

    /// Checks that `user` may mint now.
    pub fn assert_user_can_mint(&self, user: &String, env: &Env) -> (r: Result<(), ContractError>)
        ensures
            r == can_mint_check(*self, user@, env.block_time),
    {
        if self.minter == *user {
            return Ok(());
        }
        if !self.is_mintable {
            return Err(ContractError::MintDisabled {});
        }
        match self.mint_start_time {
            Some(start) => if start > env.block_time {
                return Err(ContractError::EventNotStarted {});
            },
            None => {},
        }
        match self.mint_end_time {
            Some(end) => if env.block_time >= end {
                return Err(ContractError::EventTerminated {});
            },
            None => {},
        }
        Ok(())
    }

    /// Checks that POAPs may change hands.
    pub fn assert_is_transferable(&self) -> (r: Result<(), ContractError>)
        ensures
            if self.is_transferable { r is Ok } else { r == Err::<(), ContractError>(ContractError::TransferDisabled {}) },
    {
        if !self.is_transferable {
            return Err(ContractError::TransferDisabled {});
        }
        Ok(())
    }

    /// Mints a POAP for `owner` with the number of tokens as its id; fails when
    /// a token with that id exists.
    #[verifier::loop_isolation(false)]
    pub fn mint_to_user(&mut self, owner: &String, extension: T) -> (r: Result<String, ContractError>)
        requires
            old(self).token_count < u64::MAX,
        ensures
            ({
                let id = decimal(old(self).token_count as nat);
                if has_token(tokens_view(old(self).tokens@), id) {
                    r == Err::<String, ContractError>(ContractError::Claimed {}) && *final(self) == *old(self)
                } else {
                    &&& r matches Ok(t) && t@ == id
                    &&& tokens_view(final(self).tokens@) == tokens_view(old(self).tokens@).push((id, owner@, Some(old(self).metadata_uri@)))
                    &&& extensions(final(self).tokens@) == extensions(old(self).tokens@).push(extension)
                    &&& final(self).token_count == old(self).token_count + 1
                    &&& same_settings(*old(self), *final(self))
                }
            }),
    {
        let token_id = u128_to_decimal(self.token_count as u128);
        let ghost tv = tokens_view(self.tokens@);
        let mut i: usize = 0;
        while i < self.tokens.len()
            invariant
                i <= self.tokens.len(),
                tv == tokens_view(self.tokens@),
                forall|j: int| 0 <= j < i ==> (#[trigger] tv[j]).0 != token_id@,
            decreases self.tokens.len() - i,
        {
            if self.tokens[i].token_id == token_id {
                assert(tv[i as int].0 == token_id@);
                return Err(ContractError::Claimed {});
            }
            i = i + 1;
        }
        assert(!has_token(tv, token_id@)) by {
            if has_token(tv, token_id@) {
                let j = choose|j: int| 0 <= j < tv.len() && (#[trigger] tv[j]).0 == token_id@;
            }
        }
        self.tokens.push(NftToken { token_id: token_id.clone(), owner: owner.clone(), token_uri: Some(self.metadata_uri.clone()), extension });
        self.token_count = self.token_count + 1;
        proof {
            assert(tokens_view(self.tokens@) =~= tv.push((token_id@, owner@, Some(old(self).metadata_uri@))));
            assert(extensions(self.tokens@) =~= extensions(old(self).tokens@).push(extension));
        }
        Ok(token_id)
    }
}

} // verus!

verus! {

/// What `update_minter` does: only the admin may set the minter, to a valid
/// address.
pub open spec fn update_minter_post<T>(old: PoapContract<T>, new: PoapContract<T>, info: MessageInfo,
    minter_addr: Result<String, StdError>, r: Result<Outcome, ContractError>) -> bool {
    match admin_check(old.owner, info.sender@) {
        Err(e) => r == Err::<Outcome, ContractError>(e) && new == old,
        Ok(()) => match minter_addr {
            Err(e) => r == Err::<Outcome, ContractError>(ContractError::Std(e)) && new == old,
            Ok(m) => new == (PoapContract { minter: m, ..old })
                && responds(r->Ok_0, seq![("action"@, "update_minter"@), ("sender"@, info.sender@), ("new_minter"@, m@)])
                && r is Ok,
        },
    }
}

/// What `set_mintable` does.
pub open spec fn set_mintable_post<T>(old: PoapContract<T>, new: PoapContract<T>, info: MessageInfo, mintable: bool, r: Result<Outcome, ContractError>) -> bool {
    match admin_check(old.owner, info.sender@) {
        Err(e) => r == Err::<Outcome, ContractError>(e) && new == old,
        Ok(()) => r is Ok && new == (PoapContract { is_mintable: mintable, ..old })
            && responds(r->Ok_0, seq![("action"@, "set_mintable"@), ("sender"@, info.sender@), ("mintable"@, bool_text(mintable))]),
    }
}

/// What `set_transferable` does.
pub open spec fn set_transferable_post<T>(old: PoapContract<T>, new: PoapContract<T>, info: MessageInfo, transferable: bool, r: Result<Outcome, ContractError>) -> bool {
    match admin_check(old.owner, info.sender@) {
        Err(e) => r == Err::<Outcome, ContractError>(e) && new == old,
        Ok(()) => r is Ok && new == (PoapContract { is_transferable: transferable, ..old })
            && responds(r->Ok_0, seq![("action"@, "set_transferable"@), ("sender"@, info.sender@), ("transferable"@, bool_text(transferable))]),
    }
}

/// What `set_mint_start_end_time` does.
pub open spec fn set_time_post<T>(old: PoapContract<T>, new: PoapContract<T>, info: MessageInfo, start_time: Option<u64>,
    end_time: Option<u64>, r: Result<Outcome, ContractError>) -> bool {
    match admin_check(old.owner, info.sender@) {
        Err(e) => r == Err::<Outcome, ContractError>(e) && new == old,
        Ok(()) => if bad_time_window(start_time, end_time) {
            r == Err::<Outcome, ContractError>(ContractError::InvalidTimestampValues {}) && new == old
        } else {
            r is Ok && new == (PoapContract { mint_start_time: start_time, mint_end_time: end_time, ..old })
                && responds(r->Ok_0, seq![("action"@, "set_mint_start_end_time"@), ("sender"@, info.sender@),
                    ("start_time"@, opt_time_text(start_time)), ("end_time"@, opt_time_text(end_time))])
        },
    }
}

/// What `mint` does: the sender gets the next POAP when allowed to mint.
pub open spec fn mint_post<T>(old: PoapContract<T>, new: PoapContract<T>, env: Env, info: MessageInfo, extension: T, r: Result<Outcome, ContractError>) -> bool {
    let check = can_mint_check(old, info.sender@, env.block_time);
    let id = decimal(old.token_count as nat);
    if check is Err {
        r == Err::<Outcome, ContractError>(check->Err_0) && new == old
    } else if has_token(tokens_view(old.tokens@), id) {
        r == Err::<Outcome, ContractError>(ContractError::Claimed {}) && new == old
    } else {
        &&& tokens_view(new.tokens@) == tokens_view(old.tokens@).push((id, info.sender@, Some(old.metadata_uri@)))
        &&& extensions(new.tokens@) == extensions(old.tokens@).push(extension)
        &&& new.token_count == old.token_count + 1
        &&& same_settings(old, new)
        &&& r is Ok && responds(r->Ok_0, seq![("action"@, "mint"@), ("owner"@, info.sender@), ("token_id"@, id)])
    }
}

/// The address of a validated user, or nothing when validation failed.
pub open spec fn addr_of(u: Result<String, StdError>) -> Seq<char> {
    match u {
        Ok(a) => a@,
        Err(_) => Seq::empty(),
    }
}

/// The `i`-th user of a `MintTo` gets a POAP: the address is valid and the id
/// of the new token is free.
pub open spec fn mint_to_user_ok(tokens: Seq<TokenV>, count: u64, users: Seq<Result<String, StdError>>, i: int) -> bool {
    &&& users[i] is Ok
    &&& !has_token(tokens, decimal((count + i) as nat))
}

/// The tokens that `MintTo` adds: one per user, with consecutive ids.
pub open spec fn minted_tokens(count: u64, users: Seq<Result<String, StdError>>, uri: Seq<char>) -> Seq<TokenV> {
    Seq::new(users.len(), |i: int| (decimal((count + i) as nat), addr_of(users[i]), Some(uri)))
}

/// What `mint_to` does: the minter mints one POAP per listed user, or nothing
/// when one of them cannot get one.
pub open spec fn mint_to_post<T: Clone>(old: PoapContract<T>, new: PoapContract<T>, info: MessageInfo, users: Seq<Result<String, StdError>>,
    extension: T, r: Result<Outcome, ContractError>) -> bool {
    let tv = tokens_view(old.tokens@);
    let count = old.token_count;
    if old.minter@ != info.sender@ {
        r == Err::<Outcome, ContractError>(ContractError::MintUnauthorized {}) && new == old
    } else if forall|i: int| 0 <= i < users.len() ==> #[trigger] mint_to_user_ok(tv, count, users, i) {
        &&& tokens_view(new.tokens@) == tv + minted_tokens(count, users, old.metadata_uri@)
        &&& extensions(new.tokens@).take(old.tokens@.len() as int) == extensions(old.tokens@)
        &&& forall|k: int| old.tokens@.len() <= k < new.tokens@.len() ==> cloned(extension, #[trigger] extensions(new.tokens@)[k])
        &&& new.token_count == count + users.len()
        &&& same_settings(old, new)
        &&& r is Ok && responds(r->Ok_0, seq![("action"@, "mint_to"@), ("minter"@, info.sender@),
            ("token_ids"@, joined_ids(count as nat, users.len()))])
    } else {
        new == old && exists|i: int| 0 <= i < users.len() && !mint_to_user_ok(tv, count, users, i)
            && (forall|j: int| 0 <= j < i ==> #[trigger] mint_to_user_ok(tv, count, users, j))
            && r == Err::<Outcome, ContractError>(match users[i] {
                Err(e) => ContractError::Std(e),
                Ok(_) => ContractError::Claimed {},
            })
    }
}

} // verus!

verus! {

impl<T: Clone> PoapContract<T> {
    /// Transfers a POAP: allowed only when POAPs are transferable, then handed
    /// to the CW721 base contract.
    pub fn transfer_poap(&self) -> (r: Result<Outcome, ContractError>)
        ensures
            if self.is_transferable { r matches Ok(Outcome::Forward) } else {
                r == Err::<Outcome, ContractError>(ContractError::TransferDisabled {})
            },
    {
        match self.assert_is_transferable() {
            Ok(()) => Ok(Outcome::Forward),
            Err(e) => Err(e),
        }
    }

    /// Sends a POAP to a contract: allowed only when POAPs are transferable.
    pub fn send_poap(&self) -> (r: Result<Outcome, ContractError>)
        ensures
            if self.is_transferable { r matches Ok(Outcome::Forward) } else {
                r == Err::<Outcome, ContractError>(ContractError::TransferDisabled {})
            },
    {
        self.transfer_poap()
    }

    /// Updates the minter; only the admin may. `minter_addr` is the validation
    /// of the new minter address.
    pub fn update_minter(&mut self, info: &MessageInfo, minter_addr: Result<String, StdError>) -> (r: Result<Outcome, ContractError>)
        ensures
            update_minter_post(*old(self), *final(self), *info, minter_addr, r),
    {
        match self.assert_is_admin(&info.sender) {
            Ok(()) => {},
            Err(e) => return Err(e),
        }
        let m = match minter_addr { Ok(m) => m, Err(e) => return Err(ContractError::Std(e)) };
        let mut resp: Response<()> = Response::new();
        resp.add_attribute("action", "update_minter");
        resp.add_attribute("sender", info.sender.as_str());
        resp.add_attribute("new_minter", m.as_str());
        proof {
            assert(attrs_view(resp.attributes@) =~= seq![("action"@, "update_minter"@), ("sender"@, info.sender@), ("new_minter"@, m@)]);
        }
        self.minter = m;
        Ok(Outcome::Respond(resp))
    }

    /// Sets whether users may mint; only the admin may.
    pub fn set_mintable(&mut self, info: &MessageInfo, mintable: bool) -> (r: Result<Outcome, ContractError>)
        ensures
            set_mintable_post(*old(self), *final(self), *info, mintable, r),
    {
        match self.assert_is_admin(&info.sender) {
            Ok(()) => {},
            Err(e) => return Err(e),
        }
        self.is_mintable = mintable;
        let mut resp: Response<()> = Response::new();
        resp.add_attribute("action", "set_mintable");
        resp.add_attribute("sender", info.sender.as_str());
        resp.add_attribute("mintable", bool_to_string(mintable));
        proof {
            assert(attrs_view(resp.attributes@) =~= seq![("action"@, "set_mintable"@), ("sender"@, info.sender@), ("mintable"@, bool_text(mintable))]);
        }
        Ok(Outcome::Respond(resp))
    }

    /// Sets whether POAPs may change hands; only the admin may.
    pub fn set_transferable(&mut self, info: &MessageInfo, transferable: bool) -> (r: Result<Outcome, ContractError>)
        ensures
            set_transferable_post(*old(self), *final(self), *info, transferable, r),
    {
        match self.assert_is_admin(&info.sender) {
            Ok(()) => {},
            Err(e) => return Err(e),
        }
        self.is_transferable = transferable;
        let mut resp: Response<()> = Response::new();
        resp.add_attribute("action", "set_transferable");
        resp.add_attribute("sender", info.sender.as_str());
        resp.add_attribute("transferable", bool_to_string(transferable));
        proof {
            assert(attrs_view(resp.attributes@) =~= seq![("action"@, "set_transferable"@), ("sender"@, info.sender@), ("transferable"@, bool_text(transferable))]);
        }
        Ok(Outcome::Respond(resp))
    }

    /// Sets the minting window; only the admin may, and the start must lie
    /// before the end.
    pub fn set_mint_start_end_time(&mut self, info: &MessageInfo, start_time: Option<u64>, end_time: Option<u64>)
        -> (r: Result<Outcome, ContractError>)
        ensures
            set_time_post(*old(self), *final(self), *info, start_time, end_time, r),
    {
        match self.assert_is_admin(&info.sender) {
            Ok(()) => {},
            Err(e) => return Err(e),
        }
        match (start_time, end_time) {
            (Some(s), Some(e)) => if s >= e {
                return Err(ContractError::InvalidTimestampValues {});
            },
            _ => {},
        }
        self.mint_start_time = start_time;
        self.mint_end_time = end_time;
        let start_text = opt_time_to_string(start_time);
        let end_text = opt_time_to_string(end_time);
        let mut resp: Response<()> = Response::new();
        resp.add_attribute("action", "set_mint_start_end_time");
        resp.add_attribute("sender", info.sender.as_str());
        resp.add_attribute("start_time", start_text.as_str());
        resp.add_attribute("end_time", end_text.as_str());
        proof {
            assert(attrs_view(resp.attributes@) =~= seq![("action"@, "set_mint_start_end_time"@), ("sender"@, info.sender@),
                ("start_time"@, opt_time_text(start_time)), ("end_time"@, opt_time_text(end_time))]);
        }
        Ok(Outcome::Respond(resp))
    }

    /// Mints a POAP with `extension` for the sender when the sender may mint.
    pub fn mint(&mut self, env: &Env, info: &MessageInfo, extension: T) -> (r: Result<Outcome, ContractError>)
        requires
            old(self).token_count < u64::MAX,
        ensures
            mint_post(*old(self), *final(self), *env, *info, extension, r),
    {
        match self.assert_user_can_mint(&info.sender, env) {
            Ok(()) => {},
            Err(e) => return Err(e),
        }
        let token_id = match self.mint_to_user(&info.sender, extension) {
            Ok(t) => t,
            Err(e) => return Err(e),
        };
        let mut resp: Response<()> = Response::new();
        resp.add_attribute("action", "mint");
        resp.add_attribute("owner", info.sender.as_str());
        resp.add_attribute("token_id", token_id.as_str());
        proof {
            assert(attrs_view(resp.attributes@) =~= seq![("action"@, "mint"@), ("owner"@, info.sender@), ("token_id"@, token_id@)]);
        }
        Ok(Outcome::Respond(resp))
    }

    /// Mints a POAP for each user; only the minter may. `users` are the
    /// validations of the listed addresses. Nothing is minted if one user
    /// cannot get a POAP.
    #[verifier::loop_isolation(false)]
    pub fn mint_to(&mut self, info: &MessageInfo, users: Vec<Result<String, StdError>>, extension: T) -> (r: Result<Outcome, ContractError>)
        requires
            old(self).token_count as int + users@.len() < u64::MAX,
        ensures
            mint_to_post(*old(self), *final(self), *info, users@, extension, r),
    {
        match self.assert_is_minter(&info.sender) {
            Ok(()) => {},
            Err(e) => return Err(e),
        }
        let ghost tv = tokens_view(self.tokens@);
        let count = self.token_count;
        let mut i: usize = 0;
        while i < users.len()
            invariant
                i <= users.len(),
                forall|j: int| 0 <= j < i ==> #[trigger] mint_to_user_ok(tv, count, users@, j),
            decreases users.len() - i,
        {
            match &users[i] {
                Ok(_) => {},
                Err(e) => {
                    let err = e.duplicate();
                    assert(!mint_to_user_ok(tv, count, users@, i as int));
                    return Err(ContractError::Std(err));
                },
            }
            let id = u128_to_decimal((count as u128) + (i as u128));
            let mut k: usize = 0;
            while k < self.tokens.len()
                invariant
                    k <= self.tokens.len(),
                    forall|q: int| 0 <= q < k ==> (#[trigger] tv[q]).0 != id@,
                decreases self.tokens.len() - k,
            {
                if self.tokens[k].token_id == id {
                    assert(tv[k as int].0 == id@);
                    assert(!mint_to_user_ok(tv, count, users@, i as int));
                    return Err(ContractError::Claimed {});
                }
                k = k + 1;
            }
            assert(!has_token(tv, id@)) by {
                if has_token(tv, id@) {
                    let q = choose|q: int| 0 <= q < tv.len() && (#[trigger] tv[q]).0 == id@;
                }
            }
            assert(mint_to_user_ok(tv, count, users@, i as int));
            i = i + 1;
        }
        let mut ids = String::new();
        let mut n: usize = 0;
        let ghost uri = self.metadata_uri@;
        proof { reveal_strlit(", "); }
        while n < users.len()
            invariant
                n <= users.len(),
                forall|j: int| 0 <= j < users@.len() ==> #[trigger] mint_to_user_ok(tv, count, users@, j),
                self.token_count == count + n,
                tokens_view(self.tokens@) == tv + minted_tokens(count, users@, uri).take(n as int),
                extensions(self.tokens@).take(tv.len() as int) == extensions(old(self).tokens@),
                forall|k: int| tv.len() <= k < self.tokens@.len() ==> cloned(extension, #[trigger] extensions(self.tokens@)[k]),
                self.metadata_uri@ == uri,
                same_settings(*old(self), *self),
                ids@ == joined_ids(count as nat, n as nat),
            decreases users.len() - n,
        {
            let addr = match &users[n] {
                Ok(a) => a.clone(),
                Err(_) => String::new(),
            };
            assert(mint_to_user_ok(tv, count, users@, n as int));
            assert(addr@ == addr_of(users@[n as int]));
            let ghost cur = tokens_view(self.tokens@);
            proof {
                let id = decimal((count + n) as nat);
                assert(!has_token(cur, id)) by {
                    if has_token(cur, id) {
                        let q = choose|q: int| 0 <= q < cur.len() && (#[trigger] cur[q]).0 == id;
                        if q >= tv.len() {
                            let m = q - tv.len();
                            assert(cur[q] == minted_tokens(count, users@, uri)[m]);
                            lemma_decimal_injective((count + m) as nat, (count + n) as nat);
                        } else {
                            assert(cur[q] == tv[q]);
                        }
                    }
                }
            }
            let ext = extension.clone();
            let ghost ext_v = ext;
            assert(cloned(extension, ext_v));
            let ghost before = extensions(self.tokens@);
            let token_id = match self.mint_to_user(&addr, ext) {
                Ok(t) => t,
                Err(e) => return Err(e),
            };
            proof {
                let after = extensions(self.tokens@);
                assert(after.take(tv.len() as int) =~= before.take(tv.len() as int));
                assert forall|k: int| tv.len() <= k < self.tokens@.len() implies cloned(extension, #[trigger] after[k]) by {
                    assert(after == before.push(ext_v));
                    if k < before.len() {
                        assert(after[k] == before[k]);
                    } else {
                        assert(after.len() == self.tokens@.len());
                        assert(k == before.len());
                        assert(before.push(ext_v)[k] == ext_v);
                    }
                }
            }
            if n > 0 {
                ids.append(", ");
            }
            ids.append(token_id.as_str());
            proof {
                assert(tokens_view(self.tokens@) =~= tv + minted_tokens(count, users@, uri).take(n + 1));
            }
            n = n + 1;
        }
        proof {
            assert(minted_tokens(count, users@, uri).take(users@.len() as int) =~= minted_tokens(count, users@, uri));
        }
        let mut resp: Response<()> = Response::new();
        resp.add_attribute("action", "mint_to");
        resp.add_attribute("minter", info.sender.as_str());
        resp.add_attribute("token_ids", ids.as_str());
        proof {
            assert(attrs_view(resp.attributes@) =~= seq![("action"@, "mint_to"@), ("minter"@, info.sender@),
                ("token_ids"@, joined_ids(count as nat, users@.len()))]);
        }
        Ok(Outcome::Respond(resp))
    }
}

} // verus!

verus! {

/// How many addresses a message names: the new minter of `UpdateMinter`, the
/// users of `MintTo`.
pub open spec fn named_addresses<T>(msg: ExecuteMsg<T>) -> nat {
    match msg {
        ExecuteMsg::UpdateMinter { .. } => 1,
        ExecuteMsg::MintTo { users, .. } => users@.len(),
        _ => 0,
    }
}

/// The counter of tokens leaves room for what the message may mint.
pub open spec fn room_to_mint<T>(c: PoapContract<T>, msg: ExecuteMsg<T>) -> bool {
    match msg {
        ExecuteMsg::Mint { .. } => c.token_count < u64::MAX,
        ExecuteMsg::MintTo { users, .. } => c.token_count as int + users@.len() < u64::MAX,
        _ => true,
    }
}

/// What executing `msg` does; `addrs` are the validations of the addresses
/// that the message names, in order.
pub open spec fn execute_post<T: Clone>(old: PoapContract<T>, new: PoapContract<T>, env: Env, info: MessageInfo, msg: ExecuteMsg<T>,
    addrs: Seq<Result<String, StdError>>, r: Result<Outcome, ContractError>) -> bool {
    match msg {
        ExecuteMsg::TransferNft { .. } | ExecuteMsg::SendNft { .. } => new == old && (
            if old.is_transferable { r matches Ok(Outcome::Forward) } else { r == Err::<Outcome, ContractError>(ContractError::TransferDisabled {}) }),
        ExecuteMsg::UpdateMinter { .. } => update_minter_post(old, new, info, addrs[0], r),
        ExecuteMsg::SetMintable { mintable } => set_mintable_post(old, new, info, mintable, r),
        ExecuteMsg::SetTransferable { transferable } => set_transferable_post(old, new, info, transferable, r),
        ExecuteMsg::SetMintStartEndTime { start_time, end_time } => set_time_post(old, new, info, start_time, end_time, r),
        ExecuteMsg::Mint { extension } => mint_post(old, new, env, info, extension, r),
        ExecuteMsg::MintTo { extension, .. } => mint_to_post(old, new, info, addrs, extension, r),
        _ => new == old && r matches Ok(Outcome::Forward),
    }
}

/// The queries that the contract answers itself.
pub enum QueryMsg {
    Minter {},
    IsMintable {},
    IsTransferable {},
    MintStartEndTime {},
}

/// The answers to the queries.
#[derive(Debug, PartialEq, Eq)]
pub enum QueryResponse {
    Minter { minter: Option<String> },
    IsMintable { is_mintable: bool },
    IsTransferable { is_transferable: bool },
    MintStartEndTime { start_time: Option<u64>, end_time: Option<u64> },
}

impl<T: Clone> PoapContract<T> {
    /// Executes a message. Transfers and sends pass the POAP rules first;
    /// approvals, revocations and burns go to the CW721 base contract as they
    /// are. `addrs` are the validations of the addresses that the message names.
    pub fn execute(&mut self, env: &Env, info: &MessageInfo, msg: ExecuteMsg<T>, addrs: Vec<Result<String, StdError>>)
        -> (r: Result<Outcome, ContractError>)
        requires
            addrs@.len() == named_addresses(msg),
            room_to_mint(*old(self), msg),
        ensures
            execute_post(*old(self), *final(self), *env, *info, msg, addrs@, r),
    {
        let mut addrs = addrs;
        match msg {
            ExecuteMsg::TransferNft { .. } => self.transfer_poap(),
            ExecuteMsg::SendNft { .. } => self.send_poap(),
            ExecuteMsg::UpdateMinter { .. } => {
                let a = addrs.remove(0);
                self.update_minter(info, a)
            },
            ExecuteMsg::SetMintable { mintable } => self.set_mintable(info, mintable),
            ExecuteMsg::SetTransferable { transferable } => self.set_transferable(info, transferable),
            ExecuteMsg::SetMintStartEndTime { start_time, end_time } => self.set_mint_start_end_time(info, start_time, end_time),
            ExecuteMsg::Mint { extension } => self.mint(env, info, extension),
            ExecuteMsg::MintTo { extension, .. } => self.mint_to(info, addrs, extension),
            _ => Ok(Outcome::Forward),
        }
    }

    /// The minter.
    pub fn minter(&self) -> (r: QueryResponse)
        ensures
            r matches QueryResponse::Minter { minter: Some(m) } && m == self.minter,
    {
        QueryResponse::Minter { minter: Some(self.minter.clone()) }
    }

    /// Whether users may mint.
    pub fn is_mintable(&self) -> (r: QueryResponse)
        ensures
            r == (QueryResponse::IsMintable { is_mintable: self.is_mintable }),
    {
        QueryResponse::IsMintable { is_mintable: self.is_mintable }
    }

    /// Whether POAPs may change hands.
    pub fn is_transferable(&self) -> (r: QueryResponse)
        ensures
            r == (QueryResponse::IsTransferable { is_transferable: self.is_transferable }),
    {
        QueryResponse::IsTransferable { is_transferable: self.is_transferable }
    }

    /// The minting window.
    pub fn mint_start_end_time(&self) -> (r: QueryResponse)
        ensures
            r == (QueryResponse::MintStartEndTime { start_time: self.mint_start_time, end_time: self.mint_end_time }),
    {
        QueryResponse::MintStartEndTime { start_time: self.mint_start_time, end_time: self.mint_end_time }
    }

    /// Answers a query of the contract's own.
    pub fn query(&self, msg: QueryMsg) -> (r: QueryResponse)
        ensures
            match msg {
                QueryMsg::Minter {} => r matches QueryResponse::Minter { minter: Some(m) } && m == self.minter,
                QueryMsg::IsMintable {} => r == (QueryResponse::IsMintable { is_mintable: self.is_mintable }),
                QueryMsg::IsTransferable {} => r == (QueryResponse::IsTransferable { is_transferable: self.is_transferable }),
                QueryMsg::MintStartEndTime {} => r == (QueryResponse::MintStartEndTime { start_time: self.mint_start_time,
                    end_time: self.mint_end_time }),
            },
    {
        match msg {
            QueryMsg::Minter {} => self.minter(),
            QueryMsg::IsMintable {} => self.is_mintable(),
            QueryMsg::IsTransferable {} => self.is_transferable(),
            QueryMsg::MintStartEndTime {} => self.mint_start_end_time(),
        }
    }
}

} // verus!
