//! Inbound messages, query answers, and the response a successful transition
//! commits.
//!
//! The host hands the library plain values: the receive envelope arrives with
//! its payload already decoded (or `None` where decoding failed), and the
//! response carries the outbound token transfers and event attributes as
//! plain records for the host to serialize and dispatch.

use vstd::prelude::*;

verus! {

/// Instantiation parameters; the caller becomes the owner.
#[derive(Debug, Clone)]
pub struct InstantiateMsg {
    /// Address of the external fungible-token ledger.
    pub staking_token: String,
    /// Duration in seconds after which tokens unbond without penalty.
    pub unbond_period: u64,
    /// Liveness window in seconds.
    pub activity_interval: u64,
    /// Integer percentage of an early withdrawal diverted to the owner.
    pub penalty_percentage: u64,
}

/// Payload of the token contract's receive envelope.
#[derive(Debug, Clone)]
pub enum Cw20HookMsg {
    /// Deposit the delivered amount and (re)set the backup address.
    Bond { backup_addr: String },
}

/// The token contract's receive envelope, as the host hands it over: the
/// logical staker, the delivered amount, and the decoded payload (`None`
/// where the payload failed to decode).
#[derive(Debug, Clone)]
pub struct ReceiveMsg {
    /// The logical staker: the account that sent tokens to the token
    /// contract.
    pub sender: String,
    /// The amount of tokens delivered with the envelope.
    pub amount: u128,
    /// The decoded payload, or `None` where it failed to decode.
    pub msg: Option<Cw20HookMsg>,
}

/// The execute surface: a closed tagged union of the transitions.
#[derive(Debug, Clone)]
pub enum ExecuteMsg {
    /// Deposit (stake) the amount of tokens sent within the message.
    Receive(ReceiveMsg),
    /// Withdraw the given amount of staked tokens and send them to the
    /// message sender, after applying the penalty if necessary.
    Unbond { amount: u128 },
    /// Claim the accrued rewards (reserved; no reward policy is defined).
    Claim,
    /// Keep-alive signal to indicate that the staker is still active.
    KeepAlive,
    /// Claim staked tokens of an inactive staker for their backup address.
    DeadmanDelay { addr: String },
    /// Update the config; unspecified fields keep their values.
    UpdateConfig {
        staking_period: Option<u64>,
        activity_interval: Option<u64>,
        penalty_percentage: Option<u64>,
    },
}

/// Ghost mirror of [`Cw20HookMsg`].
pub enum HookV {
    Bond { backup_addr: Seq<char> },
}

/// Ghost mirror of [`ReceiveMsg`].
#[verifier::ext_equal]
pub struct ReceiveV {
    pub sender: Seq<char>,
    pub amount: int,
    pub hook: Option<HookV>,
}

impl ReceiveV {
    /// The backup address carried by the decoded payload (the empty sequence
    /// where there is none).
    pub open spec fn backup_addr(self) -> Seq<char> {
        match self.hook {
            Some(HookV::Bond { backup_addr }) => backup_addr,
            None => Seq::empty(),
        }
    }
}

impl View for ReceiveMsg {
    type V = ReceiveV;

    open spec fn view(&self) -> ReceiveV {
        ReceiveV {
            sender: self.sender@,
            amount: self.amount as int,
            hook: match self.msg {
                Some(Cw20HookMsg::Bond { backup_addr }) => Some(
                    HookV::Bond { backup_addr: backup_addr@ },
                ),
                None => None,
            },
        }
    }
}

/// Ghost mirror of [`ExecuteMsg`].
pub enum MsgV {
    Receive(ReceiveV),
    Unbond { amount: int },
    Claim,
    KeepAlive,
    DeadmanDelay { addr: Seq<char> },
    UpdateConfig {
        staking_period: Option<int>,
        activity_interval: Option<int>,
        penalty_percentage: Option<int>,
    },
}

impl MsgV {
    /// Field ranges of a message an [`ExecuteMsg`] can hold.
    pub open spec fn wf(self) -> bool {
        match self {
            MsgV::Receive(rv) => 0 <= rv.amount <= u128::MAX,
            MsgV::Unbond { amount } => 0 <= amount <= u128::MAX,
            MsgV::UpdateConfig { staking_period, activity_interval, penalty_percentage } => {
                &&& (staking_period matches Some(v) ==> 0 <= v <= u64::MAX)
                &&& (activity_interval matches Some(v) ==> 0 <= v <= u64::MAX)
                &&& (penalty_percentage matches Some(v) ==> 0 <= v <= u64::MAX)
            },
            _ => true,
        }
    }
}

impl View for ExecuteMsg {
    type V = MsgV;

    open spec fn view(&self) -> MsgV {
        match self {
            ExecuteMsg::Receive(r) => MsgV::Receive(r@),
            ExecuteMsg::Unbond { amount } => MsgV::Unbond { amount: *amount as int },
            ExecuteMsg::Claim => MsgV::Claim,
            ExecuteMsg::KeepAlive => MsgV::KeepAlive,
            ExecuteMsg::DeadmanDelay { addr } => MsgV::DeadmanDelay { addr: addr@ },
            ExecuteMsg::UpdateConfig { staking_period, activity_interval, penalty_percentage } => (
            MsgV::UpdateConfig {
                staking_period: match staking_period {
                    Some(v) => Some(*v as int),
                    None => None,
                },
                activity_interval: match activity_interval {
                    Some(v) => Some(*v as int),
                    None => None,
                },
                penalty_percentage: match penalty_percentage {
                    Some(v) => Some(*v as int),
                    None => None,
                },
            }),
        }
    }
}

/// The query surface.
#[derive(Debug, Clone)]
pub enum QueryMsg {
    /// Returns the current config.
    Config,
    /// Returns the global state.
    State,
    /// Returns the stake record of the given staker.
    StakerInfo { staker: String },
}

/// Answer to [`QueryMsg::Config`].
#[derive(Debug, Clone)]
pub struct ConfigResponse {
    pub owner: String,
    pub staking_token: String,
    pub unbond_period: u64,
    pub activity_interval: u64,
    pub penalty_percentage: u64,
}

/// Answer to [`QueryMsg::State`].
#[derive(Debug, Clone)]
pub struct StateResponse {
    pub total_bound_amount: u128,
}

/// Answer to [`QueryMsg::StakerInfo`].
#[derive(Debug, Clone)]
pub struct StakerInfoResponse {
    pub staker: String,
    pub time_until: u64,
    pub backup_addr: String,
    pub amount: u128,
    pub last_time_active: u64,
}

/// The answer a query returns, for the host to serialize.
#[derive(Debug, Clone)]
pub enum QueryAnswer {
    Config(ConfigResponse),
    State(StateResponse),
    StakerInfo(StakerInfoResponse),
}

/// One outbound token transfer: the host directs it at the staking token
/// contract as a transfer of `amount` to `recipient`.
#[derive(Debug, Clone)]
pub struct TransferMsg {
    /// The account the tokens go to.
    pub recipient: String,
    /// The number of tokens transferred.
    pub amount: u128,
}

/// Ghost mirror of [`TransferMsg`].
#[verifier::ext_equal]
pub struct TransferV {
    pub recipient: Seq<char>,
    pub amount: int,
}

impl View for TransferMsg {
    type V = TransferV;

    open spec fn view(&self) -> TransferV {
        TransferV { recipient: self.recipient@, amount: self.amount as int }
    }
}

impl DeepView for TransferMsg {
    type V = TransferV;

    open spec fn deep_view(&self) -> TransferV {
        self.view()
    }
}

/// One event attribute of a committed transition.
#[derive(Debug, Clone)]
pub struct Attribute {
    pub key: String,
    pub value: String,
}

/// Ghost mirror of [`Attribute`].
#[verifier::ext_equal]
pub struct AttrV {
    pub key: Seq<char>,
    pub value: Seq<char>,
}

impl View for Attribute {
    type V = AttrV;

    open spec fn view(&self) -> AttrV {
        AttrV { key: self.key@, value: self.value@ }
    }
}

impl DeepView for Attribute {
    type V = AttrV;

    open spec fn deep_view(&self) -> AttrV {
        self.view()
    }
}

/// What a successful transition commits besides the ledger: zero to two
/// outbound token transfers and the event attributes.
#[derive(Debug, Clone)]
pub struct Response {
    /// Outbound transfers, dispatched by the host after the commit.
    pub messages: Vec<TransferMsg>,
    /// Event attributes.
    pub attributes: Vec<Attribute>,
}

/// Ghost mirror of [`Response`].
#[verifier::ext_equal]
pub struct ResponseV {
    pub messages: Seq<TransferV>,
    pub attributes: Seq<AttrV>,
}

impl View for Response {
    type V = ResponseV;

    open spec fn view(&self) -> ResponseV {
        ResponseV {
            messages: self.messages.deep_view(),
            attributes: self.attributes.deep_view(),
        }
    }
}

impl Response {
    /// The empty response: no transfers, no attributes.
    pub fn new_empty() -> (r: Response)
        ensures
            r@.messages == Seq::<TransferV>::empty(),
            r@.attributes == Seq::<AttrV>::empty(),
    {
        let r = Response { messages: Vec::new(), attributes: Vec::new() };
        proof {
            assert(r@.messages =~= Seq::<TransferV>::empty());
            assert(r@.attributes =~= Seq::<AttrV>::empty());
        }
        r
    }
}

} // verus!
