//! What an operation answers: messages for the chain to execute and
//! attributes describing the operation.
use crate::model::{copy_u128s, copy_u64s, Duplicate};
use crate::state::{Coin, CoinModel};
use vstd::prelude::*;

verus! {

/// Messages for the chain's own modules.
#[derive(Clone, Debug, PartialEq, Eq)]
pub enum ComdexMessages {
    MsgFoundationEmission { app_id: u64, amount: u128, foundation_address: Vec<String> },
    MsgEmissionRewards { app_id: u64, amount: u128, extended_pair: Vec<u64>, voting_ratio: Vec<u128> },
    MsgEmissionPoolRewards {
        app_id: u64,
        cswap_app_id: u64,
        amount: u128,
        pools: Vec<u64>,
        voting_ratio: Vec<u128>,
    },
    MsgRebaseMint { app_id: u64, amount: u128, contract_addr: String },
    MsgGetSurplusFund { app_id: u64, asset_id: u64, contract_addr: String, amount: Coin },
}

/// A message the contract asks the chain to execute.
#[derive(Clone, Debug, PartialEq, Eq)]
pub enum CosmosMsg {
    /// Sends `amount` from the contract to `to_address`.
    BankSend { to_address: String, amount: Vec<Coin> },
    Custom(ComdexMessages),
}

pub enum MsgModel {
    BankSend { to_address: Seq<char>, amount: Seq<CoinModel> },
    FoundationEmission { app_id: u64, amount: u128, foundation_address: Seq<Seq<char>> },
    EmissionRewards { app_id: u64, amount: u128, extended_pair: Seq<u64>, voting_ratio: Seq<u128> },
    EmissionPoolRewards {
        app_id: u64,
        cswap_app_id: u64,
        amount: u128,
        pools: Seq<u64>,
        voting_ratio: Seq<u128>,
    },
    RebaseMint { app_id: u64, amount: u128, contract_addr: Seq<char> },
    GetSurplusFund { app_id: u64, asset_id: u64, contract_addr: Seq<char>, amount: CoinModel },
}

/// Model of a message for the chain's modules.
pub open spec fn comdex_model(m: &ComdexMessages) -> MsgModel {
    match m {
        ComdexMessages::MsgFoundationEmission { app_id, amount, foundation_address } =>
            MsgModel::FoundationEmission {
            app_id: *app_id,
            amount: *amount,
            foundation_address: foundation_address.deep_view(),
        },
        ComdexMessages::MsgEmissionRewards { app_id, amount, extended_pair, voting_ratio } =>
            MsgModel::EmissionRewards {
            app_id: *app_id,
            amount: *amount,
            extended_pair: extended_pair@,
            voting_ratio: voting_ratio@,
        },
        ComdexMessages::MsgEmissionPoolRewards { app_id, cswap_app_id, amount, pools, voting_ratio } =>
            MsgModel::EmissionPoolRewards {
            app_id: *app_id,
            cswap_app_id: *cswap_app_id,
            amount: *amount,
            pools: pools@,
            voting_ratio: voting_ratio@,
        },
        ComdexMessages::MsgRebaseMint { app_id, amount, contract_addr } => MsgModel::RebaseMint {
            app_id: *app_id,
            amount: *amount,
            contract_addr: contract_addr@,
        },
        ComdexMessages::MsgGetSurplusFund { app_id, asset_id, contract_addr, amount } =>
            MsgModel::GetSurplusFund {
            app_id: *app_id,
            asset_id: *asset_id,
            contract_addr: contract_addr@,
            amount: amount@,
        },
    }
}

impl DeepView for ComdexMessages {
    type V = MsgModel;

    open spec fn deep_view(&self) -> MsgModel {
        comdex_model(self)
    }
}

impl View for CosmosMsg {
    type V = MsgModel;

    open spec fn view(&self) -> MsgModel {
        match self {
            CosmosMsg::BankSend { to_address, amount } => MsgModel::BankSend {
                to_address: to_address@,
                amount: amount.deep_view(),
            },
            CosmosMsg::Custom(m) => comdex_model(m),
        }
    }
}

impl DeepView for CosmosMsg {
    type V = MsgModel;

    open spec fn deep_view(&self) -> MsgModel {
        self@
    }
}

impl Duplicate for ComdexMessages {
    fn duplicate(&self) -> (r: Self) {
        match self {
            ComdexMessages::MsgFoundationEmission { app_id, amount, foundation_address } =>
                ComdexMessages::MsgFoundationEmission {
                app_id: *app_id,
                amount: *amount,
                foundation_address: foundation_address.duplicate(),
            },
            ComdexMessages::MsgEmissionRewards { app_id, amount, extended_pair, voting_ratio } =>
                ComdexMessages::MsgEmissionRewards {
                app_id: *app_id,
                amount: *amount,
                extended_pair: copy_u64s(extended_pair),
                voting_ratio: copy_u128s(voting_ratio),
            },
            ComdexMessages::MsgEmissionPoolRewards { app_id, cswap_app_id, amount, pools, voting_ratio } =>
                ComdexMessages::MsgEmissionPoolRewards {
                app_id: *app_id,
                cswap_app_id: *cswap_app_id,
                amount: *amount,
                pools: copy_u64s(pools),
                voting_ratio: copy_u128s(voting_ratio),
            },
            ComdexMessages::MsgRebaseMint { app_id, amount, contract_addr } => ComdexMessages::MsgRebaseMint {
                app_id: *app_id,
                amount: *amount,
                contract_addr: contract_addr.clone(),
            },
            ComdexMessages::MsgGetSurplusFund { app_id, asset_id, contract_addr, amount } =>
                ComdexMessages::MsgGetSurplusFund {
                app_id: *app_id,
                asset_id: *asset_id,
                contract_addr: contract_addr.clone(),
                amount: amount.duplicate(),
            },
        }
    }
}

impl CosmosMsg {
    pub fn clone_msg(&self) -> (r: CosmosMsg)
        ensures
            r@ == self@,
    {
        match self {
            CosmosMsg::BankSend { to_address, amount } => CosmosMsg::BankSend {
                to_address: to_address.clone(),
                amount: amount.duplicate(),
            },
            CosmosMsg::Custom(m) => CosmosMsg::Custom(m.duplicate()),
        }
    }
}

/// A message as it stands in a response.
#[derive(Clone, Debug, PartialEq, Eq)]
pub struct SubMsg {
    pub msg: CosmosMsg,
}

impl View for SubMsg {
    type V = MsgModel;

    open spec fn view(&self) -> MsgModel {
        self.msg@
    }
}

impl DeepView for SubMsg {
    type V = MsgModel;

    open spec fn deep_view(&self) -> MsgModel {
        self.msg@
    }
}

#[derive(Clone, Debug, PartialEq, Eq)]
pub struct Attribute {
    pub key: String,
    pub value: String,
}

impl DeepView for Attribute {
    type V = (Seq<char>, Seq<char>);

    open spec fn deep_view(&self) -> (Seq<char>, Seq<char>) {
        (self.key@, self.value@)
    }
}

#[derive(Clone, Debug, PartialEq, Eq)]
pub struct Response {
    pub messages: Vec<SubMsg>,
    pub attributes: Vec<Attribute>,
}

pub struct ResponseModel {
    pub messages: Seq<MsgModel>,
    pub attributes: Seq<(Seq<char>, Seq<char>)>,
}

impl View for Response {
    type V = ResponseModel;

    open spec fn view(&self) -> ResponseModel {
        ResponseModel { messages: self.messages.deep_view(), attributes: self.attributes.deep_view() }
    }
}

/// The model of a response without messages and with the given attributes.
pub open spec fn attrs(a: Seq<(Seq<char>, Seq<char>)>) -> ResponseModel {
    ResponseModel { messages: Seq::empty(), attributes: a }
}

impl Response {
    pub fn new() -> (r: Response)
        ensures
            r@ == attrs(Seq::empty()),
    {
        let r = Response { messages: Vec::new(), attributes: Vec::new() };
        assert(r@.messages =~= Seq::<MsgModel>::empty());
        assert(r@.attributes =~= Seq::<(Seq<char>, Seq<char>)>::empty());
        r
    }

    pub fn add_attribute(self, key: &str, value: String) -> (r: Response)
        ensures
            r@ == (ResponseModel {
                messages: self@.messages,
                attributes: self@.attributes.push((key@, value@)),
            }),
    {
        let mut r = self;
        r.attributes.push(Attribute { key: String::from_str(key), value });
        assert(r@.attributes =~= self@.attributes.push((key@, value@)));
        r
    }

    pub fn add_attribute_str(self, key: &str, value: &str) -> (r: Response)
        ensures
            r@ == (ResponseModel {
                messages: self@.messages,
                attributes: self@.attributes.push((key@, value@)),
            }),
    {
        self.add_attribute(key, String::from_str(value))
    }

    pub fn add_message(self, msg: CosmosMsg) -> (r: Response)
        ensures
            r@ == (ResponseModel { messages: self@.messages.push(msg@), attributes: self@.attributes }),
    {
        let mut r = self;
        let ghost m = msg@;
        r.messages.push(SubMsg { msg });
        assert(r@.messages =~= self@.messages.push(m));
        r
    }
}

} // verus!
