//! The block, the contract and the message that an operation runs with.
use crate::decimal::Timestamp;
use crate::state::{Coin, CoinModel};
use vstd::prelude::*;

verus! {

#[derive(Clone, Debug, PartialEq, Eq)]
pub struct BlockInfo {
    pub height: u64,
    pub time: Timestamp,
    pub chain_id: String,
}

#[derive(Clone, Debug, PartialEq, Eq)]
pub struct ContractInfo {
    pub address: String,
}

#[derive(Clone, Debug, PartialEq, Eq)]
pub struct Env {
    pub block: BlockInfo,
    pub contract: ContractInfo,
}

pub struct EnvModel {
    pub height: u64,
    pub time: Timestamp,
    pub contract: Seq<char>,
}

impl View for Env {
    type V = EnvModel;

    open spec fn view(&self) -> EnvModel {
        EnvModel { height: self.block.height, time: self.block.time, contract: self.contract.address@ }
    }
}

/// The sender of a message and the funds sent with it.
#[derive(Clone, Debug, PartialEq, Eq)]
pub struct MessageInfo {
    pub sender: String,
    pub funds: Vec<Coin>,
}

pub struct MessageInfoModel {
    pub sender: Seq<char>,
    pub funds: Seq<CoinModel>,
}

impl View for MessageInfo {
    type V = MessageInfoModel;

    open spec fn view(&self) -> MessageInfoModel {
        MessageInfoModel { sender: self.sender@, funds: self.funds.deep_view() }
    }
}

} // verus!
