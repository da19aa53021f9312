//! Outbound wire representation and its conversion from the domain event
//! model. Conversion is pure, total on well-formed events, and copies every
//! numeric field verbatim; byte payloads pass through untransformed.

use vstd::prelude::*;

use crate::events::{
    clone_bytes, clone_rewards, Message, Reward, SubscribeUpdateSlotStatus,
};

verus! {

/// Wire shape of one account write.
#[derive(Debug)]
pub struct SubscribeUpdateAccountInfo {
    pub pubkey: Vec<u8>,
    pub lamports: u64,
    pub owner: Vec<u8>,
    pub executable: bool,
    pub rent_epoch: u64,
    pub data: Vec<u8>,
    pub write_version: u64,
}

/// Wire shape of an account update.
#[derive(Debug)]
pub struct SubscribeUpdateAccount {
    pub account: Option<SubscribeUpdateAccountInfo>,
    pub slot: u64,
    pub is_startup: bool,
}

/// Wire shape of a slot update.
#[derive(Debug)]
pub struct SubscribeUpdateSlot {
    pub slot: u64,
    pub parent: Option<u64>,
    pub status: SubscribeUpdateSlotStatus,
}

/// Wire shape of one processed transaction.
#[derive(Debug)]
pub struct SubscribeUpdateTransactionInfo {
    pub signature: Vec<u8>,
    pub is_vote: bool,
    pub transaction: Option<Vec<u8>>,
    pub meta: Option<Vec<u8>>,
}

/// Wire shape of a transaction update.
#[derive(Debug)]
pub struct SubscribeUpdateTransaction {
    pub transaction: Option<SubscribeUpdateTransactionInfo>,
    pub slot: u64,
}

/// Wire shape of a block update.
#[derive(Debug)]
pub struct SubscribeUpdateBlock {
    pub slot: u64,
    pub blockhash: String,
    pub rewards: Vec<Reward>,
    pub block_time: Option<i64>,
    pub block_height: Option<u64>,
}

/// The wire payload: exactly one of the four converted event shapes.
#[derive(Debug)]
pub enum UpdateOneof {
    Slot(SubscribeUpdateSlot),
    Account(SubscribeUpdateAccount),
    Transaction(SubscribeUpdateTransaction),
    Block(SubscribeUpdateBlock),
}

/// One message of a subscriber's outbound stream: the names of the
/// subscriber's filters that matched, and the converted event payload.
#[derive(Debug)]
pub struct SubscribeUpdate {
    pub filters: Vec<String>,
    pub update_oneof: Option<UpdateOneof>,
}

/// `u` is the faithful wire conversion of the event `m`: same variant, every
/// field copied verbatim.
pub open spec fn wire_of(m: Message, u: UpdateOneof) -> bool {
    match m {
        Message::Slot(s) => match u {
            UpdateOneof::Slot(w) => {
                &&& w.slot == s.slot
                &&& w.parent == s.parent
                &&& w.status == s.status
            },
            _ => false,
        },
        Message::Account(a) => match u {
            UpdateOneof::Account(w) => {
                &&& w.slot == a.slot
                &&& w.is_startup == a.is_startup
                &&& match w.account {
                    Some(i) => {
                        &&& i.pubkey@ == a.account.pubkey.bytes@
                        &&& i.lamports == a.account.lamports
                        &&& i.owner@ == a.account.owner.bytes@
                        &&& i.executable == a.account.executable
                        &&& i.rent_epoch == a.account.rent_epoch
                        &&& i.data@ == a.account.data@
                        &&& i.write_version == a.account.write_version
                    },
                    None => false,
                }
            },
            _ => false,
        },
        Message::Transaction(t) => match u {
            UpdateOneof::Transaction(w) => {
                &&& w.slot == t.slot
                &&& match w.transaction {
                    Some(i) => {
                        &&& i.signature@ == t.transaction.signature.bytes@
                        &&& i.is_vote == t.transaction.is_vote
                        &&& match i.transaction {
                            Some(b) => b@ == t.transaction.transaction@,
                            None => false,
                        }
                        &&& match i.meta {
                            Some(b) => b@ == t.transaction.meta@,
                            None => false,
                        }
                    },
                    None => false,
                }
            },
            _ => false,
        },
        Message::Block(b) => match u {
            UpdateOneof::Block(w) => {
                &&& w.slot == b.slot
                &&& w.blockhash@ == b.blockhash@
                &&& w.rewards@ == b.rewards@
                &&& w.block_time == b.block_time
                &&& w.block_height == b.block_height
            },
            _ => false,
        },
    }
}

impl UpdateOneof {
    /// Converts a domain event into its wire payload. Pure and total: every
    /// field is copied verbatim and the conversion never fails.
    pub fn from_message(m: &Message) -> (r: UpdateOneof)
        ensures
            wire_of(*m, r),
    {
        match m {
            Message::Slot(s) => UpdateOneof::Slot(SubscribeUpdateSlot {
                slot: s.slot,
                parent: s.parent,
                status: s.status,
            }),
            Message::Account(a) => UpdateOneof::Account(SubscribeUpdateAccount {
                account: Some(SubscribeUpdateAccountInfo {
                    pubkey: clone_bytes(&a.account.pubkey.bytes),
                    lamports: a.account.lamports,
                    owner: clone_bytes(&a.account.owner.bytes),
                    executable: a.account.executable,
                    rent_epoch: a.account.rent_epoch,
                    data: clone_bytes(&a.account.data),
                    write_version: a.account.write_version,
                }),
                slot: a.slot,
                is_startup: a.is_startup,
            }),
            Message::Transaction(t) => UpdateOneof::Transaction(SubscribeUpdateTransaction {
                transaction: Some(SubscribeUpdateTransactionInfo {
                    signature: clone_bytes(&t.transaction.signature.bytes),
                    is_vote: t.transaction.is_vote,
                    transaction: Some(clone_bytes(&t.transaction.transaction)),
                    meta: Some(clone_bytes(&t.transaction.meta)),
                }),
                slot: t.slot,
            }),
            Message::Block(b) => UpdateOneof::Block(SubscribeUpdateBlock {
                slot: b.slot,
                blockhash: b.blockhash.clone(),
                rewards: clone_rewards(&b.rewards),
                block_time: b.block_time,
                block_height: b.block_height,
            }),
        }
    }
}

} // verus!
