//! Domain event model: typed representation of the four notification kinds
//! observed from the upstream producer. Values are plain data; a constructed
//! event is immutable and shared read-only across the subscribers it is
//! dispatched to.

use vstd::prelude::*;

verus! {

/// An account address: 32 bytes for a well-formed address.
#[derive(Debug)]
pub struct Pubkey {
    pub bytes: Vec<u8>,
}

/// The byte length of a well-formed account address.
pub const PUBKEY_LEN: usize = 32;

impl Pubkey {
    pub fn new(bytes: Vec<u8>) -> (r: Pubkey)
        ensures
            r.bytes@ == bytes@,
    {
        Pubkey { bytes }
    }
}

/// A transaction signature, carried through verbatim.
#[derive(Debug)]
pub struct Signature {
    pub bytes: Vec<u8>,
}

/// One staking/fee reward entry of a block, carried through verbatim.
#[derive(Debug)]
pub struct Reward {
    pub pubkey: String,
    pub lamports: i64,
    pub post_balance: u64,
    pub commission: Option<u8>,
}

/// Commitment status of a slot transition, as reported by the producer.
#[derive(Debug, Clone, Copy, PartialEq, Eq, Structural)]
pub enum SlotStatus {
    Processed,
    Confirmed,
    Rooted,
}

/// Commitment status of a slot transition, in the outbound wire shape.
#[derive(Debug, Clone, Copy, PartialEq, Eq, Structural)]
pub enum SubscribeUpdateSlotStatus {
    Processed,
    Confirmed,
    Rooted,
}

/// The wire status that corresponds to a producer-side slot status.
pub open spec fn wire_status_of(s: SlotStatus) -> SubscribeUpdateSlotStatus {
    match s {
        SlotStatus::Processed => SubscribeUpdateSlotStatus::Processed,
        SlotStatus::Confirmed => SubscribeUpdateSlotStatus::Confirmed,
        SlotStatus::Rooted => SubscribeUpdateSlotStatus::Rooted,
    }
}

/// An account write observed by the producer.
#[derive(Debug)]
pub struct MessageAccountInfo {
    pub pubkey: Pubkey,
    pub lamports: u64,
    pub owner: Pubkey,
    pub executable: bool,
    pub rent_epoch: u64,
    pub data: Vec<u8>,
    pub write_version: u64,
}

/// An account write together with the slot it happened in.
#[derive(Debug)]
pub struct MessageAccount {
    pub account: MessageAccountInfo,
    pub slot: u64,
    pub is_startup: bool,
}

/// A slot status transition.
#[derive(Debug)]
pub struct MessageSlot {
    pub slot: u64,
    pub parent: Option<u64>,
    pub status: SubscribeUpdateSlotStatus,
}

impl MessageSlot {
    /// Builds a slot event from the producer-observed facts, translating the
    /// producer's status enum into the wire status enum.
    pub fn from_parts(slot: u64, parent: Option<u64>, status: SlotStatus) -> (r: MessageSlot)
        ensures
            r.slot == slot,
            r.parent == parent,
            r.status == wire_status_of(status),
    {
        MessageSlot {
            slot,
            parent,
            status: match status {
                SlotStatus::Processed => SubscribeUpdateSlotStatus::Processed,
                SlotStatus::Confirmed => SubscribeUpdateSlotStatus::Confirmed,
                SlotStatus::Rooted => SubscribeUpdateSlotStatus::Rooted,
            },
        }
    }
}

/// A processed transaction observed by the producer. The transaction payload
/// and its status metadata are opaque to this library: byte sequences carried
/// through verbatim.
#[derive(Debug)]
pub struct MessageTransactionInfo {
    pub signature: Signature,
    pub is_vote: bool,
    pub transaction: Vec<u8>,
    pub meta: Vec<u8>,
}

/// A processed transaction together with the slot it was processed in.
#[derive(Debug)]
pub struct MessageTransaction {
    pub transaction: MessageTransactionInfo,
    pub slot: u64,
}

/// A finalized block summary.
#[derive(Debug)]
pub struct MessageBlock {
    pub slot: u64,
    pub blockhash: String,
    pub rewards: Vec<Reward>,
    pub block_time: Option<i64>,
    pub block_height: Option<u64>,
}

/// One domain event: the closed tagged union over the four notification
/// kinds the upstream producer reports.
#[derive(Debug)]
pub enum Message {
    Slot(MessageSlot),
    Account(MessageAccount),
    Transaction(MessageTransaction),
    Block(MessageBlock),
}

/// Copies a byte sequence, element for element.
pub fn clone_bytes(v: &Vec<u8>) -> (r: Vec<u8>)
    ensures
        r@ == v@,
{
    let mut r: Vec<u8> = Vec::new();
    let mut i: usize = 0;
    while i < v.len()
        invariant
            i <= v.len(),
            r@ == v@.take(i as int),
        decreases v.len() - i,
    {
        r.push(v[i]);
        i = i + 1;
        proof {
            assert(r@ =~= v@.take(i as int));
        }
    }
    proof {
        assert(r@ =~= v@);
    }
    r
}

/// Copies a reward entry, field for field.
pub fn clone_reward(r: &Reward) -> (c: Reward)
    ensures
        c == *r,
{
    Reward {
        pubkey: r.pubkey.clone(),
        lamports: r.lamports,
        post_balance: r.post_balance,
        commission: r.commission,
    }
}

/// Copies a reward sequence, entry for entry.
pub fn clone_rewards(v: &Vec<Reward>) -> (r: Vec<Reward>)
    ensures
        r@ == v@,
{
    let mut r: Vec<Reward> = Vec::new();
    let mut i: usize = 0;
    while i < v.len()
        invariant
            i <= v.len(),
            r@ == v@.take(i as int),
        decreases v.len() - i,
    {
        r.push(clone_reward(&v[i]));
        i = i + 1;
        proof {
            assert(r@ =~= v@.take(i as int));
        }
    }
    proof {
        assert(r@ =~= v@);
    }
    r
}

} // verus!
