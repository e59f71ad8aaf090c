//! The records of the engine that is a skeleton of an engine, and the bytes
//! that they are stored as.

use vstd::prelude::*;
use vstd::bytes::{
    lemma_auto_spec_u64_to_from_le_bytes, spec_u64_from_le_bytes, spec_u64_to_le_bytes,
    u64_from_le_bytes, u64_to_le_bytes,
};
use vstd::slice::slice_subrange;
use crate::codec::append_bytes;

verus! {

/// Why the bytes of a record could not be read.
#[derive(Clone, Copy, Debug, PartialEq, Eq, Structural)]
pub enum ParseError {
    /// The bytes end before the record does.
    UnexpectedEof,
}

/// The number of bytes in a hash, and in every field of bytes.
pub const HASH_LEN: usize = 32;

/// The field of 32 bytes that starts at `at`.
fn read_field(bytes: &[u8], at: usize) -> (r: [u8; 32])
    requires
        at + 32 <= bytes@.len(),
    ensures
        r@ == bytes@.subrange(at as int, at + 32),
{
    let n = bytes.len();
    let mut field = [0u8; 32];
    let mut i: usize = 0;
    while i < 32
        invariant
            i <= 32,
            at + 32 <= n,
            n == bytes@.len(),
            forall|j: int| 0 <= j < i ==> field@[j] == bytes@[at + j],
        decreases 32 - i,
    {
        field[i] = bytes[at + i];
        i += 1;
    }
    assert(field@ =~= bytes@.subrange(at as int, at + 32));
    field
}

/// The number of eight bytes, the least significant first, that starts at
/// `at`.
fn read_u64(bytes: &[u8], at: usize) -> (r: u64)
    requires
        at + 8 <= bytes@.len(),
    ensures
        r == spec_u64_from_le_bytes(bytes@.subrange(at as int, at + 8)),
{
    let n = bytes.len();
    assert(at + 8 <= n);
    u64_from_le_bytes(slice_subrange(bytes, at, at + 8))
}

fn write_u64(out: &mut Vec<u8>, x: u64)
    ensures
        final(out)@ == old(out)@ + spec_u64_to_le_bytes(x),
{
    let b = u64_to_le_bytes(x);
    append_bytes(out, b.as_slice());
}

fn write_field(out: &mut Vec<u8>, field: &[u8; 32])
    ensures
        final(out)@ == old(out)@ + field@,
{
    let mut i: usize = 0;
    while i < 32
        invariant
            i <= 32,
            out@ == old(out)@ + field@.take(i as int),
        decreases 32 - i,
    {
        out.push(field[i]);
        assert(field@.take(i as int).push(field@[i as int]) =~= field@.take(i + 1));
        assert(out@ =~= old(out)@ + field@.take(i + 1));
        i += 1;
    }
    assert(field@.take(32) =~= field@);
}

/// An account.
#[derive(Clone, Copy, Debug, PartialEq, Eq, PartialOrd, Ord, Hash)]
pub struct PanicAccount {
    pub balance: u64,
    pub nonce: u64,
}

/// A block.
#[derive(Clone, Copy, Debug, PartialEq, Eq, PartialOrd, Ord, Hash)]
pub struct PanicBlock {
    pub number: u64,
    pub parent_hash: [u8; 32],
    pub tx_hash: [u8; 32],
    pub state_hash: [u8; 32],
    pub receipts_hash: [u8; 32],
    pub extra_data: [u8; 32],
    pub logs_block_hash: [u8; 32],
    pub proposer: [u8; 32],
    pub seal: [u8; 32],
    pub hash: [u8; 32],
}

/// The header of a block.
#[derive(Clone, Copy, Debug, PartialEq, Eq, PartialOrd, Ord, Hash)]
pub struct PanicHeader {
    pub number: u64,
    pub parent_hash: [u8; 32],
    pub tx_hash: [u8; 32],
    pub state_hash: [u8; 32],
    pub receipts_hash: [u8; 32],
    pub extra_data: [u8; 32],
    pub logs_block_hash: [u8; 32],
    pub proposer: [u8; 32],
    pub seal: [u8; 32],
    pub hash: [u8; 32],
}

/// A transaction.
#[derive(Clone, Copy, Debug, PartialEq, Eq, PartialOrd, Ord, Hash)]
pub struct PanicTransaction {
    pub nonce: u64,
    pub gas_price: u64,
    pub gas_limit: u64,
    pub action: [u8; 32],
    pub data: [u8; 32],
    pub signature: [u8; 32],
    pub hash: [u8; 32],
}

/// The receipt of a transaction.
#[derive(Clone, Copy, Debug, PartialEq, Eq, PartialOrd, Ord, Hash)]
pub struct PanicReceipt {
    pub state_root: [u8; 32],
    pub gas_used: u64,
    pub logs: [u8; 32],
    pub bloom: [u8; 32],
    pub error: [u8; 32],
    pub output: [u8; 32],
    pub hash: [u8; 32],
}

/// A log.
#[derive(Clone, Copy, Debug, PartialEq, Eq, PartialOrd, Ord, Hash)]
pub struct PanicLog {
    pub address: [u8; 32],
    pub topics: [u8; 32],
    pub data: [u8; 32],
    pub hash: [u8; 32],
}

#[derive(Clone, Copy, Debug, PartialEq, Eq, PartialOrd, Ord, Hash)]
pub struct PanicLogBloom {
    pub bloom: [u8; 32],
    pub hash: [u8; 32],
}

#[derive(Clone, Copy, Debug, PartialEq, Eq, PartialOrd, Ord, Hash)]
pub struct PanicLogEntry {
    pub address: [u8; 32],
    pub topics: [u8; 32],
    pub data: [u8; 32],
    pub hash: [u8; 32],
}

#[derive(Clone, Copy, Debug, PartialEq, Eq, PartialOrd, Ord, Hash)]
pub struct PanicLogEntryBloom {
    pub bloom: [u8; 32],
    pub hash: [u8; 32],
}

#[derive(Clone, Copy, Debug, PartialEq, Eq, PartialOrd, Ord, Hash)]
pub struct PanicLogTopic {
    pub topic: [u8; 32],
    pub hash: [u8; 32],
}

#[derive(Clone, Copy, Debug, PartialEq, Eq, PartialOrd, Ord, Hash)]
pub struct PanicLogTopicBloom {
    pub bloom: [u8; 32],
    pub hash: [u8; 32],
}

#[derive(Clone, Copy, Debug, PartialEq, Eq, PartialOrd, Ord, Hash)]
pub struct PanicAccountBalance {
    pub balance: u64,
    pub hash: [u8; 32],
}

#[derive(Clone, Copy, Debug, PartialEq, Eq, PartialOrd, Ord, Hash)]
pub struct PanicAccountNonce {
    pub nonce: u64,
    pub hash: [u8; 32],
}

#[derive(Clone, Copy, Debug, PartialEq, Eq, PartialOrd, Ord, Hash)]
pub struct PanicAccountCode {
    pub code: [u8; 32],
    pub hash: [u8; 32],
}

/// The transactions of a block.
#[derive(Debug, PartialEq, Eq, PartialOrd, Ord, Hash)]
pub struct PanicBlockBody {
    pub transactions: Vec<String>,
}

/// The header of a block as a store of headers keeps it.
#[derive(Debug, PartialEq, Eq, PartialOrd, Ord, Hash)]
pub struct PanicBlockHeaderDB {
    pub number: u64,
    pub parent_hash: String,
    pub timestamp: u64,
}

/// The header of a block in full.
#[derive(Debug, PartialEq, Eq, PartialOrd, Ord, Hash)]
pub struct PanicBlockHeader {
    pub number: u64,
    pub parent_hash: String,
    pub timestamp: u64,
    pub state_root: [u8; 32],
    pub transactions_root: [u8; 32],
    pub receipts_root: [u8; 32],
    pub logs_bloom: [u8; 32],
    pub difficulty: u64,
    pub gas_limit: u64,
    pub gas_used: u64,
    pub extra_data: String,
    pub mix_hash: String,
    pub nonce: String,
    pub seal_fields: Vec<String>,
    pub sha3_uncles: String,
    pub size: u64,
    pub total_difficulty: u64,
    pub transactions: Vec<String>,
}

impl PanicBlockBody {
    pub fn new(transactions: Vec<String>) -> (r: PanicBlockBody)
        ensures
            r.transactions == transactions,
    {
        PanicBlockBody { transactions }
    }
}

impl PanicBlockHeaderDB {
    pub fn new(number: u64, parent_hash: String, timestamp: u64) -> (r: PanicBlockHeaderDB)
        ensures
            r.number == number,
            r.parent_hash == parent_hash,
            r.timestamp == timestamp,
    {
        PanicBlockHeaderDB { number, parent_hash, timestamp }
    }
}

/// The bytes of a transaction: the three numbers, each in eight bytes with
/// the least significant first, then the four fields.
pub open spec fn transaction_bytes(t: PanicTransaction) -> Seq<u8> {
    spec_u64_to_le_bytes(t.nonce) + spec_u64_to_le_bytes(t.gas_price) + spec_u64_to_le_bytes(
        t.gas_limit,
    ) + t.action@ + t.data@ + t.signature@ + t.hash@
}

/// The bytes of a receipt: the state root, the gas used in eight bytes with
/// the least significant first, then the other five fields.
pub open spec fn receipt_bytes(r: PanicReceipt) -> Seq<u8> {
    r.state_root@ + spec_u64_to_le_bytes(r.gas_used) + r.logs@ + r.bloom@ + r.error@ + r.output@
        + r.hash@
}

/// The bytes of a log: its four fields.
pub open spec fn log_bytes(l: PanicLog) -> Seq<u8> {
    l.address@ + l.topics@ + l.data@ + l.hash@
}

/// The number of bytes of a transaction.
pub const TRANSACTION_LEN: usize = 152;

/// The number of bytes of a receipt.
pub const RECEIPT_LEN: usize = 200;

/// The number of bytes of a log.
pub const LOG_LEN: usize = 128;

impl PanicTransaction {
    pub fn new(
        nonce: u64,
        gas_price: u64,
        gas_limit: u64,
        action: [u8; 32],
        data: [u8; 32],
        signature: [u8; 32],
        hash: [u8; 32],
    ) -> (r: PanicTransaction)
        ensures
            r == (PanicTransaction { nonce, gas_price, gas_limit, action, data, signature, hash }),
    {
        PanicTransaction { nonce, gas_price, gas_limit, action, data, signature, hash }
    }

    /// Reads a transaction from the start of `bytes`.
    pub fn new_from_bytes(bytes: &[u8]) -> (r: Result<PanicTransaction, ParseError>)
        ensures
            match r {
                Ok(t) => bytes@.len() >= TRANSACTION_LEN && transaction_fields_at(bytes@, t),
                Err(e) => bytes@.len() < TRANSACTION_LEN && e == ParseError::UnexpectedEof,
            },
    {
        if bytes.len() < TRANSACTION_LEN {
            return Err(ParseError::UnexpectedEof);
        }
        Ok(
            PanicTransaction {
                nonce: read_u64(bytes, 0),
                gas_price: read_u64(bytes, 8),
                gas_limit: read_u64(bytes, 16),
                action: read_field(bytes, 24),
                data: read_field(bytes, 56),
                signature: read_field(bytes, 88),
                hash: read_field(bytes, 120),
            },
        )
    }

    /// The bytes of the transaction.
    pub fn to_bytes(&self) -> (r: Vec<u8>)
        ensures
            r@ == transaction_bytes(*self),
            r@.len() == TRANSACTION_LEN,
    {
        let mut bytes: Vec<u8> = Vec::new();
        write_u64(&mut bytes, self.nonce);
        write_u64(&mut bytes, self.gas_price);
        write_u64(&mut bytes, self.gas_limit);
        write_field(&mut bytes, &self.action);
        write_field(&mut bytes, &self.data);
        write_field(&mut bytes, &self.signature);
        write_field(&mut bytes, &self.hash);
        proof {
            lemma_auto_spec_u64_to_from_le_bytes();
            assert(bytes@ =~= transaction_bytes(*self));
        }
        bytes
    }
}

/// Whether the fields of `t` are those that `bytes` begin with.
pub open spec fn transaction_fields_at(bytes: Seq<u8>, t: PanicTransaction) -> bool {
    &&& t.nonce == spec_u64_from_le_bytes(bytes.subrange(0, 8))
    &&& t.gas_price == spec_u64_from_le_bytes(bytes.subrange(8, 16))
    &&& t.gas_limit == spec_u64_from_le_bytes(bytes.subrange(16, 24))
    &&& t.action@ == bytes.subrange(24, 56)
    &&& t.data@ == bytes.subrange(56, 88)
    &&& t.signature@ == bytes.subrange(88, 120)
    &&& t.hash@ == bytes.subrange(120, 152)
}

/// Whether the fields of `r` are those that `bytes` begin with.
pub open spec fn receipt_fields_at(bytes: Seq<u8>, r: PanicReceipt) -> bool {
    &&& r.state_root@ == bytes.subrange(0, 32)
    &&& r.gas_used == spec_u64_from_le_bytes(bytes.subrange(32, 40))
    &&& r.logs@ == bytes.subrange(40, 72)
    &&& r.bloom@ == bytes.subrange(72, 104)
    &&& r.error@ == bytes.subrange(104, 136)
    &&& r.output@ == bytes.subrange(136, 168)
    &&& r.hash@ == bytes.subrange(168, 200)
}

/// Whether the fields of `l` are those that `bytes` begin with.
pub open spec fn log_fields_at(bytes: Seq<u8>, l: PanicLog) -> bool {
    &&& l.address@ == bytes.subrange(0, 32)
    &&& l.topics@ == bytes.subrange(32, 64)
    &&& l.data@ == bytes.subrange(64, 96)
    &&& l.hash@ == bytes.subrange(96, 128)
}

/// A transaction read from its bytes has the fields that were written.
pub proof fn lemma_transaction_round_trip(t: PanicTransaction, read: PanicTransaction)
    requires
        transaction_fields_at(transaction_bytes(t), read),
    ensures
        read.nonce == t.nonce,
        read.gas_price == t.gas_price,
        read.gas_limit == t.gas_limit,
        read.action@ == t.action@,
        read.data@ == t.data@,
        read.signature@ == t.signature@,
        read.hash@ == t.hash@,
{
    lemma_auto_spec_u64_to_from_le_bytes();
    let b = transaction_bytes(t);
    assert(b.subrange(0, 8) =~= spec_u64_to_le_bytes(t.nonce));
    assert(b.subrange(8, 16) =~= spec_u64_to_le_bytes(t.gas_price));
    assert(b.subrange(16, 24) =~= spec_u64_to_le_bytes(t.gas_limit));
    assert(b.subrange(24, 56) =~= t.action@);
    assert(b.subrange(56, 88) =~= t.data@);
    assert(b.subrange(88, 120) =~= t.signature@);
    assert(b.subrange(120, 152) =~= t.hash@);
}

impl PanicReceipt {
    pub fn new(
        state_root: [u8; 32],
        gas_used: u64,
        logs: [u8; 32],
        bloom: [u8; 32],
        error: [u8; 32],
        output: [u8; 32],
        hash: [u8; 32],
    ) -> (r: PanicReceipt)
        ensures
            r == (PanicReceipt { state_root, gas_used, logs, bloom, error, output, hash }),
    {
        PanicReceipt { state_root, gas_used, logs, bloom, error, output, hash }
    }

    /// Reads a receipt from the start of `bytes`.
    pub fn new_from_bytes(bytes: &[u8]) -> (r: Result<PanicReceipt, ParseError>)
        ensures
            match r {
                Ok(t) => bytes@.len() >= RECEIPT_LEN && receipt_fields_at(bytes@, t),
                Err(e) => bytes@.len() < RECEIPT_LEN && e == ParseError::UnexpectedEof,
            },
    {
        if bytes.len() < RECEIPT_LEN {
            return Err(ParseError::UnexpectedEof);
        }
        Ok(
            PanicReceipt {
                state_root: read_field(bytes, 0),
                gas_used: read_u64(bytes, 32),
                logs: read_field(bytes, 40),
                bloom: read_field(bytes, 72),
                error: read_field(bytes, 104),
                output: read_field(bytes, 136),
                hash: read_field(bytes, 168),
            },
        )
    }

    /// The bytes of the receipt.
    pub fn to_bytes(&self) -> (r: Vec<u8>)
        ensures
            r@ == receipt_bytes(*self),
            r@.len() == RECEIPT_LEN,
    {
        let mut bytes: Vec<u8> = Vec::new();
        write_field(&mut bytes, &self.state_root);
        write_u64(&mut bytes, self.gas_used);
        write_field(&mut bytes, &self.logs);
        write_field(&mut bytes, &self.bloom);
        write_field(&mut bytes, &self.error);
        write_field(&mut bytes, &self.output);
        write_field(&mut bytes, &self.hash);
        proof {
            lemma_auto_spec_u64_to_from_le_bytes();
            assert(bytes@ =~= receipt_bytes(*self));
        }
        bytes
    }
}

impl PanicLog {
    pub fn new(address: [u8; 32], topics: [u8; 32], data: [u8; 32], hash: [u8; 32]) -> (r: PanicLog)
        ensures
            r == (PanicLog { address, topics, data, hash }),
    {
        PanicLog { address, topics, data, hash }
    }

    /// Reads a log from the start of `bytes`.
    pub fn new_from_bytes(bytes: &[u8]) -> (r: Result<PanicLog, ParseError>)
        ensures
            match r {
                Ok(t) => bytes@.len() >= LOG_LEN && log_fields_at(bytes@, t),
                Err(e) => bytes@.len() < LOG_LEN && e == ParseError::UnexpectedEof,
            },
    {
        if bytes.len() < LOG_LEN {
            return Err(ParseError::UnexpectedEof);
        }
        Ok(
            PanicLog {
                address: read_field(bytes, 0),
                topics: read_field(bytes, 32),
                data: read_field(bytes, 64),
                hash: read_field(bytes, 96),
            },
        )
    }

    /// The bytes of the log.
    pub fn to_bytes(&self) -> (r: Vec<u8>)
        ensures
            r@ == log_bytes(*self),
            r@.len() == LOG_LEN,
    {
        let mut bytes: Vec<u8> = Vec::new();
        write_field(&mut bytes, &self.address);
        write_field(&mut bytes, &self.topics);
        write_field(&mut bytes, &self.data);
        write_field(&mut bytes, &self.hash);
        assert(bytes@ =~= log_bytes(*self));
        bytes
    }
}


/// The transaction with nothing set but the nonce and the gas limit.
pub open spec fn blank_transaction(nonce: u64, gas_limit: u64, t: PanicTransaction) -> bool {
    &&& t.nonce == nonce
    &&& t.gas_price == 0
    &&& t.gas_limit == gas_limit
    &&& t.action@ == Seq::new(32, |i: int| 0u8)
    &&& t.data@ == Seq::new(32, |i: int| 0u8)
    &&& t.signature@ == Seq::new(32, |i: int| 0u8)
    &&& t.hash@ == Seq::new(32, |i: int| 0u8)
}

fn blank(nonce: u64, gas_limit: u64) -> (r: PanicTransaction)
    ensures
        blank_transaction(nonce, gas_limit, r),
{
    let zero = [0u8; 32];
    assert(zero@ =~= Seq::new(32, |i: int| 0u8));
    PanicTransaction {
        nonce,
        gas_price: 0,
        gas_limit,
        action: zero,
        data: zero,
        signature: zero,
        hash: zero,
    }
}

/// A transfer as it is handed in: who sends how much to whom, and when.
#[derive(Debug, PartialEq, Eq)]
pub struct PanicTransfer {
    pub sender: u64,
    pub receiver: String,
    pub value: u64,
    pub timestamp: u64,
}

/// The transfer of the given parts.
pub fn from_raw(sender: u64, receiver: String, value: u64, timestamp: u64) -> (r: PanicTransfer)
    ensures
        r.sender == sender,
        r.receiver == receiver,
        r.value == value,
        r.timestamp == timestamp,
{
    PanicTransfer { sender, receiver, value, timestamp }
}

/// The blank transaction for a receiver. What a transaction is to do is
/// set in its fields afterwards; the receiver sets none of them.
pub fn from_raw_data(receiver: String) -> (r: PanicTransaction)
    ensures
        blank_transaction(0, 0, r),
{
    blank(0, 0)
}

/// The blank transaction with the given nonce.
pub fn from_raw_data_with_nonce(nonce: u64, receiver: String) -> (r: PanicTransaction)
    ensures
        blank_transaction(nonce, 0, r),
{
    blank(nonce, 0)
}

/// The blank transaction for a transfer.
pub fn from_raw_data_with_timestamp_and_receiver(
    sender: u64,
    receiver: String,
    value: u64,
    timestamp: u64,
) -> (r: PanicTransaction)
    ensures
        blank_transaction(0, 0, r),
{
    blank(0, 0)
}

/// The blank transaction for a transfer.
pub fn from_raw_data_with_timestamp_and_receiver_and_value(
    sender: u64,
    receiver: String,
    value: u64,
    timestamp: u64,
) -> (r: PanicTransaction)
    ensures
        blank_transaction(0, 0, r),
{
    blank(0, 0)
}

/// The blank transaction for a transfer, with the given gas limit.
pub fn from_raw_data_with_timestamp_and_receiver_and_value_and_gas_limit(
    sender: u64,
    receiver: String,
    value: u64,
    timestamp: u64,
    gas_limit: u64,
) -> (r: PanicTransaction)
    ensures
        blank_transaction(0, gas_limit, r),
{
    blank(0, gas_limit)
}

/// The transaction as it is.
pub fn into_raw(transaction: PanicTransaction) -> (r: PanicTransaction)
    ensures
        r == transaction,
{
    transaction
}

/// The transaction as it is.
pub fn into_raw_data(transaction: PanicTransaction) -> (r: PanicTransaction)
    ensures
        r == transaction,
{
    transaction
}

/// The transaction as it is.
pub fn into_raw_data_with_timestamp(transaction: PanicTransaction) -> (r: PanicTransaction)
    ensures
        r == transaction,
{
    transaction
}

/// The transaction as it is.
pub fn into_raw_data_with_timestamp_and_value(transaction: PanicTransaction) -> (r:
    PanicTransaction)
    ensures
        r == transaction,
{
    transaction
}

/// The transaction as it is.
pub fn into_raw_data_with_timestamp_and_receiver(transaction: PanicTransaction) -> (r:
    PanicTransaction)
    ensures
        r == transaction,
{
    transaction
}

/// The blank transaction for a transfer.
pub fn new(sender: u64, receiver: String, value: u64, timestamp: u64) -> (r: PanicTransaction)
    ensures
        blank_transaction(0, 0, r),
{
    blank(0, 0)
}

/// The blank transaction for a transfer.
pub fn new_data(sender: u64, receiver: String, value: u64) -> (r: PanicTransaction)
    ensures
        blank_transaction(0, 0, r),
{
    blank(0, 0)
}

/// The blank transaction for a transfer.
pub fn new_data_with_timestamp(sender: u64, receiver: String, value: u64, timestamp: u64) -> (r:
    PanicTransaction)
    ensures
        blank_transaction(0, 0, r),
{
    blank(0, 0)
}

} // verus!
