use vstd::prelude::*;

verus! {

/// The two kinds of object that peers exchange.
#[derive(Clone, Copy, Debug, PartialEq, Eq, Structural)]
pub enum ObjectType {
    Block,
    Tx,
}

/// What a message asks of its receiver, and about which kind of object.
#[derive(Clone, Copy, Debug, PartialEq, Eq, Structural)]
pub enum ActionType {
    /// Ask a peer for everything it holds of a kind.
    SyncRequest(ObjectType),
    /// Answer a sync request.
    SyncResponse(ObjectType),
    /// Announce a newly mined block or a new transaction.
    Broadcast(ObjectType),
}

/// The envelope of every message on the wire.
#[derive(Clone, Debug)]
pub struct Command<T> {
    pub action: ActionType,
    pub payload: T,
}

impl<T> Command<T> {
    pub fn new(action: ActionType, payload: T) -> (r: Self)
        ensures
            r.action == action,
            r.payload == payload,
    {
        Command { action, payload }
    }
}

/// A sync request: where the requesting node listens.
#[derive(Clone, Copy, Debug)]
pub struct SyncRequest {
    pub peer: PeerAddr,
}

/// A sync response: everything the answering node holds of one kind.
#[derive(Clone, Debug)]
pub struct SyncResponse<T> {
    pub data: Vec<T>,
}

/// A transfer between two single-character wallets.
///
/// The fee is a fixed-point amount in thousandths of a coin, so that fees
/// compare exactly.
#[derive(Clone, Copy, Debug, PartialEq, Eq, Structural)]
pub struct Tx {
    pub from: char,
    pub to: char,
    pub amount: i32,
    pub fee: u64,
}

/// An IPv4 endpoint of a node.
#[derive(Clone, Copy, Debug, PartialEq, Eq, Structural)]
pub struct PeerAddr {
    pub ip: u32,
    pub port: u16,
}

impl PeerAddr {
    /// The endpoint `a.b.c.d:port`.
    pub fn new(a: u8, b: u8, c: u8, d: u8, port: u16) -> (r: Self)
        ensures
            r.ip == a as nat * 0x1000000 + b as nat * 0x10000 + c as nat * 0x100 + d as nat,
            r.port == port,
    {
        let ip: u32 = (a as u32) * 0x1000000 + (b as u32) * 0x10000 + (c as u32) * 0x100 + (d as u32);
        PeerAddr { ip, port }
    }

    /// The four octets of the address, most significant first.
    pub fn octets(&self) -> (r: (u8, u8, u8, u8))
        ensures
            r.0 as nat * 0x1000000 + r.1 as nat * 0x10000 + r.2 as nat * 0x100 + r.3 as nat
                == self.ip,
    {
        let a: u8 = (self.ip / 0x1000000) as u8;
        let b: u8 = ((self.ip / 0x10000) % 0x100) as u8;
        let c: u8 = ((self.ip / 0x100) % 0x100) as u8;
        let d: u8 = (self.ip % 0x100) as u8;
        (a, b, c, d)
    }
}

/// The node's settings, read once at start-up.
#[derive(Clone, Copy, Debug)]
pub struct Settings {
    /// How many pending transactions a block needs before mining starts.
    pub min_tx_per_block: usize,
    /// How many leading zero hex digits a block hash needs.
    pub difficulty: usize,
    /// How many nonces one mining attempt tries.
    pub concurrent_hashes: u64,
    /// Log every message sent and received.
    pub debug_broadcast: bool,
    /// Log how long each block took to mine.
    pub debug_perf: bool,
    /// Let the transaction generator pick wallets, amounts, fees and pauses at random.
    pub broadcast_random: bool,
}

} // verus!
