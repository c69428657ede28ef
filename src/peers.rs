//! Which peers a node talks to.
use vstd::prelude::*;
use crate::types::PeerAddr;

verus! {

/// The first of the ports that nodes listen on when no peers are given.
pub const DEFAULT_PORT: u16 = 4000;

/// How many default ports there are.
pub const DEFAULT_PORT_COUNT: u16 = 5;

/// The loopback address 127.0.0.1.
pub const LOOPBACK: u32 = 0x7f000001;

/// `s` without the entries equal to `who`, in order.
pub open spec fn without(s: Seq<PeerAddr>, who: PeerAddr) -> Seq<PeerAddr>
    decreases s.len(),
{
    if s.len() == 0 {
        s
    } else if s.last() == who {
        without(s.drop_last(), who)
    } else {
        without(s.drop_last(), who).push(s.last())
    }
}

/// The default peers on address `ip`: the default ports, in order.
pub open spec fn default_peers(ip: u32) -> Seq<PeerAddr> {
    Seq::new(DEFAULT_PORT_COUNT as nat, |i: int| PeerAddr { ip, port: (DEFAULT_PORT + i) as u16 })
}

/// The peers a node may talk to: `peers`, or the defaults on `ip` (loopback
/// where not given) where `peers` is empty; `whoami` (0.0.0.0:0 where not
/// given) left out.
pub open spec fn all_peers(peers: Seq<PeerAddr>, whoami: Option<PeerAddr>, ip: Option<u32>) -> Seq<PeerAddr> {
    let who = match whoami {
        Some(w) => w,
        None => PeerAddr { ip: 0, port: 0 },
    };
    let ip = match ip {
        Some(a) => a,
        None => LOOPBACK,
    };
    without(if peers.len() == 0 { default_peers(ip) } else { peers }, who)
}

fn push_unless(out: &mut Vec<PeerAddr>, candidates: &Vec<PeerAddr>, who: PeerAddr)
    ensures
        final(out)@ == old(out)@ + without(candidates@, who),
{
    let ghost start = old(out)@;
    let n = candidates.len();
    let mut i: usize = 0;
    while i < n
        invariant
            n == candidates@.len(),
            i <= n,
            out@ == start + without(candidates@.subrange(0, i as int), who),
        decreases n - i,
    {
        let p = candidates[i];
        if p != who {
            out.push(p);
        }
        proof {
            let next = candidates@.subrange(0, i as int + 1);
            assert(next.drop_last() =~= candidates@.subrange(0, i as int));
            assert(out@ =~= start + without(next, who));
        }
        i = i + 1;
    }
    proof {
        assert(candidates@.subrange(0, n as int) =~= candidates@);
    }
}

/// The peers a node may talk to: `peers`, or the default ports on `ip` where
/// `peers` is empty, without `whoami`.
pub fn get_all_peers(peers: &Vec<PeerAddr>, whoami: Option<PeerAddr>, ip: Option<u32>) -> (r: Vec<PeerAddr>)
    ensures
        r@ == all_peers(peers@, whoami, ip),
{
    let who = match whoami {
        Some(w) => w,
        None => PeerAddr { ip: 0, port: 0 },
    };
    let ip = match ip {
        Some(a) => a,
        None => LOOPBACK,
    };
    let mut pool: Vec<PeerAddr> = Vec::new();
    if peers.len() == 0 {
        let mut defaults: Vec<PeerAddr> = Vec::new();
        let mut k: u16 = 0;
        while k < DEFAULT_PORT_COUNT
            invariant
                k <= DEFAULT_PORT_COUNT,
                defaults@ == default_peers(ip).subrange(0, k as int),
            decreases DEFAULT_PORT_COUNT - k,
        {
            defaults.push(PeerAddr { ip, port: DEFAULT_PORT + k });
            assert(defaults@ =~= default_peers(ip).subrange(0, k as int + 1));
            k = k + 1;
        }
        assert(defaults@ =~= default_peers(ip));
        push_unless(&mut pool, &defaults, who);
    } else {
        push_unless(&mut pool, peers, who);
    }
    assert(pool@ =~= all_peers(peers@, whoami, Some(ip)));
    pool
}

/// Where a sync response goes: to the configured peers, or, where there are
/// none, back to the node that asked.
pub open spec fn sync_target_list(peers: Seq<PeerAddr>, requester: PeerAddr) -> Seq<PeerAddr> {
    if peers.len() == 0 {
        seq![requester]
    } else {
        peers
    }
}

/// Where a sync response goes: to the configured peers, or, where there are
/// none, back to the node that asked.
pub fn sync_targets(peers: &Vec<PeerAddr>, requester: PeerAddr) -> (r: Vec<PeerAddr>)
    ensures
        r@ == sync_target_list(peers@, requester),
{
    if peers.len() == 0 {
        let mut r: Vec<PeerAddr> = Vec::new();
        r.push(requester);
        assert(r@ =~= seq![requester]);
        r
    } else {
        peers.clone()
    }
}

} // verus!
