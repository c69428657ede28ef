//! The command line, once read: which command was given, and the peers' ports.
use vstd::prelude::*;
use vstd::utf8::encode_utf8;

verus! {

/// The parsed command line.
#[derive(Clone, Debug)]
pub struct Args {
    /// The text of `--peers`, where given: a comma-separated list of ports.
    pub flag_peers: Vec<String>,
    /// The peers' ports.
    pub arg_ports: Vec<u16>,
    pub cmd_broadcast: bool,
    pub cmd_mine: bool,
}

pub open spec fn is_digit(b: u8) -> bool {
    48 <= b <= 57
}

/// The value of a run of decimal digits.
pub open spec fn digits_value(ds: Seq<u8>) -> nat
    decreases ds.len(),
{
    if ds.len() == 0 {
        0
    } else {
        digits_value(ds.drop_last()) * 10 + (ds.last() - 48) as nat
    }
}

/// The digits of a port's text: what follows an optional leading `+`.
pub open spec fn port_digits(bs: Seq<u8>) -> Seq<u8> {
    if bs.len() > 0 && bs[0] == 43 {
        bs.drop_first()
    } else {
        bs
    }
}

/// The port that `bs` writes: an optional `+`, then at least one decimal
/// digit and nothing else, for a value that fits in 16 bits.
pub open spec fn port_text(bs: Seq<u8>) -> Option<u16> {
    let ds = port_digits(bs);
    if ds.len() > 0 && (forall|i: int| 0 <= i < ds.len() ==> is_digit(#[trigger] ds[i]))
        && digits_value(ds) <= 0xffff {
        Some(digits_value(ds) as u16)
    } else {
        None
    }
}

/// The comma-separated pieces of `bs`; an empty text is one empty piece.
pub open spec fn pieces(bs: Seq<u8>) -> Seq<Seq<u8>>
    decreases bs.len(),
{
    if bs.len() == 0 {
        seq![Seq::empty()]
    } else {
        let p = pieces(bs.drop_last());
        if bs.last() == 44 {
            p.push(Seq::empty())
        } else {
            p.update(p.len() - 1, p.last().push(bs.last()))
        }
    }
}

/// The ports of a list of texts, where each writes one.
pub open spec fn ports_of_pieces(ps: Seq<Seq<u8>>) -> Option<Seq<u16>>
    decreases ps.len(),
{
    if ps.len() == 0 {
        Some(Seq::empty())
    } else {
        match (ports_of_pieces(ps.drop_last()), port_text(ps.last())) {
            (Some(v), Some(p)) => Some(v.push(p)),
            _ => None,
        }
    }
}

/// The ports of a comma-separated list, where each piece writes one.
pub open spec fn ports_of(bs: Seq<u8>) -> Option<Seq<u16>> {
    ports_of_pieces(pieces(bs))
}

proof fn lemma_pieces_nonempty(bs: Seq<u8>)
    ensures
        pieces(bs).len() >= 1,
    decreases bs.len(),
{
    if bs.len() > 0 {
        lemma_pieces_nonempty(bs.drop_last());
    }
}

proof fn lemma_digits_grow(ds: Seq<u8>, k: int)
    requires
        0 <= k <= ds.len(),
        forall|i: int| 0 <= i < ds.len() ==> is_digit(#[trigger] ds[i]),
    ensures
        digits_value(ds) >= digits_value(ds.subrange(0, k)),
    decreases ds.len(),
{
    if k < ds.len() {
        let t = ds.drop_last();
        assert forall|i: int| 0 <= i < t.len() implies is_digit(#[trigger] t[i]) by {
            assert(t[i] == ds[i]);
        }
        lemma_digits_grow(t, k);
        assert(t.subrange(0, k) =~= ds.subrange(0, k));
    } else {
        assert(ds.subrange(0, k) =~= ds);
    }
}

/// The port that `bs` writes, as `port_text` says.
pub fn parse_port(bs: &Vec<u8>) -> (r: Option<u16>)
    ensures
        r == port_text(bs@),
{
    let n = bs.len();
    let start: usize = if n > 0 && bs[0] == 43 { 1 } else { 0 };
    let ghost ds = port_digits(bs@);
    assert(ds =~= bs@.subrange(start as int, n as int));
    if start == n {
        return None;
    }
    let mut v: u32 = 0;
    let mut i: usize = start;
    while i < n
        invariant
            n == bs@.len(),
            start <= i <= n,
            ds == bs@.subrange(start as int, n as int),
            ds == port_digits(bs@),
            forall|j: int| 0 <= j < i - start ==> is_digit(#[trigger] ds[j]),
            v == digits_value(ds.subrange(0, i - start)),
            v <= 0xffff,
        decreases n - i,
    {
        let b = bs[i];
        if b < 48 || b > 57 {
            proof {
                let k = i - start;
                assert(!is_digit(ds[k]));
                assert(!(forall|j: int| 0 <= j < ds.len() ==> is_digit(#[trigger] ds[j])));
            }
            return None;
        }
        proof {
            let next = ds.subrange(0, i - start + 1);
            assert(next.drop_last() =~= ds.subrange(0, i - start));
        }
        v = v * 10 + (b - 48) as u32;
        if v > 0xffff {
            proof {
                let next = ds.subrange(0, i - start + 1);
                assert(next.last() == b);
                assert(digits_value(next) > 0xffff);
                if forall|j: int| 0 <= j < ds.len() ==> is_digit(#[trigger] ds[j]) {
                    lemma_digits_grow(ds, i - start + 1);
                }
            }
            return None;
        }
        i = i + 1;
    }
    assert(ds.subrange(0, n - start) =~= ds);
    Some(v as u16)
}

/// Splits `bs` at its commas, as `pieces` does.
fn split_commas(bs: &[u8]) -> (r: Vec<Vec<u8>>)
    ensures
        r@.map_values(|p: Vec<u8>| p@) == pieces(bs@),
{
    let n = bs.len();
    let mut done: Vec<Vec<u8>> = Vec::new();
    let mut cur: Vec<u8> = Vec::new();
    let mut i: usize = 0;
    assert(bs@.subrange(0, 0) =~= Seq::<u8>::empty());
    while i < n
        invariant
            n == bs@.len(),
            i <= n,
            done@.map_values(|p: Vec<u8>| p@).push(cur@) == pieces(bs@.subrange(0, i as int)),
        decreases n - i,
    {
        let b = bs[i];
        let ghost before = done@.map_values(|p: Vec<u8>| p@).push(cur@);
        proof {
            let next = bs@.subrange(0, i as int + 1);
            assert(next.drop_last() =~= bs@.subrange(0, i as int));
            lemma_pieces_nonempty(bs@.subrange(0, i as int));
        }
        if b == 44 {
            let piece = cur;
            cur = Vec::new();
            done.push(piece);
            assert(done@.map_values(|p: Vec<u8>| p@) =~= before);
        } else {
            cur.push(b);
            assert(done@.map_values(|p: Vec<u8>| p@).push(cur@) =~= before.update(
                before.len() - 1,
                before.last().push(b),
            ));
        }
        assert(done@.map_values(|p: Vec<u8>| p@).push(cur@) =~= pieces(bs@.subrange(0, i as int + 1)));
        i = i + 1;
    }
    let ghost before = done@.map_values(|p: Vec<u8>| p@).push(cur@);
    done.push(cur);
    assert(done@.map_values(|p: Vec<u8>| p@) =~= before);
    assert(bs@.subrange(0, n as int) =~= bs@);
    done
}

/// The ports of a comma-separated list such as `4001,4002`, or `None` where a
/// piece is not a port.
pub fn parse_ports(list: &str) -> (r: Option<Vec<u16>>)
    ensures
        match r {
            Some(v) => ports_of(encode_utf8(list@)) == Some(v@),
            None => ports_of(encode_utf8(list@)) is None,
        },
{
    let ps = split_commas(list.as_bytes());
    let ghost pv = ps@.map_values(|p: Vec<u8>| p@);
    let n = ps.len();
    let mut out: Vec<u16> = Vec::new();
    let mut i: usize = 0;
    while i < n
        invariant
            n == ps@.len(),
            pv == ps@.map_values(|p: Vec<u8>| p@),
            pv == pieces(encode_utf8(list@)),
            i <= n,
            ports_of_pieces(pv.subrange(0, i as int)) == Some(out@),
        decreases n - i,
    {
        proof {
            assert(pv.subrange(0, i as int + 1).drop_last() =~= pv.subrange(0, i as int));
            assert(pv[i as int] == ps@[i as int]@);
        }
        match parse_port(&ps[i]) {
            Some(p) => {
                out.push(p);
            },
            None => {
                proof {
                    lemma_none_stays(pv, i as int + 1);
                }
                return None;
            },
        }
        i = i + 1;
    }
    assert(pv.subrange(0, n as int) =~= pv);
    Some(out)
}

proof fn lemma_none_stays(ps: Seq<Seq<u8>>, k: int)
    requires
        0 <= k <= ps.len(),
        ports_of_pieces(ps.subrange(0, k)) is None,
    ensures
        ports_of_pieces(ps) is None,
    decreases ps.len() - k,
{
    if k < ps.len() {
        assert(ps.subrange(0, k + 1).drop_last() =~= ps.subrange(0, k));
        lemma_none_stays(ps, k + 1);
    } else {
        assert(ps.subrange(0, k) =~= ps);
    }
}

impl Args {
    /// The peers' ports: those already read, then those of the first
    /// `--peers` text, or `None` where a piece of it is not a port.
    pub fn peer_ports(&self) -> (r: Option<Vec<u16>>)
        ensures
            self.flag_peers@.len() == 0 ==> (r matches Some(v) && v@ == self.arg_ports@),
            self.flag_peers@.len() > 0 ==> match r {
                Some(v) => ports_of(encode_utf8(self.flag_peers@[0]@)) matches Some(ps)
                    && v@ == self.arg_ports@ + ps,
                None => ports_of(encode_utf8(self.flag_peers@[0]@)) is None,
            },
    {
        if self.flag_peers.len() == 0 {
            return Some(self.arg_ports.clone());
        }
        match parse_ports(self.flag_peers[0].as_str()) {
            Some(ps) => {
                let mut all = self.arg_ports.clone();
                let mut more = ps;
                all.append(&mut more);
                Some(all)
            },
            None => None,
        }
    }
}

} // verus!
