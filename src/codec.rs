//! The canonical byte encoding of blocks, the text over which a block's
//! hash is computed: compact JSON with the fields in declaration order.
use vstd::prelude::*;
use vstd::string::StringSliceAdditionalSpecFns;
use vstd::utf8::encode_scalar;
use vstd::utf8::encode_utf8;
use crate::types::Tx;

verus! {

/// The decimal digits of `n`, in ASCII.
pub open spec fn decimal(n: nat) -> Seq<u8>
    decreases n,
{
    if n < 10 {
        seq![(48 + n) as u8]
    } else {
        decimal(n / 10).push((48 + n % 10) as u8)
    }
}

/// The decimal text of a signed integer: a minus sign before negative values.
pub open spec fn signed_decimal(n: int) -> Seq<u8> {
    if n < 0 {
        seq![45u8] + decimal((-n) as nat)
    } else {
        decimal(n as nat)
    }
}

/// A lowercase hex digit, in ASCII.
pub open spec fn hex_digit_byte(d: u8) -> u8 {
    if d < 10 {
        (48 + d) as u8
    } else {
        (87 + d) as u8
    }
}

/// How one byte of a string is written between JSON quotes: quote, backslash
/// and control bytes are escaped, every other byte stands as it is.
pub open spec fn escape_byte(b: u8) -> Seq<u8> {
    if b == 0x22 {
        seq![0x5cu8, 0x22u8]
    } else if b == 0x5c {
        seq![0x5cu8, 0x5cu8]
    } else if b == 0x08 {
        seq![0x5cu8, 0x62u8]
    } else if b == 0x09 {
        seq![0x5cu8, 0x74u8]
    } else if b == 0x0a {
        seq![0x5cu8, 0x6eu8]
    } else if b == 0x0c {
        seq![0x5cu8, 0x66u8]
    } else if b == 0x0d {
        seq![0x5cu8, 0x72u8]
    } else if b < 0x20 {
        seq![0x5cu8, 0x75u8, 0x30u8, 0x30u8, hex_digit_byte(b / 16), hex_digit_byte(b % 16)]
    } else {
        seq![b]
    }
}

/// The escaped form of a run of bytes.
pub open spec fn escaped(bs: Seq<u8>) -> Seq<u8>
    decreases bs.len(),
{
    if bs.len() == 0 {
        Seq::empty()
    } else {
        escaped(bs.drop_last()) + escape_byte(bs.last())
    }
}

/// A JSON string holding the UTF-8 text `bs`.
pub open spec fn json_string(bs: Seq<u8>) -> Seq<u8> {
    seq![0x22u8] + escaped(bs) + seq![0x22u8]
}

/// A JSON string holding one character.
pub open spec fn json_char(c: char) -> Seq<u8> {
    json_string(encode_utf8(seq![c]))
}

/// The encoding of one transaction.
pub open spec fn tx_json(t: Tx) -> Seq<u8> {
    "{\"from\":".spec_bytes() + json_char(t.from) + ",\"to\":".spec_bytes() + json_char(t.to)
        + ",\"amount\":".spec_bytes() + signed_decimal(t.amount as int) + ",\"fee\":".spec_bytes()
        + decimal(t.fee as nat) + "}".spec_bytes()
}

/// The encodings of a list of transactions, separated by commas.
pub open spec fn txs_json(txs: Seq<Tx>) -> Seq<u8>
    decreases txs.len(),
{
    if txs.len() == 0 {
        Seq::empty()
    } else if txs.len() == 1 {
        tx_json(txs[0])
    } else {
        txs_json(txs.drop_last()) + ",".spec_bytes() + tx_json(txs.last())
    }
}

/// The encoding of a block whose hash field is empty: the text that is hashed.
pub open spec fn block_json(id: u16, nonce: u64, prev: Seq<char>, txs: Seq<Tx>, ms: u128) -> Seq<u8> {
    "{\"id\":".spec_bytes() + decimal(id as nat) + ",\"nonce\":".spec_bytes() + decimal(
        nonce as nat,
    ) + ",\"hash\":\"\",\"prev\":".spec_bytes() + json_string(encode_utf8(prev))
        + ",\"txs\":[".spec_bytes() + txs_json(txs) + "],\"ms\":".spec_bytes() + decimal(ms as nat)
        + "}".spec_bytes()
}

fn push_bytes(out: &mut Vec<u8>, bs: &[u8])
    ensures
        final(out)@ == old(out)@ + bs@,
{
    let n = bs.len();
    let mut i: usize = 0;
    while i < n
        invariant
            n == bs@.len(),
            i <= n,
            out@ == old(out)@ + bs@.subrange(0, i as int),
        decreases n - i,
    {
        out.push(bs[i]);
        proof {
            assert(bs@.subrange(0, i as int + 1) =~= bs@.subrange(0, i as int).push(bs@[i as int]));
            assert(out@ =~= old(out)@ + bs@.subrange(0, i as int + 1));
        }
        i = i + 1;
    }
    proof {
        assert(bs@.subrange(0, n as int) =~= bs@);
    }
}

fn push_decimal(out: &mut Vec<u8>, n: u128)
    ensures
        final(out)@ == old(out)@ + decimal(n as nat),
    decreases n,
{
    let ghost start = old(out)@;
    if n >= 10 {
        push_decimal(out, n / 10);
    }
    out.push((48 + n % 10) as u8);
    proof {
        if n >= 10 {
            assert(out@ =~= start + decimal(n as nat));
        } else {
            assert(out@ =~= start + decimal(n as nat));
        }
    }
}

fn push_signed(out: &mut Vec<u8>, n: i32)
    ensures
        final(out)@ == old(out)@ + signed_decimal(n as int),
{
    let ghost start = old(out)@;
    if n < 0 {
        out.push(45u8);
        let m: u128 = (0i64 - (n as i64)) as u128;
        push_decimal(out, m);
        proof {
            assert(out@ =~= start + signed_decimal(n as int));
        }
    } else {
        push_decimal(out, n as u128);
    }
}

fn hex_digit(d: u8) -> (r: u8)
    requires
        d < 16,
    ensures
        r == hex_digit_byte(d),
{
    if d < 10 {
        48 + d
    } else {
        87 + d
    }
}

fn push_escaped_byte(out: &mut Vec<u8>, b: u8)
    ensures
        final(out)@ == old(out)@ + escape_byte(b),
{
    let ghost start = old(out)@;
    if b == 0x22 {
        out.push(0x5c);
        out.push(0x22);
    } else if b == 0x5c {
        out.push(0x5c);
        out.push(0x5c);
    } else if b == 0x08 {
        out.push(0x5c);
        out.push(0x62);
    } else if b == 0x09 {
        out.push(0x5c);
        out.push(0x74);
    } else if b == 0x0a {
        out.push(0x5c);
        out.push(0x6e);
    } else if b == 0x0c {
        out.push(0x5c);
        out.push(0x66);
    } else if b == 0x0d {
        out.push(0x5c);
        out.push(0x72);
    } else if b < 0x20 {
        out.push(0x5c);
        out.push(0x75);
        out.push(0x30);
        out.push(0x30);
        out.push(hex_digit(b / 16));
        out.push(hex_digit(b % 16));
    } else {
        out.push(b);
    }
    assert(out@ =~= start + escape_byte(b));
}

fn push_json_string(out: &mut Vec<u8>, bs: &[u8])
    ensures
        final(out)@ == old(out)@ + json_string(bs@),
{
    let ghost start = old(out)@;
    out.push(0x22);
    let n = bs.len();
    let mut i: usize = 0;
    while i < n
        invariant
            n == bs@.len(),
            i <= n,
            out@ == start + seq![0x22u8] + escaped(bs@.subrange(0, i as int)),
        decreases n - i,
    {
        push_escaped_byte(out, bs[i]);
        proof {
            let next = bs@.subrange(0, i as int + 1);
            assert(next.drop_last() =~= bs@.subrange(0, i as int));
            assert(out@ =~= start + seq![0x22u8] + escaped(next));
        }
        i = i + 1;
    }
    out.push(0x22);
    proof {
        assert(bs@.subrange(0, n as int) =~= bs@);
        assert(out@ =~= start + json_string(bs@));
    }
}

/// The UTF-8 encoding of one character.
fn utf8_of_char(c: char) -> (r: Vec<u8>)
    ensures
        r@ == encode_utf8(seq![c]),
{
    let v = c as u32;
    let mut r: Vec<u8> = Vec::new();
    if v <= 0x7F {
        r.push((v & 0x7F) as u8);
    } else if 0x80 <= v && v <= 0x7FF {
        r.push(0xC0 | ((v >> 6) & 0x1F) as u8);
        r.push(0x80 | (v & 0x3F) as u8);
    } else if 0x800 <= v && v <= 0xFFFF && !(0xD800 <= v && v <= 0xDFFF) {
        r.push(0xE0 | ((v >> 12) & 0x0F) as u8);
        r.push(0x80 | ((v >> 6) & 0x3F) as u8);
        r.push(0x80 | (v & 0x3F) as u8);
    } else {
        r.push(0xF0 | ((v >> 18) & 0x7) as u8);
        r.push(0x80 | ((v >> 12) & 0x3F) as u8);
        r.push(0x80 | ((v >> 6) & 0x3F) as u8);
        r.push(0x80 | (v & 0x3F) as u8);
    }
    proof {
        assert(seq![c].drop_first() =~= Seq::<char>::empty());
        assert(r@ =~= encode_scalar(v));
        assert(encode_utf8(seq![c]) =~= encode_scalar(v) + encode_utf8(Seq::<char>::empty()));
    }
    r
}

fn push_tx(out: &mut Vec<u8>, t: &Tx)
    ensures
        final(out)@ == old(out)@ + tx_json(*t),
{
    let ghost start = old(out)@;
    push_bytes(out, "{\"from\":".as_bytes());
    let from = utf8_of_char(t.from);
    push_json_string(out, from.as_slice());
    push_bytes(out, ",\"to\":".as_bytes());
    let to = utf8_of_char(t.to);
    push_json_string(out, to.as_slice());
    push_bytes(out, ",\"amount\":".as_bytes());
    push_signed(out, t.amount);
    push_bytes(out, ",\"fee\":".as_bytes());
    push_decimal(out, t.fee as u128);
    push_bytes(out, "}".as_bytes());
    assert(out@ =~= start + tx_json(*t));
}

fn push_txs(out: &mut Vec<u8>, txs: &Vec<Tx>)
    ensures
        final(out)@ == old(out)@ + txs_json(txs@),
{
    let ghost start = old(out)@;
    let n = txs.len();
    let mut i: usize = 0;
    while i < n
        invariant
            n == txs@.len(),
            i <= n,
            out@ == start + txs_json(txs@.subrange(0, i as int)),
        decreases n - i,
    {
        let ghost before = out@;
        if i > 0 {
            push_bytes(out, ",".as_bytes());
        }
        push_tx(out, &txs[i]);
        proof {
            let next = txs@.subrange(0, i as int + 1);
            assert(next.drop_last() =~= txs@.subrange(0, i as int));
            if i == 0 {
                assert(txs@.subrange(0, 0) =~= Seq::<Tx>::empty());
                assert(out@ =~= start + txs_json(next));
            } else {
                assert(out@ =~= start + txs_json(next));
            }
        }
        i = i + 1;
    }
    proof {
        assert(txs@.subrange(0, n as int) =~= txs@);
    }
}

/// Encodes a block, with its hash field left empty.
pub fn encode_block(id: u16, nonce: u64, prev: &String, txs: &Vec<Tx>, ms: u128) -> (r: Vec<u8>)
    ensures
        r@ == block_json(id, nonce, prev@, txs@, ms),
{
    let mut out: Vec<u8> = Vec::new();
    push_bytes(&mut out, "{\"id\":".as_bytes());
    push_decimal(&mut out, id as u128);
    push_bytes(&mut out, ",\"nonce\":".as_bytes());
    push_decimal(&mut out, nonce as u128);
    push_bytes(&mut out, ",\"hash\":\"\",\"prev\":".as_bytes());
    push_json_string(&mut out, prev.as_str().as_bytes());
    push_bytes(&mut out, ",\"txs\":[".as_bytes());
    push_txs(&mut out, txs);
    push_bytes(&mut out, "],\"ms\":".as_bytes());
    push_decimal(&mut out, ms);
    push_bytes(&mut out, "}".as_bytes());
    assert(out@ =~= block_json(id, nonce, prev@, txs@, ms));
    out
}

} // verus!
