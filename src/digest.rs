//! Block digests: SHA-256 over the canonical encoding, written as hex text.
use vstd::prelude::*;

verus! {

/// The SHA-256 digest of `data`.
pub uninterp spec fn sha256_of(data: Seq<u8>) -> Seq<u8>;

/// Relies on sha2's `Sha256::digest`: the 32-byte SHA-256 digest of `data`.
#[verifier::external_body]
pub(crate) fn sha256(data: &[u8]) -> (r: Vec<u8>)
    ensures
        r@ == sha256_of(data@),
        r@.len() == 32,
{
    <sha2::Sha256 as sha2::Digest>::digest(data).to_vec()
}

/// The lowercase hex digit of `d`, for `d < 16`.
pub open spec fn hex_char(d: u8) -> char {
    if d == 0 {
        '0'
    } else if d == 1 {
        '1'
    } else if d == 2 {
        '2'
    } else if d == 3 {
        '3'
    } else if d == 4 {
        '4'
    } else if d == 5 {
        '5'
    } else if d == 6 {
        '6'
    } else if d == 7 {
        '7'
    } else if d == 8 {
        '8'
    } else if d == 9 {
        '9'
    } else if d == 10 {
        'a'
    } else if d == 11 {
        'b'
    } else if d == 12 {
        'c'
    } else if d == 13 {
        'd'
    } else if d == 14 {
        'e'
    } else {
        'f'
    }
}

/// `c` is a lowercase hex digit.
pub open spec fn is_lower_hex(c: char) -> bool {
    ('0' <= c && c <= '9') || ('a' <= c && c <= 'f')
}

proof fn lemma_hex_char_is_hex(d: u8)
    requires
        d < 16,
    ensures
        is_lower_hex(hex_char(d)),
{
}

/// One byte in lowercase hex, without a leading zero: `0x0b` is `b`, `0xe5` is `e5`.
pub open spec fn byte_hex(b: u8) -> Seq<char> {
    if b < 16 {
        seq![hex_char(b)]
    } else {
        seq![hex_char(b / 16), hex_char(b % 16)]
    }
}

/// The bytes of `bs`, each written as `byte_hex` does, one after another.
pub open spec fn hex_text(bs: Seq<u8>) -> Seq<char>
    decreases bs.len(),
{
    if bs.len() == 0 {
        Seq::empty()
    } else {
        hex_text(bs.drop_last()) + byte_hex(bs.last())
    }
}

/// `h` starts with at least `d` zero digits.
pub open spec fn meets_difficulty(h: Seq<char>, d: nat) -> bool {
    d <= h.len() && forall|i: int| 0 <= i < d ==> h[i] == '0'
}

fn hex_str(d: u8) -> (r: &'static str)
    requires
        d < 16,
    ensures
        r@ == seq![hex_char(d)],
{
    if d == 0 {
        proof {
            reveal_strlit("0");
        }
        "0"
    } else if d == 1 {
        proof {
            reveal_strlit("1");
        }
        "1"
    } else if d == 2 {
        proof {
            reveal_strlit("2");
        }
        "2"
    } else if d == 3 {
        proof {
            reveal_strlit("3");
        }
        "3"
    } else if d == 4 {
        proof {
            reveal_strlit("4");
        }
        "4"
    } else if d == 5 {
        proof {
            reveal_strlit("5");
        }
        "5"
    } else if d == 6 {
        proof {
            reveal_strlit("6");
        }
        "6"
    } else if d == 7 {
        proof {
            reveal_strlit("7");
        }
        "7"
    } else if d == 8 {
        proof {
            reveal_strlit("8");
        }
        "8"
    } else if d == 9 {
        proof {
            reveal_strlit("9");
        }
        "9"
    } else if d == 10 {
        proof {
            reveal_strlit("a");
        }
        "a"
    } else if d == 11 {
        proof {
            reveal_strlit("b");
        }
        "b"
    } else if d == 12 {
        proof {
            reveal_strlit("c");
        }
        "c"
    } else if d == 13 {
        proof {
            reveal_strlit("d");
        }
        "d"
    } else if d == 14 {
        proof {
            reveal_strlit("e");
        }
        "e"
    } else {
        proof {
            reveal_strlit("f");
        }
        "f"
    }
}

fn push_hex_digit(s: &mut String, v: &mut Vec<char>, d: u8)
    requires
        d < 16,
        old(s)@ == old(v)@,
    ensures
        final(s)@ == old(s)@.push(hex_char(d)),
        final(v)@ == old(v)@.push(hex_char(d)),
{
    let t = hex_str(d);
    s.append(t);
    let c = hex_char_of(d);
    v.push(c);
    assert(final(s)@ =~= old(s)@.push(hex_char(d)));
}

fn hex_char_of(d: u8) -> (r: char)
    requires
        d < 16,
    ensures
        r == hex_char(d),
{
    if d == 0 {
        '0'
    } else if d == 1 {
        '1'
    } else if d == 2 {
        '2'
    } else if d == 3 {
        '3'
    } else if d == 4 {
        '4'
    } else if d == 5 {
        '5'
    } else if d == 6 {
        '6'
    } else if d == 7 {
        '7'
    } else if d == 8 {
        '8'
    } else if d == 9 {
        '9'
    } else if d == 10 {
        'a'
    } else if d == 11 {
        'b'
    } else if d == 12 {
        'c'
    } else if d == 13 {
        'd'
    } else if d == 14 {
        'e'
    } else {
        'f'
    }
}

/// Writes `bs` as `hex_text` does, both as a string and as a list of characters.
pub fn render_hex(bs: &Vec<u8>) -> (r: (String, Vec<char>))
    ensures
        r.0@ == hex_text(bs@),
        r.1@ == hex_text(bs@),
        bs@.len() <= r.1@.len() <= 2 * bs@.len(),
        forall|i: int| 0 <= i < r.1@.len() ==> is_lower_hex(#[trigger] r.1@[i]),
{
    let mut s = String::new();
    let mut v: Vec<char> = Vec::new();
    let n = bs.len();
    let mut i: usize = 0;
    while i < n
        invariant
            n == bs@.len(),
            i <= n,
            s@ == v@,
            v@ == hex_text(bs@.subrange(0, i as int)),
            i <= v@.len() <= 2 * i,
            forall|j: int| 0 <= j < v@.len() ==> is_lower_hex(#[trigger] v@[j]),
        decreases n - i,
    {
        let b = bs[i];
        proof {
            lemma_hex_char_is_hex(b / 16);
            lemma_hex_char_is_hex(b % 16);
        }
        if b >= 16 {
            push_hex_digit(&mut s, &mut v, b / 16);
        }
        push_hex_digit(&mut s, &mut v, b % 16);
        proof {
            let next = bs@.subrange(0, i as int + 1);
            assert(next.drop_last() =~= bs@.subrange(0, i as int));
            assert(v@ =~= hex_text(next));
        }
        i = i + 1;
    }
    proof {
        assert(bs@.subrange(0, n as int) =~= bs@);
    }
    (s, v)
}

/// Whether `h` starts with at least `d` zero digits.
pub fn has_leading_zeros(h: &Vec<char>, d: usize) -> (r: bool)
    ensures
        r == meets_difficulty(h@, d as nat),
{
    if d > h.len() {
        return false;
    }
    let mut i: usize = 0;
    while i < d
        invariant
            d <= h@.len(),
            i <= d,
            forall|j: int| 0 <= j < i ==> h@[j] == '0',
        decreases d - i,
    {
        if h[i] != '0' {
            return false;
        }
        i = i + 1;
    }
    true
}

} // verus!
