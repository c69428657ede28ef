//! The wallets that generated test traffic moves coins between.
use vstd::prelude::*;

verus! {

broadcast use vstd::seq_lib::group_to_multiset_ensures;

/// The wallet letters, in order.
pub open spec fn wallet_letters() -> Seq<char> {
    seq!['A', 'B', 'C', 'D', 'E', 'F', 'G', 'H', 'I', 'J', 'K', 'L', 'M']
}

/// Relies on rand's `SliceRandom::shuffle` over the thread-local generator:
/// the letters come back in a random order, none added and none lost.
#[verifier::external_body]
fn shuffle(v: &mut Vec<char>)
    ensures
        final(v)@.len() == old(v)@.len(),
        final(v)@.to_multiset() == old(v)@.to_multiset(),
{
    rand::seq::SliceRandom::shuffle(v.as_mut_slice(), &mut rand::thread_rng());
}

fn letters() -> (r: Vec<char>)
    ensures
        r@ == wallet_letters(),
{
    let mut v: Vec<char> = Vec::new();
    v.push('A');
    v.push('B');
    v.push('C');
    v.push('D');
    v.push('E');
    v.push('F');
    v.push('G');
    v.push('H');
    v.push('I');
    v.push('J');
    v.push('K');
    v.push('L');
    v.push('M');
    assert(v@ =~= wallet_letters());
    v
}

/// The sender and receiver of the `i`-th generated transaction: neighbouring
/// letters of the wallet alphabet, which is first shuffled where `randomize`
/// is set.
pub fn get_wallets(randomize: bool, i: usize) -> (r: (char, char))
    ensures
        !randomize ==> r == (wallet_letters()[i as int % 13], wallet_letters()[(i as int + 1) % 13]),
        wallet_letters().contains(r.0),
        wallet_letters().contains(r.1),
        r.0 != r.1,
{
    let mut alphabet = letters();
    if randomize {
        shuffle(&mut alphabet);
    }
    proof {
        let w = wallet_letters();
        assert(w.no_duplicates());
        w.lemma_multiset_has_no_duplicates();
        alphabet@.lemma_multiset_has_no_duplicates_conv();
    }
    let n = alphabet.len();
    let a = alphabet[i % n];
    let b = alphabet[(i % n + 1) % n];
    proof {
        assert((i % 13 + 1) % 13 == (i + 1) % 13) by (nonlinear_arith);
        assert(alphabet@.contains(a));
        assert(alphabet@.contains(b));
        assert(alphabet@.to_multiset().count(a) > 0);
        assert(alphabet@.to_multiset().count(b) > 0);
        assert(i as int % 13 != (i as int % 13 + 1) % 13);
    }
    (a, b)
}

} // verus!
