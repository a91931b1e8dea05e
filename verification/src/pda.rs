//! Derived addresses: identities computed deterministically from seed bytes
//! and a program identity, so every party derives the same address with no
//! coordination.

use vstd::prelude::*;

use crate::pubkey::Pubkey;

verus! {

/// What address derivation returns for the given seeds and program: a
/// function of its arguments alone; `None` in the statistically improbable
/// event that no viable derivation exists, or when the seeds exceed the
/// derivation's limits.
pub uninterp spec fn pda_of(seeds: Seq<Seq<u8>>, program_id: Seq<u8>) -> Option<Seq<u8>>;

/// Relies on solana-pubkey's `Pubkey::try_find_program_address`: the derived
/// address for these seeds under this program, depending on the arguments
/// alone; `None` exactly when no viable bump seed exists or the seeds exceed
/// the derivation's limits.
#[verifier::external_body]
pub fn find_pda(seeds: &Vec<Vec<u8>>, program_id: &Pubkey) -> (r: Option<Pubkey>)
    ensures
        match r {
            Some(k) => pda_of(seeds.deep_view(), program_id@) == Some(k@),
            None => pda_of(seeds.deep_view(), program_id@) is None,
        },
{
    let seed_slices: Vec<&[u8]> = seeds.iter().map(|s| s.as_slice()).collect();
    let pid = solana_pubkey::Pubkey::new_from_array(program_id.bytes);
    match solana_pubkey::Pubkey::try_find_program_address(&seed_slices, &pid) {
        Some((key, _bump)) => Some(Pubkey { bytes: key.to_bytes() }),
        None => None,
    }
}

/// The seed list holding the single byte `n`.
pub open spec fn spec_single_byte_seeds(n: u8) -> Seq<Seq<u8>> {
    seq![seq![n]]
}

/// Derives the address seeded by the single byte `n`.
pub fn find_single_byte_pda(n: u8, program_id: &Pubkey) -> (r: Option<Pubkey>)
    ensures
        match r {
            Some(k) => pda_of(spec_single_byte_seeds(n), program_id@) == Some(k@),
            None => pda_of(spec_single_byte_seeds(n), program_id@) is None,
        },
{
    let mut seed: Vec<u8> = Vec::new();
    seed.push(n);
    let mut seeds: Vec<Vec<u8>> = Vec::new();
    seeds.push(seed);
    proof {
        assert(seeds.deep_view() =~~= spec_single_byte_seeds(n));
    }
    find_pda(&seeds, program_id)
}

/// The addresses seeded by the consecutive single bytes
/// `start, start + 1, ..., start + count - 1`, or `None` if any of them has
/// no viable derivation.
pub open spec fn spec_indexed_keys(program_id: Seq<u8>, start: int, count: nat) -> Option<
    Seq<Seq<u8>>,
>
    decreases count,
{
    if count == 0 {
        Some(Seq::empty())
    } else {
        match pda_of(spec_single_byte_seeds(start as u8), program_id) {
            None => None,
            Some(k) => match spec_indexed_keys(program_id, start + 1, (count - 1) as nat) {
                None => None,
                Some(s) => Some(seq![k] + s),
            },
        }
    }
}

/// Derives the `count` addresses seeded by the single bytes `start` through
/// `start + count - 1`.
#[verifier::loop_isolation(false)]
pub fn derive_indexed_keys(program_id: &Pubkey, start: u8, count: u8) -> (r: Option<Vec<Pubkey>>)
    requires
        start + count <= 256,
    ensures
        match r {
            Some(v) => v@.len() == count && spec_indexed_keys(program_id@, start as int, count as nat)
                == Some(v.deep_view()),
            None => spec_indexed_keys(program_id@, start as int, count as nat) is None,
        },
{
    let mut acc: Vec<Pubkey> = Vec::new();
    let mut i: u8 = 0;
    proof {
        assert(acc.deep_view() + spec_indexed_keys(
            program_id@,
            start as int,
            count as nat,
        )->Some_0 =~= spec_indexed_keys(program_id@, start as int, count as nat)->Some_0);
    }
    while i < count
        invariant
            i <= count,
            acc.deep_view().len() == i,
            match spec_indexed_keys(program_id@, start + i, (count - i) as nat) {
                None => spec_indexed_keys(program_id@, start as int, count as nat) is None,
                Some(s) => spec_indexed_keys(program_id@, start as int, count as nat) == Some(
                    acc.deep_view() + s,
                ),
            },
        decreases count - i,
    {
        let k = match find_single_byte_pda(start + i, &program_id) {
            None => { return None; },
            Some(k) => k,
        };
        let ghost pre = acc.deep_view();
        acc.push(k);
        proof {
            assert(acc.deep_view() =~= pre.push(k@));
            let rest = spec_indexed_keys(program_id@, start + i + 1, (count - i - 1) as nat);
            if rest is Some {
                assert(pre.push(k@) + rest->Some_0 =~= pre + (seq![k@] + rest->Some_0));
            }
        }
        i += 1;
    }
    proof {
        assert(acc.deep_view() + Seq::<Seq<u8>>::empty() =~= acc.deep_view());
    }
    Some(acc)
}

/// Wraps one seed slice as a seed list.
pub fn one_seed(a: &[u8]) -> (r: Vec<Vec<u8>>)
    ensures
        r.deep_view() =~~= seq![a@],
{
    let mut r: Vec<Vec<u8>> = Vec::new();
    r.push(vstd::slice::slice_to_vec(a));
    r
}

/// Wraps two seed slices as a seed list.
pub fn two_seeds(a: &[u8], b: &[u8]) -> (r: Vec<Vec<u8>>)
    ensures
        r.deep_view() =~~= seq![a@, b@],
{
    let mut r: Vec<Vec<u8>> = Vec::new();
    r.push(vstd::slice::slice_to_vec(a));
    r.push(vstd::slice::slice_to_vec(b));
    r
}

} // verus!
