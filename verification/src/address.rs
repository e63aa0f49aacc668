use crate::identity::lemma_asset_pair_unordered;
use crate::identity::AssetPair;
use crate::identity::Identity;
use anchor_lang::prelude::Pubkey;
use vstd::prelude::*;

verus! {

/// The address that is found for `seeds` under the program `program`, with
/// the bump seed that completes them; `None` where there is none.
///
/// This names what `Pubkey::try_find_program_address` returns. The search
/// hashes its arguments and nothing else, so that equal arguments find the
/// same address; what the address is, is not stated here.
pub uninterp spec fn program_address(seeds: Seq<Seq<u8>>, program: Seq<u8>) -> Option<(Seq<u8>, u8)>;

/// Calls `Pubkey::try_find_program_address` on the seeds and the program
/// given as bytes, and hands back the address as bytes.
///
/// Believed, not proved: that the call returns what `program_address` names
/// for these arguments, which is to say that it depends on them alone.
#[verifier::external_body]
fn try_find_program_address(seeds: &Vec<Vec<u8>>, program: &[u8; 32]) -> (found: Option<([u8; 32], u8)>)
    ensures
        match found {
            Some((address, bump)) => program_address(seeds.deep_view(), program@) == Some((address@, bump)),
            None => program_address(seeds.deep_view(), program@) == None::<(Seq<u8>, u8)>,
        },
{
    let seeds: Vec<&[u8]> = seeds.iter().map(|seed| seed.as_slice()).collect();
    let found = Pubkey::try_find_program_address(&seeds, &Pubkey::new_from_array(*program));
    found.map(|(address, bump)| (address.to_bytes(), bump))
}

/// An address derived for the exchange, and the bump seed that it was
/// found with. No key stands behind such an address: the exchange alone
/// signs for it, with the seeds and the bump seed.
#[derive(Clone, Copy, Debug, PartialEq, Eq, Structural)]
pub struct DerivedAddress {
    pub address: Identity,
    pub bump: u8,
}

impl DerivedAddress {
    /// What was found, as a derived address.
    pub open spec fn of(found: Option<(Seq<u8>, u8)>) -> Option<DerivedAddress> {
        match found {
            Some((address, bump)) => Some(DerivedAddress { address: Identity::of_bytes(address), bump }),
            None => None,
        }
    }

    /// Reads what a search found: the address from its bytes, and the bump
    /// seed as it is.
    pub fn found(found: Option<([u8; 32], u8)>) -> (res: Option<DerivedAddress>)
        ensures
            res == DerivedAddress::of(
                match found {
                    Some((address, bump)) => Some((address@, bump)),
                    None => None,
                },
            ),
    {
        match found {
            Some((address, bump)) => Some(DerivedAddress { address: Identity::from_bytes(&address), bump }),
            None => None,
        }
    }
}

/// The seeds of a pool's address: the word `pool`, then the bytes of the
/// two assets of its pair in canonical order.
pub open spec fn pool_seeds(pair: AssetPair) -> Seq<Seq<u8>> {
    seq![seq![112u8, 111u8, 111u8, 108u8], pair.first.bytes(), pair.second.bytes()]
}

/// The seeds of a sale's address: the word `launch`, then the bytes of the
/// token that is sold.
pub open spec fn launch_seeds(token_mint: Identity) -> Seq<Seq<u8>> {
    seq![seq![108u8, 97u8, 117u8, 110u8, 99u8, 104u8], token_mint.bytes()]
}

/// The address of the pool of `pair` under the program `program`.
pub open spec fn pool_address(program: Identity, pair: AssetPair) -> Option<DerivedAddress> {
    DerivedAddress::of(program_address(pool_seeds(pair), program.bytes()))
}

/// The address of the sale of `token_mint` under the program `program`.
pub open spec fn launch_address(program: Identity, token_mint: Identity) -> Option<DerivedAddress> {
    DerivedAddress::of(program_address(launch_seeds(token_mint), program.bytes()))
}

fn seed_of(identity: &Identity) -> (seed: Vec<u8>)
    ensures
        seed@ == identity.bytes(),
{
    let bytes = identity.to_bytes();
    let mut seed: Vec<u8> = Vec::new();
    let mut i: usize = 0;
    while i < 32
        invariant
            i <= 32,
            bytes@.len() == 32,
            seed@ == bytes@.subrange(0, i as int),
        decreases 32 - i,
    {
        seed.push(bytes[i]);
        assert(seed@ =~= bytes@.subrange(0, i + 1));
        i += 1;
    }
    assert(seed@ =~= bytes@);
    seed
}

/// Finds the address of the pool of two assets under the program
/// `program`, and the bump seed to sign for it with. The pool's authority
/// over its vaults and its share mint lies with this address.
///
/// The assets may be named in either order: the address is that of their
/// pair.
pub fn find_pool_address(program: &Identity, token_a_mint: &Identity, token_b_mint: &Identity) -> (res: Option<
    DerivedAddress,
>)
    ensures
        res == pool_address(*program, AssetPair::of(*token_a_mint, *token_b_mint)),
        res == pool_address(*program, AssetPair::of(*token_b_mint, *token_a_mint)),
{
    let pair = AssetPair::new(*token_a_mint, *token_b_mint);
    let mut tag: Vec<u8> = Vec::new();
    tag.push(112);
    tag.push(111);
    tag.push(111);
    tag.push(108);
    let mut seeds: Vec<Vec<u8>> = Vec::new();
    seeds.push(tag);
    seeds.push(seed_of(&pair.first));
    seeds.push(seed_of(&pair.second));
    proof {
        lemma_asset_pair_unordered(*token_a_mint, *token_b_mint, *token_a_mint, *token_b_mint);
        assert(seeds@[0]@ =~= seq![112u8, 111u8, 111u8, 108u8]);
        assert(seeds.deep_view() =~~= pool_seeds(pair));
    }
    let bytes = program.to_bytes();
    DerivedAddress::found(try_find_program_address(&seeds, &bytes))
}

/// Finds the address of the sale of `token_mint` under the program
/// `program`, and the bump seed to sign for it with.
pub fn find_launch_address(program: &Identity, token_mint: &Identity) -> (res: Option<DerivedAddress>)
    ensures
        res == launch_address(*program, *token_mint),
{
    let mut tag: Vec<u8> = Vec::new();
    tag.push(108);
    tag.push(97);
    tag.push(117);
    tag.push(110);
    tag.push(99);
    tag.push(104);
    let mut seeds: Vec<Vec<u8>> = Vec::new();
    seeds.push(tag);
    seeds.push(seed_of(token_mint));
    proof {
        assert(seeds@[0]@ =~= seq![108u8, 97u8, 117u8, 110u8, 99u8, 104u8]);
        assert(seeds.deep_view() =~~= launch_seeds(*token_mint));
    }
    let bytes = program.to_bytes();
    DerivedAddress::found(try_find_program_address(&seeds, &bytes))
}

} // verus!
