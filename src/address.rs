//! Account addresses and the deterministic derivations that bind the escrow
//! authority, the offer records and the custodial accounts to fixed seeds.
use vstd::prelude::*;

verus! {

broadcast use vstd::array::group_array_axioms;

/// A 32-byte account address.
#[derive(Clone, Copy, Debug, PartialEq, Eq)]
pub struct Address {
    pub bytes: [u8; 32],
}

/// The program address and bump seed that the derivation finds for a list
/// of seeds and a program, if a viable bump exists.
pub uninterp spec fn program_address_of(seeds: Seq<Seq<u8>>, program: Seq<u8>) -> Option<(Seq<u8>, u8)>;

pub open spec fn found_view(r: Option<(Address, u8)>) -> Option<(Seq<u8>, u8)> {
    match r {
        Some((a, bump)) => Some((a.bytes@, bump)),
        None => None,
    }
}

pub open spec fn seeds_view(seeds: Seq<Vec<u8>>) -> Seq<Seq<u8>> {
    seeds.map_values(|s: Vec<u8>| s@)
}

/// Relies on `Pubkey::try_find_program_address` of solana-program: the result
/// is a function of the seeds and the program id alone; it is `None` where no
/// bump seed yields an address off the curve, or the seeds are too many or too long.
#[verifier::external_body]
fn find_program_address(seeds: &Vec<Vec<u8>>, program: &Address) -> (r: Option<(Address, u8)>)
    ensures
        found_view(r) == program_address_of(seeds_view(seeds@), program.bytes@),
{
    let seeds: Vec<&[u8]> = seeds.iter().map(|s| &s[..]).collect();
    let program_id = anchor_lang::prelude::Pubkey::new_from_array(program.bytes);
    anchor_lang::prelude::Pubkey::try_find_program_address(&seeds, &program_id)
        .map(|(p, bump)| (Address { bytes: p.to_bytes() }, bump))
}

/// The bytes of the label "authority".
pub open spec fn authority_seed() -> Seq<u8> {
    seq![97u8, 117, 116, 104, 111, 114, 105, 116, 121]
}

/// The bytes of the label "escrow".
pub open spec fn escrow_seed() -> Seq<u8> {
    seq![101u8, 115, 99, 114, 111, 119]
}

/// The id of the token program.
pub open spec fn token_program_bytes() -> Seq<u8> {
    seq![
        6u8, 221, 246, 225, 215, 101, 161, 147, 217, 203, 225, 70, 206, 235, 121, 172,
        28, 180, 133, 237, 95, 91, 55, 145, 58, 140, 245, 133, 126, 255, 0, 169,
    ]
}

/// The id of the associated token account program.
pub open spec fn associated_token_program_bytes() -> Seq<u8> {
    seq![
        140u8, 151, 37, 143, 78, 36, 137, 241, 187, 61, 16, 41, 20, 142, 13, 131,
        11, 90, 19, 153, 218, 255, 16, 132, 4, 142, 123, 216, 219, 233, 248, 89,
    ]
}

impl Address {
    /// The address's bytes as a vector.
    pub fn to_vec(&self) -> (r: Vec<u8>)
        ensures
            r@ == self.bytes@,
    {
        let mut v: Vec<u8> = Vec::new();
        let mut i: usize = 0;
        while i < 32
            invariant
                i <= 32,
                v@ == self.bytes@.subrange(0, i as int),
            decreases 32 - i,
        {
            v.push(self.bytes[i]);
            i = i + 1;
            assert(v@ =~= self.bytes@.subrange(0, i as int));
        }
        assert(v@ =~= self.bytes@);
        v
    }

    /// Compares two addresses byte by byte.
    pub fn same(&self, other: &Address) -> (r: bool)
        ensures
            r == (*self == *other),
    {
        let mut i: usize = 0;
        while i < 32
            invariant
                i <= 32,
                forall|j: int| 0 <= j < i ==> self.bytes@[j] == other.bytes@[j],
            decreases 32 - i,
        {
            if self.bytes[i] != other.bytes[i] {
                return false;
            }
            i = i + 1;
        }
        assert(self.bytes =~= other.bytes);
        true
    }
}

/// The address whose bytes are `s` (meaningful where `s` has 32 bytes).
pub open spec fn addr(s: Seq<u8>) -> Address {
    choose|a: Address| a.bytes@ == s
}

/// An address is the one `addr` picks for its own bytes.
pub proof fn lemma_addr(a: Address)
    ensures
        addr(a.bytes@) == a,
{
    let b = addr(a.bytes@);
    assert(b.bytes@ == a.bytes@);
    assert(b.bytes =~= a.bytes);
}

pub open spec fn found_addr(r: Option<(Seq<u8>, u8)>) -> Option<Address> {
    match r {
        Some((a, _)) => Some(addr(a)),
        None => None,
    }
}

/// The escrow authority of a program: derived from the label "authority"
/// alone, if the derivation finds a bump.
pub open spec fn authority_of(program: Address) -> Option<Address> {
    found_addr(program_address_of(seq![authority_seed()], program.bytes@))
}

/// The address of the offer record of a pair of parties: derived from the
/// label "escrow" and both parties' addresses.
pub open spec fn offer_address_of(program: Address, party_one: Address, party_two: Address) -> Option<Address> {
    found_addr(program_address_of(seq![escrow_seed(), party_one.bytes@, party_two.bytes@], program.bytes@))
}

/// The custodial account of a mint: the associated token account of the
/// escrow authority for that mint, derived under the associated token
/// account program from the wallet, the token program id and the mint.
pub open spec fn custodial_of(authority: Address, mint: Address) -> Option<Address> {
    found_addr(program_address_of(
        seq![authority.bytes@, token_program_bytes(), mint.bytes@],
        associated_token_program_bytes(),
    ))
}

fn found_address(found: Option<(Address, u8)>) -> (r: Option<Address>)
    ensures
        r == found_addr(found_view(found)),
{
    match found {
        Some((a, _)) => {
            proof {
                lemma_addr(a);
            }
            Some(a)
        },
        None => None,
    }
}

/// Derives the escrow authority of a program.
pub fn escrow_authority(program: &Address) -> (r: Option<Address>)
    ensures
        r == authority_of(*program),
{
    let mut seeds: Vec<Vec<u8>> = Vec::new();
    let label: Vec<u8> = vec![97u8, 117, 116, 104, 111, 114, 105, 116, 121];
    assert(label@ =~= authority_seed());
    seeds.push(label);
    let found = find_program_address(&seeds, program);
    assert(seeds_view(seeds@) =~= seq![authority_seed()]);
    found_address(found)
}

/// Derives the address of the offer record of `party_one` and `party_two`.
pub fn offer_address(program: &Address, party_one: &Address, party_two: &Address) -> (r: Option<Address>)
    ensures
        r == offer_address_of(*program, *party_one, *party_two),
{
    let mut seeds: Vec<Vec<u8>> = Vec::new();
    let label: Vec<u8> = vec![101u8, 115, 99, 114, 111, 119];
    assert(label@ =~= escrow_seed());
    seeds.push(label);
    seeds.push(party_one.to_vec());
    seeds.push(party_two.to_vec());
    let found = find_program_address(&seeds, program);
    assert(seeds_view(seeds@) =~= seq![escrow_seed(), party_one.bytes@, party_two.bytes@]);
    found_address(found)
}

/// Derives the custodial account that `authority` holds for `mint`.
pub fn custodial_address(authority: &Address, mint: &Address) -> (r: Option<Address>)
    ensures
        r == custodial_of(*authority, *mint),
{
    let token_program = Address {
        bytes: [
            6u8, 221, 246, 225, 215, 101, 161, 147, 217, 203, 225, 70, 206, 235, 121, 172,
            28, 180, 133, 237, 95, 91, 55, 145, 58, 140, 245, 133, 126, 255, 0, 169,
        ],
    };
    let ata_program = Address {
        bytes: [
            140u8, 151, 37, 143, 78, 36, 137, 241, 187, 61, 16, 41, 20, 142, 13, 131,
            11, 90, 19, 153, 218, 255, 16, 132, 4, 142, 123, 216, 219, 233, 248, 89,
        ],
    };
    assert(token_program.bytes@ =~= token_program_bytes());
    assert(ata_program.bytes@ =~= associated_token_program_bytes());
    let mut seeds: Vec<Vec<u8>> = Vec::new();
    seeds.push(authority.to_vec());
    seeds.push(token_program.to_vec());
    seeds.push(mint.to_vec());
    let found = find_program_address(&seeds, &ata_program);
    assert(seeds_view(seeds@) =~= seq![authority.bytes@, token_program_bytes(), mint.bytes@]);
    found_address(found)
}

} // verus!
