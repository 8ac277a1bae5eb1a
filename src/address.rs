use vstd::prelude::*;
use anchor_lang::prelude::Pubkey;
use crate::record::ErrorCode;

verus! {

/// A 32-byte account address (a public key or a program derived address).
#[derive(Clone, Copy, Debug, PartialEq, Eq)]
pub struct Address {
    pub bytes: [u8; 32],
}

impl View for Address {
    type V = Seq<u8>;

    open spec fn view(&self) -> Seq<u8> {
        self.bytes@
    }
}

impl Address {
    pub fn new(bytes: [u8; 32]) -> (r: Address)
        ensures
            r.bytes == bytes,
    {
        Address { bytes }
    }

    /// Byte-wise comparison of two addresses.
    pub fn same_as(&self, other: &Address) -> (r: bool)
        ensures
            r == (self@ == other@),
    {
        let mut i: usize = 0;
        while i < 32
            invariant
                i <= 32,
                forall|j: int| 0 <= j < i ==> self@[j] == other@[j],
            decreases 32 - i,
        {
            if self.bytes[i] != other.bytes[i] {
                return false;
            }
            i = i + 1;
        }
        assert(self@ =~= other@);
        true
    }
}

/// The program derived address that the ledger computes for `seeds` under
/// `program`, or `None` where the derived point lies on the ed25519 curve.
pub uninterp spec fn program_address_of(seeds: Seq<Seq<u8>>, program: Seq<u8>) -> Option<Seq<u8>>;

/// Relies on `Pubkey::create_program_address`: it hashes the seeds (here the
/// tag, the owner and the one-byte bump) with the program id, and fails only
/// where the hash is a curve point or a seed is longer than 32 bytes.
#[verifier::external_body]
fn create_program_address(tag: &[u8], owner: &[u8; 32], bump: u8, program: &[u8; 32]) -> (r: Option<[u8; 32]>)
    requires
        tag@.len() <= 32,
    ensures
        r is Some <==> program_address_of(seq![tag@, owner@, seq![bump]], program@) is Some,
        r is Some ==> program_address_of(seq![tag@, owner@, seq![bump]], program@) == Some(r->0@),
{
    let seeds: [&[u8]; 3] = [tag, owner, &[bump]];
    Pubkey::create_program_address(&seeds, &Pubkey::new_from_array(*program)).ok().map(|a| a.to_bytes())
}

/// The domain tag under which swap records are derived: the bytes of "swap".
pub open spec fn swap_tag() -> Seq<u8> {
    seq![115u8, 119u8, 97u8, 112u8]
}

/// The address of `owner`'s swap record under `program` for a given bump.
pub open spec fn swap_address(program: Seq<u8>, owner: Seq<u8>, bump: u8) -> Option<Seq<u8>> {
    program_address_of(seq![swap_tag(), owner, seq![bump]], program)
}

/// Derives the address of `owner`'s swap record with the given bump.
pub fn derive_swap_address(program: &Address, owner: &Address, bump: u8) -> (r: Option<Address>)
    ensures
        r is Some <==> swap_address(program@, owner@, bump) is Some,
        r is Some ==> swap_address(program@, owner@, bump) == Some(r->0@),
{
    let tag: [u8; 4] = [115u8, 119u8, 97u8, 112u8];
    assert(tag@ =~= swap_tag());
    match create_program_address(&tag, &owner.bytes, bump, &program.bytes) {
        Some(bytes) => Some(Address { bytes }),
        None => None,
    }
}

/// The bump that derivation settles on: `preferred` when it yields an
/// address, else the largest bump that yields one.
pub open spec fn is_chosen_bump(program: Seq<u8>, owner: Seq<u8>, preferred: Option<u8>, b: u8) -> bool {
    &&& swap_address(program, owner, b) is Some
    &&& match preferred {
        Some(p) => p == b || (swap_address(program, owner, p) is None
            && forall|c: u8| c > b ==> (#[trigger] swap_address(program, owner, c)) is None),
        None => forall|c: u8| c > b ==> (#[trigger] swap_address(program, owner, c)) is None,
    }
}

/// Picks the bump of `owner`'s swap record: `preferred` when it yields an
/// address, else the largest bump that does.
pub fn find_swap_address(program: &Address, owner: &Address, preferred: Option<u8>) -> (r: Result<(Address, u8), ErrorCode>)
    ensures
        match r {
            Ok((a, b)) => {
                &&& is_chosen_bump(program@, owner@, preferred, b)
                &&& swap_address(program@, owner@, b) == Some(a@)
            },
            Err(e) => {
                &&& e == ErrorCode::DerivationExhausted
                &&& forall|c: u8| (#[trigger] swap_address(program@, owner@, c)) is None
            },
        },
{
    if let Some(p) = preferred {
        if let Some(a) = derive_swap_address(program, owner, p) {
            return Ok((a, p));
        }
    }
    let mut bump: u8 = 255;
    loop
        invariant
            forall|c: u8| c > bump ==> (#[trigger] swap_address(program@, owner@, c)) is None,
            preferred is Some ==> swap_address(program@, owner@, preferred->0) is None,
        decreases bump,
    {
        if let Some(a) = derive_swap_address(program, owner, bump) {
            return Ok((a, bump));
        }
        if bump == 0 {
            return Err(ErrorCode::DerivationExhausted);
        }
        bump = bump - 1;
    }
}

/// Deriving the record address twice from the same program, owner and bump
/// gives the same result: the derivation depends on these inputs alone.
pub proof fn lemma_derivation_deterministic(
    program1: Seq<u8>,
    owner1: Seq<u8>,
    bump1: u8,
    program2: Seq<u8>,
    owner2: Seq<u8>,
    bump2: u8,
)
    requires
        program1 == program2,
        owner1 == owner2,
        bump1 == bump2,
    ensures
        swap_address(program1, owner1, bump1) == swap_address(program2, owner2, bump2),
{
}

} // verus!
