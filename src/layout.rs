use vstd::prelude::*;
use vstd::bytes::{
    lemma_auto_spec_u64_to_from_le_bytes, spec_u64_from_le_bytes, spec_u64_to_le_bytes,
    u64_from_le_bytes, u64_to_le_bytes,
};
use vstd::slice::slice_subrange;
use crate::address::Address;
use crate::record::{Swap, SwapStatus};

verus! {

/// The one-byte tag a status is persisted as.
pub open spec fn status_tag(s: SwapStatus) -> u8 {
    match s {
        SwapStatus::Pending => 0,
        SwapStatus::Executed => 1,
        SwapStatus::Finalized => 2,
    }
}

/// The persisted form of a record: owner, amount in, minimum amount out
/// (both little-endian), status tag, execution time (little-endian two's
/// complement) and bump.
pub open spec fn swap_bytes(s: Swap) -> Seq<u8> {
    s.user@ + spec_u64_to_le_bytes(s.amount_in) + spec_u64_to_le_bytes(s.minimum_amount_out)
        + seq![status_tag(s.status)] + spec_u64_to_le_bytes(s.executed_at as u64) + seq![s.bump]
}

proof fn lemma_swap_bytes_parts(s: Swap)
    ensures
        swap_bytes(s).len() == 58,
        swap_bytes(s).subrange(0, 32) == s.user@,
        swap_bytes(s).subrange(32, 40) == spec_u64_to_le_bytes(s.amount_in),
        swap_bytes(s).subrange(40, 48) == spec_u64_to_le_bytes(s.minimum_amount_out),
        swap_bytes(s)[48] == status_tag(s.status),
        swap_bytes(s).subrange(49, 57) == spec_u64_to_le_bytes(s.executed_at as u64),
        swap_bytes(s)[57] == s.bump,
{
    lemma_auto_spec_u64_to_from_le_bytes();
    let b = swap_bytes(s);
    assert(b.subrange(0, 32) =~= s.user@);
    assert(b.subrange(32, 40) =~= spec_u64_to_le_bytes(s.amount_in));
    assert(b.subrange(40, 48) =~= spec_u64_to_le_bytes(s.minimum_amount_out));
    assert(b.subrange(49, 57) =~= spec_u64_to_le_bytes(s.executed_at as u64));
}

/// Two records with the same persisted form are the same record.
pub proof fn lemma_swap_bytes_injective(a: Swap, b: Swap)
    requires
        swap_bytes(a) == swap_bytes(b),
    ensures
        a == b,
{
    lemma_auto_spec_u64_to_from_le_bytes();
    lemma_swap_bytes_parts(a);
    lemma_swap_bytes_parts(b);
    assert(a.user.bytes =~= b.user.bytes);
    assert(spec_u64_from_le_bytes(spec_u64_to_le_bytes(a.amount_in)) == a.amount_in);
    assert(spec_u64_from_le_bytes(spec_u64_to_le_bytes(b.amount_in)) == b.amount_in);
    assert(spec_u64_from_le_bytes(spec_u64_to_le_bytes(a.minimum_amount_out)) == a.minimum_amount_out);
    assert(spec_u64_from_le_bytes(spec_u64_to_le_bytes(b.minimum_amount_out)) == b.minimum_amount_out);
    assert(spec_u64_from_le_bytes(spec_u64_to_le_bytes(a.executed_at as u64)) == a.executed_at as u64);
    assert(spec_u64_from_le_bytes(spec_u64_to_le_bytes(b.executed_at as u64)) == b.executed_at as u64);
    let (x, y) = (a.executed_at, b.executed_at);
    assert(x as u64 == y as u64 ==> x == y) by (bit_vector);
}

fn push_bytes(out: &mut Vec<u8>, s: &[u8])
    ensures
        final(out)@ == old(out)@ + s@,
{
    let mut i: usize = 0;
    while i < s.len()
        invariant
            i <= s@.len(),
            out@ == old(out)@ + s@.subrange(0, i as int),
        decreases s@.len() - i,
    {
        out.push(s[i]);
        i = i + 1;
        assert(out@ =~= old(out)@ + s@.subrange(0, i as int));
    }
    assert(s@.subrange(0, i as int) =~= s@);
}

impl Swap {
    /// The record in its persisted form.
    pub fn to_bytes(&self) -> (r: Vec<u8>)
        ensures
            r@ == swap_bytes(*self),
            r@.len() == Swap::LEN,
    {
        let tag: u8 = match self.status {
            SwapStatus::Pending => 0,
            SwapStatus::Executed => 1,
            SwapStatus::Finalized => 2,
        };
        let mut out: Vec<u8> = Vec::new();
        push_bytes(&mut out, vstd::array::array_as_slice(&self.user.bytes));
        let amount = u64_to_le_bytes(self.amount_in);
        push_bytes(&mut out, amount.as_slice());
        let minimum = u64_to_le_bytes(self.minimum_amount_out);
        push_bytes(&mut out, minimum.as_slice());
        out.push(tag);
        let time = u64_to_le_bytes(self.executed_at as u64);
        push_bytes(&mut out, time.as_slice());
        out.push(self.bump);
        proof {
            lemma_swap_bytes_parts(*self);
            assert(out@ =~= swap_bytes(*self));
        }
        out
    }

    /// Reads a record back from its persisted form; `None` when `b` is not
    /// the persisted form of any record.
    pub fn from_bytes(b: &[u8]) -> (r: Option<Swap>)
        ensures
            match r {
                Some(s) => swap_bytes(s) == b@,
                None => forall|s: Swap| swap_bytes(s) != b@,
            },
    {
        if b.len() != 58 || b[48] > 2 {
            proof {
                assert forall|s: Swap| swap_bytes(s) != b@ by {
                    lemma_swap_bytes_parts(s);
                }
            }
            return None;
        }
        let mut user: [u8; 32] = [0u8; 32];
        let mut i: usize = 0;
        while i < 32
            invariant
                i <= 32,
                b@.len() == 58,
                forall|j: int| 0 <= j < i ==> user@[j] == b@[j],
            decreases 32 - i,
        {
            user.set(i, b[i]);
            i = i + 1;
        }
        let status = if b[48] == 0 {
            SwapStatus::Pending
        } else if b[48] == 1 {
            SwapStatus::Executed
        } else {
            SwapStatus::Finalized
        };
        let time = u64_from_le_bytes(slice_subrange(b, 49, 57));
        let s = Swap {
            user: Address { bytes: user },
            amount_in: u64_from_le_bytes(slice_subrange(b, 32, 40)),
            minimum_amount_out: u64_from_le_bytes(slice_subrange(b, 40, 48)),
            status,
            executed_at: time as i64,
            bump: b[57],
        };
        proof {
            lemma_auto_spec_u64_to_from_le_bytes();
            lemma_swap_bytes_parts(s);
            assert(s.user@ =~= b@.subrange(0, 32));
            assert((time as i64) as u64 == time) by (bit_vector);
            assert(swap_bytes(s) =~= b@.subrange(0, 32) + b@.subrange(32, 40) + b@.subrange(40, 48)
                + seq![b@[48]] + b@.subrange(49, 57) + seq![b@[57]]);
            assert(swap_bytes(s) =~= b@);
        }
        Some(s)
    }
}

} // verus!
