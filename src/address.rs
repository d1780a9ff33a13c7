//! Program-derived addresses of reviews: the seeds are the authority's key,
//! the title's bytes and one bump byte, searched from 255 down to 0.

use vstd::prelude::*;
use solana_program::pubkey::Pubkey;

verus! {

/// The address that the seeds `[authority, title, [bump]]` give under
/// `program_id`, or `None` where they give no valid program address.
pub uninterp spec fn program_address(
    authority: Seq<u8>,
    title: Seq<u8>,
    bump: u8,
    program_id: Seq<u8>,
) -> Option<Seq<u8>>;

/// Relies on `Pubkey::create_program_address` of solana_program: a pure
/// function of its seeds and program id, which refuses a seed longer than
/// 32 bytes.
#[verifier::external_body]
fn create_program_address(authority: &[u8; 32], title: &[u8], bump: u8, program_id: &[u8; 32]) -> (r:
    Option<[u8; 32]>)
    ensures
        match r {
            Some(a) => program_address(authority@, title@, bump, program_id@) == Some(a@),
            None => program_address(authority@, title@, bump, program_id@) is None,
        },
        title@.len() > 32 ==> r is None,
{
    let bump_seed = [bump];
    let seeds: [&[u8]; 3] = [authority, title, &bump_seed];
    Pubkey::create_program_address(&seeds, &Pubkey::new_from_array(*program_id)).ok().map(
        |p| p.to_bytes(),
    )
}

/// The first of the `count` bumps below `count`, highest first, that gives
/// a valid address, with that address.
pub open spec fn search_bump(
    authority: Seq<u8>,
    title: Seq<u8>,
    program_id: Seq<u8>,
    count: nat,
) -> Option<(Seq<u8>, u8)>
    decreases count,
{
    if count == 0 {
        None
    } else {
        let bump = ((count - 1) % 256) as u8;
        match program_address(authority, title, bump, program_id) {
            Some(a) => Some((a, bump)),
            None => search_bump(authority, title, program_id, (count - 1) as nat),
        }
    }
}

/// The derived address and bump of a review: the highest bump that gives
/// a valid address.
pub open spec fn derive_address(authority: Seq<u8>, title: Seq<u8>, program_id: Seq<u8>) -> Option<
    (Seq<u8>, u8),
> {
    search_bump(authority, title, program_id, 256)
}

/// A derivation result as values.
pub open spec fn derivation_view(r: Option<([u8; 32], u8)>) -> Option<(Seq<u8>, u8)> {
    match r {
        Some((a, b)) => Some((a@, b)),
        None => None,
    }
}

/// Derives the address and bump for `authority` and `title`, or `None`
/// where no bump gives a valid address.
pub fn find_program_address(authority: &[u8; 32], title: &[u8], program_id: &[u8; 32]) -> (r: Option<
    ([u8; 32], u8),
>)
    ensures
        derivation_view(r) == derive_address(authority@, title@, program_id@),
{
    let mut next: u16 = 256;
    while next > 0
        invariant
            next <= 256,
            derive_address(authority@, title@, program_id@) == search_bump(
                authority@,
                title@,
                program_id@,
                next as nat,
            ),
        decreases next,
    {
        next = next - 1;
        let bump: u8 = next as u8;
        if let Some(a) = create_program_address(authority, title, bump, program_id) {
            return Some((a, bump));
        }
    }
    None
}

/// Derivation is deterministic: any two results it gives for the same
/// authority, title and program are the same address and bump.
pub proof fn lemma_derivation_deterministic(
    authority: Seq<u8>,
    title: Seq<u8>,
    program_id: Seq<u8>,
    r1: Option<([u8; 32], u8)>,
    r2: Option<([u8; 32], u8)>,
)
    requires
        derivation_view(r1) == derive_address(authority, title, program_id),
        derivation_view(r2) == derive_address(authority, title, program_id),
    ensures
        r1 == r2,
{
    match (r1, r2) {
        (Some((a1, _)), Some((a2, _))) => {
            assert(a1 =~= a2);
        },
        _ => {},
    }
}

/// The bump that the search finds is the highest below `count` that gives
/// a valid address, and the address is the one it gives; where it finds
/// none, no bump below `count` gives one.
pub proof fn lemma_search_finds_highest_bump(
    authority: Seq<u8>,
    title: Seq<u8>,
    program_id: Seq<u8>,
    count: nat,
)
    requires
        count <= 256,
    ensures
        match search_bump(authority, title, program_id, count) {
            Some((a, b)) => b < count && program_address(authority, title, b, program_id) == Some(
                a,
            ) && forall|c: u8|
                b < c < count ==> #[trigger] program_address(authority, title, c, program_id) is None,
            None => forall|c: u8|
                c < count ==> #[trigger] program_address(authority, title, c, program_id) is None,
        },
    decreases count,
{
    if count > 0 {
        lemma_search_finds_highest_bump(authority, title, program_id, (count - 1) as nat);
    }
}

/// Whether two keys are the same.
pub fn keys_equal(a: &[u8; 32], b: &[u8; 32]) -> (r: bool)
    ensures
        r == (a@ == b@),
{
    let mut i: usize = 0;
    while i < 32
        invariant
            0 <= i <= 32,
            a@.len() == 32,
            b@.len() == 32,
            forall|j: int| 0 <= j < i ==> a@[j] == b@[j],
        decreases 32 - i,
    {
        if a[i] != b[i] {
            return false;
        }
        i = i + 1;
    }
    assert(a@ =~= b@);
    true
}

} // verus!
