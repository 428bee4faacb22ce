use vstd::prelude::*;

use rand::seq::SliceRandom;
use rand::Rng;

use crate::error::Error;

verus! {

broadcast use vstd::seq_lib::group_to_multiset_ensures;

/// Smallest grid side a game may be played with.
pub const MIN_GRID_SIZE: i64 = 2;

/// Largest grid side a game may be played with.
pub const MAX_GRID_SIZE: i64 = 8;

/// Length of a game's access code.
pub const ACCESS_CODE_LEN: usize = 16;

/// What to do with a player's board before showing it.
#[derive(Debug, Clone, Copy, PartialEq, Eq, Structural)]
pub enum FieldPlan {
    /// The board exists with the requested size.
    Keep,
    /// The board is missing or has another size: delete it and deal a new one.
    Regenerate,
}

/// An ASCII letter or digit.
pub open spec fn is_alphanumeric(c: u8) -> bool {
    (0x30 <= c <= 0x39) || (0x41 <= c <= 0x5a) || (0x61 <= c <= 0x7a)
}

/// Relies on rand's `SliceRandom::shuffle` with the thread-local generator,
/// which only swaps elements: the ids come back in some order, all of them.
#[verifier::external_body]
fn shuffle_ids(ids: &mut Vec<u128>)
    ensures
        final(ids)@.to_multiset() == old(ids)@.to_multiset(),
{
    ids.shuffle(&mut rand::thread_rng());
}

/// Relies on rand's `Alphanumeric` distribution sampled from the thread-local
/// generator, which picks from the ASCII letters and digits.
#[verifier::external_body]
fn random_alphanumeric() -> (c: u8)
    ensures
        is_alphanumeric(c),
{
    rand::thread_rng().sample(rand::distributions::Alphanumeric)
}

/// Decides whether a player's board of `existing` fields can be shown for a
/// grid of side `grid_size`, or must be dealt anew from a template of
/// `template_fields` fields. The side must lie between 2 and 8, and a new
/// board needs a template with at least as many fields as it has cells.
pub fn plan_fields(existing: usize, template_fields: usize, grid_size: i64) -> (r: Result<
    FieldPlan,
    Error,
>)
    ensures
        !(MIN_GRID_SIZE <= grid_size <= MAX_GRID_SIZE) ==> r matches Err(Error::BadRequest(_)),
        MIN_GRID_SIZE <= grid_size <= MAX_GRID_SIZE ==> {
            let cells = grid_size * grid_size;
            &&& (existing > 0 && existing == cells) ==> r == Ok::<FieldPlan, Error>(
                FieldPlan::Keep,
            )
            &&& (existing == 0 || existing != cells) && template_fields < cells ==> (r matches Err(
                Error::BadRequest(_),
            ))
            &&& (existing == 0 || existing != cells) && template_fields >= cells ==> r
                == Ok::<FieldPlan, Error>(FieldPlan::Regenerate)
        },
{
    if grid_size < MIN_GRID_SIZE || grid_size > MAX_GRID_SIZE {
        return Err(Error::BadRequest("Grid size must be greater than one and less than 9.".to_owned()));
    }
    assert(4 <= grid_size * grid_size <= 64) by (nonlinear_arith)
        requires
            2 <= grid_size <= 8,
    ;
    let cells = (grid_size * grid_size) as usize;
    if existing > 0 && existing == cells {
        return Ok(FieldPlan::Keep);
    }
    if template_fields < cells {
        return Err(Error::BadRequest("Template has not enough fields for the grid size.".to_owned()));
    }
    Ok(FieldPlan::Regenerate)
}

/// Deals a new board: `grid_size * grid_size` of the template's field ids,
/// drawn at random and without repetition. The field at index `i` takes
/// position `i`.
pub fn pick_field_templates(ids: Vec<u128>, grid_size: usize) -> (r: Vec<u128>)
    requires
        2 <= grid_size <= 8,
        grid_size * grid_size <= ids.len(),
    ensures
        r.len() == grid_size * grid_size,
        r@.to_multiset().subset_of(ids@.to_multiset()),
{
    let mut picked = ids;
    shuffle_ids(&mut picked);
    let ghost shuffled = picked@;
    proof {
        vstd::seq_lib::to_multiset_len(ids@);
        vstd::seq_lib::to_multiset_len(shuffled);
        assert(4 <= grid_size * grid_size <= 64) by (nonlinear_arith)
            requires
                2 <= grid_size <= 8,
        ;
    }
    let cells = grid_size * grid_size;
    picked.truncate(cells);
    proof {
        let tail = shuffled.subrange(cells as int, shuffled.len() as int);
        assert(shuffled =~= picked@ + tail);
        vstd::seq_lib::lemma_multiset_commutative(picked@, tail);
    }
    picked
}

/// A fresh access code for a game: sixteen ASCII letters and digits.
pub fn access_code() -> (r: Vec<u8>)
    ensures
        r.len() == ACCESS_CODE_LEN,
        forall|i: int| 0 <= i < r.len() ==> is_alphanumeric(#[trigger] r@[i]),
{
    let mut code: Vec<u8> = Vec::new();
    while code.len() < ACCESS_CODE_LEN
        invariant
            code.len() <= ACCESS_CODE_LEN,
            forall|i: int| 0 <= i < code.len() ==> is_alphanumeric(#[trigger] code@[i]),
        decreases ACCESS_CODE_LEN - code.len(),
    {
        let c = random_alphanumeric();
        code.push(c);
    }
    code
}

} // verus!
