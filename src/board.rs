use vstd::prelude::*;

use crate::body::FieldOut;
use crate::error::Error;

verus! {

/// The rows of a board are the consecutive runs of `n` fields, in order.
pub open spec fn is_board_of(rows: Seq<Vec<FieldOut>>, fields: Seq<FieldOut>, n: int) -> bool {
    &&& rows.len() == n
    &&& forall|i: int| 0 <= i < n ==> #[trigger] rows[i]@ == fields.subrange(i * n, i * n + n)
}

/// Reshapes the fields of one player's board, ordered by position, into
/// `grid_size` rows of `grid_size` fields. No fields give a board of no rows;
/// a field count other than the square of the stored grid size is refused.
pub fn build_board(fields: Vec<FieldOut>, grid_size: usize) -> (r: Result<Vec<Vec<FieldOut>>, Error>)
    ensures
        fields.len() == 0 ==> (r matches Ok(rows) && rows@.len() == 0),
        fields.len() > 0 && fields.len() != grid_size * grid_size ==> r matches Err(
            Error::InternalServer,
        ),
        fields.len() > 0 && fields.len() == grid_size * grid_size ==> (r matches Ok(rows)
            && is_board_of(rows@, fields@, grid_size as int)),
{
    if fields.len() == 0 {
        return Ok(Vec::new());
    }
    let n = grid_size as u128;
    assert(n * n <= 0xffff_ffff_ffff_ffffu128 * 0xffff_ffff_ffff_ffffu128) by (nonlinear_arith)
        requires
            n <= 0xffff_ffff_ffff_ffffu128,
    ;
    if n * n != fields.len() as u128 {
        return Err(Error::InternalServer);
    }
    let ghost all = fields@;
    let mut rows: Vec<Vec<FieldOut>> = Vec::new();
    let mut rest = fields;
    let mut i: usize = 0;
    while i < grid_size
        invariant
            i <= grid_size,
            all.len() == grid_size * grid_size,
            rows@.len() == i,
            rest@ == all.subrange(i * grid_size, all.len() as int),
            forall|k: int|
                0 <= k < i ==> #[trigger] rows@[k]@ == all.subrange(
                    k * grid_size,
                    k * grid_size + grid_size,
                ),
        decreases grid_size - i,
    {
        assert(i * grid_size + grid_size == (i + 1) * grid_size && (i + 1) * grid_size
            <= grid_size * grid_size) by (nonlinear_arith)
            requires
                i < grid_size,
        ;
        let tail = rest.split_off(grid_size);
        assert(rest@ == all.subrange(i * grid_size, i * grid_size + grid_size));
        rows.push(rest);
        rest = tail;
        i = i + 1;
    }
    Ok(rows)
}

} // verus!
