use vstd::prelude::*;

verus! {

/// How many rankings one page of a leaderboard shows.
pub const PAGE_SIZE: usize = 10;

/// The rows, from `start` up to but not including `end`, that page `page` of a leaderboard
/// of `len` rows shows: `PAGE_SIZE` of them from `page * PAGE_SIZE` on, fewer at the end,
/// none for a negative page or one past the end.
pub fn page_range(len: usize, page: i32) -> (r: (usize, usize))
    ensures
        r.0 <= r.1 <= len,
        (page < 0 || (page as int) * (PAGE_SIZE as int) >= (len as int)) ==> r.0 == r.1,
        (page >= 0 && (page as int) * (PAGE_SIZE as int) < (len as int)) ==> {
            &&& r.0 as int == (page as int) * (PAGE_SIZE as int)
            &&& r.1 as int == if r.0 as int + PAGE_SIZE as int <= len as int {
                r.0 as int + PAGE_SIZE as int
            } else {
                len as int
            }
        },
{
    if page < 0 {
        return (0, 0);
    }
    let page = page as u64;
    assert(page * 10 <= 0x7fff_ffff * 10) by (nonlinear_arith)
        requires
            page <= 0x7fff_ffff,
    ;
    let start = page * PAGE_SIZE as u64;
    if start >= len as u64 {
        return (0, 0);
    }
    let start = start as usize;
    if len - start >= PAGE_SIZE {
        (start, start + PAGE_SIZE)
    } else {
        (start, len)
    }
}

} // verus!
