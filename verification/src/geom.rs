use vstd::prelude::*;

verus! {

/// One cardinal unit vector: exactly one axis moves, by one cell.
pub open spec fn cardinal(dx: int, dy: int) -> bool {
    (dx == 0 && (dy == 1 || dy == -1)) || (dy == 0 && (dx == 1 || dx == -1))
}

/// The 2-cell-wide, 1-cell-tall footprint anchored at (ax, ay) covers (x, y).
pub open spec fn footprint_hits(ax: int, ay: int, x: int, y: int) -> bool {
    (x == ax || x == ax + 1) && y == ay
}

/// (nx, ny) is at most one axis-aligned cell away from (px, py). Staying put
/// counts: a decrement saturated at zero produces it at the grid's edge.
pub open spec fn step_from(px: int, py: int, nx: int, ny: int) -> bool {
    (ny == py && (nx == px || nx == px + 1 || nx + 1 == px))
    || (nx == px && (ny == py + 1 || ny + 1 == py))
}

/// One step from p along d, saturating at zero.
pub open spec fn sat_step(p: int, d: int) -> int {
    if p + d < 0 { 0 } else { p + d }
}

/// (tx, ty) is the target of one of the four cardinal one-cell draws from
/// (x, y), decrements saturating at zero.
pub open spec fn cardinal_sat_target(x: int, y: int, tx: int, ty: int) -> bool {
    ||| (tx == sat_step(x, -1) && ty == y)
    ||| (tx == x + 1 && ty == y)
    ||| (tx == x && ty == sat_step(y, -1))
    ||| (tx == x && ty == y + 1)
}

}
