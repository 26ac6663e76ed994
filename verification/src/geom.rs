//! The shared circular-collision capability: every collidable entity
//! exposes a center and a radius, and overlap is a strict comparison of the
//! squared center distance against the squared radius sum.

use vstd::prelude::*;
use crate::models::{BulletState, PlayerState, BULLET_RADIUS, MAX_BOUND, PLAYER_RADIUS};

verus! {

/// Coordinates the collision arithmetic is proved overflow-free for: the
/// world bounds plus a generous margin.
pub const COORD_MARGIN: i64 = 100_000;

/// Radii the collision arithmetic is proved overflow-free for.
pub const MAX_RADIUS: i64 = 100_000;

pub open spec fn coord_in_range(v: int) -> bool {
    -COORD_MARGIN <= v <= MAX_BOUND + COORD_MARGIN
}

pub open spec fn radius_in_range(r: int) -> bool {
    0 < r <= MAX_RADIUS
}

/// Two circles overlap when their squared center distance is strictly
/// smaller than the square of the sum of their radii.
pub open spec fn overlaps(ax: int, ay: int, ar: int, bx: int, by: int, br: int) -> bool {
    let dx = bx - ax;
    let dy = by - ay;
    let dr = ar + br;
    dx * dx + dy * dy < dr * dr
}

/// Overlap is symmetric in the two circles.
pub proof fn lemma_overlaps_symmetric(ax: int, ay: int, ar: int, bx: int, by: int, br: int)
    ensures
        overlaps(ax, ay, ar, bx, by, br) == overlaps(bx, by, br, ax, ay, ar),
{
    assert((bx - ax) * (bx - ax) == (ax - bx) * (ax - bx)) by (nonlinear_arith);
    assert((by - ay) * (by - ay) == (ay - by) * (ay - by)) by (nonlinear_arith);
}

/// Exec overlap test on raw circle data.
pub fn circles_collide(ax: i64, ay: i64, ar: i64, bx: i64, by: i64, br: i64) -> (r: bool)
    requires
        coord_in_range(ax as int),
        coord_in_range(ay as int),
        coord_in_range(bx as int),
        coord_in_range(by as int),
        radius_in_range(ar as int),
        radius_in_range(br as int),
    ensures
        r == overlaps(ax as int, ay as int, ar as int, bx as int, by as int, br as int),
{
    let d_x: i64 = bx - ax;
    let d_y: i64 = by - ay;
    let d_r: i64 = ar + br;
    proof {
        assert(0 <= d_x * d_x <= 1_000_000_000_000_000_000) by (nonlinear_arith)
            requires
                -500_200_000 <= d_x <= 500_200_000,
        ;
        assert(0 <= d_y * d_y <= 1_000_000_000_000_000_000) by (nonlinear_arith)
            requires
                -500_200_000 <= d_y <= 500_200_000,
        ;
        assert(0 <= d_r * d_r <= 1_000_000_000_000_000_000) by (nonlinear_arith)
            requires
                0 < d_r <= 200_000,
        ;
    }
    let squared_dist: i64 = d_x * d_x + d_y * d_y;
    let squared_radii: i64 = d_r * d_r;
    squared_dist < squared_radii
}

/// The circle capability shared by players and bullets: a center, a fixed
/// per-kind radius, and the symmetric overlap test.
pub trait Triangle: Sized {
    spec fn spec_x(&self) -> int;

    spec fn spec_y(&self) -> int;

    spec fn spec_radius(&self) -> int;

    fn x(&self) -> (r: i64)
        ensures
            r as int == self.spec_x(),
    ;

    fn y(&self) -> (r: i64)
        ensures
            r as int == self.spec_y(),
    ;

    fn radius(&self) -> (r: i64)
        ensures
            r as int == self.spec_radius(),
            radius_in_range(r as int),
    ;

}

/// The symmetric overlap test, shared by every pair of collidable kinds.
pub fn is_colliding<A: Triangle, B: Triangle>(a: &A, b: &B) -> (r: bool)
    requires
        coord_in_range(a.spec_x()),
        coord_in_range(a.spec_y()),
        coord_in_range(b.spec_x()),
        coord_in_range(b.spec_y()),
    ensures
        r == overlaps(a.spec_x(), a.spec_y(), a.spec_radius(), b.spec_x(), b.spec_y(),
            b.spec_radius()),
{
    circles_collide(a.x(), a.y(), a.radius(), b.x(), b.y(), b.radius())
}

impl Triangle for PlayerState {
    open spec fn spec_x(&self) -> int {
        self.x as int
    }

    open spec fn spec_y(&self) -> int {
        self.y as int
    }

    open spec fn spec_radius(&self) -> int {
        PLAYER_RADIUS as int
    }

    fn x(&self) -> i64 {
        self.x
    }

    fn y(&self) -> i64 {
        self.y
    }

    fn radius(&self) -> i64 {
        PLAYER_RADIUS
    }
}

impl Triangle for BulletState {
    open spec fn spec_x(&self) -> int {
        self.x as int
    }

    open spec fn spec_y(&self) -> int {
        self.y as int
    }

    open spec fn spec_radius(&self) -> int {
        BULLET_RADIUS as int
    }

    fn x(&self) -> i64 {
        self.x
    }

    fn y(&self) -> i64 {
        self.y
    }

    fn radius(&self) -> i64 {
        BULLET_RADIUS
    }
}

/// Overlap of two player circles.
pub open spec fn players_overlap(p: PlayerState, q: PlayerState) -> bool {
    overlaps(p.x as int, p.y as int, PLAYER_RADIUS as int, q.x as int, q.y as int,
        PLAYER_RADIUS as int)
}

/// Overlap of two bullet circles.
pub open spec fn bullets_overlap(a: BulletState, b: BulletState) -> bool {
    overlaps(a.x as int, a.y as int, BULLET_RADIUS as int, b.x as int, b.y as int,
        BULLET_RADIUS as int)
}

/// A bullet hits a player when their circles overlap and the player is not
/// the bullet's owner.
pub open spec fn bullet_hits_player(b: BulletState, p: PlayerState) -> bool {
    overlaps(b.x as int, b.y as int, BULLET_RADIUS as int, p.x as int, p.y as int,
        PLAYER_RADIUS as int) && b.player_id != p.id
}

} // verus!
