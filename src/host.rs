//! The host functions scripts can call whose work is computation: points, a
//! die roll within bounds, and the assertion that stops a script.

use rand::rngs::ThreadRng;
use rand::Rng;
use vstd::prelude::*;

verus! {

#[verifier::external_type_specification]
#[verifier::external_body]
pub struct ExThreadRng(ThreadRng);

/// Relies on rand::thread_rng: it hands out the thread's generator.
pub assume_specification[ rand::thread_rng ]() -> ThreadRng;

/// Relies on rand::Rng::gen_range on an inclusive range of i64: the value lies
/// within both bounds; an empty range makes it panic, so it is left out.
#[verifier::external_body]
fn gen_range_inclusive(rng: &mut ThreadRng, low: i64, high: i64) -> (r: i64)
    requires
        low <= high,
    ensures
        low <= r <= high,
{
    rng.gen_range(low..=high)
}

/// A point of the plane with integer coordinates.
#[derive(Clone, Copy, Debug, PartialEq, Eq, Structural)]
pub struct Point {
    pub x: i64,
    pub y: i64,
}

impl Point {
    pub fn new(x: i64, y: i64) -> (r: Point)
        ensures
            r.x == x,
            r.y == y,
    {
        Point { x, y }
    }

    /// The square of the distance from the origin; the length is its square root.
    pub fn length_squared(&self) -> (r: u128)
        ensures
            r == self.x * self.x + self.y * self.y,
    {
        let ax: u128 = if self.x < 0 { (-(self.x as i128)) as u128 } else { self.x as u128 };
        let ay: u128 = if self.y < 0 { (-(self.y as i128)) as u128 } else { self.y as u128 };
        assert(ax * ax <= 0x4000_0000_0000_0000_0000_0000_0000_0000) by (nonlinear_arith)
            requires
                ax <= 0x8000_0000_0000_0000,
        ;
        assert(ay * ay <= 0x4000_0000_0000_0000_0000_0000_0000_0000) by (nonlinear_arith)
            requires
                ay <= 0x8000_0000_0000_0000,
        ;
        assert(ax * ax == self.x * self.x) by (nonlinear_arith)
            requires
                ax == self.x || ax == -self.x,
        ;
        assert(ay * ay == self.y * self.y) by (nonlinear_arith)
            requires
                ay == self.y || ay == -self.y,
        ;
        ax * ax + ay * ay
    }
}

/// A random integer from `min` to `max`, both included; none where the range
/// is empty.
pub fn rand_int(min: i64, max: i64) -> (r: Option<i64>)
    ensures
        r is Some <==> min <= max,
        r matches Some(v) ==> min <= v <= max,
{
    if min > max {
        return None;
    }
    let mut rng = rand::thread_rng();
    Some(gen_range_inclusive(&mut rng, min, max))
}

/// The assertion scripts can make: it stops the script, not the host, when
/// `cond` is false.
pub fn check_assertion(cond: bool) -> (r: Result<(), String>)
    ensures
        r is Ok <==> cond,
        r matches Err(msg) ==> msg@ == seq!['a', 's', 's', 'e', 'r', 't', 'i', 'o', 'n', ' ', 'f', 'a', 'i', 'l', 'e', 'd'],
{
    if cond {
        Ok(())
    } else {
        let msg = "assertion failed".to_owned();
        proof {
            reveal_strlit("assertion failed");
        }
        assert(msg@ =~= seq!['a', 's', 's', 'e', 'r', 't', 'i', 'o', 'n', ' ', 'f', 'a', 'i', 'l', 'e', 'd']);
        Err(msg)
    }
}

} // verus!
