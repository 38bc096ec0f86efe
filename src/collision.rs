//! Collision detection: bounding boxes of rotated bodies, their overlap
//! test, and the contacts between every pair of overlapping colliders.
//!
//! Convention for contact normals: a contact between bodies `a` and `b`
//! carries the normal at `a`, pointing away from `b`. It lies along the axis
//! of least overlap, so it is one of `(0, 1)`, `(0, -1)`, `(1, 0)` and
//! `(-1, 0)`; on equal overlaps the vertical axis wins.
use vstd::prelude::*;
use crate::body::{all_wf, Body, ROT_ONE};
use crate::fixed::{tdiv, Vec2, MAX_MAG};

verus! {

/// An axis-aligned box given by its extreme coordinates.
#[derive(Clone, Copy, Debug, PartialEq, Eq, Structural)]
pub struct Aabb {
    pub min_x: i128,
    pub min_y: i128,
    pub max_x: i128,
    pub max_y: i128,
}

/// A pair of overlapping bodies, by index, with the contact normal at body
/// `a` and the penetration depth along it.
#[derive(Clone, Copy, Debug, PartialEq, Eq, Structural)]
pub struct Contact {
    pub a: usize,
    pub b: usize,
    pub normal: Vec2,
    pub depth: i128,
}

pub open spec fn min_of(a: int, b: int) -> int {
    if a <= b {
        a
    } else {
        b
    }
}

pub open spec fn max_of(a: int, b: int) -> int {
    if a >= b {
        a
    } else {
        b
    }
}

/// Offset along x from the centre of the corner `(sx * hx, sy * hy)` of the
/// body's box after its rotation.
pub open spec fn corner_x(b: Body, sx: int, sy: int) -> int {
    tdiv(
        sx * b.half_extents.x * b.rotation.cos - sy * b.half_extents.y * b.rotation.sin,
        ROT_ONE as int,
    )
}

/// Offset along y from the centre of the rotated corner `(sx * hx, sy * hy)`.
pub open spec fn corner_y(b: Body, sx: int, sy: int) -> int {
    tdiv(
        sx * b.half_extents.x * b.rotation.sin + sy * b.half_extents.y * b.rotation.cos,
        ROT_ONE as int,
    )
}

/// The axis-aligned box around the four rotated corners of the body.
pub open spec fn aabb_of(b: Body) -> Aabb {
    let xs = (corner_x(b, 1, 1), corner_x(b, 1, -1), corner_x(b, -1, 1), corner_x(b, -1, -1));
    let ys = (corner_y(b, 1, 1), corner_y(b, 1, -1), corner_y(b, -1, 1), corner_y(b, -1, -1));
    Aabb {
        min_x: (b.position.x + min_of(min_of(xs.0, xs.1), min_of(xs.2, xs.3))) as i128,
        min_y: (b.position.y + min_of(min_of(ys.0, ys.1), min_of(ys.2, ys.3))) as i128,
        max_x: (b.position.x + max_of(max_of(xs.0, xs.1), max_of(xs.2, xs.3))) as i128,
        max_y: (b.position.y + max_of(max_of(ys.0, ys.1), max_of(ys.2, ys.3))) as i128,
    }
}

/// Two boxes overlap unless one lies wholly beyond the other along an axis;
/// boxes that only touch overlap.
pub open spec fn boxes_overlap(a: Aabb, b: Aabb) -> bool {
    !(a.max_x < b.min_x || a.max_y < b.min_y || b.max_x < a.min_x || b.max_y < a.min_y)
}

/// Bodies `i` and `j` of `s` both collide and their boxes overlap.
pub open spec fn collide(s: Seq<Body>, i: int, j: int) -> bool {
    s[i].has_collider && s[j].has_collider && boxes_overlap(aabb_of(s[i]), aabb_of(s[j]))
}

/// The contact between overlapping bodies `i` and `j` of `s`.
pub open spec fn contact_between(s: Seq<Body>, i: int, j: int) -> Contact {
    let ba = aabb_of(s[i]);
    let bb = aabb_of(s[j]);
    let ox = min_of(ba.max_x as int, bb.max_x as int) - max_of(ba.min_x as int, bb.min_x as int);
    let oy = min_of(ba.max_y as int, bb.max_y as int) - max_of(ba.min_y as int, bb.min_y as int);
    if oy <= ox {
        Contact {
            a: i as usize,
            b: j as usize,
            normal: if s[i].position.y >= s[j].position.y {
                Vec2 { x: 0, y: 1 }
            } else {
                Vec2 { x: 0, y: -1i64 }
            },
            depth: oy as i128,
        }
    } else {
        Contact {
            a: i as usize,
            b: j as usize,
            normal: if s[i].position.x >= s[j].position.x {
                Vec2 { x: 1, y: 0 }
            } else {
                Vec2 { x: -1i64, y: 0 }
            },
            depth: ox as i128,
        }
    }
}

/// Contacts of body `i` with bodies `i + 1 .. j`, in order.
pub open spec fn row_contacts(s: Seq<Body>, i: int, j: int) -> Seq<Contact>
    decreases j - i,
{
    if j <= i + 1 {
        seq![]
    } else {
        row_contacts(s, i, j - 1) + if collide(s, i, j - 1) {
            seq![contact_between(s, i, j - 1)]
        } else {
            seq![]
        }
    }
}

/// Contacts of the pairs whose first body is below `i`, ordered by the
/// first body and then the second.
pub open spec fn contacts_upto(s: Seq<Body>, i: int) -> Seq<Contact>
    decreases i,
{
    if i <= 0 {
        seq![]
    } else {
        contacts_upto(s, i - 1) + row_contacts(s, i - 1, s.len() as int)
    }
}

/// All contacts among the bodies of `s`.
pub open spec fn all_contacts(s: Seq<Body>) -> Seq<Contact> {
    contacts_upto(s, s.len() as int)
}

/// A normal along one axis, of length one.
pub open spec fn unit_axis(n: Vec2) -> bool {
    (n.x == 0 && (n.y == 1 || n.y == -1)) || (n.y == 0 && (n.x == 1 || n.x == -1))
}

/// Every contact of a sequence has an axis normal of length one.
pub open spec fn unit_normals(cs: Seq<Contact>) -> bool {
    forall|k: int| 0 <= k < cs.len() ==> unit_axis(#[trigger] cs[k].normal)
}

proof fn lemma_row_unit_normals(s: Seq<Body>, i: int, j: int)
    ensures
        unit_normals(row_contacts(s, i, j)),
    decreases j - i,
{
    if j > i + 1 {
        lemma_row_unit_normals(s, i, j - 1);
        let tail = if collide(s, i, j - 1) {
            seq![contact_between(s, i, j - 1)]
        } else {
            seq![]
        };
        assert(unit_normals(tail));
        assert(row_contacts(s, i, j) == row_contacts(s, i, j - 1) + tail);
    }
}

/// Detected contacts carry axis normals of length one.
pub proof fn lemma_contacts_unit_normals(s: Seq<Body>, i: int)
    ensures
        unit_normals(contacts_upto(s, i)),
    decreases i,
{
    if i > 0 {
        lemma_contacts_unit_normals(s, i - 1);
        lemma_row_unit_normals(s, i - 1, s.len() as int);
    }
}

/// The contact is the one between an overlapping pair of bodies `a < b`.
pub open spec fn reports_overlap(s: Seq<Body>, c: Contact) -> bool {
    &&& c.a < c.b < s.len()
    &&& collide(s, c.a as int, c.b as int)
    &&& c == contact_between(s, c.a as int, c.b as int)
}

proof fn lemma_row_exact(s: Seq<Body>, i: int, j: int)
    requires
        0 <= i,
        j <= s.len() <= usize::MAX,
    ensures
        forall|k: int|
            0 <= k < row_contacts(s, i, j).len() ==> reports_overlap(s, #[trigger] row_contacts(s, i, j)[k])
                && row_contacts(s, i, j)[k].a == i,
        forall|k: int|
            i < k < j && collide(s, i, k) ==> row_contacts(s, i, j).contains(
                #[trigger] contact_between(s, i, k),
            ),
    decreases j - i,
{
    if j > i + 1 {
        lemma_row_exact(s, i, j - 1);
        let prev = row_contacts(s, i, j - 1);
        let row = row_contacts(s, i, j);
        if collide(s, i, j - 1) {
            let c = contact_between(s, i, j - 1);
            assert(row == prev.push(c));
            assert(row[prev.len() as int] == c);
            assert forall|k: int| i < k < j && collide(s, i, k) implies row.contains(
                #[trigger] contact_between(s, i, k),
            ) by {
                if k < j - 1 {
                    let w = choose|w: int| 0 <= w < prev.len() && prev[w] == contact_between(s, i, k);
                    assert(row[w] == prev[w]);
                } else {
                    assert(row[prev.len() as int] == contact_between(s, i, k));
                }
            }
        } else {
            assert(row =~= prev);
        }
    }
}

/// Detection reports exactly the overlapping pairs: every reported contact
/// is that of a pair `a < b` of overlapping colliders, and every such pair
/// is reported.
pub proof fn lemma_contacts_exact(s: Seq<Body>)
    requires
        s.len() <= usize::MAX,
    ensures
        forall|k: int|
            0 <= k < all_contacts(s).len() ==> reports_overlap(s, #[trigger] all_contacts(s)[k]),
        forall|i: int, j: int|
            0 <= i < j < s.len() && collide(s, i, j) ==> all_contacts(s).contains(
                #[trigger] contact_between(s, i, j),
            ),
{
    lemma_contacts_upto_exact(s, s.len() as int);
}

proof fn lemma_contacts_upto_exact(s: Seq<Body>, n: int)
    requires
        n <= s.len() <= usize::MAX,
    ensures
        forall|k: int|
            0 <= k < contacts_upto(s, n).len() ==> reports_overlap(
                s,
                #[trigger] contacts_upto(s, n)[k],
            ),
        forall|i: int, j: int|
            0 <= i < n && i < j < s.len() && collide(s, i, j) ==> contacts_upto(s, n).contains(
                #[trigger] contact_between(s, i, j),
            ),
    decreases n,
{
    if n > 0 {
        lemma_contacts_upto_exact(s, n - 1);
        lemma_row_exact(s, n - 1, s.len() as int);
        let prev = contacts_upto(s, n - 1);
        let row = row_contacts(s, n - 1, s.len() as int);
        let all = contacts_upto(s, n);
        assert(all == prev + row);
        assert forall|k: int| 0 <= k < all.len() implies reports_overlap(s, #[trigger] all[k]) by {
            if k < prev.len() {
                assert(all[k] == prev[k]);
            } else {
                assert(all[k] == row[k - prev.len()]);
            }
        }
        assert forall|i: int, j: int|
            0 <= i < n && i < j < s.len() && collide(s, i, j) implies all.contains(
                #[trigger] contact_between(s, i, j),
            ) by {
            if i < n - 1 {
                let w = choose|w: int| 0 <= w < prev.len() && prev[w] == contact_between(s, i, j);
                assert(all[w] == prev[w]);
            } else {
                assert(row.contains(contact_between(s, i, j)));
                let w = choose|w: int| 0 <= w < row.len() && row[w] == contact_between(s, i, j);
                assert(all[prev.len() + w] == row[w]);
            }
        }
    }
}

/// An unrotated body's box is its centre plus and minus its half extents.
pub proof fn lemma_unrotated_aabb(b: Body)
    requires
        b.position.in_range(),
        0 <= b.half_extents.x <= MAX_MAG,
        0 <= b.half_extents.y <= MAX_MAG,
        b.rotation.cos == ROT_ONE,
        b.rotation.sin == 0,
    ensures
        aabb_of(b).min_x == b.position.x - b.half_extents.x,
        aabb_of(b).max_x == b.position.x + b.half_extents.x,
        aabb_of(b).min_y == b.position.y - b.half_extents.y,
        aabb_of(b).max_y == b.position.y + b.half_extents.y,
{
    let (hx, hy) = (b.half_extents.x as int, b.half_extents.y as int);
    let r = ROT_ONE as int;
    assert forall|sx: int, sy: int|
        (sx == 1 || sx == -1) && (sy == 1 || sy == -1) implies #[trigger] corner_x(b, sx, sy) == sx
        * hx by {
        assert(sx * hx * r - sy * hy * 0 == (sx * hx) * r) by (nonlinear_arith);
        lemma_tdiv_mul(sx * hx);
    }
    assert forall|sx: int, sy: int|
        (sx == 1 || sx == -1) && (sy == 1 || sy == -1) implies #[trigger] corner_y(b, sx, sy) == sy
        * hy by {
        assert(sx * hx * 0 + sy * hy * r == (sy * hy) * r) by (nonlinear_arith);
        lemma_tdiv_mul(sy * hy);
    }
    assert(corner_x(b, 1, 1) == hx && corner_x(b, -1, 1) == -hx);
    assert(corner_x(b, 1, -1) == hx && corner_x(b, -1, -1) == -hx);
    assert(corner_y(b, 1, 1) == hy && corner_y(b, 1, -1) == -hy);
    assert(corner_y(b, -1, 1) == hy && corner_y(b, -1, -1) == -hy);
}

proof fn lemma_tdiv_mul(k: int)
    ensures
        tdiv(k * ROT_ONE, ROT_ONE as int) == k,
{
    let r = ROT_ONE as int;
    if k >= 0 {
        assert((k * r) / r == k) by (nonlinear_arith)
            requires
                r > 0,
        ;
    } else {
        assert(-(k * r) == (-k) * r) by (nonlinear_arith);
        assert(((-k) * r) / r == -k) by (nonlinear_arith)
            requires
                r > 0,
        ;
    }
}

fn rotate_x(b: &Body, sx: i128, sy: i128) -> (r: i128)
    requires
        b.wf(),
        sx == 1 || sx == -1,
        sy == 1 || sy == -1,
    ensures
        r == corner_x(*b, sx as int, sy as int),
        -2 * MAX_MAG <= r <= 2 * MAX_MAG,
{
    let (hx, hy) = (b.half_extents.x as i128, b.half_extents.y as i128);
    let (c, s) = (b.rotation.cos as i128, b.rotation.sin as i128);
    proof {
        lemma_corner_term(sx as int, hx as int, c as int);
        lemma_corner_term(sy as int, hy as int, s as int);
    }
    let t: i128 = sx * hx * c - sy * hy * s;
    proof {
        lemma_corner_quotient(t as int);
    }
    t / (ROT_ONE as i128)
}

fn rotate_y(b: &Body, sx: i128, sy: i128) -> (r: i128)
    requires
        b.wf(),
        sx == 1 || sx == -1,
        sy == 1 || sy == -1,
    ensures
        r == corner_y(*b, sx as int, sy as int),
        -2 * MAX_MAG <= r <= 2 * MAX_MAG,
{
    let (hx, hy) = (b.half_extents.x as i128, b.half_extents.y as i128);
    let (c, s) = (b.rotation.cos as i128, b.rotation.sin as i128);
    proof {
        lemma_corner_term(sx as int, hx as int, s as int);
        lemma_corner_term(sy as int, hy as int, c as int);
    }
    let t: i128 = sx * hx * s + sy * hy * c;
    proof {
        lemma_corner_quotient(t as int);
    }
    t / (ROT_ONE as i128)
}

proof fn lemma_corner_term(sign: int, h: int, c: int)
    requires
        sign == 1 || sign == -1,
        0 <= h <= MAX_MAG,
        -ROT_ONE <= c <= ROT_ONE,
    ensures
        -MAX_MAG * ROT_ONE <= sign * h <= MAX_MAG * ROT_ONE,
        -MAX_MAG * ROT_ONE <= sign * h * c <= MAX_MAG * ROT_ONE,
{
    assert(-MAX_MAG * ROT_ONE <= sign * h * c <= MAX_MAG * ROT_ONE) by (nonlinear_arith)
        requires
            sign == 1 || sign == -1,
            0 <= h <= MAX_MAG,
            -ROT_ONE <= c <= ROT_ONE,
    ;
}

proof fn lemma_corner_quotient(t: int)
    requires
        -2 * MAX_MAG * ROT_ONE <= t <= 2 * MAX_MAG * ROT_ONE,
    ensures
        -2 * MAX_MAG <= tdiv(t, ROT_ONE as int) <= 2 * MAX_MAG,
{
    if t >= 0 {
        assert(t / (ROT_ONE as int) <= 2 * MAX_MAG) by (nonlinear_arith)
            requires
                0 <= t <= 2 * MAX_MAG * ROT_ONE,
        ;
    } else {
        assert((-t) / (ROT_ONE as int) <= 2 * MAX_MAG) by (nonlinear_arith)
            requires
                0 <= -t <= 2 * MAX_MAG * ROT_ONE,
        ;
    }
}

fn min_i128(a: i128, b: i128) -> (r: i128)
    ensures
        r == min_of(a as int, b as int),
{
    if a <= b {
        a
    } else {
        b
    }
}

fn max_i128(a: i128, b: i128) -> (r: i128)
    ensures
        r == max_of(a as int, b as int),
{
    if a >= b {
        a
    } else {
        b
    }
}

impl Body {
    /// The axis-aligned box around the body's rotated corners.
    pub fn aabb(&self) -> (r: Aabb)
        requires
            self.wf(),
        ensures
            r == aabb_of(*self),
            -3 * MAX_MAG <= r.min_x <= r.max_x <= 3 * MAX_MAG,
            -3 * MAX_MAG <= r.min_y <= r.max_y <= 3 * MAX_MAG,
    {
        let x0 = rotate_x(self, 1, 1);
        let x1 = rotate_x(self, 1, -1);
        let x2 = rotate_x(self, -1, 1);
        let x3 = rotate_x(self, -1, -1);
        let y0 = rotate_y(self, 1, 1);
        let y1 = rotate_y(self, 1, -1);
        let y2 = rotate_y(self, -1, 1);
        let y3 = rotate_y(self, -1, -1);
        let px = self.position.x as i128;
        let py = self.position.y as i128;
        Aabb {
            min_x: px + min_i128(min_i128(x0, x1), min_i128(x2, x3)),
            min_y: py + min_i128(min_i128(y0, y1), min_i128(y2, y3)),
            max_x: px + max_i128(max_i128(x0, x1), max_i128(x2, x3)),
            max_y: py + max_i128(max_i128(y0, y1), max_i128(y2, y3)),
        }
    }
}

impl Aabb {
    pub fn overlaps(&self, other: &Aabb) -> (r: bool)
        ensures
            r == boxes_overlap(*self, *other),
    {
        !(self.max_x < other.min_x || self.max_y < other.min_y || other.max_x < self.min_x
            || other.max_y < self.min_y)
    }
}

/// Whether two bodies' rotated bounding boxes overlap.
pub fn bodies_overlap(a: &Body, b: &Body) -> (r: bool)
    requires
        a.wf(),
        b.wf(),
    ensures
        r == boxes_overlap(aabb_of(*a), aabb_of(*b)),
{
    a.aabb().overlaps(&b.aabb())
}

fn make_contact(bodies: &Vec<Body>, i: usize, j: usize) -> (r: Contact)
    requires
        i < bodies.len(),
        j < bodies.len(),
        all_wf(bodies@),
    ensures
        r == contact_between(bodies@, i as int, j as int),
{
    let a = &bodies[i];
    let b = &bodies[j];
    let ba = a.aabb();
    let bb = b.aabb();
    let ox = min_i128(ba.max_x, bb.max_x) - max_i128(ba.min_x, bb.min_x);
    let oy = min_i128(ba.max_y, bb.max_y) - max_i128(ba.min_y, bb.min_y);
    if oy <= ox {
        let ny: i64 = if a.position.y >= b.position.y {
            1
        } else {
            -1
        };
        Contact { a: i, b: j, normal: Vec2 { x: 0, y: ny }, depth: oy }
    } else {
        let nx: i64 = if a.position.x >= b.position.x {
            1
        } else {
            -1
        };
        Contact { a: i, b: j, normal: Vec2 { x: nx, y: 0 }, depth: ox }
    }
}

/// Every contact among the bodies: one for each pair of colliders whose
/// boxes overlap this tick, ordered by the pair's first index and then its
/// second. Overlaps that persist are reported again on every tick.
pub fn detect_collisions(bodies: &Vec<Body>) -> (r: Vec<Contact>)
    requires
        all_wf(bodies@),
    ensures
        r@ == all_contacts(bodies@),
        unit_normals(r@),
{
    proof {
        lemma_contacts_unit_normals(bodies@, bodies@.len() as int);
    }
    let n = bodies.len();
    let mut out: Vec<Contact> = Vec::new();
    let mut i: usize = 0;
    while i < n
        invariant
            0 <= i <= n,
            n == bodies.len(),
            all_wf(bodies@),
            out@ == contacts_upto(bodies@, i as int),
        decreases n - i,
    {
        let mut j: usize = i + 1;
        assert(out@ =~= contacts_upto(bodies@, i as int) + row_contacts(bodies@, i as int, j as int));
        while j < n
            invariant
                i < n,
                i + 1 <= j <= n,
                n == bodies.len(),
                all_wf(bodies@),
                out@ == contacts_upto(bodies@, i as int) + row_contacts(bodies@, i as int, j as int),
            decreases n - j,
        {
            let a = &bodies[i];
            let b = &bodies[j];
            if a.has_collider && b.has_collider && bodies_overlap(a, b) {
                out.push(make_contact(bodies, i, j));
                assert(out@ =~= contacts_upto(bodies@, i as int) + row_contacts(
                    bodies@,
                    i as int,
                    j + 1,
                ));
            } else {
                assert(out@ =~= contacts_upto(bodies@, i as int) + row_contacts(
                    bodies@,
                    i as int,
                    j + 1,
                ));
            }
            j += 1;
        }
        i += 1;
    }
    out
}

} // verus!
