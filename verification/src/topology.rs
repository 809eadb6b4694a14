//! Triangle topologies of the primitive shapes.
//!
//! Each function here builds the index pattern of one primitive, relative to the
//! first vertex of that primitive. The patterns are pure integer data: the vertex
//! payloads are laid out by the caller in the order stated on each function.

use vstd::prelude::*;

verus! {

/// A relative index pattern is a list of whole triangles whose entries all name
/// one of the primitive's `vertex_count` vertices.
pub open spec fn valid_pattern(pattern: Seq<u32>, vertex_count: int) -> bool {
    &&& pattern.len() % 3 == 0
    &&& forall|k: int| 0 <= k < pattern.len() ==> (#[trigger] pattern[k]) < vertex_count
}

// ---------------------------------------------------------------------------
// Fixed-size primitives
// ---------------------------------------------------------------------------

/// Two triangles covering a quad whose corners are laid out bottom-left,
/// bottom-right, top-right, top-left.
pub open spec fn quad_pattern() -> Seq<u32> {
    seq![0u32, 1, 2, 0, 2, 3]
}

/// Two triangles covering a thick segment whose corners are laid out
/// start-left, start-right, end-left, end-right (strip order).
pub open spec fn strip_quad_pattern() -> Seq<u32> {
    seq![0u32, 1, 2, 1, 3, 2]
}

/// A single triangle.
pub open spec fn triangle_pattern() -> Seq<u32> {
    seq![0u32, 1, 2]
}

/// Eight triangles covering a rectangular frame: outer corners 0..4, inner
/// corners 4..8, both in bottom-left, bottom-right, top-right, top-left order.
pub open spec fn frame_pattern() -> Seq<u32> {
    seq![
        0u32, 1, 4, 1, 4, 5,
        1, 2, 5, 2, 5, 6,
        2, 3, 6, 3, 6, 7,
        3, 0, 7, 0, 7, 4,
    ]
}

/// Six triangles covering a triangular frame: outer corners 0..3, inner
/// corners 3..6.
pub open spec fn triangle_frame_pattern() -> Seq<u32> {
    seq![
        0u32, 1, 4, 0, 4, 3,
        1, 2, 5, 1, 5, 4,
        2, 0, 3, 2, 3, 5,
    ]
}

pub fn quad_indices() -> (r: Vec<u32>)
    ensures
        r@ == quad_pattern(),
        valid_pattern(r@, 4),
{
    let r = vec![0u32, 1, 2, 0, 2, 3];
    assert(r@ =~= quad_pattern());
    r
}

pub fn strip_quad_indices() -> (r: Vec<u32>)
    ensures
        r@ == strip_quad_pattern(),
        valid_pattern(r@, 4),
{
    let r = vec![0u32, 1, 2, 1, 3, 2];
    assert(r@ =~= strip_quad_pattern());
    r
}

pub fn triangle_indices() -> (r: Vec<u32>)
    ensures
        r@ == triangle_pattern(),
        valid_pattern(r@, 3),
{
    let r = vec![0u32, 1, 2];
    assert(r@ =~= triangle_pattern());
    r
}

pub fn frame_indices() -> (r: Vec<u32>)
    ensures
        r@ == frame_pattern(),
        valid_pattern(r@, 8),
{
    let r = vec![
        0u32, 1, 4, 1, 4, 5,
        1, 2, 5, 2, 5, 6,
        2, 3, 6, 3, 6, 7,
        3, 0, 7, 0, 7, 4,
    ];
    assert(r@ =~= frame_pattern());
    r
}

pub fn triangle_frame_indices() -> (r: Vec<u32>)
    ensures
        r@ == triangle_frame_pattern(),
        valid_pattern(r@, 6),
{
    let r = vec![
        0u32, 1, 4, 0, 4, 3,
        1, 2, 5, 1, 5, 4,
        2, 0, 3, 2, 3, 5,
    ];
    assert(r@ =~= triangle_frame_pattern());
    r
}


/// The open arc strip over `segments` segments has two triangles per segment;
/// segment `t` joins pair `t` (vertices `2t`, `2t + 1`) to pair `t + 1`, and no
/// triangle repeats a vertex. There is no closing segment.
pub proof fn lemma_arc_strip_law(segments: int)
    requires
        0 <= segments,
        2 * segments + 2 <= u32::MAX,
    ensures
        arc_strip_pattern(segments).len() == 6 * segments,
        forall|t: int|
            0 <= t < segments ==> #[trigger] segment_at(arc_strip_pattern(segments), t) == (
                2 * t,
                2 * t + 1,
                2 * t + 2,
                2 * t + 1,
                2 * t + 3,
                2 * t + 2,
            ),
        forall|t: int|
            0 <= t < segments ==> proper_segment(#[trigger] segment_at(arc_strip_pattern(segments), t)),
{
    let p = arc_strip_pattern(segments);
    assert forall|t: int| 0 <= t < segments implies #[trigger] segment_at(p, t) == (
        2 * t,
        2 * t + 1,
        2 * t + 2,
        2 * t + 1,
        2 * t + 3,
        2 * t + 2,
    ) by {
        lemma_div_mod_6(t, 0);
        lemma_div_mod_6(t, 1);
        lemma_div_mod_6(t, 2);
        lemma_div_mod_6(t, 3);
        lemma_div_mod_6(t, 4);
        lemma_div_mod_6(t, 5);
    }
    assert forall|t: int| 0 <= t < segments implies proper_segment(#[trigger] segment_at(p, t)) by {
        assert(segment_at(p, t).0 == 2 * t);
    }
}

/// The fixed patterns are made of proper triangles and use every vertex of
/// their primitive: the quads all four corners, a triangle its three, the
/// frames all outer and inner corners.
pub proof fn lemma_fixed_patterns()
    ensures
        forall|t: int| 0 <= t < 2 ==> proper(#[trigger] triangle_at(quad_pattern(), t)),
        forall|v: int| 0 <= v < 4 ==> #[trigger] uses_vertex(quad_pattern(), v),
        forall|t: int| 0 <= t < 2 ==> proper(#[trigger] triangle_at(strip_quad_pattern(), t)),
        forall|v: int| 0 <= v < 4 ==> #[trigger] uses_vertex(strip_quad_pattern(), v),
        proper(triangle_at(triangle_pattern(), 0)),
        forall|t: int| 0 <= t < 8 ==> proper(#[trigger] triangle_at(frame_pattern(), t)),
        forall|v: int| 0 <= v < 8 ==> #[trigger] uses_vertex(frame_pattern(), v),
        forall|t: int| 0 <= t < 6 ==> proper(#[trigger] triangle_at(triangle_frame_pattern(), t)),
        forall|v: int| 0 <= v < 6 ==> #[trigger] uses_vertex(triangle_frame_pattern(), v),
{
    let q = quad_pattern();
    let sq = strip_quad_pattern();
    let f = frame_pattern();
    let tf = triangle_frame_pattern();
    assert forall|v: int| 0 <= v < 4 implies #[trigger] uses_vertex(q, v) by {
        assert(q[0] == 0 && q[1] == 1 && q[2] == 2 && q[5] == 3);
    }
    assert forall|v: int| 0 <= v < 4 implies #[trigger] uses_vertex(sq, v) by {
        assert(sq[0] == 0 && sq[1] == 1 && sq[2] == 2 && sq[4] == 3);
    }
    assert forall|v: int| 0 <= v < 8 implies #[trigger] uses_vertex(f, v) by {
        assert(f[0] == 0 && f[1] == 1 && f[7] == 2 && f[13] == 3);
        assert(f[2] == 4 && f[5] == 5 && f[11] == 6 && f[17] == 7);
    }
    assert forall|v: int| 0 <= v < 6 implies #[trigger] uses_vertex(tf, v) by {
        assert(tf[0] == 0 && tf[1] == 1 && tf[7] == 2);
        assert(tf[5] == 3 && tf[2] == 4 && tf[8] == 5);
    }
}

// ---------------------------------------------------------------------------
// Arithmetic facts used to locate an entry inside a pattern
// ---------------------------------------------------------------------------

proof fn lemma_div_mod_3(t: int, j: int)
    requires
        0 <= t,
        0 <= j < 3,
    ensures
        (3 * t + j) / 3 == t,
        (3 * t + j) % 3 == j,
{
}

proof fn lemma_div_mod_6(t: int, j: int)
    requires
        0 <= t,
        0 <= j < 6,
    ensures
        (6 * t + j) / 6 == t,
        (6 * t + j) % 6 == j,
{
}

proof fn lemma_successor_mod(i: int, n: int)
    requires
        0 <= i < n,
    ensures
        (i + 1) % n == if i + 1 == n { 0 } else { i + 1 },
{
    if i + 1 == n {
        vstd::arithmetic::div_mod::lemma_mod_self_0(n);
    } else {
        vstd::arithmetic::div_mod::lemma_small_mod((i + 1) as nat, n as nat);
    }
}

// ---------------------------------------------------------------------------
// Reading a pattern back as triangles
// ---------------------------------------------------------------------------

/// The three vertices of triangle `t` of a pattern.
pub open spec fn triangle_at(p: Seq<u32>, t: int) -> (int, int, int) {
    (p[3 * t] as int, p[3 * t + 1] as int, p[3 * t + 2] as int)
}

/// Whether some entry of a pattern names vertex `v`.
pub open spec fn uses_vertex(p: Seq<u32>, v: int) -> bool {
    exists|k: int| 0 <= k < p.len() && #[trigger] p[k] == v
}

/// Whether a triangle names three different vertices.
pub open spec fn proper(tri: (int, int, int)) -> bool {
    tri.0 != tri.1 && tri.1 != tri.2 && tri.0 != tri.2
}

/// The six entries (two triangles) of segment `t` of a strip pattern.
pub open spec fn segment_at(p: Seq<u32>, t: int) -> (int, int, int, int, int, int) {
    (
        p[6 * t] as int,
        p[6 * t + 1] as int,
        p[6 * t + 2] as int,
        p[6 * t + 3] as int,
        p[6 * t + 4] as int,
        p[6 * t + 5] as int,
    )
}

/// Whether neither triangle of a segment repeats a vertex.
pub open spec fn proper_segment(s: (int, int, int, int, int, int)) -> bool {
    proper((s.0, s.1, s.2)) && proper((s.3, s.4, s.5))
}

// ---------------------------------------------------------------------------
// Fans
// ---------------------------------------------------------------------------

/// Entry `k` of a triangle fan around vertex 0: triangle `t` is `0, t + 1, t + 2`.
pub open spec fn fan_entry(k: int) -> int {
    let t = k / 3;
    let j = k % 3;
    if j == 0 { 0 } else if j == 1 { t + 1 } else { t + 2 }
}

/// The fan over `n` points: `n - 2` triangles `0, i, i + 1` for `i` in `1..n - 1`,
/// and nothing when there are fewer than three points.
pub open spec fn fan_pattern(n: int) -> Seq<u32> {
    let len = if n >= 3 { 3 * (n - 2) } else { 0 };
    Seq::new(len as nat, |k: int| fan_entry(k) as u32)
}

/// Builds the fan topology over `n` points laid out in order around the fan.
pub fn fan_indices(n: usize) -> (r: Vec<u32>)
    requires
        n <= u32::MAX,
    ensures
        r@ == fan_pattern(n as int),
        valid_pattern(r@, n as int),
        n >= 3 ==> r@.len() == 3 * (n - 2),
        forall|t: int| 0 <= t < n - 2 ==> #[trigger] triangle_at(r@, t) == (0int, t + 1, t + 2),
        n >= 3 ==> forall|v: int| 0 <= v < n ==> #[trigger] uses_vertex(r@, v),
{
    let mut r: Vec<u32> = Vec::new();
    if n >= 3 {
        let mut i: usize = 1;
        while i < n - 1
            invariant
                3 <= n <= u32::MAX,
                1 <= i <= n - 1,
                r@.len() == 3 * (i - 1),
                forall|k: int| 0 <= k < r@.len() ==> r@[k] == fan_entry(k) as u32,
            decreases n - 1 - i,
        {
            let ghost before = r@;
            let a: u32 = i as u32;
            r.push(0);
            r.push(a);
            r.push(a + 1);
            proof {
                let t = i - 1;
                lemma_div_mod_3(t as int, 0);
                lemma_div_mod_3(t as int, 1);
                lemma_div_mod_3(t as int, 2);
                assert forall|k: int| 0 <= k < r@.len() implies r@[k] == fan_entry(k) as u32 by {
                    if k < before.len() {
                        assert(r@[k] == before[k]);
                    }
                }
            }
            i = i + 1;
        }
    }
    assert(r@ =~= fan_pattern(n as int));
    proof {
        if n >= 3 {
            lemma_fan_law(n as int);
        }
        assert forall|k: int| 0 <= k < r@.len() implies (#[trigger] r@[k]) < n by {
            let t = k / 3;
            assert(3 * t <= k < 3 * t + 3);
        }
    }
    r
}


/// A fan over `n >= 3` points has exactly `n - 2` triangles, triangle `t` being
/// `0, t + 1, t + 2`; no triangle repeats a vertex and every point is used.
pub proof fn lemma_fan_law(n: int)
    requires
        3 <= n <= u32::MAX,
    ensures
        fan_pattern(n).len() == 3 * (n - 2),
        forall|t: int| 0 <= t < n - 2 ==> #[trigger] triangle_at(fan_pattern(n), t) == (0int, t + 1, t + 2),
        forall|t: int| 0 <= t < n - 2 ==> proper(#[trigger] triangle_at(fan_pattern(n), t)),
        forall|v: int| 0 <= v < n ==> #[trigger] uses_vertex(fan_pattern(n), v),
{
    let p = fan_pattern(n);
    assert forall|t: int| 0 <= t < n - 2 implies #[trigger] triangle_at(p, t) == (0int, t + 1, t + 2) by {
        lemma_div_mod_3(t, 0);
        lemma_div_mod_3(t, 1);
        lemma_div_mod_3(t, 2);
    }
    assert forall|t: int| 0 <= t < n - 2 implies proper(#[trigger] triangle_at(p, t)) by {
        assert(triangle_at(p, t) == (0int, t + 1, t + 2));
    }
    assert forall|v: int| 0 <= v < n implies #[trigger] uses_vertex(p, v) by {
        if v == 0 {
            assert(triangle_at(p, 0) == (0int, 1int, 2int));
            assert(p[0] == v);
        } else if v <= n - 2 {
            assert(triangle_at(p, v - 1) == (0int, v, v + 1));
            assert(p[3 * (v - 1) + 1] == v);
        } else {
            assert(triangle_at(p, n - 3) == (0int, n - 2, n - 1));
            assert(p[3 * (n - 3) + 2] == v);
        }
    }
}

// ---------------------------------------------------------------------------
// Rings
// ---------------------------------------------------------------------------

/// Entry `k` of a ring between an outer loop (vertices `0..n`) and an inner loop
/// (vertices `n..2n`): segment `t` covers `t, t', n + t` and `t', n + t', n + t`
/// where `t'` is the next vertex around the loop.
pub open spec fn ring_entry(k: int, n: int) -> int {
    let t = k / 6;
    let j = k % 6;
    let next = if t + 1 == n { 0 } else { t + 1 };
    if j == 0 { t }
    else if j == 1 { next }
    else if j == 2 { t + n }
    else if j == 3 { next }
    else if j == 4 { next + n }
    else { t + n }
}

/// The closed ring over two loops of `n` points each: two triangles per segment.
pub open spec fn ring_pattern(n: int) -> Seq<u32> {
    Seq::new((6 * n) as nat, |k: int| ring_entry(k, n) as u32)
}

/// Builds the ring topology; outer points are laid out first, then the inner
/// points in the same order.
pub fn ring_indices(n: usize) -> (r: Vec<u32>)
    requires
        2 * n <= u32::MAX,
    ensures
        r@ == ring_pattern(n as int),
        valid_pattern(r@, 2 * n),
        forall|t: int|
            0 <= t < n ==> #[trigger] segment_at(r@, t) == (
                t,
                (t + 1) % (n as int),
                n + t,
                (t + 1) % (n as int),
                n + (t + 1) % (n as int),
                n + t,
            ),
{
    let mut r: Vec<u32> = Vec::new();
    let mut i: usize = 0;
    while i < n
        invariant
            2 * n <= u32::MAX,
            0 <= i <= n,
            r@.len() == 6 * i,
            forall|k: int| 0 <= k < r@.len() ==> r@[k] == ring_entry(k, n as int) as u32,
        decreases n - i,
    {
        let ghost before = r@;
        let next = (i + 1) % n;
        proof {
            lemma_successor_mod(i as int, n as int);
        }
        let o_curr = i as u32;
        let o_next = next as u32;
        let i_curr = (i + n) as u32;
        let i_next = (next + n) as u32;
        r.push(o_curr);
        r.push(o_next);
        r.push(i_curr);
        r.push(o_next);
        r.push(i_next);
        r.push(i_curr);
        proof {
            let t = i as int;
            lemma_div_mod_6(t, 0);
            lemma_div_mod_6(t, 1);
            lemma_div_mod_6(t, 2);
            lemma_div_mod_6(t, 3);
            lemma_div_mod_6(t, 4);
            lemma_div_mod_6(t, 5);
            assert forall|k: int| 0 <= k < r@.len() implies r@[k] == ring_entry(k, n as int) as u32 by {
                if k < before.len() {
                    assert(r@[k] == before[k]);
                }
            }
        }
        i = i + 1;
    }
    assert(r@ =~= ring_pattern(n as int));
    proof {
        if n >= 1 {
            lemma_ring_law(n as int);
        }
        assert forall|k: int| 0 <= k < r@.len() implies (#[trigger] r@[k]) < 2 * n by {
            let t = k / 6;
            assert(6 * t <= k < 6 * t + 6);
        }
    }
    r
}


/// The ring over two loops of `n` points has `n` segments; segment `t` joins
/// outer `t` and outer `(t + 1) mod n` to inner `n + t` and inner
/// `n + (t + 1) mod n`, so the last segment closes back to the first corner.
/// With two or more points no triangle repeats a vertex.
pub proof fn lemma_ring_law(n: int)
    requires
        1 <= n,
        2 * n <= u32::MAX,
    ensures
        ring_pattern(n).len() == 6 * n,
        forall|t: int|
            0 <= t < n ==> #[trigger] segment_at(ring_pattern(n), t) == (
                t,
                (t + 1) % n,
                n + t,
                (t + 1) % n,
                n + (t + 1) % n,
                n + t,
            ),
        n >= 2 ==> forall|t: int| 0 <= t < n ==> proper_segment(#[trigger] segment_at(ring_pattern(n), t)),
{
    let p = ring_pattern(n);
    assert forall|t: int| 0 <= t < n implies #[trigger] segment_at(p, t) == (
        t,
        (t + 1) % n,
        n + t,
        (t + 1) % n,
        n + (t + 1) % n,
        n + t,
    ) by {
        lemma_div_mod_6(t, 0);
        lemma_div_mod_6(t, 1);
        lemma_div_mod_6(t, 2);
        lemma_div_mod_6(t, 3);
        lemma_div_mod_6(t, 4);
        lemma_div_mod_6(t, 5);
        lemma_successor_mod(t, n);
    }
    if n >= 2 {
        assert forall|t: int| 0 <= t < n implies proper_segment(#[trigger] segment_at(p, t)) by {
            lemma_successor_mod(t, n);
            assert(segment_at(p, t).1 == (t + 1) % n);
        }
    }
}

// ---------------------------------------------------------------------------
// Circles and arcs
// ---------------------------------------------------------------------------

/// Entry `k` of a closed disc fan: vertex 0 is the centre and vertices
/// `1..=segments` go around the rim; triangle `t` is `0, t + 1, t + 2`, except that
/// the last triangle closes back onto vertex 1.
pub open spec fn disc_entry(k: int, segments: int) -> int {
    let t = k / 3;
    let j = k % 3;
    if j == 0 { 0 } else if j == 1 { t + 1 } else if t == segments - 1 { 1 } else { t + 2 }
}

/// The disc fan: one triangle per rim segment.
pub open spec fn disc_pattern(segments: int) -> Seq<u32> {
    Seq::new((3 * segments) as nat, |k: int| disc_entry(k, segments) as u32)
}

/// Builds the closed fan of a filled circle with `segments` rim vertices.
pub fn disc_indices(segments: usize) -> (r: Vec<u32>)
    requires
        segments + 1 <= u32::MAX,
    ensures
        r@ == disc_pattern(segments as int),
        valid_pattern(r@, segments + 1),
        forall|t: int|
            0 <= t < segments ==> #[trigger] triangle_at(r@, t) == (
                0int,
                t + 1,
                (t + 1) % (segments as int) + 1,
            ),
{
    let mut r: Vec<u32> = Vec::new();
    let mut i: usize = 0;
    while i < segments
        invariant
            segments + 1 <= u32::MAX,
            0 <= i <= segments,
            r@.len() == 3 * i,
            forall|k: int| 0 <= k < r@.len() ==> r@[k] == disc_entry(k, segments as int) as u32,
        decreases segments - i,
    {
        let ghost before = r@;
        let current = (i + 1) as u32;
        let next = if i == segments - 1 { 1 } else { current + 1 };
        r.push(0);
        r.push(current);
        r.push(next);
        proof {
            lemma_div_mod_3(i as int, 0);
            lemma_div_mod_3(i as int, 1);
            lemma_div_mod_3(i as int, 2);
            assert forall|k: int| 0 <= k < r@.len() implies r@[k] == disc_entry(k, segments as int) as u32 by {
                if k < before.len() {
                    assert(r@[k] == before[k]);
                }
            }
        }
        i = i + 1;
    }
    assert(r@ =~= disc_pattern(segments as int));
    proof {
        if segments >= 1 {
            lemma_disc_law(segments as int);
        }
        assert forall|k: int| 0 <= k < r@.len() implies (#[trigger] r@[k]) < segments + 1 by {
            let t = k / 3;
            assert(3 * t <= k < 3 * t + 3);
        }
    }
    r
}

/// The disc fan over `segments` rim vertices has one triangle per segment;
/// triangle `t` is `0, t + 1, (t + 1) mod segments + 1`, so the last one closes
/// onto the first rim vertex. With two or more segments no triangle repeats a
/// vertex.
pub proof fn lemma_disc_law(segments: int)
    requires
        1 <= segments,
        segments + 1 <= u32::MAX,
    ensures
        disc_pattern(segments).len() == 3 * segments,
        forall|t: int|
            0 <= t < segments ==> #[trigger] triangle_at(disc_pattern(segments), t) == (
                0int,
                t + 1,
                (t + 1) % segments + 1,
            ),
        segments >= 2 ==> forall|t: int|
            0 <= t < segments ==> proper(#[trigger] triangle_at(disc_pattern(segments), t)),
{
    let p = disc_pattern(segments);
    assert forall|t: int| 0 <= t < segments implies #[trigger] triangle_at(p, t) == (
        0int,
        t + 1,
        (t + 1) % segments + 1,
    ) by {
        lemma_div_mod_3(t, 0);
        lemma_div_mod_3(t, 1);
        lemma_div_mod_3(t, 2);
        lemma_successor_mod(t, segments);
    }
    if segments >= 2 {
        assert forall|t: int| 0 <= t < segments implies proper(#[trigger] triangle_at(p, t)) by {
            lemma_successor_mod(t, segments);
            assert(triangle_at(p, t).2 == (t + 1) % segments + 1);
        }
    }
}

/// Entry `k` of a closed annulus whose rim points come in (inner, outer) pairs:
/// vertex `2t` is inner and `2t + 1` outer. Segment `t` covers
/// `2t, 2t + 1, 2t' + 1` and `2t, 2t' + 1, 2t'` where `t'` is the next pair.
pub open spec fn annulus_entry(k: int, segments: int) -> int {
    let t = k / 6;
    let j = k % 6;
    let next = if t + 1 == segments { 0 } else { t + 1 };
    if j == 0 { 2 * t }
    else if j == 1 { 2 * t + 1 }
    else if j == 2 { 2 * next + 1 }
    else if j == 3 { 2 * t }
    else if j == 4 { 2 * next + 1 }
    else { 2 * next }
}

/// The closed annulus: two triangles per segment.
pub open spec fn annulus_pattern(segments: int) -> Seq<u32> {
    Seq::new((6 * segments) as nat, |k: int| annulus_entry(k, segments) as u32)
}

/// Builds the closed strip of a stroked circle with `segments` (inner, outer) pairs.
pub fn annulus_indices(segments: usize) -> (r: Vec<u32>)
    requires
        2 * segments <= u32::MAX,
    ensures
        r@ == annulus_pattern(segments as int),
        valid_pattern(r@, 2 * segments),
        forall|t: int|
            0 <= t < segments ==> #[trigger] segment_at(r@, t) == (
                2 * t,
                2 * t + 1,
                2 * ((t + 1) % (segments as int)) + 1,
                2 * t,
                2 * ((t + 1) % (segments as int)) + 1,
                2 * ((t + 1) % (segments as int)),
            ),
{
    let mut r: Vec<u32> = Vec::new();
    let mut i: usize = 0;
    while i < segments
        invariant
            2 * segments <= u32::MAX,
            0 <= i <= segments,
            r@.len() == 6 * i,
            forall|k: int| 0 <= k < r@.len() ==> r@[k] == annulus_entry(k, segments as int) as u32,
        decreases segments - i,
    {
        let ghost before = r@;
        let n = segments as u32;
        let ii = i as u32;
        let next_i = (ii + 1) % n;
        proof {
            lemma_successor_mod(i as int, segments as int);
        }
        let inner_curr = ii * 2;
        let outer_curr = ii * 2 + 1;
        let inner_next = next_i * 2;
        let outer_next = next_i * 2 + 1;
        r.push(inner_curr);
        r.push(outer_curr);
        r.push(outer_next);
        r.push(inner_curr);
        r.push(outer_next);
        r.push(inner_next);
        proof {
            let t = i as int;
            lemma_div_mod_6(t, 0);
            lemma_div_mod_6(t, 1);
            lemma_div_mod_6(t, 2);
            lemma_div_mod_6(t, 3);
            lemma_div_mod_6(t, 4);
            lemma_div_mod_6(t, 5);
            assert forall|k: int| 0 <= k < r@.len() implies r@[k] == annulus_entry(k, segments as int) as u32 by {
                if k < before.len() {
                    assert(r@[k] == before[k]);
                }
            }
        }
        i = i + 1;
    }
    assert(r@ =~= annulus_pattern(segments as int));
    proof {
        if segments >= 1 {
            lemma_annulus_law(segments as int);
        }
        assert forall|k: int| 0 <= k < r@.len() implies (#[trigger] r@[k]) < 2 * segments by {
            let t = k / 6;
            assert(6 * t <= k < 6 * t + 6);
        }
    }
    r
}

/// The closed annulus over `segments` (inner, outer) pairs has one segment per
/// pair; segment `t` joins pair `t` (vertices `2t`, `2t + 1`) to pair
/// `(t + 1) mod segments`, so the last segment closes back to the first pair.
/// With two or more pairs no triangle repeats a vertex.
pub proof fn lemma_annulus_law(segments: int)
    requires
        1 <= segments,
        2 * segments <= u32::MAX,
    ensures
        annulus_pattern(segments).len() == 6 * segments,
        forall|t: int|
            0 <= t < segments ==> #[trigger] segment_at(annulus_pattern(segments), t) == (
                2 * t,
                2 * t + 1,
                2 * ((t + 1) % segments) + 1,
                2 * t,
                2 * ((t + 1) % segments) + 1,
                2 * ((t + 1) % segments),
            ),
        segments >= 2 ==> forall|t: int|
            0 <= t < segments ==> proper_segment(#[trigger] segment_at(annulus_pattern(segments), t)),
{
    let p = annulus_pattern(segments);
    assert forall|t: int| 0 <= t < segments implies #[trigger] segment_at(p, t) == (
        2 * t,
        2 * t + 1,
        2 * ((t + 1) % segments) + 1,
        2 * t,
        2 * ((t + 1) % segments) + 1,
        2 * ((t + 1) % segments),
    ) by {
        lemma_div_mod_6(t, 0);
        lemma_div_mod_6(t, 1);
        lemma_div_mod_6(t, 2);
        lemma_div_mod_6(t, 3);
        lemma_div_mod_6(t, 4);
        lemma_div_mod_6(t, 5);
        lemma_successor_mod(t, segments);
    }
    if segments >= 2 {
        assert forall|t: int| 0 <= t < segments implies proper_segment(#[trigger] segment_at(p, t)) by {
            lemma_successor_mod(t, segments);
            assert(segment_at(p, t).2 == 2 * ((t + 1) % segments) + 1);
        }
    }
}

/// Entry `k` of an open arc strip over `segments + 1` (inner, outer) pairs:
/// segment `t` with base `b = 2t` covers `b, b + 1, b + 2` and `b + 1, b + 3, b + 2`.
pub open spec fn arc_strip_entry(k: int) -> int {
    let b = 2 * (k / 6);
    let j = k % 6;
    if j == 0 { b }
    else if j == 1 { b + 1 }
    else if j == 2 { b + 2 }
    else if j == 3 { b + 1 }
    else if j == 4 { b + 3 }
    else { b + 2 }
}

/// The open arc strip: two triangles per segment, no closing segment.
pub open spec fn arc_strip_pattern(segments: int) -> Seq<u32> {
    Seq::new((6 * segments) as nat, |k: int| arc_strip_entry(k) as u32)
}

/// Builds the open strip of an arc band with `segments` segments, that is
/// `segments + 1` (inner, outer) pairs.
pub fn arc_strip_indices(segments: usize) -> (r: Vec<u32>)
    requires
        2 * segments + 2 <= u32::MAX,
    ensures
        r@ == arc_strip_pattern(segments as int),
        valid_pattern(r@, 2 * segments + 2),
        forall|t: int|
            0 <= t < segments ==> #[trigger] segment_at(r@, t) == (
                2 * t,
                2 * t + 1,
                2 * t + 2,
                2 * t + 1,
                2 * t + 3,
                2 * t + 2,
            ),
{
    let mut r: Vec<u32> = Vec::new();
    let mut i: usize = 0;
    while i < segments
        invariant
            2 * segments + 2 <= u32::MAX,
            0 <= i <= segments,
            r@.len() == 6 * i,
            forall|k: int| 0 <= k < r@.len() ==> r@[k] == arc_strip_entry(k) as u32,
        decreases segments - i,
    {
        let ghost before = r@;
        let base = (i * 2) as u32;
        r.push(base);
        r.push(base + 1);
        r.push(base + 2);
        r.push(base + 1);
        r.push(base + 3);
        r.push(base + 2);
        proof {
            let t = i as int;
            lemma_div_mod_6(t, 0);
            lemma_div_mod_6(t, 1);
            lemma_div_mod_6(t, 2);
            lemma_div_mod_6(t, 3);
            lemma_div_mod_6(t, 4);
            lemma_div_mod_6(t, 5);
            assert forall|k: int| 0 <= k < r@.len() implies r@[k] == arc_strip_entry(k) as u32 by {
                if k < before.len() {
                    assert(r@[k] == before[k]);
                }
            }
        }
        i = i + 1;
    }
    assert(r@ =~= arc_strip_pattern(segments as int));
    proof {
        lemma_arc_strip_law(segments as int);
        assert forall|k: int| 0 <= k < r@.len() implies (#[trigger] r@[k]) < 2 * segments + 2 by {
            let t = k / 6;
            assert(6 * t <= k < 6 * t + 6);
        }
    }
    r
}

} // verus!
