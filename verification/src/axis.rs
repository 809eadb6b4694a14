//! Axis placement, visibility rules and label ordering.

use vstd::prelude::*;

verus! {

/// Where an axis is placed around the plot.
#[derive(Debug, Clone, Copy, PartialEq, Eq, Structural)]
pub enum Position {
    Top,
    Bottom,
    Left,
    Right,
}

/// The direction along which an axis runs.
#[derive(Debug, Clone, Copy, PartialEq, Eq, Structural)]
pub enum Orientation {
    Horizontal,
    Vertical,
}

/// Axes above or below the plot run horizontally; axes beside it run vertically.
pub open spec fn orientation_of(position: Position) -> Orientation {
    match position {
        Position::Top | Position::Bottom => Orientation::Horizontal,
        Position::Left | Position::Right => Orientation::Vertical,
    }
}

impl Position {
    /// The orientation of an axis placed here.
    pub fn orientation(&self) -> (o: Orientation)
        ensures
            o == orientation_of(*self),
    {
        match self {
            Position::Top | Position::Bottom => Orientation::Horizontal,
            Position::Left | Position::Right => Orientation::Vertical,
        }
    }
}

/// A decision on whether to render or skip a tick label.
#[derive(Debug, Clone, Copy, PartialEq, Eq, Structural)]
pub enum LabelDecision {
    /// Render this label at its position.
    Render,
    /// Skip rendering this label (e.g., due to overlap).
    Skip,
}

/// How a label policy decides: render everything, skip labels that collide
/// with an accepted one, or ask a user-supplied function.
#[derive(Debug, Clone, Copy, PartialEq, Eq, Structural)]
pub enum PolicyKind {
    All,
    SkipOverlapping,
    Custom,
}

/// Whether a candidate label is rendered. `overlaps[i]` tells whether the
/// candidate, widened by the policy's gap, overlaps the `i`-th accepted label;
/// `custom` is what a custom policy function answered.
pub fn should_render(policy: PolicyKind, overlaps: &Vec<bool>, custom: LabelDecision) -> (r: bool)
    ensures
        r == match policy {
            PolicyKind::All => true,
            PolicyKind::SkipOverlapping => forall|i: int| 0 <= i < overlaps@.len() ==> !overlaps@[i],
            PolicyKind::Custom => custom == LabelDecision::Render,
        },
{
    match policy {
        PolicyKind::All => true,
        PolicyKind::SkipOverlapping => {
            let mut i: usize = 0;
            while i < overlaps.len()
                invariant
                    policy == PolicyKind::SkipOverlapping,
                    i <= overlaps@.len(),
                    forall|j: int| 0 <= j < i ==> !overlaps@[j],
                decreases overlaps@.len() - i,
            {
                if overlaps[i] {
                    assert(overlaps@[i as int]);
                    return false;
                }
                i = i + 1;
            }
            true
        },
        PolicyKind::Custom => match custom {
            LabelDecision::Render => true,
            LabelDecision::Skip => false,
        },
    }
}

/// The display switches of an axis: where it sits, whether it is drawn at all,
/// and whether it draws grid lines and a cursor badge.
#[derive(Debug, Clone, Copy, PartialEq, Eq, Structural)]
pub struct AxisDisplay {
    pub position: Position,
    pub invisible: bool,
    pub render_cursor: bool,
    pub render_grid: bool,
}

impl AxisDisplay {
    /// A visible axis at `position` that draws its grid and cursor.
    pub fn new(position: Position) -> (d: Self)
        ensures
            d == (AxisDisplay { position, invisible: false, render_cursor: true, render_grid: true }),
    {
        AxisDisplay { position, invisible: false, render_cursor: true, render_grid: true }
    }

    /// Stops drawing grid lines for this axis.
    pub fn without_grid(self) -> (d: Self)
        ensures
            d == (AxisDisplay { render_grid: false, ..self }),
    {
        AxisDisplay { render_grid: false, ..self }
    }

    /// Hides the axis itself (its ticks, labels and spine), keeping its scale.
    pub fn invisible(self) -> (d: Self)
        ensures
            d == (AxisDisplay { invisible: true, ..self }),
    {
        AxisDisplay { invisible: true, ..self }
    }

    /// The orientation of the axis.
    pub fn orientation(&self) -> (o: Orientation)
        ensures
            o == orientation_of(self.position),
    {
        self.position.orientation()
    }

    /// Whether the axis is drawn.
    pub fn is_visible(&self) -> (r: bool)
        ensures
            r == !self.invisible,
    {
        !self.invisible
    }

    /// Whether grid lines are drawn. Grid lines belong to the plot area, so an
    /// invisible axis still draws them unless the grid was switched off.
    pub fn draws_grid(&self) -> (r: bool)
        ensures
            r == self.render_grid,
    {
        !(!self.render_grid || (self.invisible && !self.render_grid))
    }

    /// Whether a cursor badge is drawn: the axis is visible and draws its cursor,
    /// the pointer is over the plot or the axis, and a cursor renderer is set.
    pub fn draws_cursor(&self, pointer_over: bool, has_renderer: bool) -> (r: bool)
        ensures
            r == (!self.invisible && self.render_cursor && pointer_over && has_renderer),
    {
        if self.invisible {
            return false;
        }
        self.render_cursor && pointer_over && has_renderer
    }
}

/// The priority of a tick label: the one the tick renderer chose, or else the
/// level of the tick (major ticks, level 0, come first).
pub fn label_priority(chosen: Option<u8>, tick_level: u8) -> (p: u8)
    ensures
        p == match chosen {
            Some(c) => c,
            None => tick_level,
        },
{
    match chosen {
        Some(c) => c,
        None => tick_level,
    }
}


// ---------------------------------------------------------------------------
// Label order: candidates are laid out by ascending priority value, keeping the
// tick order among equal priorities (a stable sort by priority).
// ---------------------------------------------------------------------------

/// The positions `i < m` whose priority is `key`, in ascending order.
pub open spec fn positions_with(priorities: Seq<u8>, key: int, m: int) -> Seq<usize>
    decreases m,
{
    if m <= 0 {
        Seq::empty()
    } else {
        let earlier = positions_with(priorities, key, m - 1);
        if priorities[m - 1] as int == key {
            earlier.push((m - 1) as usize)
        } else {
            earlier
        }
    }
}

/// The positions whose priority is below `key`: by ascending priority, and in
/// position order among equal priorities.
pub open spec fn positions_below(priorities: Seq<u8>, key: int) -> Seq<usize>
    decreases key,
{
    if key <= 0 {
        Seq::empty()
    } else {
        positions_below(priorities, key - 1) + positions_with(priorities, key - 1, priorities.len() as int)
    }
}

/// The order in which label candidates are laid out.
pub open spec fn label_order_spec(priorities: Seq<u8>) -> Seq<usize> {
    positions_below(priorities, 256)
}

/// `a` comes before `b` in the layout order of labels with these priorities.
pub open spec fn laid_out_before(priorities: Seq<u8>, a: usize, b: usize) -> bool {
    priorities[a as int] < priorities[b as int] || (priorities[a as int] == priorities[b as int] && a
        < b)
}

/// Computes the layout order of label candidates from their priorities: the
/// candidate positions sorted by ascending priority value, equal priorities
/// keeping their tick order.
pub fn label_order(priorities: &Vec<u8>) -> (order: Vec<usize>)
    ensures
        order@ == label_order_spec(priorities@),
{
    let n = priorities.len();
    let mut order: Vec<usize> = Vec::new();
    let mut key: u16 = 0;
    while key < 256
        invariant
            n == priorities@.len(),
            key <= 256,
            order@ == positions_below(priorities@, key as int),
        decreases 256 - key,
    {
        let ghost before = order@;
        let mut i: usize = 0;
        while i < n
            invariant
                n == priorities@.len(),
                key < 256,
                i <= n,
                order@ == before + positions_with(priorities@, key as int, i as int),
            decreases n - i,
        {
            if priorities[i] as u16 == key {
                order.push(i);
            }
            i = i + 1;
        }
        key = key + 1;
    }
    order
}

proof fn lemma_positions_with(priorities: Seq<u8>, key: int, m: int)
    requires
        0 <= m <= priorities.len(),
        priorities.len() <= usize::MAX,
    ensures
        forall|a: int|
            0 <= a < positions_with(priorities, key, m).len() ==> {
                let i = #[trigger] positions_with(priorities, key, m)[a];
                &&& i < m
                &&& priorities[i as int] == key
            },
        forall|a: int, b: int|
            0 <= a < b < positions_with(priorities, key, m).len() ==> #[trigger] positions_with(
                priorities,
                key,
                m,
            )[a] < #[trigger] positions_with(priorities, key, m)[b],
        forall|i: int|
            0 <= i < m && priorities[i] == key ==> positions_with(priorities, key, m).contains(
                i as usize,
            ),
    decreases m,
{
    if m > 0 {
        lemma_positions_with(priorities, key, m - 1);
        let earlier = positions_with(priorities, key, m - 1);
        let now = positions_with(priorities, key, m);
        if priorities[m - 1] as int == key {
            assert(now == earlier.push((m - 1) as usize));
            assert forall|a: int| 0 <= a < now.len() implies {
                let i = #[trigger] now[a];
                &&& i < m
                &&& priorities[i as int] == key
            } by {
                if a < earlier.len() {
                    assert(now[a] == earlier[a]);
                }
            }
            assert forall|a: int, b: int| 0 <= a < b < now.len() implies #[trigger] now[a]
                < #[trigger] now[b] by {
                assert(now[a] == earlier[a]);
                if b < earlier.len() {
                    assert(now[b] == earlier[b]);
                }
            }
            assert forall|i: int| 0 <= i < m && priorities[i] == key implies now.contains(
                i as usize,
            ) by {
                if i == m - 1 {
                    assert(now[now.len() - 1] == i as usize);
                } else {
                    let a = choose|a: int| 0 <= a < earlier.len() && earlier[a] == i as usize;
                    assert(now[a] == i as usize);
                }
            }
        }
    }
}

proof fn lemma_positions_below(priorities: Seq<u8>, key: int)
    requires
        0 <= key <= 256,
        priorities.len() <= usize::MAX,
    ensures
        forall|a: int|
            0 <= a < positions_below(priorities, key).len() ==> {
                let i = #[trigger] positions_below(priorities, key)[a];
                &&& i < priorities.len()
                &&& priorities[i as int] < key
            },
        forall|a: int, b: int|
            0 <= a < b < positions_below(priorities, key).len() ==> laid_out_before(
                priorities,
                #[trigger] positions_below(priorities, key)[a],
                #[trigger] positions_below(priorities, key)[b],
            ),
        forall|i: int|
            0 <= i < priorities.len() && priorities[i] < key ==> positions_below(
                priorities,
                key,
            ).contains(i as usize),
    decreases key,
{
    if key > 0 {
        let n = priorities.len() as int;
        lemma_positions_below(priorities, key - 1);
        lemma_positions_with(priorities, key - 1, n);
        let lower = positions_below(priorities, key - 1);
        let same = positions_with(priorities, key - 1, n);
        let all = positions_below(priorities, key);
        assert(all == lower + same);
        assert forall|a: int| 0 <= a < all.len() implies {
            let i = #[trigger] all[a];
            &&& i < priorities.len()
            &&& priorities[i as int] < key
        } by {
            if a < lower.len() {
                assert(all[a] == lower[a]);
            } else {
                assert(all[a] == same[a - lower.len()]);
            }
        }
        assert forall|a: int, b: int| 0 <= a < b < all.len() implies laid_out_before(
            priorities,
            #[trigger] all[a],
            #[trigger] all[b],
        ) by {
            if b < lower.len() {
                assert(all[a] == lower[a] && all[b] == lower[b]);
            } else if a < lower.len() {
                assert(all[a] == lower[a] && all[b] == same[b - lower.len()]);
            } else {
                assert(all[a] == same[a - lower.len()] && all[b] == same[b - lower.len()]);
            }
        }
        assert forall|i: int| 0 <= i < priorities.len() && priorities[i] < key implies all.contains(
            i as usize,
        ) by {
            if priorities[i] < key - 1 {
                let a = choose|a: int| 0 <= a < lower.len() && lower[a] == i as usize;
                assert(all[a] == i as usize);
            } else {
                let a = choose|a: int| 0 <= a < same.len() && same[a] == i as usize;
                assert(all[lower.len() + a] == i as usize);
            }
        }
    }
}

/// The label layout order is a stable sort by priority: every candidate position
/// occurs exactly once, lower priority values come first, and candidates of equal
/// priority keep their tick order.
pub proof fn lemma_label_order(priorities: Seq<u8>)
    requires
        priorities.len() <= usize::MAX,
    ensures
        forall|a: int|
            0 <= a < label_order_spec(priorities).len() ==> #[trigger] label_order_spec(
                priorities,
            )[a] < priorities.len(),
        forall|i: usize|
            i < priorities.len() ==> #[trigger] label_order_spec(priorities).contains(i),
        forall|a: int, b: int|
            0 <= a < b < label_order_spec(priorities).len() ==> laid_out_before(
                priorities,
                #[trigger] label_order_spec(priorities)[a],
                #[trigger] label_order_spec(priorities)[b],
            ),
        label_order_spec(priorities).no_duplicates(),
{
    lemma_positions_below(priorities, 256);
    let order = label_order_spec(priorities);
    assert forall|i: usize| i < priorities.len() implies #[trigger] order.contains(i) by {
        assert(priorities[i as int] < 256);
    }
    assert forall|a: int, b: int| 0 <= a < order.len() && 0 <= b < order.len() && a != b implies order[a]
        != order[b] by {
        if a < b {
            assert(laid_out_before(priorities, order[a], order[b]));
        } else {
            assert(laid_out_before(priorities, order[b], order[a]));
        }
    }
}


/// The result returned from a cursor renderer: an optional badge label and an
/// optional style overriding the theme's cursor style.
pub struct CursorResult<S> {
    pub label: Option<String>,
    pub style: Option<S>,
}

impl<S> CursorResult<S> {
    /// No label and no style override.
    pub fn empty() -> (r: Self)
        ensures
            r.label is None,
            r.style is None,
    {
        CursorResult { label: None, style: None }
    }

    /// Sets the label text.
    pub fn label(self, label: String) -> (r: Self)
        ensures
            r.label == Some(label),
            r.style == self.style,
    {
        CursorResult { label: Some(label), style: self.style }
    }

    /// Sets the style of the cursor badge.
    pub fn style(self, style: S) -> (r: Self)
        ensures
            r.label == self.label,
            r.style == Some(style),
    {
        CursorResult { label: self.label, style: Some(style) }
    }
}

/// Context provided to marker renderers: the axis value at the marker position
/// and the resolved marker style.
pub struct MarkerContext<'a, D, S> {
    /// The axis value at the marker position.
    pub value: D,
    /// The resolved style for the marker.
    pub style: &'a S,
}

} // verus!
