//! Decisions shared by line-like shapes (lines and polylines).

use vstd::prelude::*;

verus! {

/// How one end of a line is drawn.
#[derive(Debug, Clone, Copy, PartialEq, Eq, Structural)]
pub enum EndTreatment {
    /// The end is extended until it leaves the visible area.
    Extend,
    /// The line stops short of the end point and an arrowhead is drawn there.
    Arrow,
    /// The line ends at the end point.
    Plain,
}

/// The end options of a line or polyline.
#[derive(Debug, Clone, Copy, PartialEq, Eq, Structural)]
pub struct LineEnds {
    pub extend_start: bool,
    pub extend_end: bool,
    pub arrow_start: bool,
    pub arrow_end: bool,
}

/// Extension takes precedence over an arrowhead at the same end.
pub open spec fn treatment(extend: bool, arrow: bool) -> EndTreatment {
    if extend {
        EndTreatment::Extend
    } else if arrow {
        EndTreatment::Arrow
    } else {
        EndTreatment::Plain
    }
}

impl LineEnds {
    /// Plain ends: no extension, no arrowheads.
    pub fn new() -> (e: Self)
        ensures
            e == (LineEnds {
                extend_start: false,
                extend_end: false,
                arrow_start: false,
                arrow_end: false,
            }),
    {
        LineEnds { extend_start: false, extend_end: false, arrow_start: false, arrow_end: false }
    }

    pub fn extend_start(self, enable: bool) -> (e: Self)
        ensures
            e == (LineEnds { extend_start: enable, ..self }),
    {
        LineEnds { extend_start: enable, ..self }
    }

    pub fn extend_end(self, enable: bool) -> (e: Self)
        ensures
            e == (LineEnds { extend_end: enable, ..self }),
    {
        LineEnds { extend_end: enable, ..self }
    }

    /// Extends both ends.
    pub fn infinite(self) -> (e: Self)
        ensures
            e == (LineEnds { extend_start: true, extend_end: true, ..self }),
    {
        LineEnds { extend_start: true, extend_end: true, ..self }
    }

    pub fn arrow_start(self, enable: bool) -> (e: Self)
        ensures
            e == (LineEnds { arrow_start: enable, ..self }),
    {
        LineEnds { arrow_start: enable, ..self }
    }

    pub fn arrow_end(self, enable: bool) -> (e: Self)
        ensures
            e == (LineEnds { arrow_end: enable, ..self }),
    {
        LineEnds { arrow_end: enable, ..self }
    }

    /// Sets an arrowhead at both ends, or removes both.
    pub fn arrows(self, enable: bool) -> (e: Self)
        ensures
            e == (LineEnds { arrow_start: enable, arrow_end: enable, ..self }),
    {
        LineEnds { arrow_start: enable, arrow_end: enable, ..self }
    }

    /// Whether the points can be stroked as given: no end is extended or carries
    /// an arrowhead.
    pub fn is_simple_line(&self) -> (r: bool)
        ensures
            r == (!self.arrow_start && !self.arrow_end && !self.extend_start && !self.extend_end),
    {
        !self.arrow_start && !self.arrow_end && !self.extend_start && !self.extend_end
    }

    /// How the first point is treated.
    pub fn start(&self) -> (t: EndTreatment)
        ensures
            t == treatment(self.extend_start, self.arrow_start),
    {
        if self.extend_start {
            EndTreatment::Extend
        } else if self.arrow_start {
            EndTreatment::Arrow
        } else {
            EndTreatment::Plain
        }
    }

    /// How the last point is treated.
    pub fn end(&self) -> (t: EndTreatment)
        ensures
            t == treatment(self.extend_end, self.arrow_end),
    {
        if self.extend_end {
            EndTreatment::Extend
        } else if self.arrow_end {
            EndTreatment::Arrow
        } else {
            EndTreatment::Plain
        }
    }
}

/// A line can be stroked as given exactly when both its ends are plain, and an
/// extended end never carries an arrowhead.
pub proof fn lemma_simple_line_iff_plain_ends(e: LineEnds)
    ensures
        (!e.arrow_start && !e.arrow_end && !e.extend_start && !e.extend_end) <==> (treatment(
            e.extend_start,
            e.arrow_start,
        ) == EndTreatment::Plain && treatment(e.extend_end, e.arrow_end) == EndTreatment::Plain),
        e.extend_start ==> treatment(e.extend_start, e.arrow_start) != EndTreatment::Arrow,
        e.extend_end ==> treatment(e.extend_end, e.arrow_end) != EndTreatment::Arrow,
{
}

} // verus!
