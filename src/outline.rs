use vstd::prelude::*;

verus! {

/// A point of a glyph outline: 26.6 fixed point, y growing upward.
#[derive(Clone, Copy, Debug, PartialEq, Eq, Structural)]
pub struct OutlinePoint {
    pub x: i32,
    pub y: i32,
}

/// A point of a drawable path: 26.6 fixed point, y growing downward.
#[derive(Clone, Copy, Debug, PartialEq, Eq, Structural)]
pub struct PathPoint {
    pub x: i64,
    pub y: i64,
}

/// One segment of a contour, ending at its last point.
#[derive(Clone, Copy, Debug, PartialEq, Eq, Structural)]
pub enum Segment {
    Line(OutlinePoint),
    Quad(OutlinePoint, OutlinePoint),
    Cubic(OutlinePoint, OutlinePoint, OutlinePoint),
}

/// A closed contour: a start point and the segments that follow it.
pub struct Contour {
    pub start: OutlinePoint,
    pub segments: Vec<Segment>,
}

/// The scalable outline of a glyph, as its contours.
pub struct Outline {
    pub contours: Vec<Contour>,
}

#[derive(Clone, Copy, Debug, PartialEq, Eq, Structural)]
pub enum PathCommand {
    MoveTo(PathPoint),
    LineTo(PathPoint),
    QuadTo(PathPoint, PathPoint),
    CubicTo(PathPoint, PathPoint, PathPoint),
    Close,
}

/// A path in glyph-local space, ready to be moved to the glyph's origin.
pub struct GlyphPath {
    pub commands: Vec<PathCommand>,
}

pub open spec fn contours_view(c: Seq<Contour>) -> Seq<(OutlinePoint, Seq<Segment>)> {
    c.map_values(|k: Contour| (k.start, k.segments@))
}

/// The point in the path's y-down space.
pub open spec fn flip_spec(p: OutlinePoint) -> PathPoint {
    PathPoint { x: p.x as i64, y: (-(p.y as int)) as i64 }
}

pub open spec fn segment_command(s: Segment) -> PathCommand {
    match s {
        Segment::Line(p) => PathCommand::LineTo(flip_spec(p)),
        Segment::Quad(a, b) => PathCommand::QuadTo(flip_spec(a), flip_spec(b)),
        Segment::Cubic(a, b, c) => PathCommand::CubicTo(flip_spec(a), flip_spec(b), flip_spec(c)),
    }
}

/// The commands of one contour: move to its start, follow its segments, close.
pub open spec fn contour_commands(c: (OutlinePoint, Seq<Segment>)) -> Seq<PathCommand> {
    seq![PathCommand::MoveTo(flip_spec(c.0))] + c.1.map_values(|s: Segment| segment_command(s))
        + seq![PathCommand::Close]
}

pub open spec fn path_spec(contours: Seq<(OutlinePoint, Seq<Segment>)>) -> Seq<PathCommand>
    decreases contours.len(),
{
    if contours.len() == 0 {
        Seq::empty()
    } else {
        path_spec(contours.drop_last()) + contour_commands(contours.last())
    }
}

/// A path made from at least one contour is never empty: it opens with a move
/// and ends with a close.
pub proof fn lemma_path_not_degenerate(contours: Seq<(OutlinePoint, Seq<Segment>)>)
    requires
        contours.len() > 0,
    ensures
        path_spec(contours).len() >= 2,
        path_spec(contours)[0] is MoveTo,
        path_spec(contours).last() is Close,
    decreases contours.len(),
{
    let prev = path_spec(contours.drop_last());
    let last = contour_commands(contours.last());
    assert(last[0] is MoveTo);
    assert(last.last() is Close);
    if contours.len() > 1 {
        lemma_path_not_degenerate(contours.drop_last());
        assert((prev + last)[0] == prev[0]);
    } else {
        assert(prev.len() == 0);
        assert(prev + last =~= last);
    }
}

fn flip(p: OutlinePoint) -> (r: PathPoint)
    ensures
        r == flip_spec(p),
{
    PathPoint { x: p.x as i64, y: -(p.y as i64) }
}

fn segment_to_command(s: Segment) -> (r: PathCommand)
    ensures
        r == segment_command(s),
{
    match s {
        Segment::Line(p) => PathCommand::LineTo(flip(p)),
        Segment::Quad(a, b) => PathCommand::QuadTo(flip(a), flip(b)),
        Segment::Cubic(a, b, c) => PathCommand::CubicTo(flip(a), flip(b), flip(c)),
    }
}

/// Converts a glyph's outline to a path: each contour becomes a move to its
/// start, one command per segment and a close, with y negated. A glyph with
/// no outline, or an outline without contours, gives no path at all.
pub fn outline_to_path(outline: Option<&Outline>) -> (r: Option<GlyphPath>)
    ensures
        match outline {
            None => r is None,
            Some(o) => if o.contours@.len() == 0 {
                r is None
            } else {
                r matches Some(p) && p.commands@ == path_spec(contours_view(o.contours@))
            },
        },
        r matches Some(p) ==> p.commands@.len() >= 2 && p.commands@[0] is MoveTo && p.commands@.last() is Close,
{
    let o = match outline {
        None => return None,
        Some(o) => o,
    };
    if o.contours.len() == 0 {
        return None;
    }
    let ghost cv = contours_view(o.contours@);
    let mut commands: Vec<PathCommand> = Vec::new();
    let mut i: usize = 0;
    while i < o.contours.len()
        invariant
            i <= o.contours@.len(),
            cv == contours_view(o.contours@),
            commands@ == path_spec(cv.take(i as int)),
        decreases o.contours@.len() - i,
    {
        let c = &o.contours[i];
        let ghost before = commands@;
        let ghost segs = c.segments@.map_values(|s: Segment| segment_command(s));
        commands.push(PathCommand::MoveTo(flip(c.start)));
        let mut j: usize = 0;
        while j < c.segments.len()
            invariant
                j <= c.segments@.len(),
                segs == c.segments@.map_values(|s: Segment| segment_command(s)),
                commands@ == before + seq![PathCommand::MoveTo(flip_spec(c.start))] + segs.take(j as int),
            decreases c.segments@.len() - j,
        {
            let cmd = segment_to_command(c.segments[j]);
            commands.push(cmd);
            assert(segs.take(j + 1) =~= segs.take(j as int).push(cmd));
            assert(commands@ =~= before + seq![PathCommand::MoveTo(flip_spec(c.start))] + segs.take(j + 1));
            j = j + 1;
        }
        commands.push(PathCommand::Close);
        proof {
            assert(segs.take(j as int) =~= segs);
            let t = cv.take(i + 1);
            assert(t.drop_last() =~= cv.take(i as int));
            assert(t.last() == (c.start, c.segments@));
            assert(commands@ =~= before + contour_commands(t.last()));
        }
        i = i + 1;
    }
    assert(cv.take(i as int) =~= cv);
    proof {
        lemma_path_not_degenerate(cv);
    }
    Some(GlyphPath { commands })
}

} // verus!
