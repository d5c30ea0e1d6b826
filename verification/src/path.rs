//! Translation of a path event stream into a normalized sequence of
//! absolute drawing commands.
//!
//! The event stream describes one or more subpaths through begin, segment
//! and end events, each carrying the points it acts on, and tracks an
//! implicit current point. The translator walks the stream once, keeps the
//! current point in a single optional variable, and emits one drawing
//! command per event — plus one extra move command whenever an event's
//! recorded start point differs from the point last emitted (discontinuity
//! repair). Equality of points is the exact equality of their encoded
//! scalar values, not an approximate comparison.
use vstd::prelude::*;

use crate::scalar::eq_bits;
use crate::scalar::float_eq;

verus! {

/// A point in the plane; both coordinates are binary32 bit patterns.
#[derive(Clone, Copy, PartialEq, Eq, Structural, Debug)]
pub struct Point {
    pub x: u32,
    pub y: u32,
}

/// One event of a path construction stream.
#[derive(Clone, Copy, PartialEq, Eq, Structural, Debug)]
pub enum PathEvent {
    Begin { at: Point },
    Line { from: Point, to: Point },
    Quadratic { from: Point, ctrl: Point, to: Point },
    Cubic { from: Point, ctrl1: Point, ctrl2: Point, to: Point },
    End { last: Point, first: Point, close: bool },
}

/// One normalized absolute drawing command.
#[derive(Clone, Copy, PartialEq, Eq, Structural, Debug)]
pub enum DrawCmd {
    MoveTo { to: Point },
    LineTo { to: Point },
    QuadTo { ctrl: Point, to: Point },
    CubicTo { ctrl1: Point, ctrl2: Point, to: Point },
    Close,
}

/// Equality of two points as encoded scalar values: each coordinate pair
/// compares equal under the binary32 rules.
pub open spec fn point_eq_bits(a: Point, b: Point) -> bool {
    eq_bits(a.x, b.x) && eq_bits(a.y, b.y)
}

/// Decides equality of two points as encoded scalar values.
pub fn point_eq(a: Point, b: Point) -> (r: bool)
    ensures
        r == point_eq_bits(a, b),
{
    float_eq(a.x, b.x) && float_eq(a.y, b.y)
}

/// Whether processing this event at the given current point calls for a
/// repair move: the event records a start point that differs from the
/// point last emitted.
pub open spec fn needs_repair(cur: Option<Point>, e: PathEvent) -> bool {
    match cur {
        Option::None => false,
        Option::Some(c) => match e {
            PathEvent::Begin { .. } => false,
            PathEvent::Line { from, .. } => !point_eq_bits(from, c),
            PathEvent::Quadratic { from, .. } => !point_eq_bits(from, c),
            PathEvent::Cubic { from, .. } => !point_eq_bits(from, c),
            PathEvent::End { last, .. } => !point_eq_bits(last, c),
        },
    }
}

/// The commands emitted for one event at the given current point.
pub open spec fn event_cmds(cur: Option<Point>, e: PathEvent) -> Seq<DrawCmd> {
    let repair: Seq<DrawCmd> = if needs_repair(cur, e) {
        match e {
            PathEvent::Begin { .. } => seq![],
            PathEvent::Line { from, .. } => seq![DrawCmd::MoveTo { to: from }],
            PathEvent::Quadratic { from, .. } => seq![DrawCmd::MoveTo { to: from }],
            PathEvent::Cubic { from, .. } => seq![DrawCmd::MoveTo { to: from }],
            PathEvent::End { last, .. } => seq![DrawCmd::MoveTo { to: last }],
        }
    } else {
        seq![]
    };
    match e {
        PathEvent::Begin { at } => seq![DrawCmd::MoveTo { to: at }],
        PathEvent::Line { to, .. } => repair + seq![DrawCmd::LineTo { to }],
        PathEvent::Quadratic { ctrl, to, .. } => repair + seq![DrawCmd::QuadTo { ctrl, to }],
        PathEvent::Cubic { ctrl1, ctrl2, to, .. } => repair
            + seq![DrawCmd::CubicTo { ctrl1, ctrl2, to }],
        PathEvent::End { first, close, .. } => repair + (if close {
            seq![DrawCmd::LineTo { to: first }, DrawCmd::Close]
        } else {
            seq![]
        }),
    }
}

/// The current point after processing one event.
pub open spec fn event_next(cur: Option<Point>, e: PathEvent) -> Option<Point> {
    match e {
        PathEvent::Begin { at } => Option::Some(at),
        PathEvent::Line { to, .. } => Option::Some(to),
        PathEvent::Quadratic { to, .. } => Option::Some(to),
        PathEvent::Cubic { to, .. } => Option::Some(to),
        PathEvent::End { last, .. } => Option::Some(last),
    }
}

/// The commands emitted for a whole event sequence, starting from the
/// given current point.
pub open spec fn translate_from(cur: Option<Point>, events: Seq<PathEvent>) -> Seq<DrawCmd>
    decreases events.len(),
{
    if events.len() == 0 {
        seq![]
    } else {
        event_cmds(cur, events.first()) + translate_from(
            event_next(cur, events.first()),
            events.drop_first(),
        )
    }
}

/// The current point after processing a whole event sequence.
pub open spec fn state_after(cur: Option<Point>, events: Seq<PathEvent>) -> Option<Point>
    decreases events.len(),
{
    if events.len() == 0 {
        cur
    } else {
        state_after(event_next(cur, events.first()), events.drop_first())
    }
}

/// The translation of a whole event stream: a fresh translator starts with
/// no current point.
pub open spec fn translate_spec(events: Seq<PathEvent>) -> Seq<DrawCmd> {
    translate_from(Option::None, events)
}

/// Appending one event to a sequence appends that event's commands to the
/// translation, and advances the carried state by that event.
proof fn lemma_translate_snoc(cur: Option<Point>, events: Seq<PathEvent>, e: PathEvent)
    ensures
        translate_from(cur, events.push(e)) == translate_from(cur, events) + event_cmds(
            state_after(cur, events),
            e,
        ),
        state_after(cur, events.push(e)) == event_next(state_after(cur, events), e),
    decreases events.len(),
{
    if events.len() == 0 {
        reveal_with_fuel(translate_from, 2);
        reveal_with_fuel(state_after, 2);
        assert(events.push(e).first() == e);
        assert(events.push(e).drop_first() =~= Seq::<PathEvent>::empty());
        assert(translate_from(cur, events.push(e)) =~= event_cmds(cur, e));
    } else {
        assert(events.push(e).first() == events.first());
        assert(events.push(e).drop_first() =~= events.drop_first().push(e));
        lemma_translate_snoc(event_next(cur, events.first()), events.drop_first(), e);
        assert(translate_from(cur, events.push(e)) =~= translate_from(cur, events) + event_cmds(
            state_after(cur, events),
            e,
        ));
    }
}

/// Whether this event is the beginning of a subpath.
pub open spec fn is_begin(e: PathEvent) -> bool {
    match e {
        PathEvent::Begin { .. } => true,
        _ => false,
    }
}

/// Whether this event is a segment of a subpath: a line or a curve.
pub open spec fn segment_event(e: PathEvent) -> bool {
    match e {
        PathEvent::Line { .. } => true,
        PathEvent::Quadratic { .. } => true,
        PathEvent::Cubic { .. } => true,
        _ => false,
    }
}

/// Whether this event closes a subpath.
pub open spec fn is_closing_end(e: PathEvent) -> bool {
    match e {
        PathEvent::End { close, .. } => close,
        _ => false,
    }
}

/// The number of commands one event contributes apart from repair moves:
/// one for a begin or a segment, two for a closing end (the explicit
/// closing line and the close), none for an open end.
pub open spec fn base_cmd_count_of(e: PathEvent) -> nat {
    match e {
        PathEvent::Begin { .. } => 1,
        PathEvent::Line { .. } => 1,
        PathEvent::Quadratic { .. } => 1,
        PathEvent::Cubic { .. } => 1,
        PathEvent::End { close, .. } => if close {
            2
        } else {
            0
        },
    }
}

/// The number of commands a whole event sequence contributes apart from
/// repair moves.
pub open spec fn base_cmd_count(events: Seq<PathEvent>) -> nat
    decreases events.len(),
{
    if events.len() == 0 {
        0
    } else {
        base_cmd_count_of(events.first()) + base_cmd_count(events.drop_first())
    }
}

/// The number of discontinuities in an event sequence processed from the
/// given current point: the events whose recorded start point differs from
/// the point last emitted.
pub open spec fn repair_count(cur: Option<Point>, events: Seq<PathEvent>) -> nat
    decreases events.len(),
{
    if events.len() == 0 {
        0
    } else {
        (if needs_repair(cur, events.first()) {
            1nat
        } else {
            0nat
        }) + repair_count(event_next(cur, events.first()), events.drop_first())
    }
}

/// Discontinuity repair law: the translation of an event stream holds
/// exactly one command per begin or segment event, two per closing end,
/// none per open end — plus exactly one extra move for each discontinuity,
/// wherever in the stream it occurs.
pub proof fn lemma_repair_adds_one_command_each(cur: Option<Point>, events: Seq<PathEvent>)
    ensures
        translate_from(cur, events).len() == base_cmd_count(events) + repair_count(cur, events),
    decreases events.len(),
{
    if events.len() > 0 {
        lemma_repair_adds_one_command_each(event_next(cur, events.first()), events.drop_first());
    }
}

/// The count law for the tail of a single closed subpath: segments followed
/// by one closing end, with no discontinuity, translate to one command per
/// event plus the extra closing line.
proof fn lemma_segments_then_close_count(cur: Option<Point>, events: Seq<PathEvent>)
    requires
        events.len() >= 1,
        forall|i: int| 0 <= i < events.len() - 1 ==> segment_event(#[trigger] events[i]),
        is_closing_end(events.last()),
        repair_count(cur, events) == 0,
    ensures
        translate_from(cur, events).len() == events.len() + 1,
    decreases events.len(),
{
    if events.len() == 1 {
        reveal_with_fuel(translate_from, 2);
        reveal_with_fuel(repair_count, 2);
        assert(events.first() == events.last());
    } else {
        assert(segment_event(events.first()));
        let tail = events.drop_first();
        assert(forall|i: int| 0 <= i < tail.len() - 1 ==> segment_event(#[trigger] tail[i]))
            by {
            assert(forall|i: int|
                0 <= i < tail.len() - 1 ==> #[trigger] tail[i] == events[i + 1]);
        }
        assert(tail.last() == events.last());
        lemma_segments_then_close_count(event_next(cur, events.first()), tail);
    }
}

/// Translation correctness law for one closed subpath: a begin event,
/// segment events whose start points all match the point last emitted, and
/// a closing end translate to one command per event plus one — the initial
/// move, one command per segment, the explicit closing line, and the close.
pub proof fn lemma_single_closed_subpath_count(events: Seq<PathEvent>)
    requires
        events.len() >= 2,
        is_begin(events.first()),
        forall|i: int| 1 <= i < events.len() - 1 ==> segment_event(#[trigger] events[i]),
        is_closing_end(events.last()),
        repair_count(Option::None, events) == 0,
    ensures
        translate_spec(events).len() == events.len() + 1,
{
    let tail = events.drop_first();
    assert(forall|i: int| 0 <= i < tail.len() - 1 ==> segment_event(#[trigger] tail[i])) by {
        assert(forall|i: int| 0 <= i < tail.len() - 1 ==> #[trigger] tail[i] == events[i + 1]);
    }
    assert(tail.last() == events.last());
    lemma_segments_then_close_count(event_next(Option::None, events.first()), tail);
}

/// Translating a concatenation translates the first part, then the second
/// from the state the first part left behind.
proof fn lemma_translate_concat(cur: Option<Point>, a: Seq<PathEvent>, b: Seq<PathEvent>)
    ensures
        translate_from(cur, a + b) == translate_from(cur, a) + translate_from(
            state_after(cur, a),
            b,
        ),
    decreases a.len(),
{
    if a.len() == 0 {
        assert(a + b =~= b);
        assert(translate_from(cur, a) + translate_from(cur, b) =~= translate_from(cur, b));
    } else {
        assert((a + b).first() == a.first());
        assert((a + b).drop_first() =~= a.drop_first() + b);
        let next = event_next(cur, a.first());
        lemma_translate_concat(next, a.drop_first(), b);
        assert(event_cmds(cur, a.first()) + (translate_from(next, a.drop_first())
            + translate_from(state_after(cur, a), b)) =~= translate_from(cur, a)
            + translate_from(state_after(cur, a), b));
    }
}

/// An event sequence that starts with a begin event translates the same
/// from any carried state: the begin event replaces the current point.
proof fn lemma_begin_forgets_state(s1: Option<Point>, s2: Option<Point>, b: Seq<PathEvent>)
    requires
        b.len() > 0,
        is_begin(b.first()),
    ensures
        translate_from(s1, b) == translate_from(s2, b),
{
    assert(event_cmds(s1, b.first()) == event_cmds(s2, b.first()));
    assert(event_next(s1, b.first()) == event_next(s2, b.first()));
}

/// Multi-subpath independence law: an event group that starts with its own
/// begin event translates independently of whatever was translated before
/// it, so consecutive subpath groups produce their command runs side by
/// side, never connected.
pub proof fn lemma_multi_subpath_independence(g1: Seq<PathEvent>, g2: Seq<PathEvent>)
    requires
        g2.len() > 0,
        is_begin(g2.first()),
    ensures
        translate_spec(g1 + g2) == translate_spec(g1) + translate_spec(g2),
{
    lemma_translate_concat(Option::None, g1, g2);
    lemma_begin_forgets_state(state_after(Option::None, g1), Option::None, g2);
}

/// Pushes the repair move called for by this event, if any.
fn emit_repair(cmds: &mut Vec<DrawCmd>, cur: Option<Point>, start: Point)
    ensures
        final(cmds)@ == if (match cur {
            Option::Some(c) => !point_eq_bits(start, c),
            Option::None => false,
        }) {
            old(cmds)@.push(DrawCmd::MoveTo { to: start })
        } else {
            old(cmds)@
        },
{
    if let Option::Some(c) = cur {
        if !point_eq(start, c) {
            cmds.push(DrawCmd::MoveTo { to: start });
        }
    }
}

/// Translates a path event stream into the normalized sequence of drawing
/// commands, inserting a repair move wherever an event's recorded start
/// point differs from the point last emitted.
///
/// Whether the resulting command sequence is acceptable to a downstream
/// geometry builder (an empty sequence commonly is not) is the builder's
/// own rule and is decided where the builder is invoked.
pub fn translate(events: &Vec<PathEvent>) -> (cmds: Vec<DrawCmd>)
    ensures
        cmds@ == translate_spec(events@),
{
    let mut cmds: Vec<DrawCmd> = Vec::new();
    let mut cur: Option<Point> = Option::None;
    let n: usize = events.len();
    let mut i: usize = 0;
    while i < n
        invariant
            i <= n,
            n == events@.len(),
            cmds@ == translate_from(Option::None, events@.take(i as int)),
            cur == state_after(Option::None, events@.take(i as int)),
        decreases n - i,
    {
        let ghost prefix = events@.take(i as int);
        let ev = events[i];
        proof {
            assert(events@.take(i + 1) =~= prefix.push(ev));
            lemma_translate_snoc(Option::None, prefix, ev);
        }
        match ev {
            PathEvent::Begin { at } => {
                cmds.push(DrawCmd::MoveTo { to: at });
                cur = Option::Some(at);
            },
            PathEvent::Line { from, to } => {
                emit_repair(&mut cmds, cur, from);
                cmds.push(DrawCmd::LineTo { to });
                cur = Option::Some(to);
            },
            PathEvent::Quadratic { from, ctrl, to } => {
                emit_repair(&mut cmds, cur, from);
                cmds.push(DrawCmd::QuadTo { ctrl, to });
                cur = Option::Some(to);
            },
            PathEvent::Cubic { from, ctrl1, ctrl2, to } => {
                emit_repair(&mut cmds, cur, from);
                cmds.push(DrawCmd::CubicTo { ctrl1, ctrl2, to });
                cur = Option::Some(to);
            },
            PathEvent::End { last, first, close } => {
                emit_repair(&mut cmds, cur, last);
                if close {
                    cmds.push(DrawCmd::LineTo { to: first });
                    cmds.push(DrawCmd::Close);
                }
                cur = Option::Some(last);
            },
        }
        proof {
            assert(cmds@ =~= translate_from(Option::None, prefix) + event_cmds(
                state_after(Option::None, prefix),
                ev,
            ));
        }
        i = i + 1;
    }
    proof {
        assert(events@.take(n as int) =~= events@);
    }
    cmds
}

} // verus!
