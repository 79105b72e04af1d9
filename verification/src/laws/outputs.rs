//! What the outputs make of the layout and of the size of a capture.
use vstd::prelude::*;

use crate::layout::{
    bounding_box, capture_size_answer, law_layout_is_the_tightest_enclosure, layout_answer,
    layout_of, logical_size_for, output_sizes, rectangle_of, rectangles_of, shown_as,
    Rectangle,
};
use crate::records::{Monitor, OutputLayout};
use crate::refusal::Refusal;
use crate::select::{
    lemma_mapped_from, lemma_mapped_item, lemma_no_place, lemma_one_place, lemma_two_places,
};

verus! {

/// Whether an output can be used: neither its mode nor its scaled size is empty.
pub open spec fn usable(monitor: Monitor) -> bool {
    &&& monitor.width > 0
    &&& monitor.height > 0
    &&& monitor.scaled matches Some(size) && size.0 > 0 && size.1 > 0
}

/// How wide a usable output is shown, in logical coordinates: an odd transform
/// turns it on its side.
pub open spec fn shown_width(monitor: Monitor) -> int {
    let size = monitor.scaled->0;
    if monitor.transform % 2 == 1 {
        size.1 as int
    } else {
        size.0 as int
    }
}

/// How high a usable output is shown, in logical coordinates.
pub open spec fn shown_height(monitor: Monitor) -> int {
    let size = monitor.scaled->0;
    if monitor.transform % 2 == 1 {
        size.0 as int
    } else {
        size.1 as int
    }
}

/// Whether a capture of an output has this size: its mode, on its side for an odd
/// transform.
pub open spec fn captured_as(monitor: Monitor, width: u32, height: u32) -> bool {
    &&& usable(monitor)
    &&& if monitor.transform % 2 == 1 {
        monitor.height == width && monitor.width == height
    } else {
        monitor.width == width && monitor.height == height
    }
}

/// An output has sizes when it can be used, and only then: its mode and its
/// scaled size, both on their side for an odd transform.
pub proof fn law_output_sizes_by_fields(monitor: Monitor)
    ensures
        output_sizes(monitor) is Some <==> usable(monitor),
        output_sizes(monitor) matches Some((physical, logical)) ==> {
            &&& captured_as(monitor, physical.0, physical.1)
            &&& logical.0 == shown_width(monitor)
            &&& logical.1 == shown_height(monitor)
        },
        forall|width: u32, height: u32| #[trigger]
            shown_as(monitor, width, height) <==> captured_as(monitor, width, height),
{
}

/// A quarter turn exchanges the width and the height of an output, captured and
/// shown.
pub proof fn law_quarter_turns_exchange_the_sides(monitor: Monitor, turned: Monitor)
    requires
        turned == (Monitor { transform: turned.transform, ..monitor }),
        turned.transform % 2 != monitor.transform % 2,
    ensures
        output_sizes(monitor) matches Some((physical, logical)) ==> output_sizes(turned) == Some(
            ((physical.1, physical.0), (logical.1, logical.0)),
        ),
{
}

/// A capture size is mapped to the shown size of the only output that is captured
/// with it.
pub proof fn law_only_output_of_a_size_is_mapped(
    monitors: Seq<Monitor>,
    width: u32,
    height: u32,
    i: int,
)
    requires
        0 <= i < monitors.len(),
        captured_as(monitors[i], width, height),
        forall|j: int|
            0 <= j < monitors.len() && j != i ==> !captured_as(
                #[trigger] monitors[j],
                width,
                height,
            ),
    ensures
        logical_size_for(monitors, width, height) matches Some(size) && size.0 == shown_width(
            monitors[i],
        ) && size.1 == shown_height(monitors[i]),
{
    let wanted = |monitor: Monitor| shown_as(monitor, width, height);
    law_output_sizes_by_fields(monitors[i]);
    assert(shown_as(monitors[i], width, height));
    assert forall|j: int| 0 <= j < monitors.len() && j != i implies !wanted(
        #[trigger] monitors[j],
    ) by {
        law_output_sizes_by_fields(monitors[j]);
        assert(!shown_as(monitors[j], width, height));
    }
    lemma_one_place(monitors, wanted, i);
}

/// A capture size that no output is captured with is not mapped.
pub proof fn law_unknown_sizes_are_not_mapped(monitors: Seq<Monitor>, width: u32, height: u32)
    requires
        forall|j: int|
            0 <= j < monitors.len() ==> !captured_as(#[trigger] monitors[j], width, height),
    ensures
        logical_size_for(monitors, width, height) is None,
{
    let wanted = |monitor: Monitor| shown_as(monitor, width, height);
    assert forall|j: int| 0 <= j < monitors.len() implies !wanted(#[trigger] monitors[j]) by {
        law_output_sizes_by_fields(monitors[j]);
        assert(!shown_as(monitors[j], width, height));
    }
    lemma_no_place(monitors, wanted);
}

/// A capture size that two outputs are captured with is not mapped.
pub proof fn law_shared_sizes_are_not_mapped(
    monitors: Seq<Monitor>,
    width: u32,
    height: u32,
    i: int,
    j: int,
)
    requires
        0 <= i < j < monitors.len(),
        captured_as(monitors[i], width, height),
        captured_as(monitors[j], width, height),
    ensures
        logical_size_for(monitors, width, height) is None,
{
    let wanted = |monitor: Monitor| shown_as(monitor, width, height);
    law_output_sizes_by_fields(monitors[i]);
    law_output_sizes_by_fields(monitors[j]);
    assert(shown_as(monitors[i], width, height) && shown_as(monitors[j], width, height));
    lemma_two_places(monitors, wanted, i, j);
}

proof fn lemma_rectangle_by_fields(monitor: Monitor)
    ensures
        rectangle_of(monitor) is Some <==> usable(monitor),
        rectangle_of(monitor) matches Some(r) ==> {
            &&& r.left == monitor.x
            &&& r.top == monitor.y
            &&& r.right == monitor.x + shown_width(monitor)
            &&& r.bottom == monitor.y + shown_height(monitor)
        },
{
    law_output_sizes_by_fields(monitor);
}

/// Every usable output lies inside the layout, and on each side some usable
/// output reaches its edge.
pub proof fn law_layout_reaches_from_edge_to_edge(monitors: Seq<Monitor>, layout: OutputLayout)
    requires
        layout_of(monitors) == Some(layout),
    ensures
        forall|i: int|
            0 <= i < monitors.len() && usable(#[trigger] monitors[i]) ==> {
                &&& layout.x <= monitors[i].x
                &&& layout.y <= monitors[i].y
                &&& monitors[i].x + shown_width(monitors[i]) <= layout.x + layout.width
                &&& monitors[i].y + shown_height(monitors[i]) <= layout.y + layout.height
            },
        exists|i: int|
            0 <= i < monitors.len() && usable(#[trigger] monitors[i]) && monitors[i].x == layout.x,
        exists|i: int|
            0 <= i < monitors.len() && usable(#[trigger] monitors[i]) && monitors[i].y == layout.y,
        exists|i: int|
            0 <= i < monitors.len() && usable(#[trigger] monitors[i]) && monitors[i].x
                + shown_width(monitors[i]) == layout.x + layout.width,
        exists|i: int|
            0 <= i < monitors.len() && usable(#[trigger] monitors[i]) && monitors[i].y
                + shown_height(monitors[i]) == layout.y + layout.height,
{
    law_layout_is_the_tightest_enclosure(monitors);
    let right = layout.x + layout.width;
    let bottom = layout.y + layout.height;
    assert forall|i: int| 0 <= i < monitors.len() && usable(#[trigger] monitors[i]) implies {
        &&& layout.x <= monitors[i].x
        &&& layout.y <= monitors[i].y
        &&& monitors[i].x + shown_width(monitors[i]) <= right
        &&& monitors[i].y + shown_height(monitors[i]) <= bottom
    } by {
        lemma_rectangle_by_fields(monitors[i]);
    }
    let l = choose|i: int|
        0 <= i < monitors.len() && (rectangle_of(#[trigger] monitors[i]) matches Some(r) && r.left
            == layout.x);
    lemma_rectangle_by_fields(monitors[l]);
    let t = choose|i: int|
        0 <= i < monitors.len() && (rectangle_of(#[trigger] monitors[i]) matches Some(r) && r.top
            == layout.y);
    lemma_rectangle_by_fields(monitors[t]);
    let r = choose|i: int|
        0 <= i < monitors.len() && (rectangle_of(#[trigger] monitors[i]) matches Some(r) && r.right
            == right);
    lemma_rectangle_by_fields(monitors[r]);
    let b = choose|i: int|
        0 <= i < monitors.len() && (rectangle_of(#[trigger] monitors[i]) matches Some(r)
            && r.bottom == bottom);
    lemma_rectangle_by_fields(monitors[b]);
    assert(usable(monitors[l]) && usable(monitors[t]) && usable(monitors[r]) && usable(
        monitors[b],
    ));
}

/// Whether no two usable outputs are further apart than thirty-two bits can say.
pub open spec fn within_reach(monitors: Seq<Monitor>) -> bool {
    forall|i: int, j: int|
        0 <= i < monitors.len() && 0 <= j < monitors.len() && usable(#[trigger] monitors[i])
            && usable(#[trigger] monitors[j]) ==> {
            &&& monitors[i].x + shown_width(monitors[i]) - monitors[j].x <= 0xffff_ffff
            &&& monitors[i].y + shown_height(monitors[i]) - monitors[j].y <= 0xffff_ffff
        }
}

/// There is a layout when some output can be used and all usable ones are within
/// reach of each other, and only then.
pub proof fn law_layout_exists_for_usable_outputs(monitors: Seq<Monitor>)
    ensures
        layout_of(monitors) is Some <==> {
            &&& exists|i: int| 0 <= i < monitors.len() && usable(#[trigger] monitors[i])
            &&& within_reach(monitors)
        },
{
    let rectangles = rectangles_of(monitors);
    let cover = |monitor: Monitor| rectangle_of(monitor);
    let bounds = bounding_box(rectangles);
    if let Some(layout) = layout_of(monitors) {
        law_layout_reaches_from_edge_to_edge(monitors, layout);
    }
    if (exists|i: int| 0 <= i < monitors.len() && usable(#[trigger] monitors[i])) && within_reach(
        monitors,
    ) {
        let i = choose|i: int| 0 <= i < monitors.len() && usable(#[trigger] monitors[i]);
        lemma_rectangle_by_fields(monitors[i]);
        lemma_mapped_item(monitors, cover, i);
        let lefts = rectangles.map_values(|r: Rectangle| r.left);
        let tops = rectangles.map_values(|r: Rectangle| r.top);
        let rights = rectangles.map_values(|r: Rectangle| r.right);
        let bottoms = rectangles.map_values(|r: Rectangle| r.bottom);
        lefts.min_ensures();
        tops.min_ensures();
        rights.max_ensures();
        bottoms.max_ensures();
        let l = choose|k: int| 0 <= k < lefts.len() && lefts[k] == lefts.min();
        let t = choose|k: int| 0 <= k < tops.len() && tops[k] == tops.min();
        let r = choose|k: int| 0 <= k < rights.len() && rights[k] == rights.max();
        let b = choose|k: int| 0 <= k < bottoms.len() && bottoms[k] == bottoms.max();
        assert(rectangles.contains(rectangles[l]) && rectangles.contains(rectangles[t])
            && rectangles.contains(rectangles[r]) && rectangles.contains(rectangles[b]));
        let ml = lemma_mapped_from(monitors, cover, rectangles[l]);
        let mt = lemma_mapped_from(monitors, cover, rectangles[t]);
        let mr = lemma_mapped_from(monitors, cover, rectangles[r]);
        let mb = lemma_mapped_from(monitors, cover, rectangles[b]);
        lemma_rectangle_by_fields(monitors[ml]);
        lemma_rectangle_by_fields(monitors[mt]);
        lemma_rectangle_by_fields(monitors[mr]);
        lemma_rectangle_by_fields(monitors[mb]);
        assert(usable(monitors[ml]) && usable(monitors[mt]) && usable(monitors[mr]) && usable(
            monitors[mb],
        ));
        assert(bounds.right - bounds.left <= u32::MAX);
        assert(bounds.bottom - bounds.top <= u32::MAX);
    }
}

/// A single usable output is the whole layout.
pub proof fn law_single_output_is_the_layout(monitor: Monitor)
    requires
        usable(monitor),
    ensures
        layout_of(seq![monitor]) matches Some(layout) && {
            &&& layout.x == monitor.x
            &&& layout.y == monitor.y
            &&& layout.width == shown_width(monitor)
            &&& layout.height == shown_height(monitor)
        },
{
    let monitors = seq![monitor];
    assert(usable(monitors[0]));
    law_layout_exists_for_usable_outputs(monitors);
    law_layout_reaches_from_edge_to_edge(monitors, layout_of(monitors)->0);
}

/// A layout is refused outside a session, a failed reading is passed on, and
/// outputs without a layout are refused as such; the size of a capture is not
/// mapped outside a session or after a failed reading.
pub proof fn law_layout_requests_are_refused_in_order(
    session: bool,
    monitors: Result<Vec<Monitor>, Refusal>,
    width: u32,
    height: u32,
)
    ensures
        !session ==> layout_answer(session, monitors) == Err::<OutputLayout, _>(
            Refusal::NotHyprlandSession,
        ) && capture_size_answer(session, monitors, width, height) is None,
        session ==> (monitors matches Err(refusal) ==> layout_answer(session, monitors) == Err::<
            OutputLayout,
            _,
        >(refusal) && capture_size_answer(session, monitors, width, height) is None),
        session ==> (monitors matches Ok(outputs) ==> {
            &&& layout_of(outputs@) matches Some(layout) ==> layout_answer(session, monitors)
                == Ok::<_, Refusal>(layout)
            &&& layout_of(outputs@) is None ==> layout_answer(session, monitors) == Err::<
                OutputLayout,
                _,
            >(Refusal::NoMonitorLayout)
            &&& capture_size_answer(session, monitors, width, height) == logical_size_for(
                outputs@,
                width,
                height,
            )
        }),
{
}

} // verus!
