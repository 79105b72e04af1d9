//! The logical layout of all outputs.
use vstd::prelude::*;

use crate::records::{Monitor, OutputLayout};
use crate::refusal::Refusal;
use crate::select::{
    lemma_mapped_from, lemma_mapped_item, lemma_one_place, lemma_two_places, sole,
};

verus! {

/// Width and height as shown, after the output transform.
pub open spec fn turned(size: (u32, u32), transform: u8) -> (u32, u32) {
    if transform % 2 == 0 {
        size
    } else {
        (size.1, size.0)
    }
}

/// The physical and the logical size of an output as it is shown; `None` when
/// its mode is empty, its scale is unusable or its logical size is empty.
pub open spec fn output_sizes(monitor: Monitor) -> Option<((u32, u32), (u32, u32))> {
    match monitor.scaled {
        Some((width, height)) if monitor.width > 0 && monitor.height > 0 && width > 0 && height
            > 0 => Some(
            (
                turned((monitor.width, monitor.height), monitor.transform),
                turned((width, height), monitor.transform),
            ),
        ),
        _ => None,
    }
}

/// The logical size of an output as it is shown.
pub open spec fn logical_size(monitor: Monitor) -> Option<(u32, u32)> {
    match output_sizes(monitor) {
        Some((_, logical)) => Some(logical),
        None => None,
    }
}

/// Whether an output is shown with this physical size.
pub open spec fn shown_as(monitor: Monitor, width: u32, height: u32) -> bool {
    output_sizes(monitor) matches Some((physical, _)) && physical == (width, height)
}

/// The logical size of the one output with this physical size; `None` when there
/// is no such output or more than one.
pub open spec fn logical_size_for(
    monitors: Seq<Monitor>,
    width: u32,
    height: u32,
) -> Option<(u32, u32)> {
    match sole(monitors.filter(|monitor: Monitor| shown_as(monitor, width, height))) {
        Some(monitor) => logical_size(monitor),
        None => None,
    }
}

/// A rectangle in logical coordinates; its right and bottom edges lie outside.
pub struct Rectangle {
    pub left: int,
    pub top: int,
    pub right: int,
    pub bottom: int,
}

/// The rectangle that an output covers.
pub open spec fn rectangle_of(monitor: Monitor) -> Option<Rectangle> {
    match output_sizes(monitor) {
        Some((_, (width, height))) => Some(
            Rectangle {
                left: monitor.x as int,
                top: monitor.y as int,
                right: monitor.x + width,
                bottom: monitor.y + height,
            },
        ),
        None => None,
    }
}

/// The rectangles that the usable outputs cover.
pub open spec fn rectangles_of(monitors: Seq<Monitor>) -> Seq<Rectangle> {
    monitors.filter_map(|monitor: Monitor| rectangle_of(monitor))
}

/// The smallest rectangle around some rectangles.
pub open spec fn bounding_box(rectangles: Seq<Rectangle>) -> Rectangle {
    Rectangle {
        left: rectangles.map_values(|r: Rectangle| r.left).min(),
        top: rectangles.map_values(|r: Rectangle| r.top).min(),
        right: rectangles.map_values(|r: Rectangle| r.right).max(),
        bottom: rectangles.map_values(|r: Rectangle| r.bottom).max(),
    }
}

/// The layout of some outputs: the smallest rectangle around the usable ones.
/// `None` without a usable output, or when the rectangle is too wide or too high
/// for thirty-two bits.
pub open spec fn layout_of(monitors: Seq<Monitor>) -> Option<OutputLayout> {
    let rectangles = rectangles_of(monitors);
    let bounds = bounding_box(rectangles);
    if rectangles.len() > 0 && bounds.right - bounds.left <= u32::MAX && bounds.bottom - bounds.top
        <= u32::MAX {
        Some(
            OutputLayout {
                x: bounds.left as i32,
                y: bounds.top as i32,
                width: (bounds.right - bounds.left) as u32,
                height: (bounds.bottom - bounds.top) as u32,
            },
        )
    } else {
        None
    }
}

/// The physical and the logical size of an output as it is shown.
pub fn monitor_physical_and_logical_size(monitor: &Monitor) -> (sizes: Option<
    ((u32, u32), (u32, u32)),
>)
    ensures
        sizes == output_sizes(*monitor),
{
    if monitor.width == 0 || monitor.height == 0 {
        return None;
    }
    let Some((width, height)) = monitor.scaled else {
        return None;
    };
    if width == 0 || height == 0 {
        return None;
    }
    if monitor.transform % 2 == 0 {
        Some(((monitor.width, monitor.height), (width, height)))
    } else {
        Some(((monitor.height, monitor.width), (height, width)))
    }
}

/// The logical size of the one output with this physical size.
pub fn logical_output_size_from_monitors(
    monitors: &[Monitor],
    width: u32,
    height: u32,
) -> (size: Option<(u32, u32)>)
    ensures
        size == logical_size_for(monitors@, width, height),
{
    let ghost wanted = |monitor: Monitor| shown_as(monitor, width, height);
    let mut matches: Vec<(u32, u32)> = Vec::new();
    reveal(Seq::filter);
    for i in 0..monitors.len()
        invariant
            wanted == (|monitor: Monitor| shown_as(monitor, width, height)),
            matches.len() == monitors@.take(i as int).filter(wanted).len(),
            forall|j: int|
                0 <= j < matches.len() ==> Some((((width, height)), #[trigger] matches@[j]))
                    == output_sizes(monitors@.take(i as int).filter(wanted)[j]),
    {
        proof {
            assert(monitors@.take(i + 1) == monitors@.take(i as int).push(monitors@[i as int]));
            monitors@.take(i as int).lemma_filter_push(monitors@[i as int], wanted);
        }
        if let Some((physical, logical)) = monitor_physical_and_logical_size(&monitors[i]) {
            if physical.0 == width && physical.1 == height {
                matches.push(logical);
            }
        }
    }
    assert(monitors@.take(monitors@.len() as int) == monitors@);
    if matches.len() == 1 {
        assert(logical_size(monitors@.filter(wanted)[0]) == Some(matches@[0]));
        Some(matches[0])
    } else {
        None
    }
}

/// Whether a rectangle encloses some rectangles and touches one of them with
/// each of its edges.
spec fn fits(rectangles: Seq<Rectangle>, bounds: Rectangle) -> bool {
    &&& forall|i: int|
        0 <= i < rectangles.len() ==> {
            &&& bounds.left <= (#[trigger] rectangles[i]).left
            &&& bounds.top <= rectangles[i].top
            &&& rectangles[i].right <= bounds.right
            &&& rectangles[i].bottom <= bounds.bottom
        }
    &&& exists|i: int|
        0 <= i < rectangles.len() && (#[trigger] rectangles[i]).left == bounds.left
    &&& exists|i: int| 0 <= i < rectangles.len() && (#[trigger] rectangles[i]).top == bounds.top
    &&& exists|i: int|
        0 <= i < rectangles.len() && (#[trigger] rectangles[i]).right == bounds.right
    &&& exists|i: int|
        0 <= i < rectangles.len() && (#[trigger] rectangles[i]).bottom == bounds.bottom
}

proof fn lemma_bounding_box_fits(rectangles: Seq<Rectangle>)
    requires
        rectangles.len() > 0,
    ensures
        fits(rectangles, bounding_box(rectangles)),
{
    let lefts = rectangles.map_values(|r: Rectangle| r.left);
    let tops = rectangles.map_values(|r: Rectangle| r.top);
    let rights = rectangles.map_values(|r: Rectangle| r.right);
    let bottoms = rectangles.map_values(|r: Rectangle| r.bottom);
    lefts.min_ensures();
    tops.min_ensures();
    rights.max_ensures();
    bottoms.max_ensures();
    let bounds = bounding_box(rectangles);
    assert forall|i: int| 0 <= i < rectangles.len() implies {
        &&& bounds.left <= (#[trigger] rectangles[i]).left
        &&& bounds.top <= rectangles[i].top
        &&& rectangles[i].right <= bounds.right
        &&& rectangles[i].bottom <= bounds.bottom
    } by {
        assert(lefts[i] == rectangles[i].left && tops[i] == rectangles[i].top);
        assert(rights[i] == rectangles[i].right && bottoms[i] == rectangles[i].bottom);
    }
    let l = choose|i: int| 0 <= i < lefts.len() && lefts[i] == lefts.min();
    assert(rectangles[l].left == bounds.left);
    let t = choose|i: int| 0 <= i < tops.len() && tops[i] == tops.min();
    assert(rectangles[t].top == bounds.top);
    let r = choose|i: int| 0 <= i < rights.len() && rights[i] == rights.max();
    assert(rectangles[r].right == bounds.right);
    let b = choose|i: int| 0 <= i < bottoms.len() && bottoms[i] == bottoms.max();
    assert(rectangles[b].bottom == bounds.bottom);
}

/// The logical layout of some outputs.
pub fn layout_from_monitors(monitors: &[Monitor]) -> (layout: Option<OutputLayout>)
    ensures
        layout == layout_of(monitors@),
{
    let ghost cover = |monitor: Monitor| rectangle_of(monitor);
    let mut bounds: Option<(i64, i64, i64, i64)> = None;
    for i in 0..monitors.len()
        invariant
            cover == (|monitor: Monitor| rectangle_of(monitor)),
            match bounds {
                None => monitors@.take(i as int).filter_map(cover).len() == 0,
                Some((left, top, right, bottom)) => {
                    &&& i32::MIN <= left <= i32::MAX
                    &&& i32::MIN <= top <= i32::MAX
                    &&& left < right <= i32::MAX + u32::MAX
                    &&& top < bottom <= i32::MAX + u32::MAX
                    &&& fits(
                        monitors@.take(i as int).filter_map(cover),
                        Rectangle {
                            left: left as int,
                            top: top as int,
                            right: right as int,
                            bottom: bottom as int,
                        },
                    )
                },
            },
    {
        let ghost before = monitors@.take(i as int).filter_map(cover);
        let ghost after = monitors@.take(i + 1).filter_map(cover);
        proof {
            monitors@.lemma_filter_map_take_succ(cover, i as int);
        }
        if let Some((_, (width, height))) = monitor_physical_and_logical_size(&monitors[i]) {
            let left: i64 = monitors[i].x as i64;
            let top: i64 = monitors[i].y as i64;
            let right: i64 = left + width as i64;
            let bottom: i64 = top + height as i64;
            proof {
                let added = rectangle_of(monitors@[i as int])->0;
                assert(after == before + seq![added]);
                assert(after[before.len() as int] == added);
                assert(forall|j: int| 0 <= j < before.len() ==> after[j] == #[trigger] before[j]);
            }
            bounds = match bounds {
                None => Some((left, top, right, bottom)),
                Some((min_x, min_y, max_x, max_y)) => Some(
                    (
                        if left < min_x {
                            left
                        } else {
                            min_x
                        },
                        if top < min_y {
                            top
                        } else {
                            min_y
                        },
                        if right > max_x {
                            right
                        } else {
                            max_x
                        },
                        if bottom > max_y {
                            bottom
                        } else {
                            max_y
                        },
                    ),
                ),
            };
        } else {
            assert(after == before);
        }
    }
    assert(monitors@.take(monitors@.len() as int) == monitors@);
    let Some((min_x, min_y, max_x, max_y)) = bounds else {
        return None;
    };
    proof {
        lemma_bounding_box_fits(rectangles_of(monitors@));
    }
    if max_x - min_x > u32::MAX as i64 || max_y - min_y > u32::MAX as i64 {
        return None;
    }
    Some(
        OutputLayout {
            x: min_x as i32,
            y: min_y as i32,
            width: (max_x - min_x) as u32,
            height: (max_y - min_y) as u32,
        },
    )
}

/// The answer to a request for the layout, given the reading that it rests on.
pub open spec fn layout_answer(session: bool, monitors: Result<Vec<Monitor>, Refusal>) -> Result<
    OutputLayout,
    Refusal,
> {
    match monitors {
        _ if !session => Err(Refusal::NotHyprlandSession),
        Err(refusal) => Err(refusal),
        Ok(outputs) => match layout_of(outputs@) {
            Some(layout) => Ok(layout),
            None => Err(Refusal::NoMonitorLayout),
        },
    }
}

/// The answer to a request for the logical size of a capture, given the reading
/// that it rests on.
pub open spec fn capture_size_answer(
    session: bool,
    monitors: Result<Vec<Monitor>, Refusal>,
    width: u32,
    height: u32,
) -> Option<(u32, u32)> {
    match monitors {
        Ok(outputs) => if session {
            logical_size_for(outputs@, width, height)
        } else {
            None
        },
        Err(_) => None,
    }
}

/// The logical bounding rectangle of all Hyprland outputs. Monitor positions
/// and client coordinates are logical, while monitor modes are physical.
/// Virtual-pointer coordinates are normalized across this complete layout, not
/// across one arbitrarily selected output.
pub fn output_layout(session: bool, monitors: Result<Vec<Monitor>, Refusal>) -> (layout: Result<
    OutputLayout,
    Refusal,
>)
    ensures
        layout == (if !session {
            Err::<OutputLayout, Refusal>(Refusal::NotHyprlandSession)
        } else {
            match monitors {
                Err(error) => Err(error),
                Ok(outputs) => match layout_of(outputs@) {
                    Some(bounds) => Ok(bounds),
                    None => Err(Refusal::NoMonitorLayout),
                },
            }
        }),
        layout == layout_answer(session, monitors),
{
    if !session {
        return Err(Refusal::NotHyprlandSession);
    }
    match monitors {
        Err(error) => Err(error),
        Ok(outputs) => match layout_from_monitors(outputs.as_slice()) {
            Some(bounds) => Ok(bounds),
            None => Err(Refusal::NoMonitorLayout),
        },
    }
}

/// Maps one physical output capture to Hyprland's logical coordinate size. The
/// answer is `None` when the dimensions do not identify exactly one output, so
/// callers never guess on mirrored or otherwise ambiguous layouts.
pub fn logical_output_size_for_capture(
    session: bool,
    monitors: Result<Vec<Monitor>, Refusal>,
    width: u32,
    height: u32,
) -> (size: Option<(u32, u32)>)
    ensures
        size == (match monitors {
            Ok(outputs) if session => logical_size_for(outputs@, width, height),
            _ => None,
        }),
        size == capture_size_answer(session, monitors, width, height),
{
    match monitors {
        Ok(outputs) if session => logical_output_size_from_monitors(
            outputs.as_slice(),
            width,
            height,
        ),
        _ => None,
    }
}

/// Every usable output lies inside the layout, and each edge of the layout is
/// the edge of some output.
pub proof fn law_layout_is_the_tightest_enclosure(monitors: Seq<Monitor>)
    ensures
        layout_of(monitors) matches Some(layout) ==> {
            let right = layout.x + layout.width;
            let bottom = layout.y + layout.height;
            &&& forall|i: int|
                0 <= i < monitors.len() ==> (rectangle_of(#[trigger] monitors[i]) matches Some(r)
                    ==> layout.x <= r.left && layout.y <= r.top && r.right <= right && r.bottom
                    <= bottom)
            &&& exists|i: int|
                0 <= i < monitors.len() && (rectangle_of(#[trigger] monitors[i]) matches Some(r)
                    && r.left == layout.x)
            &&& exists|i: int|
                0 <= i < monitors.len() && (rectangle_of(#[trigger] monitors[i]) matches Some(r)
                    && r.top == layout.y)
            &&& exists|i: int|
                0 <= i < monitors.len() && (rectangle_of(#[trigger] monitors[i]) matches Some(r)
                    && r.right == right)
            &&& exists|i: int|
                0 <= i < monitors.len() && (rectangle_of(#[trigger] monitors[i]) matches Some(r)
                    && r.bottom == bottom)
        },
{
    let rectangles = rectangles_of(monitors);
    let bounds = bounding_box(rectangles);
    if let Some(layout) = layout_of(monitors) {
        lemma_bounding_box_fits(rectangles);
        lemma_rectangles_from_monitors(monitors);
        let l = choose|i: int|
            0 <= i < rectangles.len() && (#[trigger] rectangles[i]).left == bounds.left;
        let t = choose|i: int|
            0 <= i < rectangles.len() && (#[trigger] rectangles[i]).top == bounds.top;
        let r = choose|i: int|
            0 <= i < rectangles.len() && (#[trigger] rectangles[i]).right == bounds.right;
        let b = choose|i: int|
            0 <= i < rectangles.len() && (#[trigger] rectangles[i]).bottom == bounds.bottom;
        let ml = choose|m: int| covered_at(monitors, m, rectangles[l]);
        let mt = choose|m: int| covered_at(monitors, m, rectangles[t]);
        let mr = choose|m: int| covered_at(monitors, m, rectangles[r]);
        let mb = choose|m: int| covered_at(monitors, m, rectangles[b]);
        assert(rectangle_of(monitors[ml]) == Some(rectangles[l]));
        assert(rectangle_of(monitors[mt]) == Some(rectangles[t]));
        assert(rectangle_of(monitors[mr]) == Some(rectangles[r]));
        assert(rectangle_of(monitors[mb]) == Some(rectangles[b]));
        assert(layout.x == bounds.left && layout.y == bounds.top);
    }
}

/// Whether the monitor at a place covers a rectangle.
spec fn covered_at(monitors: Seq<Monitor>, m: int, rectangle: Rectangle) -> bool {
    0 <= m < monitors.len() && rectangle_of(monitors[m]) == Some(rectangle)
}

/// Whether some monitor covers a rectangle.
spec fn is_covered(monitors: Seq<Monitor>, rectangle: Rectangle) -> bool {
    exists|m: int| covered_at(monitors, m, rectangle)
}

proof fn lemma_rectangles_from_monitors(monitors: Seq<Monitor>)
    ensures
        forall|i: int|
            0 <= i < rectangles_of(monitors).len() ==> is_covered(
                monitors,
                #[trigger] rectangles_of(monitors)[i],
            ),
        forall|m: int|
            0 <= m < monitors.len() && rectangle_of(#[trigger] monitors[m]) is Some
                ==> rectangles_of(monitors).contains(rectangle_of(monitors[m])->0),
{
    let cover = |monitor: Monitor| rectangle_of(monitor);
    let rectangles = rectangles_of(monitors);
    assert forall|i: int| 0 <= i < rectangles.len() implies is_covered(
        monitors,
        #[trigger] rectangles[i],
    ) by {
        let m = lemma_mapped_from(monitors, cover, rectangles[i]);
        assert(covered_at(monitors, m, rectangles[i]));
    }
    assert forall|m: int|
        0 <= m < monitors.len() && rectangle_of(
            #[trigger] monitors[m],
        ) is Some implies rectangles.contains(rectangle_of(monitors[m])->0) by {
        lemma_mapped_item(monitors, cover, m);
    }
}

/// The layout depends on which outputs there are, not on their order or on how
/// often one is listed.
pub proof fn law_layout_ignores_order_and_repetition(left: Seq<Monitor>, right: Seq<Monitor>)
    requires
        left.to_set() == right.to_set(),
    ensures
        layout_of(left) == layout_of(right),
{
    lemma_same_rectangles(left, right);
    lemma_same_rectangles(right, left);
    let a = rectangles_of(left);
    let b = rectangles_of(right);
    if a.len() > 0 {
        assert(b.contains(a[0]));
        lemma_bounding_box_fits(a);
        lemma_bounding_box_fits(b);
        lemma_fits_within(a, b, bounding_box(a), bounding_box(b));
        lemma_fits_within(b, a, bounding_box(b), bounding_box(a));
    } else if b.len() > 0 {
        assert(a.contains(b[0]));
    }
}

proof fn lemma_same_rectangles(left: Seq<Monitor>, right: Seq<Monitor>)
    requires
        left.to_set() == right.to_set(),
    ensures
        forall|i: int|
            0 <= i < rectangles_of(left).len() ==> rectangles_of(right).contains(
                #[trigger] rectangles_of(left)[i],
            ),
{
    lemma_rectangles_from_monitors(left);
    lemma_rectangles_from_monitors(right);
    let a = rectangles_of(left);
    assert forall|i: int| 0 <= i < a.len() implies rectangles_of(right).contains(
        #[trigger] a[i],
    ) by {
        let m = choose|m: int| covered_at(left, m, a[i]);
        assert(left.to_set().contains(left[m]));
        assert(right.to_set().contains(left[m]));
        let n = choose|n: int| 0 <= n < right.len() && right[n] == left[m];
        assert(rectangle_of(right[n]) is Some);
    }
}

proof fn lemma_fits_within(
    inner: Seq<Rectangle>,
    outer: Seq<Rectangle>,
    inner_bounds: Rectangle,
    outer_bounds: Rectangle,
)
    requires
        fits(inner, inner_bounds),
        fits(outer, outer_bounds),
        forall|i: int| 0 <= i < inner.len() ==> outer.contains(#[trigger] inner[i]),
    ensures
        outer_bounds.left <= inner_bounds.left,
        outer_bounds.top <= inner_bounds.top,
        inner_bounds.right <= outer_bounds.right,
        inner_bounds.bottom <= outer_bounds.bottom,
{
    assert forall|i: int| 0 <= i < inner.len() implies {
        &&& outer_bounds.left <= (#[trigger] inner[i]).left
        &&& outer_bounds.top <= inner[i].top
        &&& inner[i].right <= outer_bounds.right
        &&& inner[i].bottom <= outer_bounds.bottom
    } by {
        let j = choose|j: int| 0 <= j < outer.len() && outer[j] == inner[i];
        assert(outer_bounds.left <= outer[j].left);
    }
}

/// Physical dimensions that one output alone is shown with map to the logical
/// size of that output.
pub proof fn law_unique_capture_size_is_mapped(
    monitors: Seq<Monitor>,
    width: u32,
    height: u32,
    i: int,
)
    requires
        0 <= i < monitors.len(),
        shown_as(monitors[i], width, height),
        forall|j: int|
            0 <= j < monitors.len() && j != i ==> !shown_as(#[trigger] monitors[j], width, height),
    ensures
        logical_size_for(monitors, width, height) == logical_size(monitors[i]),
        logical_size(monitors[i]) is Some,
{
    lemma_one_place(monitors, |monitor: Monitor| shown_as(monitor, width, height), i);
}

/// Physical dimensions that two outputs are shown with are never mapped, not
/// even when both outputs have the same logical size.
pub proof fn law_ambiguous_capture_size_is_not_guessed(
    monitors: Seq<Monitor>,
    width: u32,
    height: u32,
    i: int,
    j: int,
)
    requires
        0 <= i < j < monitors.len(),
        shown_as(monitors[i], width, height),
        shown_as(monitors[j], width, height),
    ensures
        logical_size_for(monitors, width, height) is None,
{
    lemma_two_places(monitors, |monitor: Monitor| shown_as(monitor, width, height), i, j);
}

} // verus!
