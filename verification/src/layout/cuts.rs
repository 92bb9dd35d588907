//! Cuts: pieces that follow one another along an axis and fill an area
//! from its start to its end.

use vstd::prelude::*;
use crate::layout::geometry::{Axis, Rect};

verus! {

/// Where a rectangle begins along `axis`.
pub open spec fn start_of(r: Rect, axis: Axis) -> int {
    match axis {
        Axis::Horizontal => r.x as int,
        Axis::Vertical => r.y as int,
    }
}

/// How far a rectangle reaches along `axis`.
pub open spec fn extent_of(r: Rect, axis: Axis) -> int {
    match axis {
        Axis::Horizontal => r.width as int,
        Axis::Vertical => r.height as int,
    }
}

/// Where a rectangle ends along `axis`.
pub open spec fn end_of(r: Rect, axis: Axis) -> int {
    start_of(r, axis) + extent_of(r, axis)
}

/// The part of `area` that reaches from `from` to `to` along `axis`.
pub open spec fn slice_of(area: Rect, axis: Axis, from: int, to: int) -> Rect {
    match axis {
        Axis::Horizontal => Rect {
            x: from as u16,
            y: area.y,
            width: (to - from) as u16,
            height: area.height,
        },
        Axis::Vertical => Rect {
            x: area.x,
            y: from as u16,
            width: area.width,
            height: (to - from) as u16,
        },
    }
}

/// `piece` is the part of `area` between two places along `axis`.
pub open spec fn is_slice(piece: Rect, area: Rect, axis: Axis) -> bool {
    &&& start_of(area, axis) <= start_of(piece, axis)
    &&& end_of(piece, axis) <= end_of(area, axis)
    &&& piece == slice_of(area, axis, start_of(piece, axis), end_of(piece, axis))
}

/// The pieces cut `area` along `axis`: each is a slice of the area, the
/// first begins where the area begins, each other one begins where the one
/// before it ends, and the last ends where the area ends.
pub open spec fn cuts(pieces: Seq<Rect>, area: Rect, axis: Axis) -> bool {
    &&& pieces.len() > 0
    &&& forall|i: int| 0 <= i < pieces.len() ==> is_slice(#[trigger] pieces[i], area, axis)
    &&& start_of(pieces[0], axis) == start_of(area, axis)
    &&& forall|i: int|
        0 <= i < pieces.len() - 1 ==> end_of(#[trigger] pieces[i], axis) == start_of(
            pieces[i + 1],
            axis,
        )
    &&& end_of(pieces[pieces.len() - 1], axis) == end_of(area, axis)
}

/// A slice of an area that fits the range of coordinates fits it too, lies
/// inside the area, and is empty where the area is.
pub proof fn lemma_slice_fits(piece: Rect, area: Rect, axis: Axis)
    requires
        is_slice(piece, area, axis),
        area.fits(),
    ensures
        piece.fits(),
        piece.within(area),
        area.is_empty() ==> piece.is_empty(),
{
}

/// Where piece `i` begins when pieces of the extents of `sizes` are laid one
/// after the other from the start of `area`: after the pieces before it, but
/// not beyond the end of the area.
pub open spec fn packed_start(area: Rect, axis: Axis, sizes: Seq<Rect>, i: int) -> int
    decreases i,
{
    if i <= 0 {
        start_of(area, axis)
    } else {
        vstd::math::min(
            packed_start(area, axis, sizes, i - 1) + extent_of(sizes[i - 1], axis),
            end_of(area, axis),
        )
    }
}

/// Where piece `i` ends: where the next one begins, and at the end of the
/// area if it is the last.
pub open spec fn packed_end(area: Rect, axis: Axis, sizes: Seq<Rect>, i: int) -> int {
    if i >= sizes.len() - 1 {
        end_of(area, axis)
    } else {
        packed_start(area, axis, sizes, i + 1)
    }
}

/// Pieces of the extents of `sizes`, laid one after the other along `axis`
/// from the start of `area`. A piece that would reach beyond the end of the
/// area is cut there, and the last piece reaches to the end.
pub open spec fn packed(area: Rect, axis: Axis, sizes: Seq<Rect>) -> Seq<Rect> {
    Seq::new(
        sizes.len(),
        |i: int|
            slice_of(
                area,
                axis,
                packed_start(area, axis, sizes, i),
                packed_end(area, axis, sizes, i),
            ),
    )
}

/// The places at which packed pieces begin rise from the start of the area
/// and stay within it.
pub proof fn lemma_packed_start(area: Rect, axis: Axis, sizes: Seq<Rect>, i: int)
    requires
        0 <= i <= sizes.len(),
    ensures
        start_of(area, axis) <= packed_start(area, axis, sizes, i) <= end_of(area, axis),
        i > 0 ==> packed_start(area, axis, sizes, i - 1) <= packed_start(area, axis, sizes, i),
    decreases i,
{
    if i > 0 {
        lemma_packed_start(area, axis, sizes, i - 1);
    }
}

/// Packed pieces cut the area.
pub proof fn lemma_packed_cuts(area: Rect, axis: Axis, sizes: Seq<Rect>)
    requires
        area.fits(),
        sizes.len() > 0,
    ensures
        cuts(packed(area, axis, sizes), area, axis),
{
    let pieces = packed(area, axis, sizes);
    assert forall|i: int| 0 <= i < pieces.len() implies is_slice(#[trigger] pieces[i], area, axis)
        && start_of(pieces[i], axis) == packed_start(area, axis, sizes, i) && end_of(
        pieces[i],
        axis,
    ) == packed_end(area, axis, sizes, i) by {
        lemma_packed_start(area, axis, sizes, i);
        lemma_packed_start(area, axis, sizes, i + 1);
    }
    assert forall|i: int| 0 <= i < pieces.len() - 1 implies end_of(#[trigger] pieces[i], axis)
        == start_of(pieces[i + 1], axis) by {
        assert(is_slice(pieces[i + 1], area, axis));
    }
    assert(is_slice(pieces[pieces.len() - 1], area, axis));
    assert(is_slice(pieces[0], area, axis));
}

/// Pieces that cut the area stay as they are when they are packed.
pub proof fn lemma_packing_keeps_cuts(area: Rect, axis: Axis, pieces: Seq<Rect>)
    requires
        area.fits(),
        cuts(pieces, area, axis),
    ensures
        packed(area, axis, pieces) == pieces,
{
    lemma_cuts_begin_where_packed(area, axis, pieces, pieces.len() as int - 1);
    let again = packed(area, axis, pieces);
    assert forall|i: int| 0 <= i < pieces.len() implies #[trigger] again[i] == pieces[i] by {
        lemma_cuts_begin_where_packed(area, axis, pieces, i);
        if i < pieces.len() - 1 {
            lemma_cuts_begin_where_packed(area, axis, pieces, i + 1);
            assert(end_of(pieces[i], axis) == start_of(pieces[i + 1], axis));
        }
        assert(is_slice(pieces[i], area, axis));
    }
    assert(again =~= pieces);
}

/// Piece `i` of a cut begins where the packed piece `i` begins.
pub proof fn lemma_cuts_begin_where_packed(area: Rect, axis: Axis, pieces: Seq<Rect>, i: int)
    requires
        cuts(pieces, area, axis),
        0 <= i < pieces.len(),
    ensures
        packed_start(area, axis, pieces, i) == start_of(pieces[i], axis),
    decreases i,
{
    if i > 0 {
        lemma_cuts_begin_where_packed(area, axis, pieces, i - 1);
        assert(end_of(pieces[i - 1], axis) == start_of(pieces[i - 1 + 1], axis));
        assert(is_slice(pieces[i], area, axis));
        assert(is_slice(pieces[i - 1], area, axis));
    }
}

/// In a cut, a piece ends before every later piece begins.
pub proof fn lemma_cuts_are_ordered(area: Rect, axis: Axis, pieces: Seq<Rect>, i: int, j: int)
    requires
        cuts(pieces, area, axis),
        0 <= i < j < pieces.len(),
    ensures
        end_of(pieces[i], axis) <= start_of(pieces[j], axis),
    decreases j - i,
{
    if i + 1 < j {
        lemma_cuts_are_ordered(area, axis, pieces, i + 1, j);
        assert(is_slice(pieces[i + 1], area, axis));
    }
    assert(end_of(pieces[i], axis) == start_of(pieces[i + 1], axis));
}

/// Whether the place `at` along `axis` lies in `piece`.
pub open spec fn lies_in(at: int, piece: Rect, axis: Axis) -> bool {
    start_of(piece, axis) <= at < end_of(piece, axis)
}

/// Every place of the area along the axis lies in exactly one piece of a cut.
pub proof fn lemma_cut_holds_each_place_once(area: Rect, axis: Axis, pieces: Seq<Rect>, at: int)
    requires
        cuts(pieces, area, axis),
        start_of(area, axis) <= at < end_of(area, axis),
    ensures
        exists|i: int| 0 <= i < pieces.len() && lies_in(at, #[trigger] pieces[i], axis),
        forall|i: int, j: int|
            #![trigger lies_in(at, pieces[i], axis), lies_in(at, pieces[j], axis)]
            0 <= i < pieces.len() && 0 <= j < pieces.len() && lies_in(at, pieces[i], axis)
                && lies_in(at, pieces[j], axis) ==> i == j,
{
    lemma_some_piece_holds(area, axis, pieces, at, pieces.len() as int - 1);
    assert forall|i: int, j: int|
        #![trigger lies_in(at, pieces[i], axis), lies_in(at, pieces[j], axis)]
        0 <= i < pieces.len() && 0 <= j < pieces.len() && lies_in(at, pieces[i], axis) && lies_in(
            at,
            pieces[j],
            axis,
        ) implies i == j by {
        if i < j {
            lemma_cuts_are_ordered(area, axis, pieces, i, j);
        } else if j < i {
            lemma_cuts_are_ordered(area, axis, pieces, j, i);
        }
    }
}

/// A place that lies before the end of piece `upto` lies in a piece up to it.
pub proof fn lemma_some_piece_holds(area: Rect, axis: Axis, pieces: Seq<Rect>, at: int, upto: int)
    requires
        cuts(pieces, area, axis),
        0 <= upto < pieces.len(),
        start_of(area, axis) <= at < end_of(pieces[upto], axis),
    ensures
        exists|i: int| 0 <= i <= upto && lies_in(at, #[trigger] pieces[i], axis),
    decreases upto,
{
    if start_of(pieces[upto], axis) <= at {
        assert(lies_in(at, pieces[upto], axis));
    } else {
        if upto == 0 {
            assert(false);
        } else {
            assert(end_of(pieces[upto - 1], axis) == start_of(pieces[upto - 1 + 1], axis));
            lemma_some_piece_holds(area, axis, pieces, at, upto - 1);
        }
    }
}

/// Where a rectangle begins along `axis`.
fn start(r: Rect, axis: Axis) -> (v: u16)
    ensures
        v == start_of(r, axis),
{
    match axis {
        Axis::Horizontal => r.x,
        Axis::Vertical => r.y,
    }
}

/// How far a rectangle reaches along `axis`.
fn extent(r: Rect, axis: Axis) -> (v: u16)
    ensures
        v == extent_of(r, axis),
{
    match axis {
        Axis::Horizontal => r.width,
        Axis::Vertical => r.height,
    }
}

/// The part of `area` that reaches from `from` to `to` along `axis`.
fn slice(area: Rect, axis: Axis, from: u16, to: u16) -> (r: Rect)
    requires
        from <= to,
    ensures
        r == slice_of(area, axis, from as int, to as int),
{
    match axis {
        Axis::Horizontal => Rect { x: from, y: area.y, width: to - from, height: area.height },
        Axis::Vertical => Rect { x: area.x, y: from, width: area.width, height: to - from },
    }
}

/// Lays pieces of the extents of `sizes` one after the other along `axis`
/// from the start of `area` to its end.
pub fn pack_pieces(area: Rect, axis: Axis, sizes: &Vec<Rect>) -> (pieces: Vec<Rect>)
    requires
        area.fits(),
        sizes@.len() > 0,
    ensures
        pieces@ == packed(area, axis, sizes@),
        cuts(pieces@, area, axis),
{
    let n = sizes.len();
    let end: u16 = start(area, axis) + extent(area, axis);
    let mut pieces: Vec<Rect> = Vec::new();
    let mut at: u16 = start(area, axis);
    let mut i: usize = 0;
    while i < n
        invariant
            i <= n,
            n == sizes@.len(),
            n > 0,
            area.fits(),
            end == end_of(area, axis),
            at == packed_start(area, axis, sizes@, i as int),
            start_of(area, axis) <= at <= end,
            pieces@.len() == i,
            forall|k: int| 0 <= k < i ==> (#[trigger] pieces@[k]) == packed(area, axis, sizes@)[k],
        decreases n - i,
    {
        let room: u16 = end - at;
        let wanted = extent(sizes[i], axis);
        let size: u16 = if i == n - 1 || wanted > room { room } else { wanted };
        let next: u16 = if wanted > room { end } else { at + wanted };
        proof {
            assert(next == packed_start(area, axis, sizes@, i + 1));
        }
        pieces.push(slice(area, axis, at, at + size));
        at = next;
        i += 1;
    }
    proof {
        assert(pieces@ =~= packed(area, axis, sizes@));
        lemma_packed_cuts(area, axis, sizes@);
    }
    pieces
}

} // verus!
