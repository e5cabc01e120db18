//! Where the parts of a screen go.

use ratatui::layout::{Constraint, Layout, Rect};
use vstd::prelude::*;

verus! {

/// A rectangle of terminal cells.
#[derive(Debug, Clone, Copy, PartialEq, Eq, Structural)]
pub struct Area {
    pub x: u16,
    pub y: u16,
    pub width: u16,
    pub height: u16,
}

/// The way along which an area is split.
#[derive(Debug, Clone, Copy, PartialEq, Eq, Structural)]
pub enum Direction {
    Horizontal,
    Vertical,
}

/// The size that a part of an area asks for.
#[derive(Debug, Clone, Copy, PartialEq, Eq, Structural)]
pub enum Size {
    /// This many cells.
    Length(u16),
    /// At least this many cells, and whatever is left.
    Min(u16),
    /// This many hundredths of the whole.
    Percentage(u16),
}

impl Area {
    /// The first column or row.
    pub open spec fn start(self, direction: Direction) -> int {
        match direction {
            Direction::Horizontal => self.x as int,
            Direction::Vertical => self.y as int,
        }
    }

    /// How many columns or rows there are, as far as they can be numbered.
    pub open spec fn extent(self, direction: Direction) -> int {
        let wanted = match direction {
            Direction::Horizontal => self.width as int,
            Direction::Vertical => self.height as int,
        };
        if self.start(direction) + wanted <= u16::MAX {
            wanted
        } else {
            u16::MAX - self.start(direction)
        }
    }

    /// The part from `from` to `to`, counted from the start of the area, across the
    /// whole of it.
    pub open spec fn part(self, direction: Direction, from: int, to: int) -> Area {
        match direction {
            Direction::Horizontal => Area {
                x: (self.x + from) as u16,
                width: (to - from) as u16,
                ..self
            },
            Direction::Vertical => Area {
                y: (self.y + from) as u16,
                height: (to - from) as u16,
                ..self
            },
        }
    }

    /// The area is a part of `whole`.
    pub open spec fn is_part_of(self, whole: Area, direction: Direction) -> bool {
        exists|from: int, to: int|
            0 <= from <= to <= whole.extent(direction) && self == #[trigger] whole.part(
                direction,
                from,
                to,
            )
    }
}

/// The hundredths that the first `n` of `sizes` ask for.
pub open spec fn hundredths(sizes: Seq<Size>, n: int) -> int
    decreases n,
{
    if n <= 0 {
        0
    } else {
        hundredths(sizes, n - 1) + match sizes[n - 1] {
            Size::Percentage(percent) => percent as int,
            _ => 0,
        }
    }
}

/// That many hundredths of `extent`, rounded, and a half up.
pub open spec fn share(extent: int, percent: int) -> int {
    (extent * percent + 50) / 100
}

/// `Layout::split` of the crate `ratatui`, on a layout that is the default but for
/// its direction and constraints, splits an area into one part for each constraint.
///
/// Each part lies in the area, which the solver takes as required, and goes across the
/// whole of it. Where a length, a minimum and a length fit, the lengths are as asked for
/// and the minimum takes the rest: nothing else wishes as strongly to grow. Where they do
/// not fit, the parts still follow one another and fill the area. The minimum, the
/// strongest of the three wishes, gets what it asks for or the whole area, and neither
/// length gets more than it asks for. (The solver reads a minimum as a signed number of
/// sixteen bits, so nothing is said of a larger one.)
///
/// Where percentages come to no more than a hundred, each part ends at its rounded share,
/// and the next starts there.
///
/// Nothing is said of how two lengths share what does not suffice for both, nor of other
/// wishes that contradict each other: the outcome then hangs on the order in which the
/// solver walks its hash maps.
#[verifier::external_body]
fn split(area: Area, direction: Direction, sizes: &Vec<Size>) -> (parts: Vec<Area>)
    ensures
        parts@.len() == sizes@.len(),
        forall|i: int|
            0 <= i < parts@.len() ==> (#[trigger] parts@[i]).is_part_of(area, direction),
        forall|top: u16, least: u16, bottom: u16|
            #[trigger] is_frame(sizes@, top, least, bottom) && top + least + bottom <= area.extent(
                direction,
            ) ==> parts@ == framed(area, direction, top as int, bottom as int),
        forall|top: u16, least: u16, bottom: u16|
            #[trigger] is_frame(sizes@, top, least, bottom) && top + least + bottom > area.extent(
                direction,
            ) && least <= i16::MAX ==> is_squeezed(
                parts@,
                area,
                direction,
                top as int,
                least as int,
                bottom as int,
            ),
        (forall|i: int| 0 <= i < sizes@.len() ==> #[trigger] sizes@[i] is Percentage) && hundredths(
            sizes@,
            sizes@.len() as int,
        ) <= 100 ==> parts@ == shared_out(area, direction, sizes@),
{
    let area = Rect { x: area.x, y: area.y, width: area.width, height: area.height };
    let constraints = sizes.iter().map(|size| match size {
        Size::Length(cells) => Constraint::Length(*cells),
        Size::Min(cells) => Constraint::Min(*cells),
        Size::Percentage(percent) => Constraint::Percentage(*percent),
    });
    let direction = match direction {
        Direction::Horizontal => ratatui::layout::Direction::Horizontal,
        Direction::Vertical => ratatui::layout::Direction::Vertical,
    };
    let parts = Layout::default().direction(direction).constraints(constraints).split(area);
    parts.iter().map(|p| Area { x: p.x, y: p.y, width: p.width, height: p.height }).collect()
}

/// A length, a minimum and a length.
pub open spec fn is_frame(sizes: Seq<Size>, top: u16, least: u16, bottom: u16) -> bool {
    sizes == seq![Size::Length(top), Size::Min(least), Size::Length(bottom)]
}

/// The three parts up to `from`, from there to `to`, and from there on.
pub open spec fn cut_twice(area: Area, direction: Direction, from: int, to: int) -> Seq<Area> {
    seq![
        area.part(direction, 0, from),
        area.part(direction, from, to),
        area.part(direction, to, area.extent(direction)),
    ]
}

/// A header of `top` cells, a footer of `bottom` cells, and what is left between them.
pub open spec fn framed(area: Area, direction: Direction, top: int, bottom: int) -> Seq<Area> {
    cut_twice(area, direction, top, area.extent(direction) - bottom)
}

/// A header and a footer that share what a body of `least` cells leaves, or a body alone:
/// the three fill the area, and neither the header nor the footer is larger than asked
/// for.
pub open spec fn is_squeezed(
    parts: Seq<Area>,
    area: Area,
    direction: Direction,
    top: int,
    least: int,
    bottom: int,
) -> bool {
    let extent = area.extent(direction);
    let body = if least <= extent {
        least
    } else {
        extent
    };
    exists|header: int|
        0 <= header <= top && 0 <= extent - header - body <= bottom && parts == #[trigger] cut_twice(
            area,
            direction,
            header,
            header + body,
        )
}

/// Each part from the share of those before it to its own.
pub open spec fn shared_out(area: Area, direction: Direction, sizes: Seq<Size>) -> Seq<Area> {
    let extent = area.extent(direction);
    Seq::new(
        sizes.len(),
        |i: int|
            area.part(
                direction,
                share(extent, hundredths(sizes, i)),
                share(extent, hundredths(sizes, i + 1)),
            ),
    )
}

/// A page: a title of four rows, a list or text, and five rows of notes.
pub fn page_layout(area: Area) -> (parts: Vec<Area>)
    ensures
        parts@.len() == 3,
        forall|i: int|
            0 <= i < 3 ==> (#[trigger] parts@[i]).is_part_of(area, Direction::Vertical),
        area.extent(Direction::Vertical) >= 19 ==> parts@ == framed(area, Direction::Vertical, 4, 5),
        area.extent(Direction::Vertical) < 19 ==> is_squeezed(
            parts@,
            area,
            Direction::Vertical,
            4,
            10,
            5,
        ),
{
    let sizes: Vec<Size> = vec![Size::Length(4), Size::Min(10), Size::Length(5)];
    assert(is_frame(sizes@, 4, 10, 5));
    let parts: Vec<Area> = split(area, Direction::Vertical, &sizes);
    parts
}

/// The screen of a level: a title of three rows, the level, and five rows of input.
pub fn level_layout(area: Area) -> (parts: Vec<Area>)
    ensures
        parts@.len() == 3,
        forall|i: int|
            0 <= i < 3 ==> (#[trigger] parts@[i]).is_part_of(area, Direction::Vertical),
        area.extent(Direction::Vertical) >= 16 ==> parts@ == framed(area, Direction::Vertical, 3, 5),
        area.extent(Direction::Vertical) < 16 ==> is_squeezed(
            parts@,
            area,
            Direction::Vertical,
            3,
            8,
            5,
        ),
{
    let sizes: Vec<Size> = vec![Size::Length(3), Size::Min(8), Size::Length(5)];
    assert(is_frame(sizes@, 3, 8, 5));
    let parts: Vec<Area> = split(area, Direction::Vertical, &sizes);
    parts
}

/// The two halves of an edit level: the text, and the one asked for.
pub fn edit_layout(area: Area) -> (parts: Vec<Area>)
    ensures
        ({
            let extent = area.extent(Direction::Horizontal);
            parts@ == seq![
                area.part(Direction::Horizontal, 0, share(extent, 50)),
                area.part(Direction::Horizontal, share(extent, 50), extent),
            ]
        }),
{
    let sizes: Vec<Size> = vec![Size::Percentage(50), Size::Percentage(50)];
    proof {
        reveal_with_fuel(hundredths, 3);
    }
    let parts: Vec<Area> = split(area, Direction::Horizontal, &sizes);
    proof {
        let extent = area.extent(Direction::Horizontal);
        assert(hundredths(sizes@, 0) == 0 && hundredths(sizes@, 1) == 50 && hundredths(sizes@, 2)
            == 100);
        assert(share(extent, 0) == 0 && share(extent, 100) == extent);
        assert(parts@ =~= seq![
            area.part(Direction::Horizontal, 0, share(extent, 50)),
            area.part(Direction::Horizontal, share(extent, 50), extent),
        ]);
    }
    parts
}

/// The middle of three parts of which the outer two are equal.
pub open spec fn middle(area: Area, direction: Direction, percent: int) -> Area {
    let extent = area.extent(direction);
    let margin = (100 - percent) / 2;
    area.part(direction, share(extent, margin), share(extent, margin + percent))
}

/// An area that takes `percent_x` hundredths of the width and `percent_y` hundredths
/// of the height of another, in its middle.
pub fn centered_rect(percent_x: u16, percent_y: u16, r: Area) -> (centered: Area)
    requires
        percent_x <= 100,
        percent_y <= 100,
    ensures
        centered == middle(
            middle(r, Direction::Vertical, percent_y as int),
            Direction::Horizontal,
            percent_x as int,
        ),
{
    let rows: Area = middle_part(r, Direction::Vertical, percent_y);
    middle_part(rows, Direction::Horizontal, percent_x)
}

/// The middle of three parts of which the outer two are equal.
fn middle_part(area: Area, direction: Direction, percent: u16) -> (part: Area)
    requires
        percent <= 100,
    ensures
        part == middle(area, direction, percent as int),
{
    let margin: u16 = (100 - percent) / 2;
    let sizes: Vec<Size> = vec![
        Size::Percentage(margin),
        Size::Percentage(percent),
        Size::Percentage(margin),
    ];
    proof {
        reveal_with_fuel(hundredths, 4);
    }
    let parts: Vec<Area> = split(area, direction, &sizes);
    assert(parts@ == shared_out(area, direction, sizes@));
    parts[1]
}

/// The middle of an area lies in it, and where the percentage is even the margins on
/// both sides differ by one cell at most.
pub proof fn the_middle_is_in_the_middle(area: Area, direction: Direction, percent: int)
    requires
        0 <= percent <= 100,
    ensures
        middle(area, direction, percent).is_part_of(area, direction),
        percent % 2 == 0 ==> {
            let before = middle(area, direction, percent).start(direction) - area.start(direction);
            let after = area.extent(direction) - before - middle(area, direction, percent).extent(
                direction,
            );
            -1 <= before - after <= 1
        },
{
    let extent = area.extent(direction);
    let margin = (100 - percent) / 2;
    lemma_share(extent, margin);
    lemma_share(extent, margin + percent);
    assert(extent * (margin + percent) == extent * margin + extent * percent) by (nonlinear_arith);
    assert(extent * percent >= 0) by (nonlinear_arith)
        requires
            extent >= 0,
            percent >= 0,
    ;
    assert(extent * (margin + percent) == extent * 100 - extent * (100 - margin - percent))
        by (nonlinear_arith);
    assert(middle(area, direction, percent) == area.part(
        direction,
        share(extent, margin),
        share(extent, margin + percent),
    ));
}

proof fn lemma_share(extent: int, percent: int)
    requires
        0 <= extent,
        0 <= percent <= 100,
    ensures
        0 <= share(extent, percent) <= extent,
{
    assert(0 <= extent * percent <= extent * 100) by (nonlinear_arith)
        requires
            0 <= extent,
            0 <= percent <= 100,
    ;
}

/// The parts of a screen of at least nineteen rows, or sixteen for a level, are a header, a
/// footer and all that lies between them, each as wide as the screen.
pub proof fn screens_have_a_header_and_a_footer(area: Area, top: u16, bottom: u16)
    requires
        area.y + area.height <= u16::MAX,
        top + bottom <= area.height,
    ensures
        framed(area, Direction::Vertical, top as int, bottom as int) == seq![
            Area { x: area.x, y: area.y, width: area.width, height: top },
            Area {
                x: area.x,
                y: (area.y + top) as u16,
                width: area.width,
                height: (area.height - top - bottom) as u16,
            },
            Area {
                x: area.x,
                y: (area.y + area.height - bottom) as u16,
                width: area.width,
                height: bottom,
            },
        ],
{
}

/// A part lies as far from the start as is said, is as long as is said, and goes across.
pub proof fn parts_lie_where_they_are_cut(area: Area, from: int, to: int)
    requires
        0 <= from <= to,
    ensures
        area.x + to <= u16::MAX ==> area.part(Direction::Horizontal, from, to) == (Area {
            x: (area.x + from) as u16,
            y: area.y,
            width: (to - from) as u16,
            height: area.height,
        }),
        area.y + to <= u16::MAX ==> area.part(Direction::Vertical, from, to) == (Area {
            x: area.x,
            y: (area.y + from) as u16,
            width: area.width,
            height: (to - from) as u16,
        }),
        area.x + area.width <= u16::MAX ==> area.extent(Direction::Horizontal) == area.width,
        area.y + area.height <= u16::MAX ==> area.extent(Direction::Vertical) == area.height,
{
}

/// A share is the nearest whole number of cells, and half a cell counts as one.
pub proof fn shares_are_rounded(extent: int, percent: int)
    requires
        0 <= extent,
        0 <= percent,
    ensures
        share(extent, percent) * 100 - 50 <= extent * percent < share(extent, percent) * 100 + 50,
        share(extent, 0) == 0,
        share(extent, 100) == extent,
{
    assert(extent * percent >= 0) by (nonlinear_arith)
        requires
            0 <= extent,
            0 <= percent,
    ;
}

/// A popup leaves half of what it does not take on the left and above, rounded to whole
/// hundredths and then to whole cells, and takes its own hundredths from there.
pub proof fn popups_leave_a_margin(area: Area, percent: int)
    requires
        area.x + area.width <= u16::MAX,
        area.y + area.height <= u16::MAX,
        0 <= percent <= 100,
    ensures
        ({
            let wide = middle(area, Direction::Horizontal, percent);
            let high = middle(area, Direction::Vertical, percent);
            let margin = (100 - percent) / 2;
            &&& wide.x - area.x == share(area.width as int, margin)
            &&& wide.x + wide.width - area.x == share(area.width as int, margin + percent)
            &&& wide.y == area.y && wide.height == area.height
            &&& high.y - area.y == share(area.height as int, margin)
            &&& high.y + high.height - area.y == share(area.height as int, margin + percent)
            &&& high.x == area.x && high.width == area.width
        }),
{
    let margin = (100 - percent) / 2;
    lemma_share(area.width as int, margin);
    lemma_share(area.width as int, margin + percent);
    lemma_share(area.height as int, margin);
    lemma_share(area.height as int, margin + percent);
    lemma_share_grows(area.width as int, margin, margin + percent);
    lemma_share_grows(area.height as int, margin, margin + percent);
}

proof fn lemma_share_grows(extent: int, less: int, more: int)
    requires
        0 <= extent,
        0 <= less <= more,
    ensures
        share(extent, less) <= share(extent, more),
{
    assert(extent * less <= extent * more) by (nonlinear_arith)
        requires
            0 <= extent,
            less <= more,
    ;
}

} // verus!
