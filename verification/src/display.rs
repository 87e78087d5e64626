//! Colours and the list of drawing operations that a frame consists of.
use vstd::prelude::*;

verus! {

/// An RGB colour.
#[derive(Clone, Copy, PartialEq, Eq, Structural, Debug)]
pub struct Color {
    pub r: u8,
    pub g: u8,
    pub b: u8,
}

/// The colour `0xRRGGBB`.
pub open spec fn rgb(hex: int) -> Color {
    Color {
        r: ((hex / 65536) % 256) as u8,
        g: ((hex / 256) % 256) as u8,
        b: (hex % 256) as u8,
    }
}

impl Color {
    /// The colour `0xRRGGBB`; bits above the low 24 are ignored.
    pub fn from_hex(hex: u32) -> (c: Color)
        ensures
            c == rgb(hex as int),
    {
        Color {
            r: ((hex / 65536) % 256) as u8,
            g: ((hex / 256) % 256) as u8,
            b: (hex % 256) as u8,
        }
    }
}

/// One drawing operation, as contracts speak of it.
pub enum Draw {
    Clear { color: Color },
    Rect { x: int, y: int, w: int, h: int, color: Color },
    Text { x: int, y: int, text: Seq<char>, color: Color, scale: int },
    Pixel { x: int, y: int, color: Color },
}

/// One drawing operation.
pub enum DrawOp {
    /// Fill the whole screen.
    Clear { color: Color },
    /// Fill a rectangle.
    Rect { x: usize, y: usize, w: usize, h: usize, color: Color },
    /// Draw text with its top-left corner at a point.
    Text { x: usize, y: usize, text: String, color: Color, scale: usize },
    /// Set one pixel.
    Pixel { x: usize, y: usize, color: Color },
}

impl View for DrawOp {
    type V = Draw;

    open spec fn view(&self) -> Draw {
        match self {
            DrawOp::Clear { color } => Draw::Clear { color: *color },
            DrawOp::Rect { x, y, w, h, color } => Draw::Rect {
                x: *x as int,
                y: *y as int,
                w: *w as int,
                h: *h as int,
                color: *color,
            },
            DrawOp::Text { x, y, text, color, scale } => Draw::Text {
                x: *x as int,
                y: *y as int,
                text: text@,
                color: *color,
                scale: *scale as int,
            },
            DrawOp::Pixel { x, y, color } => Draw::Pixel {
                x: *x as int,
                y: *y as int,
                color: *color,
            },
        }
    }
}

/// The drawing operations of a frame, in the order they are carried out.
pub struct Display {
    pub ops: Vec<DrawOp>,
}

impl View for Display {
    type V = Seq<Draw>;

    open spec fn view(&self) -> Seq<Draw> {
        self.ops@.map_values(|op: DrawOp| op@)
    }
}

impl Display {
    /// An empty frame.
    pub fn new() -> (d: Display)
        ensures
            d@ == Seq::<Draw>::empty(),
    {
        let d = Display { ops: Vec::new() };
        assert(d@ =~= Seq::<Draw>::empty());
        d
    }

    fn push(&mut self, op: DrawOp)
        ensures
            final(self)@ == old(self)@.push(op@),
    {
        self.ops.push(op);
        assert(self@ =~= old(self)@.push(op@));
    }

    pub fn clear(&mut self, color: Color)
        ensures
            final(self)@ == old(self)@.push(Draw::Clear { color }),
    {
        self.push(DrawOp::Clear { color });
    }

    pub fn fill_rect(&mut self, x: usize, y: usize, w: usize, h: usize, color: Color)
        ensures
            final(self)@ == old(self)@.push(rect(x as int, y as int, w as int, h as int, color)),
    {
        self.push(DrawOp::Rect { x, y, w, h, color });
    }

    pub fn draw_text(&mut self, x: usize, y: usize, text: &str, color: Color, scale: usize)
        ensures
            final(self)@ == old(self)@.push(
                label(x as int, y as int, text@, color, scale as int),
            ),
    {
        self.push(DrawOp::Text { x, y, text: String::from_str(text), color, scale });
    }

    pub fn put_pixel(&mut self, x: usize, y: usize, color: Color)
        ensures
            final(self)@ == old(self)@.push(Draw::Pixel { x: x as int, y: y as int, color }),
    {
        self.push(DrawOp::Pixel { x, y, color });
    }
}

/// A filled rectangle.
pub open spec fn rect(x: int, y: int, w: int, h: int, color: Color) -> Draw {
    Draw::Rect { x, y, w, h, color }
}

/// A line of text.
pub open spec fn label(x: int, y: int, text: Seq<char>, color: Color, scale: int) -> Draw {
    Draw::Text { x, y, text, color, scale }
}

/// `a - b`, or zero where that would be negative.
pub open spec fn sat_sub(a: int, b: int) -> int {
    if a >= b {
        a - b
    } else {
        0
    }
}

// ── What is seen of a drawing ───────────────────────────────────────────────

/// The operation gives the point its colour, whatever was there. Text does so only where
/// its letters are, and is left out here.
pub open spec fn fills(op: Draw, x: int, y: int) -> bool {
    match op {
        Draw::Clear { color } => true,
        Draw::Rect { x: rx, y: ry, w, h, color } => rx <= x < rx + w && ry <= y < ry + h,
        Draw::Text { x: tx, y: ty, text, color, scale } => false,
        Draw::Pixel { x: px, y: py, color } => px == x && py == y,
    }
}

/// The colour in which an operation draws.
pub open spec fn color_of(op: Draw) -> Color {
    match op {
        Draw::Clear { color } => color,
        Draw::Rect { x, y, w, h, color } => color,
        Draw::Text { x, y, text, color, scale } => color,
        Draw::Pixel { x, y, color } => color,
    }
}

/// The colour of a point after some operations: later ones paint over earlier ones.
/// `None` where none of them fills the point.
pub open spec fn painted(ops: Seq<Draw>, x: int, y: int) -> Option<Color>
    decreases ops.len(),
{
    if ops.len() == 0 {
        None
    } else if fills(ops.last(), x, y) {
        Some(color_of(ops.last()))
    } else {
        painted(ops.drop_last(), x, y)
    }
}

/// None of the operations fills the point.
pub open spec fn untouched(ops: Seq<Draw>, x: int, y: int) -> bool {
    forall|i: int| 0 <= i < ops.len() ==> !fills(#[trigger] ops[i], x, y)
}

/// What is drawn later is seen; where it does not reach, what was drawn before it.
pub proof fn law_later_over_earlier(a: Seq<Draw>, b: Seq<Draw>, x: int, y: int)
    ensures
        painted(a + b, x, y) == if painted(b, x, y) is Some {
            painted(b, x, y)
        } else {
            painted(a, x, y)
        },
    decreases b.len(),
{
    if b.len() == 0 {
        assert(a + b =~= a);
    } else {
        assert((a + b).drop_last() =~= a + b.drop_last());
        assert((a + b).last() == b.last());
        law_later_over_earlier(a, b.drop_last(), x, y);
    }
}

/// A point has no colour exactly where nothing filled it.
pub proof fn law_untouched(ops: Seq<Draw>, x: int, y: int)
    ensures
        painted(ops, x, y) is None <==> untouched(ops, x, y),
    decreases ops.len(),
{
    if ops.len() > 0 {
        let d = ops.drop_last();
        law_untouched(d, x, y);
        if untouched(d, x, y) && !fills(ops.last(), x, y) {
            assert forall|i: int| 0 <= i < ops.len() implies !fills(#[trigger] ops[i], x, y) by {
                if i < d.len() {
                    assert(d[i] == ops[i]);
                }
            }
        }
        if untouched(ops, x, y) {
            assert(ops[ops.len() - 1] == ops.last());
            assert forall|i: int| 0 <= i < d.len() implies !fills(#[trigger] d[i], x, y) by {
                assert(d[i] == ops[i]);
            }
        }
    }
}

/// The parts of a colour written as `0xRRGGBB`.
pub proof fn law_rgb(hex: int)
    requires
        0 <= hex < 0x100_0000,
    ensures
        rgb(hex).r * 65536 + rgb(hex).g * 256 + rgb(hex).b == hex,
{
}

} // verus!
