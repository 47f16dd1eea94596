//! The frame buffer that decoded pixels accumulate in.

use crate::error::DecodeError;
use crate::pixel::{black, Rgb};
use vstd::prelude::*;

verus! {

/// The mathematical content of an [`Image`]: its fixed dimensions, the
/// column at which the next pixel of the current row lands, and every pixel
/// produced so far in raster order.
pub struct Frame {
    pub width: nat,
    pub height: nat,
    pub cursor: nat,
    pub pixels: Seq<Rgb>,
}

impl Frame {
    /// A frame of the given dimensions that holds no pixel yet.
    pub open spec fn empty(width: nat, height: nat) -> Frame {
        Frame { width, height, cursor: 0, pixels: Seq::empty() }
    }

    /// The cursor never passes the end of the row.
    pub open spec fn wf(self) -> bool {
        self.cursor <= self.width
    }

    /// The number of pixels of a finished frame.
    pub open spec fn capacity(self) -> nat {
        self.width * self.height
    }

    /// The frame holds exactly as many pixels as its dimensions ask for.
    pub open spec fn is_complete(self) -> bool {
        self.pixels.len() == self.capacity()
    }

    /// `extra` more pixels would still lie inside the grid.
    pub open spec fn has_room_for(self, extra: nat) -> bool {
        self.pixels.len() + extra <= self.capacity()
    }

    /// The frame after `run` was written into the current row.
    pub open spec fn with_pixels(self, run: Seq<Rgb>) -> Frame {
        Frame { cursor: self.cursor + run.len(), pixels: self.pixels + run, ..self }
    }

    /// The frame after `count` pixels of `color` were written into the
    /// current row.
    pub open spec fn with_run(self, count: nat, color: Rgb) -> Frame {
        self.with_pixels(Seq::new(count, |i: int| color))
    }

    /// The number of black pixels that a newline adds.
    pub open spec fn padding(self) -> nat {
        (self.width - self.cursor) as nat
    }

    /// The frame after the current row was padded with black and the cursor
    /// went back to column 0.
    pub open spec fn with_newline(self) -> Frame {
        Frame {
            cursor: 0,
            pixels: self.pixels + Seq::new(self.padding(), |i: int| black()),
            ..self
        }
    }
}

/// A pixel grid under construction.
///
/// Pixels are kept in the order in which they were appended: row by row from
/// the top, each row from the left.
#[derive(Debug, PartialEq, Eq)]
pub struct Image {
    pos: u32,
    width: u32,
    height: u32,
    data: Vec<Rgb>,
}

impl View for Image {
    type V = Frame;

    closed spec fn view(&self) -> Frame {
        Frame {
            width: self.width as nat,
            height: self.height as nat,
            cursor: self.pos as nat,
            pixels: self.data@,
        }
    }
}

impl Image {
    /// The invariant of every frame: the cursor never passes the end of the
    /// row. `new` establishes it and every method keeps it.
    pub open spec fn wf(&self) -> bool {
        self@.wf()
    }

    /// An empty frame of `w` by `h` pixels with the cursor at column 0.
    ///
    /// No storage is reserved: the frame grows as pixels arrive, so
    /// dimensions of any size, zero included, cost nothing by themselves.
    pub fn new(w: u32, h: u32) -> (image: Image)
        ensures
            image@ == Frame::empty(w as nat, h as nat),
            image.wf(),
    {
        Image { pos: 0, width: w, height: h, data: Vec::new() }
    }

    /// Appends `count` pixels of the colour `(r, g, b)` to the current row.
    ///
    /// A run that would cross the end of the row is refused and leaves the
    /// frame as it was.
    pub fn add_repeat(&mut self, count: u8, r: u8, g: u8, b: u8) -> (res: Result<(), DecodeError>)
        requires
            old(self).wf(),
        ensures
            final(self).wf(),
            res is Ok <==> old(self)@.cursor + count <= old(self)@.width,
            res is Ok ==> final(self)@ == old(self)@.with_run(count as nat, Rgb { r, g, b }),
            res is Ok ==> final(self)@.cursor == old(self)@.cursor + count,
            res is Ok ==> final(self)@.pixels == old(self)@.pixels + Seq::new(
                count as nat,
                |i: int| Rgb { r, g, b },
            ),
            res is Err ==> res == Err::<(), DecodeError>(DecodeError::OpcodeOverrun),
            res is Err ==> final(self)@ == old(self)@,
    {
        if count as u32 > self.width - self.pos {
            return Err(DecodeError::OpcodeOverrun);
        }
        let color = Rgb { r, g, b };
        let ghost before = self@;
        let mut done: u8 = 0;
        while done < count
            invariant
                done <= count,
                before.cursor + count <= before.width,
                before.width <= u32::MAX,
                self@ == before.with_run(done as nat, color),
            decreases count - done,
        {
            self.data.push(color);
            self.pos = self.pos + 1;
            done = done + 1;
            assert(self@.pixels =~= before.with_run(done as nat, color).pixels);
        }
        Ok(())
    }

    /// Pads the rest of the current row with black pixels and moves the
    /// cursor back to column 0.
    pub fn add_newline(&mut self)
        requires
            old(self).wf(),
        ensures
            final(self).wf(),
            final(self)@ == old(self)@.with_newline(),
            final(self)@.cursor == 0,
            final(self)@.pixels == old(self)@.pixels + Seq::new(
                (old(self)@.width - old(self)@.cursor) as nat,
                |i: int| Rgb { r: 0, g: 0, b: 0 },
            ),
            old(self)@.cursor == old(self)@.width ==> final(self)@.pixels == old(self)@.pixels,
    {
        let ghost before = self@;
        let start = self.pos;
        let mut col: u32 = start;
        while col < self.width
            invariant
                start <= col <= self.width,
                self.pos == start,
                self.width == before.width,
                self.height == before.height,
                before.cursor == start,
                self.data@ =~= before.pixels + Seq::new((col - start) as nat, |i: int| black()),
            decreases self.width - col,
        {
            self.data.push(Rgb { r: 0, g: 0, b: 0 });
            col = col + 1;
        }
        self.pos = 0;
    }

    /// The width of the grid in pixels.
    pub fn width(&self) -> (width: u32)
        ensures
            width == self@.width,
    {
        self.width
    }

    /// The height of the grid in pixels.
    pub fn height(&self) -> (height: u32)
        ensures
            height == self@.height,
    {
        self.height
    }

    /// The column at which the next pixel of the current row lands.
    pub fn pos(&self) -> (column: u32)
        ensures
            column == self@.cursor,
    {
        self.pos
    }

    /// Every pixel appended so far, in raster order.
    pub fn pixels(&self) -> (pixels: &Vec<Rgb>)
        ensures
            pixels@ == self@.pixels,
    {
        &self.data
    }

    /// The number of columns between the cursor and the end of the row.
    pub fn padding(&self) -> (columns: u32)
        requires
            self.wf(),
        ensures
            columns == self@.padding(),
    {
        self.width - self.pos
    }

    /// Whether `extra` more pixels would still lie inside the grid.
    pub fn has_room_for(&self, extra: u32) -> (fits: bool)
        ensures
            fits == self@.has_room_for(extra as nat),
    {
        assert(self.width * self.height <= u64::MAX) by (nonlinear_arith)
            requires
                self.width <= u32::MAX,
                self.height <= u32::MAX,
        ;
        let capacity: u64 = (self.width as u64) * (self.height as u64);
        let held: u64 = self.data.len() as u64;
        held <= capacity && extra as u64 <= capacity - held
    }

    /// Whether the frame holds exactly `width * height` pixels.
    pub fn is_complete(&self) -> (complete: bool)
        ensures
            complete == self@.is_complete(),
    {
        assert(self.width * self.height <= u64::MAX) by (nonlinear_arith)
            requires
                self.width <= u32::MAX,
                self.height <= u32::MAX,
        ;
        let capacity: u64 = (self.width as u64) * (self.height as u64);
        self.data.len() as u64 == capacity
    }
}

} // verus!
