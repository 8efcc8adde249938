//! The pixel grid: one separately owned row per scanline, filled row by row.
//!
//! A row is the unit of work. Until it is rendered a row is empty; once
//! rendered it holds one pixel per column. Rows never share storage, so a
//! row can be computed on its own by `render_row` and the rows joined by
//! `Image::from_rows`.

use vstd::prelude::*;

verus! {

/// The pixels of each row, top row first.
pub open spec fn grid_of<P>(rows: Seq<Vec<P>>) -> Seq<Seq<P>> {
    Seq::new(rows.len(), |y: int| rows[y]@)
}

/// Whether `row` is scanline `y` of a picture `width` wide as `f` draws it:
/// the pixel of column `x` is a value that `f` returns for `(x, y)`.
pub open spec fn row_drawn_by<P, F: Fn(u32, u32) -> P>(
    row: Seq<P>,
    width: usize,
    y: usize,
    f: F,
) -> bool {
    &&& row.len() == width
    &&& forall|x: int| 0 <= x < width ==> call_ensures(f, (x as u32, y as u32), #[trigger] row[x])
}

/// Whether `grid` is the picture of `width` by `height` pixels that `f`
/// draws: every row is complete, and every pixel is a value that `f` returns
/// for its own column and row.
pub open spec fn drawn_by<P, F: Fn(u32, u32) -> P>(
    grid: Seq<Seq<P>>,
    width: usize,
    height: usize,
    f: F,
) -> bool {
    &&& grid.len() == height
    &&& forall|y: int| 0 <= y < height ==> row_drawn_by(#[trigger] grid[y], width, y as usize, f)
}

/// Whether `f` may be asked for every pixel of scanline `y`.
pub open spec fn draws_row<P, F: Fn(u32, u32) -> P>(f: F, width: usize, y: usize) -> bool {
    let row = y as u32;
    forall|x: u32| x < width ==> call_requires(f, (x, row))
}

/// Whether `f` may be asked for every pixel of a picture of this size.
pub open spec fn draws<P, F: Fn(u32, u32) -> P>(f: F, width: usize, height: usize) -> bool {
    forall|x: u32, y: u32| x < width && y < height ==> call_requires(f, (x, y))
}

/// Computes scanline `y`, left to right.
pub fn render_row<P, F: Fn(u32, u32) -> P>(width: usize, y: usize, f: &F) -> (row: Vec<P>)
    requires
        width <= u32::MAX,
        y <= u32::MAX,
        draws_row(*f, width, y),
    ensures
        row_drawn_by(row@, width, y, *f),
{
    let mut row: Vec<P> = Vec::new();
    let mut x: usize = 0;
    while x < width
        invariant
            x <= width <= u32::MAX,
            y <= u32::MAX,
            row.len() == x,
            draws_row(*f, width, y),
            forall|c: int| 0 <= c < x ==> call_ensures(*f, (c as u32, y as u32), #[trigger] row[c]),
        decreases width - x,
    {
        let pixel = f(x as u32, y as u32);
        row.push(pixel);
        x += 1;
    }
    row
}

/// A grid of `width` by `height` pixels, held as one row per scanline.
pub struct Image<P> {
    width: usize,
    height: usize,
    rows: Vec<Vec<P>>,
}

impl<P> View for Image<P> {
    type V = Seq<Seq<P>>;

    /// The pixels of each row, top row first; a row not yet rendered is empty.
    closed spec fn view(&self) -> Seq<Seq<P>> {
        grid_of(self.rows@)
    }
}

impl<P> Image<P> {
    /// The number of columns.
    pub closed spec fn spec_width(&self) -> usize {
        self.width
    }

    /// The number of rows.
    pub closed spec fn spec_height(&self) -> usize {
        self.height
    }

    /// There is one row per scanline, and each row is empty or complete.
    pub open spec fn wf(&self) -> bool {
        &&& self@.len() == self.spec_height()
        &&& forall|y: int|
            0 <= y < self@.len() ==> (#[trigger] self@[y]).len() == 0 || self@[y].len()
                == self.spec_width()
    }

    /// Every row has been rendered.
    pub open spec fn filled(&self) -> bool {
        forall|y: int| 0 <= y < self@.len() ==> (#[trigger] self@[y]).len() == self.spec_width()
    }

    /// The pixel at column `x` of row `y`, where there is one.
    pub open spec fn pixel(&self, x: int, y: int) -> Option<P> {
        if 0 <= y < self@.len() && 0 <= x < self@[y].len() {
            Some(self@[y][x])
        } else {
            None
        }
    }

    /// An image of the given size with no row rendered yet.
    pub fn new(width: usize, height: usize) -> (img: Self)
        ensures
            img.wf(),
            img.spec_width() == width,
            img.spec_height() == height,
            forall|y: int| 0 <= y < height ==> (#[trigger] img@[y]).len() == 0,
    {
        let mut rows: Vec<Vec<P>> = Vec::new();
        let mut y: usize = 0;
        while y < height
            invariant
                y <= height,
                rows.len() == y,
                forall|r: int| 0 <= r < y ==> (#[trigger] rows[r]).len() == 0,
            decreases height - y,
        {
            rows.push(Vec::new());
            y += 1;
        }
        Image { width, height, rows }
    }

    /// Joins rows that were computed apart into an image `width` wide, one
    /// row per entry and in their order. The rows are refused, and `None`
    /// returned, unless each of them holds exactly `width` pixels.
    pub fn from_rows(width: usize, rows: Vec<Vec<P>>) -> (img: Option<Self>)
        ensures
            img is Some <==> forall|y: int| 0 <= y < rows.len() ==> (#[trigger] rows[y]).len() == width,
            img matches Some(i) ==> {
                &&& i.wf()
                &&& i.filled()
                &&& i.spec_width() == width
                &&& i.spec_height() == rows.len()
                &&& i@ == grid_of(rows@)
            },
    {
        let height = rows.len();
        let mut y: usize = 0;
        while y < height
            invariant
                y <= height,
                height == rows.len(),
                forall|r: int| 0 <= r < y ==> (#[trigger] rows[r]).len() == width,
            decreases height - y,
        {
            if rows[y].len() != width {
                return None;
            }
            y += 1;
        }
        Some(Image { width, height, rows })
    }

    /// The number of columns.
    pub fn width(&self) -> (w: usize)
        ensures
            w == self.spec_width(),
    {
        self.width
    }

    /// The number of rows.
    pub fn height(&self) -> (h: usize)
        ensures
            h == self.spec_height(),
    {
        self.height
    }

    /// Reads the pixel at column `x` of row `y`: `None` outside the image
    /// and in a row that is not rendered yet.
    pub fn get(&self, x: usize, y: usize) -> (p: Option<&P>)
        ensures
            p is None <==> self.pixel(x as int, y as int) is None,
            p matches Some(v) ==> self.pixel(x as int, y as int) == Some(*v),
    {
        if y < self.rows.len() {
            let row = &self.rows[y];
            if x < row.len() {
                return Some(&row[x]);
            }
        }
        None
    }

    /// Renders every row: afterwards the pixel at column `x` of row `y` is
    /// what `f` returned for `(x, y)`. Rows are rendered top to bottom and
    /// each row left to right; what a row held before is dropped.
    pub fn render<F: Fn(u32, u32) -> P>(&mut self, f: F)
        requires
            old(self).wf(),
            old(self).spec_width() <= u32::MAX,
            old(self).spec_height() <= u32::MAX,
            draws(f, old(self).spec_width(), old(self).spec_height()),
        ensures
            final(self).wf(),
            final(self).filled(),
            final(self).spec_width() == old(self).spec_width(),
            final(self).spec_height() == old(self).spec_height(),
            drawn_by(final(self)@, old(self).spec_width(), old(self).spec_height(), f),
    {
        let width = self.width;
        let height = self.height;
        let mut y: usize = 0;
        while y < height
            invariant
                y <= height <= u32::MAX,
                width <= u32::MAX,
                self.width == width,
                self.height == height,
                self.rows.len() == height,
                draws(f, width, height),
                forall|r: int| 0 <= r < y ==> row_drawn_by(#[trigger] self.rows[r]@, width, r as usize, f),
            decreases height - y,
        {
            let row = render_row(width, y, &f);
            self.rows.set(y, row);
            y += 1;
        }
    }

    /// Allocates an image of the given size and renders it with `f`.
    pub fn from_fn<F: Fn(u32, u32) -> P>(width: usize, height: usize, f: F) -> (img: Self)
        requires
            width <= u32::MAX,
            height <= u32::MAX,
            draws(f, width, height),
        ensures
            img.wf(),
            img.filled(),
            img.spec_width() == width,
            img.spec_height() == height,
            drawn_by(img@, width, height, f),
    {
        let mut img = Self::new(width, height);
        img.render(f);
        img
    }
}

/// Every pixel that was written reads back as written, whatever its row and
/// whatever the other rows hold: in an image joined from `rows`, the pixel
/// at column `x` of row `y` is entry `x` of row `y`.
pub proof fn lemma_rows_read_back<P>(img: Image<P>, rows: Seq<Vec<P>>, x: int, y: int)
    requires
        img@ == grid_of(rows),
        0 <= y < rows.len(),
        0 <= x < rows[y].len(),
    ensures
        img.pixel(x, y) == Some(rows[y][x]),
{
}

/// Every pixel of a rendered image is what was drawn for its own column and
/// row.
pub proof fn lemma_drawing_reads_back<P, F: Fn(u32, u32) -> P>(
    img: Image<P>,
    width: usize,
    height: usize,
    f: F,
    x: int,
    y: int,
)
    requires
        drawn_by(img@, width, height, f),
        0 <= x < width,
        0 <= y < height,
    ensures
        img.pixel(x, y) matches Some(p) && call_ensures(f, (x as u32, y as u32), p),
{
    assert(row_drawn_by(img@[y], width, y as usize, f));
}

/// A picture is fixed by what draws it: where `f` returns one value only for
/// each pixel, any two pictures of one size drawn by `f` are equal, pixel
/// for pixel.
pub proof fn lemma_drawing_is_determined<P, F: Fn(u32, u32) -> P>(
    a: Seq<Seq<P>>,
    b: Seq<Seq<P>>,
    width: usize,
    height: usize,
    f: F,
)
    requires
        drawn_by(a, width, height, f),
        drawn_by(b, width, height, f),
        forall|x: u32, y: u32, p: P, q: P|
            call_ensures(f, (x, y), p) && call_ensures(f, (x, y), q) ==> p == q,
    ensures
        a == b,
{
    assert forall|y: int| 0 <= y < height implies a[y] == b[y] by {
        assert(row_drawn_by(a[y], width, y as usize, f));
        assert(row_drawn_by(b[y], width, y as usize, f));
        assert forall|x: int| 0 <= x < width implies a[y][x] == b[y][x] by {
            assert(call_ensures(f, (x as u32, y as usize as u32), a[y][x]));
            assert(call_ensures(f, (x as u32, y as usize as u32), b[y][x]));
        }
        assert(a[y] =~= b[y]);
    }
    assert(a =~= b);
}

} // verus!
