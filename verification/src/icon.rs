//! Geometry of the icon pool: the square that is cut out of an input, and
//! the layout of the preview that shows every icon of a job.
use crate::product::ICON_VARIANTS;
use vstd::prelude::*;

verus! {

/// Edge of an icon, in pixels.
pub const ICON_SIZE: u32 = 64;

/// Gap between two cells of the preview, in pixels.
pub const COLLAGE_PADDING: u32 = 4;

/// The largest square inside an image, centred.
#[derive(Clone, Copy, Debug, PartialEq, Eq, Structural)]
pub struct Crop {
    pub x: u32,
    pub y: u32,
    pub size: u32,
}

/// The largest square inside an image of the given size, centred: its edge
/// is the shorter edge of the image, and what is cut off is split evenly
/// between the two sides, the odd pixel going to the far side.
pub fn center_square(width: u32, height: u32) -> (r: Crop)
    ensures
        r.size == if width <= height {
            width
        } else {
            height
        },
        r.x == (width - r.size) / 2,
        r.y == (height - r.size) / 2,
        r.x + r.size <= width,
        r.y + r.size <= height,
{
    let size = if width <= height {
        width
    } else {
        height
    };
    Crop { x: (width - size) / 2, y: (height - size) / 2, size }
}

/// The size of the preview of a job, in pixels.
#[derive(Clone, Copy, Debug, PartialEq, Eq, Structural)]
pub struct CollageSize {
    pub width: u32,
    pub height: u32,
}

/// Distance from one cell of the preview to the next.
pub open spec fn cell_step() -> int {
    ICON_SIZE + COLLAGE_PADDING
}

/// How many columns the preview of `images` icons has: one for each
/// input, or a single one for the six templates where there is no complete
/// set of icons to show.
pub open spec fn collage_columns(images: int) -> int {
    if images > 0 && images % (ICON_VARIANTS as int) == 0 {
        images / (ICON_VARIANTS as int)
    } else {
        1
    }
}

/// The width of the preview of `images` icons.
pub open spec fn collage_width(images: int) -> int {
    collage_columns(images) * cell_step() - COLLAGE_PADDING
}

/// The height of every preview.
pub open spec fn collage_height() -> int {
    ICON_VARIANTS * cell_step() - COLLAGE_PADDING
}

/// Whether the preview shows the icons of the job, and not the templates.
pub fn shows_icons(images: usize) -> (r: bool)
    ensures
        r == (images > 0 && images % ICON_VARIANTS == 0),
{
    images > 0 && images % ICON_VARIANTS == 0
}

/// The size of the preview of `images` icons: a grid with one column for
/// each input and one row for each variant, cells of 64 pixels with 4
/// pixels between them. `None` where the width is more than an image can
/// have.
pub fn collage_size(images: usize) -> (r: Option<CollageSize>)
    ensures
        r is Some <==> collage_width(images as int) <= u32::MAX,
        r matches Some(size) ==> size.width == collage_width(images as int) && size.height
            == collage_height(),
{
    let columns: u64 = if images > 0 && images % ICON_VARIANTS == 0 {
        (images / ICON_VARIANTS) as u64
    } else {
        1
    };
    let step: u128 = (ICON_SIZE + COLLAGE_PADDING) as u128;
    assert(columns * step <= u64::MAX * 68) by (nonlinear_arith)
        requires
            1 <= columns <= u64::MAX,
            step == 68,
    ;
    assert(columns * step >= 68) by (nonlinear_arith)
        requires
            1 <= columns,
            step == 68,
    ;
    let width: u128 = columns as u128 * step - COLLAGE_PADDING as u128;
    if width > u32::MAX as u128 {
        return None;
    }
    Some(CollageSize { width: width as u32, height: 404 })
}

/// The upper left corner of a cell of the preview.
#[derive(Clone, Copy, Debug, PartialEq, Eq, Structural)]
pub struct CellOrigin {
    pub x: u32,
    pub y: u32,
}

/// The cell of the `index`th icon: icons come input by input, six
/// variants each, so the input gives the column and the variant the row.
/// `None` where the cell lies further right than an image can reach.
pub fn cell_origin(index: usize) -> (r: Option<CellOrigin>)
    ensures
        r is Some <==> (index / ICON_VARIANTS) * cell_step() + ICON_SIZE <= u32::MAX,
        r matches Some(cell) ==> cell.x == (index / ICON_VARIANTS) * cell_step() && cell.y == (
        index % ICON_VARIANTS) * cell_step(),
{
    let step: u128 = (ICON_SIZE + COLLAGE_PADDING) as u128;
    let column = (index / ICON_VARIANTS) as u128;
    let row = (index % ICON_VARIANTS) as u32;
    assert(column * step <= u64::MAX * 68) by (nonlinear_arith)
        requires
            0 <= column <= u64::MAX,
            step == 68,
    ;
    assert(row * 68 <= 5 * 68) by (nonlinear_arith)
        requires
            0 <= row <= 5,
    ;
    let x: u128 = column * step;
    if x + ICON_SIZE as u128 > u32::MAX as u128 {
        return None;
    }
    Some(CellOrigin { x: x as u32, y: row * 68 })
}

/// Whether the pixel `(dx, dy)` of the icon in the cell at `origin` lies
/// inside a preview of the given size.
pub fn pixel_fits(origin: CellOrigin, dx: u32, dy: u32, size: CollageSize) -> (r: bool)
    ensures
        r == (origin.x + dx < size.width && origin.y + dy < size.height),
{
    (origin.x as u64 + dx as u64) < size.width as u64 && (origin.y as u64 + dy as u64)
        < size.height as u64
}

/// Every cell of a preview that shows the icons of a job lies inside the
/// preview, and two different cells do not overlap.
pub proof fn law_cells_tile_the_collage(images: int, a: int, b: int)
    requires
        images > 0,
        images % (ICON_VARIANTS as int) == 0,
        0 <= a < images,
        0 <= b < images,
        a != b,
    ensures
        (a / (ICON_VARIANTS as int)) * cell_step() + ICON_SIZE <= collage_columns(images)
            * cell_step() - COLLAGE_PADDING,
        (a % (ICON_VARIANTS as int)) * cell_step() + ICON_SIZE <= ICON_VARIANTS * cell_step()
            - COLLAGE_PADDING,
        (a / (ICON_VARIANTS as int)) * cell_step() + ICON_SIZE <= (b / (ICON_VARIANTS as int))
            * cell_step() || (b / (ICON_VARIANTS as int)) * cell_step() + ICON_SIZE <= (a / (
        ICON_VARIANTS as int)) * cell_step() || (a % (ICON_VARIANTS as int)) * cell_step()
            + ICON_SIZE <= (b % (ICON_VARIANTS as int)) * cell_step() || (b % (
        ICON_VARIANTS as int)) * cell_step() + ICON_SIZE <= (a % (ICON_VARIANTS as int))
            * cell_step(),
{
    let ca = a / 6;
    let cb = b / 6;
    let ra = a % 6;
    let rb = b % 6;
    let cols = images / 6;
    assert(ca < cols);
    assert((ca + 1) * 68 <= cols * 68) by (nonlinear_arith)
        requires
            ca + 1 <= cols,
    ;
    if ca < cb {
        assert((ca + 1) * 68 <= cb * 68) by (nonlinear_arith)
            requires
                ca + 1 <= cb,
        ;
    } else if cb < ca {
        assert((cb + 1) * 68 <= ca * 68) by (nonlinear_arith)
            requires
                cb + 1 <= ca,
        ;
    } else {
        assert(ra != rb);
    }
}

} // verus!

verus! {

/// The pixel in column `x` of row `y` of the given rows.
pub open spec fn pixel(rows: Seq<Vec<u32>>, x: int, y: int) -> u32 {
    rows[y]@[x]
}

/// An image in memory: rows of pixels from top to bottom, each pixel its
/// four channels packed into one number.
#[derive(Debug)]
pub struct Raster {
    pub rows: Vec<Vec<u32>>,
}

/// The pixel that shows nothing.
pub const TRANSPARENT: u32 = 0;

impl Raster {
    /// Whether all rows have the same length.
    pub open spec fn wf(&self) -> bool {
        forall|y: int|
            0 <= y < self.rows@.len() ==> (#[trigger] self.rows@[y])@.len() == self.width()
    }

    /// The number of pixels in a row.
    pub open spec fn width(&self) -> nat {
        if self.rows@.len() == 0 {
            0
        } else {
            self.rows@[0]@.len()
        }
    }

    /// The number of rows.
    pub open spec fn height(&self) -> nat {
        self.rows@.len()
    }

    /// The pixel in column `x` of row `y`.
    pub open spec fn at(&self, x: int, y: int) -> u32 {
        pixel(self.rows@, x, y)
    }

    /// Whether all rows have the same length.
    pub fn is_well_formed(&self) -> (r: bool)
        ensures
            r == self.wf(),
    {
        if self.rows.len() == 0 {
            return true;
        }
        let width = self.rows[0].len();
        let mut y: usize = 0;
        while y < self.rows.len()
            invariant
                y <= self.rows.len(),
                self.rows@.len() > 0,
                width == self.width(),
                forall|k: int| 0 <= k < y ==> (#[trigger] self.rows@[k])@.len() == width,
            decreases self.rows.len() - y,
        {
            if self.rows[y].len() != width {
                return false;
            }
            y += 1;
        }
        true
    }

    /// An image of the given size that shows nothing.
    pub fn blank(width: u32, height: u32) -> (r: Raster)
        ensures
            r.wf(),
            r.height() == height,
            forall|y: int| 0 <= y < height ==> (#[trigger] r.rows@[y])@.len() == width,
            forall|x: int, y: int|
                0 <= x < width && 0 <= y < height ==> #[trigger] pixel(r.rows@, x, y)
                    == TRANSPARENT,
    {
        let mut rows: Vec<Vec<u32>> = Vec::new();
        let mut y: u32 = 0;
        while y < height
            invariant
                y <= height,
                rows@.len() == y,
                forall|k: int| 0 <= k < y ==> (#[trigger] rows@[k])@.len() == width,
                forall|x: int, k: int|
                    0 <= x < width && 0 <= k < y ==> #[trigger] pixel(rows@, x, k) == TRANSPARENT,
            decreases height - y,
        {
            let row: Vec<u32> = vec![TRANSPARENT; width as usize];
            let ghost before = rows@;
            rows.push(row);
            assert forall|x: int, k: int| 0 <= x < width && 0 <= k < y + 1 implies #[trigger] pixel(
                rows@,
                x,
                k,
            ) == TRANSPARENT by {
                if k < y {
                    assert(pixel(before, x, k) == TRANSPARENT);
                }
            }
            y += 1;
        }
        Raster { rows }
    }
}

/// The column of pixels at which the cell of the `i`th icon begins.
pub open spec fn cell_left(i: int) -> int {
    (i / (ICON_VARIANTS as int)) * cell_step()
}

/// The row of pixels at which the cell of the `i`th icon begins.
pub open spec fn cell_top(i: int) -> int {
    (i % (ICON_VARIANTS as int)) * cell_step()
}

/// Whether the `i`th icon is painted over the pixel `(x, y)` of the
/// preview: its cell lies within reach and the icon, put with its upper
/// left corner on that of the cell, extends over the pixel.
pub open spec fn covers(icons: Seq<Raster>, i: int, x: int, y: int) -> bool {
    &&& cell_left(i) + ICON_SIZE <= u32::MAX
    &&& cell_left(i) <= x < cell_left(i) + icons[i].width()
    &&& cell_top(i) <= y < cell_top(i) + icons[i].height()
}

/// The pixel `(x, y)` of the preview after the first `n` icons were
/// painted, one after the other: that of the last icon that covers it, or
/// nothing.
pub open spec fn painted(icons: Seq<Raster>, n: int, x: int, y: int) -> u32
    decreases n,
{
    if n <= 0 {
        TRANSPARENT
    } else if covers(icons, n - 1, x, y) {
        icons[n - 1].at(x - cell_left(n - 1), y - cell_top(n - 1))
    } else {
        painted(icons, n - 1, x, y)
    }
}

/// The pixel `(x, y)` while the `i`th icon is being painted, `rows` of its
/// rows and `columns` pixels of the next row done.
pub open spec fn painting(
    icons: Seq<Raster>,
    i: int,
    rows: int,
    columns: int,
    x: int,
    y: int,
) -> u32 {
    let dx = x - cell_left(i);
    let dy = y - cell_top(i);
    if covers(icons, i, x, y) && (dy < rows || (dy == rows && dx < columns)) {
        icons[i].at(dx, dy)
    } else {
        painted(icons, i, x, y)
    }
}

/// Paints the preview of a job: every icon into its cell, the first icon
/// of an input in the top row, one column for each input. Pixels that
/// fall outside the preview are dropped. `None` where the preview is
/// wider than an image can be.
pub fn compose_collage(icons: &Vec<Raster>) -> (r: Option<Raster>)
    requires
        forall|i: int| 0 <= i < icons@.len() ==> (#[trigger] icons@[i]).wf(),
    ensures
        r is Some <==> collage_width(icons@.len() as int) <= u32::MAX,
        r matches Some(canvas) ==> {
            &&& canvas.wf()
            &&& canvas.height() == collage_height()
            &&& canvas.width() == collage_width(icons@.len() as int)
            &&& forall|x: int, y: int|
                0 <= x < canvas.width() && 0 <= y < canvas.height() ==> #[trigger] pixel(
                    canvas.rows@,
                    x,
                    y,
                ) == painted(icons@, icons@.len() as int, x, y)
        },
{
    let n = icons.len();
    let size = match collage_size(n) {
        Some(size) => size,
        None => {
            return None;
        },
    };
    let ghost w = size.width as int;
    let ghost h = size.height as int;
    let mut canvas = Raster::blank(size.width, size.height);
    let mut i: usize = 0;
    while i < n
        invariant
            i <= n,
            n == icons@.len(),
            w == size.width,
            h == size.height,
            h == 404,
            w >= 64,
            forall|k: int| 0 <= k < icons@.len() ==> (#[trigger] icons@[k]).wf(),
            canvas.rows@.len() == h,
            forall|y: int| 0 <= y < h ==> (#[trigger] canvas.rows@[y])@.len() == w,
            forall|x: int, y: int|
                0 <= x < w && 0 <= y < h ==> #[trigger] pixel(canvas.rows@, x, y) == painted(
                    icons@,
                    i as int,
                    x,
                    y,
                ),
        decreases n - i,
    {
        match cell_origin(i) {
            None => {
                assert forall|x: int, y: int| 0 <= x < w && 0 <= y < h implies #[trigger] pixel(
                    canvas.rows@,
                    x,
                    y,
                ) == painted(icons@, i + 1, x, y) by {
                    assert(!covers(icons@, i as int, x, y));
                    assert(pixel(canvas.rows@, x, y) == painted(icons@, i as int, x, y));
                }
            },
            Some(origin) => {
                let icon = &icons[i];
                assert(icon.wf());
                let rows = icon.rows.len();
                let mut dy: usize = 0;
                assert forall|x: int, y: int| 0 <= x < w && 0 <= y < h implies #[trigger] pixel(
                    canvas.rows@,
                    x,
                    y,
                ) == painting(icons@, i as int, 0, 0, x, y) by {
                    assert(pixel(canvas.rows@, x, y) == painted(icons@, i as int, x, y));
                }
                while dy < rows
                    invariant
                        dy <= rows,
                        i < n,
                        n == icons@.len(),
                        rows == icons@[i as int].height(),
                        *icon == icons@[i as int],
                        icon.wf(),
                        origin.x == cell_left(i as int),
                        origin.y == cell_top(i as int),
                        cell_left(i as int) + ICON_SIZE <= u32::MAX,
                        w == size.width,
                        h == size.height,
                        canvas.rows@.len() == h,
                        forall|y: int| 0 <= y < h ==> (#[trigger] canvas.rows@[y])@.len() == w,
                        forall|x: int, y: int|
                            0 <= x < w && 0 <= y < h ==> #[trigger] pixel(canvas.rows@, x, y)
                                == painting(icons@, i as int, dy as int, 0, x, y),
                    decreases rows - dy,
                {
                    let y: u128 = origin.y as u128 + dy as u128;
                    let columns = icon.rows[dy].len();
                    assert(columns == icon.width()) by {
                        assert(icon.rows@[dy as int]@.len() == icon.width());
                    }
                    if y < size.height as u128 {
                        let row = y as usize;
                        let mut dx: usize = 0;
                        while dx < columns
                            invariant
                                dx <= columns,
                                dy < rows,
                                i < n,
                                n == icons@.len(),
                                rows == icons@[i as int].height(),
                                columns == icons@[i as int].width(),
                                *icon == icons@[i as int],
                                icon.wf(),
                                origin.x == cell_left(i as int),
                                origin.y == cell_top(i as int),
                                cell_left(i as int) + ICON_SIZE <= u32::MAX,
                                row == origin.y + dy,
                                row < h,
                                w == size.width,
                                h == size.height,
                                canvas.rows@.len() == h,
                                forall|y: int|
                                    0 <= y < h ==> (#[trigger] canvas.rows@[y])@.len() == w,
                                forall|x: int, y: int|
                                    0 <= x < w && 0 <= y < h ==> #[trigger] pixel(
                                        canvas.rows@,
                                        x,
                                        y,
                                    ) == painting(icons@, i as int, dy as int, dx as int, x, y),
                            decreases columns - dx,
                        {
                            let x: u128 = origin.x as u128 + dx as u128;
                            if x < size.width as u128 {
                                let column = x as usize;
                                let value = icon.rows[dy][dx];
                                let ghost before = canvas.rows@;
                                canvas.rows[row][column] = value;
                                assert(value == icons@[i as int].at(dx as int, dy as int));
                                assert forall|px: int, py: int|
                                    0 <= px < w && 0 <= py < h implies #[trigger] pixel(
                                    canvas.rows@,
                                    px,
                                    py,
                                ) == painting(icons@, i as int, dy as int, dx + 1, px, py) by {
                                    if px == column && py == row {
                                    } else {
                                        assert(pixel(canvas.rows@, px, py) == pixel(before, px, py));
                                        assert(pixel(before, px, py) == painting(
                                            icons@,
                                            i as int,
                                            dy as int,
                                            dx as int,
                                            px,
                                            py,
                                        ));
                                    }
                                }
                            } else {
                                assert forall|px: int, py: int|
                                    0 <= px < w && 0 <= py < h implies #[trigger] pixel(
                                    canvas.rows@,
                                    px,
                                    py,
                                ) == painting(icons@, i as int, dy as int, dx + 1, px, py) by {
                                    assert(pixel(canvas.rows@, px, py) == painting(
                                        icons@,
                                        i as int,
                                        dy as int,
                                        dx as int,
                                        px,
                                        py,
                                    ));
                                }
                            }
                            dx += 1;
                        }
                        assert forall|px: int, py: int|
                            0 <= px < w && 0 <= py < h implies #[trigger] pixel(
                            canvas.rows@,
                            px,
                            py,
                        ) == painting(icons@, i as int, dy + 1, 0, px, py) by {
                            assert(pixel(canvas.rows@, px, py) == painting(
                                icons@,
                                i as int,
                                dy as int,
                                columns as int,
                                px,
                                py,
                            ));
                        }
                    } else {
                        assert forall|px: int, py: int|
                            0 <= px < w && 0 <= py < h implies #[trigger] pixel(
                            canvas.rows@,
                            px,
                            py,
                        ) == painting(icons@, i as int, dy + 1, 0, px, py) by {
                            assert(pixel(canvas.rows@, px, py) == painting(
                                icons@,
                                i as int,
                                dy as int,
                                0,
                                px,
                                py,
                            ));
                        }
                    }
                    dy += 1;
                }
                assert forall|x: int, y: int| 0 <= x < w && 0 <= y < h implies #[trigger] pixel(
                    canvas.rows@,
                    x,
                    y,
                ) == painted(icons@, i + 1, x, y) by {
                    assert(pixel(canvas.rows@, x, y) == painting(
                        icons@,
                        i as int,
                        rows as int,
                        0,
                        x,
                        y,
                    ));
                }
            },
        }
        i += 1;
    }
    assert(canvas.wf()) by {
        assert(canvas.rows@[0]@.len() == w);
    }
    Some(canvas)
}

} // verus!
