//! Packing frames of one size into a single sheet.
use vstd::prelude::*;
use vstd::arithmetic::div_mod::lemma_fundamental_div_mod_converse;
use crate::datatypes::SpritesheetGenerationParams;
use crate::frame::{lemma_index_in_bounds, Frame, FrameView, Frames, Rgba};
use crate::pipeline_model::views;

verus! {

/// The largest width or height, in pixels, of a strip of all frames for which
/// the best layout is searched.
pub const SEARCH_LIMIT: u64 = 0x4000_0000;

/// All frames have the same size and one pixel per coordinate.
pub open spec fn uniform(frames: Seq<FrameView>) -> bool {
    forall|i: int|
        0 <= i < frames.len() ==> (#[trigger] frames[i]).wf() && frames[i].width == frames[0].width
            && frames[i].height == frames[0].height
}

/// The number of rows that `count` frames take at `per_row` frames a row.
pub open spec fn rows_for(count: nat, per_row: nat) -> nat {
    if per_row == 0 {
        0
    } else {
        ((count + per_row - 1) / per_row as int) as nat
    }
}

/// The number of frames in each row of the sheet: what the parameters ask
/// for, but no more than there are frames.
pub open spec fn columns_for(count: nat, frames_per_row: nat) -> nat {
    if frames_per_row < count {
        frames_per_row
    } else {
        count
    }
}

/// Width and height of the sheet that holds `count` frames of the given size.
pub open spec fn sheet_size(count: nat, frames_per_row: nat, width: nat, height: nat) -> (nat, nat) {
    let columns = columns_for(count, frames_per_row);
    (width * columns, height * rows_for(count, columns))
}

/// How far `power` is below `n`.
pub open spec fn gap(n: nat, power: nat) -> nat {
    if power < n {
        (n - power) as nat
    } else {
        0
    }
}

/// The smallest power of two from `power` on, doubling, that is at least `n`.
pub open spec fn doubled_up_to(n: nat, power: nat) -> nat
    decreases gap(n, power),
{
    if power >= n || power == 0 {
        power
    } else {
        doubled_up_to(n, 2 * power)
    }
}

/// The smallest power of two that is at least `n`.
pub open spec fn next_power_of_two(n: nat) -> nat {
    doubled_up_to(n, 1)
}

/// What a sheet of the given size costs: it grows with the square of each
/// side, which favours square sheets, and with the distance of each side from
/// the next power of two.
pub open spec fn sheet_cost(width: nat, height: nat) -> nat {
    (width * width + height * height + (next_power_of_two(width) - width) + (next_power_of_two(
        height,
    ) - height)) as nat
}

/// What laying out `count` frames of the given size at `frames_per_row` a row costs.
pub open spec fn layout_cost(count: nat, frames_per_row: nat, width: nat, height: nat) -> nat {
    let size = sheet_size(count, frames_per_row, width, height);
    sheet_cost(size.0, size.1)
}

/// A fully transparent black pixel.
pub open spec fn blank() -> Rgba {
    Rgba { r: 0, g: 0, b: 0, a: 0 }
}

/// The pixel of the sheet at column `x` of row `y`: frame `i` lies in row
/// `i / columns` at column `i % columns`, and cells without a frame are blank.
pub open spec fn sheet_pixel(frames: Seq<FrameView>, columns: nat, x: int, y: int) -> Rgba {
    let width = frames[0].width as int;
    let height = frames[0].height as int;
    let i = (y / height) * columns + x / width;
    if i < frames.len() {
        frames[i].at(x % width, y % height)
    } else {
        blank()
    }
}

/// The sheet that holds the frames at `frames_per_row` a row.
pub open spec fn sheet(frames: Seq<FrameView>, frames_per_row: nat) -> FrameView {
    let columns = columns_for(frames.len(), frames_per_row);
    let size = sheet_size(frames.len(), frames_per_row, frames[0].width, frames[0].height);
    FrameView {
        width: size.0,
        height: size.1,
        pixels: Seq::new(
            size.0 * size.1,
            |k: int| sheet_pixel(frames, columns, k % size.0 as int, k / size.0 as int),
        ),
    }
}

/// Doubling reaches a power that is at least `n` and less than twice `n`.
proof fn lemma_doubled_up_to(n: nat, power: nat)
    requires
        0 < power,
        power < 2 * n || power == 1,
    ensures
        doubled_up_to(n, power) >= n,
        doubled_up_to(n, power) >= power,
        n > 0 ==> doubled_up_to(n, power) < 2 * n,
        n == 0 ==> doubled_up_to(n, power) == power,
    decreases gap(n, power),
{
    if power < n {
        lemma_doubled_up_to(n, 2 * power);
    }
}

/// Whether `n` is one of 1, 2, 4, 8 and so on.
pub open spec fn is_power_of_two(n: nat) -> bool
    decreases n,
{
    n == 1 || (n > 1 && n % 2 == 0 && is_power_of_two(n / 2))
}

/// Doubling a power of two up to `n` ends at a power of two.
proof fn lemma_doubled_stays_power(n: nat, power: nat)
    requires
        is_power_of_two(power),
    ensures
        is_power_of_two(doubled_up_to(n, power)),
    decreases gap(n, power),
{
    if power < n {
        lemma_doubled_stays_power(n, 2 * power);
    }
}

/// The next power of two of `n` is a power of two and at least `n`. It is
/// the least such: it is less than twice `n`, unless `n` is zero, whose next
/// power of two is one.
pub proof fn lemma_next_power_of_two(n: nat)
    ensures
        is_power_of_two(next_power_of_two(n)),
        next_power_of_two(n) >= n,
        n > 0 ==> next_power_of_two(n) < 2 * n,
        n == 0 ==> next_power_of_two(n) == 1,
{
    lemma_doubled_up_to(n, 1);
    lemma_doubled_stays_power(n, 1);
}

/// In the sheet, frame `i` fills the cell at column `i % columns` of row
/// `i / columns`: the pixel at `(u, v)` of the frame is the pixel of the sheet
/// that lies `u` to the right and `v` below the top left corner of the cell.
pub proof fn lemma_sheet_holds_frame(
    frames: Seq<FrameView>,
    frames_per_row: nat,
    i: int,
    u: int,
    v: int,
)
    requires
        uniform(frames),
        frames_per_row > 0,
        0 <= i < frames.len(),
        frames[0].contains(u, v),
    ensures
        ({
            let columns = columns_for(frames.len(), frames_per_row) as int;
            let x = (i % columns) * frames[0].width + u;
            let y = (i / columns) * frames[0].height + v;
            &&& sheet(frames, frames_per_row).wf()
            &&& sheet(frames, frames_per_row).contains(x, y)
            &&& sheet(frames, frames_per_row).at(x, y) == frames[i].at(u, v)
        }),
{
    let count = frames.len();
    let columns = columns_for(count, frames_per_row) as int;
    let width = frames[0].width as int;
    let height = frames[0].height as int;
    let rows = rows_for(count, columns as nat) as int;
    let column = i % columns;
    let row = i / columns;
    let x = column * width + u;
    let y = row * height + v;
    let size = sheet_size(count, frames_per_row, frames[0].width, frames[0].height);
    lemma_rows_for(count, columns as nat);
    vstd::arithmetic::div_mod::lemma_fundamental_div_mod(i, columns);
    vstd::arithmetic::div_mod::lemma_mod_pos_bound(i, columns);
    assert(0 <= row) by {
        vstd::arithmetic::div_mod::lemma_div_pos_is_pos(i, columns);
    }
    assert(row < rows) by (nonlinear_arith)
        requires
            i == columns * row + column,
            0 <= column,
            i < count,
            count <= rows * columns,
            columns > 0,
    ;
    lemma_fundamental_div_mod_converse(x, width, column, u);
    lemma_fundamental_div_mod_converse(y, height, row, v);
    assert(x < width * columns && 0 <= x) by (nonlinear_arith)
        requires
            x == column * width + u,
            0 <= u < width,
            0 <= column < columns,
    ;
    assert(y < height * rows && 0 <= y) by (nonlinear_arith)
        requires
            y == row * height + v,
            0 <= v < height,
            0 <= row < rows,
    ;
    lemma_index_in_bounds(size.0, size.1, x, y);
    let k = y * size.0 + x;
    lemma_fundamental_div_mod_converse(k, size.0 as int, y, x);
    assert(row * columns + column == i) by (nonlinear_arith)
        requires
            i == columns * row + column,
    ;
}

/// Computes the smallest power of two that is at least `n`.
fn power_of_two_at_least(n: u64) -> (r: u64)
    requires
        n <= SEARCH_LIMIT,
    ensures
        r == next_power_of_two(n as nat),
        n <= r <= 2 * SEARCH_LIMIT,
{
    let mut power: u64 = 1;
    while power < n
        invariant
            0 < power,
            power < 2 * n || power == 1,
            n <= SEARCH_LIMIT,
            doubled_up_to(n as nat, power as nat) == next_power_of_two(n as nat),
        decreases gap(n as nat, power as nat),
    {
        power = 2 * power;
    }
    power
}

/// Computes what a sheet of the given size costs.
fn cost_of(width: u64, height: u64) -> (r: u64)
    requires
        width <= SEARCH_LIMIT,
        height <= SEARCH_LIMIT,
    ensures
        r == sheet_cost(width as nat, height as nat),
{
    let wide: u64 = power_of_two_at_least(width);
    let high: u64 = power_of_two_at_least(height);
    assert(width * width <= 0x1000_0000_0000_0000 && height * height <= 0x1000_0000_0000_0000)
        by (nonlinear_arith)
        requires
            width <= 0x4000_0000,
            height <= 0x4000_0000,
    ;
    width * width + height * height + (wide - width) + (high - height)
}

/// `count` frames at `per_row` a row take at most `count` rows, and the rows
/// hold all frames but leave the last row not empty.
pub proof fn lemma_rows_for(count: nat, per_row: nat)
    requires
        0 < per_row <= count,
    ensures
        1 <= rows_for(count, per_row) <= count,
        (rows_for(count, per_row) - 1) * per_row < count <= rows_for(count, per_row) * per_row,
{
    let rows = (count + per_row - 1) / per_row as int;
    let rest = (count + per_row - 1) % per_row as int;
    vstd::arithmetic::div_mod::lemma_fundamental_div_mod(count + per_row - 1, per_row as int);
    vstd::arithmetic::div_mod::lemma_mod_pos_bound(count + per_row - 1, per_row as int);
    assert(rows >= 1) by (nonlinear_arith)
        requires
            count + per_row - 1 == per_row * rows + rest,
            0 <= rest < per_row,
            count >= per_row,
            per_row > 0,
    ;
    assert(rows <= count) by (nonlinear_arith)
        requires
            count + per_row - 1 == per_row * rows + rest,
            0 <= rest < per_row,
            count >= per_row,
            per_row > 0,
    ;
    assert((rows - 1) * per_row == per_row * rows - per_row) by (nonlinear_arith);
    assert(rows * per_row == per_row * rows) by (nonlinear_arith);
}

/// The generator of sprite sheets.
pub struct SpritesheetGenerator {}

impl SpritesheetGenerator {
    /// The size that all frames share. There is none without frames or where
    /// two frames differ in size.
    pub fn get_frame_size(frames: &Frames) -> (r: Option<(usize, usize)>)
        ensures
            r is Some <==> frames@.len() > 0 && forall|i: int|
                0 <= i < frames@.len() ==> (#[trigger] frames@[i])@.width == frames@[0]@.width
                    && frames@[i]@.height == frames@[0]@.height,
            r matches Some(size) ==> size.0 == frames@[0]@.width && size.1 == frames@[0]@.height
                && uniform(views(frames@)),
    {
        if frames.len() == 0 {
            return None;
        }
        let width: u32 = frames[0].width();
        let height: u32 = frames[0].height();
        let mut i: usize = 1;
        while i < frames.len()
            invariant
                1 <= i <= frames@.len(),
                width == frames@[0]@.width,
                height == frames@[0]@.height,
                frames@[0]@.wf(),
                forall|k: int|
                    0 <= k < i ==> (#[trigger] frames@[k])@.width == width && frames@[k]@.height
                        == height && frames@[k]@.wf(),
            decreases frames@.len() - i,
        {
            if frames[i].width() != width || frames[i].height() != height {
                return None;
            }
            i += 1;
        }
        Some((width as usize, height as usize))
    }

    /// Width and height of the sheet that holds `frame_count` frames of the
    /// given size, at most `frames_per_row` of them in a row. There is no
    /// sheet without frames, with rows of no frame, or of a size beyond the
    /// machine's word.
    pub fn get_spritesheet_size(
        spritesheet_params: &SpritesheetGenerationParams,
        frame_count: usize,
        frame_width: usize,
        frame_height: usize,
    ) -> (r: Option<(usize, usize)>)
        ensures
            r is Some <==> frame_count > 0 && spritesheet_params.frames_per_row > 0 && sheet_size(
                frame_count as nat,
                spritesheet_params.frames_per_row as nat,
                frame_width as nat,
                frame_height as nat,
            ).0 <= usize::MAX && sheet_size(
                frame_count as nat,
                spritesheet_params.frames_per_row as nat,
                frame_width as nat,
                frame_height as nat,
            ).1 <= usize::MAX,
            r matches Some(size) ==> (size.0 as nat, size.1 as nat) == sheet_size(
                frame_count as nat,
                spritesheet_params.frames_per_row as nat,
                frame_width as nat,
                frame_height as nat,
            ),
    {
        if frame_count == 0 || spritesheet_params.frames_per_row == 0 {
            return None;
        }
        let frames_per_row: usize = if spritesheet_params.frames_per_row < frame_count {
            spritesheet_params.frames_per_row
        } else {
            frame_count
        };
        let rows: usize = (frame_count - 1) / frames_per_row + 1;
        proof {
            lemma_rows_for(frame_count as nat, frames_per_row as nat);
            let rest = (frame_count - 1) % frames_per_row as int;
            vstd::arithmetic::div_mod::lemma_fundamental_div_mod(
                frame_count - 1,
                frames_per_row as int,
            );
            vstd::arithmetic::div_mod::lemma_mod_pos_bound(frame_count - 1, frames_per_row as int);
            assert(frame_count + frames_per_row - 1 == rows * frames_per_row + rest)
                by (nonlinear_arith)
                requires
                    frame_count - 1 == frames_per_row * (rows - 1) + rest,
            ;
            lemma_fundamental_div_mod_converse(
                frame_count + frames_per_row - 1,
                frames_per_row as int,
                rows as int,
                rest,
            );
        }
        match (frame_width.checked_mul(frames_per_row), frame_height.checked_mul(rows)) {
            (Some(width), Some(height)) => Some((width, height)),
            _ => None,
        }
    }

    /// The layout of least cost: the number of frames per row, between one
    /// and the number of frames, whose sheet comes closest to a square with
    /// sides that are powers of two; of several such the least. There is none
    /// without frames, or where all frames side by side or one below the
    /// other would be longer than the search allows.
    pub fn get_optimal_spritesheet_params(
        frame_count: usize,
        frame_width: usize,
        frame_height: usize,
    ) -> (r: Option<SpritesheetGenerationParams>)
        ensures
            r is Some <==> frame_count > 0 && frame_width * frame_count <= SEARCH_LIMIT
                && frame_height * frame_count <= SEARCH_LIMIT,
            r matches Some(best) ==> {
                &&& 1 <= best.frames_per_row <= frame_count
                &&& forall|k: int|
                    1 <= k <= frame_count ==> layout_cost(
                        frame_count as nat,
                        best.frames_per_row as nat,
                        frame_width as nat,
                        frame_height as nat,
                    ) <= #[trigger] layout_cost(
                        frame_count as nat,
                        k as nat,
                        frame_width as nat,
                        frame_height as nat,
                    )
                &&& forall|k: int|
                    1 <= k < best.frames_per_row ==> layout_cost(
                        frame_count as nat,
                        best.frames_per_row as nat,
                        frame_width as nat,
                        frame_height as nat,
                    ) < #[trigger] layout_cost(
                        frame_count as nat,
                        k as nat,
                        frame_width as nat,
                        frame_height as nat,
                    )
            },
    {
        if frame_count == 0 {
            return None;
        }
        let strip: Option<usize> = frame_width.checked_mul(frame_count);
        let tower: Option<usize> = frame_height.checked_mul(frame_count);
        let fits: bool = match (strip, tower) {
            (Some(strip), Some(tower)) => strip as u64 <= SEARCH_LIMIT && tower as u64
                <= SEARCH_LIMIT,
            _ => false,
        };
        if !fits {
            return None;
        }
        let mut best: usize = 1;
        let mut best_cost: u64 = Self::cost_at(frame_count, 1, frame_width, frame_height);
        let mut k: usize = 1;
        while k < frame_count
            invariant
                1 <= best <= k <= frame_count,
                frame_width * frame_count <= SEARCH_LIMIT,
                frame_height * frame_count <= SEARCH_LIMIT,
                best_cost == layout_cost(
                    frame_count as nat,
                    best as nat,
                    frame_width as nat,
                    frame_height as nat,
                ),
                forall|j: int|
                    1 <= j <= k ==> best_cost <= #[trigger] layout_cost(
                        frame_count as nat,
                        j as nat,
                        frame_width as nat,
                        frame_height as nat,
                    ),
                forall|j: int|
                    1 <= j < best ==> best_cost < #[trigger] layout_cost(
                        frame_count as nat,
                        j as nat,
                        frame_width as nat,
                        frame_height as nat,
                    ),
            decreases frame_count - k,
        {
            k += 1;
            let cost: u64 = Self::cost_at(frame_count, k, frame_width, frame_height);
            if cost < best_cost {
                best = k;
                best_cost = cost;
            }
        }
        Some(SpritesheetGenerationParams { frames_per_row: best })
    }

    /// Computes what the layout at `frames_per_row` a row costs.
    fn cost_at(frame_count: usize, frames_per_row: usize, frame_width: usize, frame_height: usize) -> (r:
        u64)
        requires
            1 <= frames_per_row <= frame_count,
            frame_width * frame_count <= SEARCH_LIMIT,
            frame_height * frame_count <= SEARCH_LIMIT,
        ensures
            r == layout_cost(
                frame_count as nat,
                frames_per_row as nat,
                frame_width as nat,
                frame_height as nat,
            ),
    {
        proof {
            lemma_rows_for(frame_count as nat, frames_per_row as nat);
            let rows = rows_for(frame_count as nat, frames_per_row as nat);
            assert(frame_width * frames_per_row <= frame_width * frame_count) by (nonlinear_arith)
                requires
                    frames_per_row <= frame_count,
                    frame_width >= 0,
            ;
            assert(frame_height * rows <= frame_height * frame_count) by (nonlinear_arith)
                requires
                    rows <= frame_count,
                    frame_height >= 0,
            ;
        }
        let params = SpritesheetGenerationParams { frames_per_row };
        match Self::get_spritesheet_size(&params, frame_count, frame_width, frame_height) {
            Some((width, height)) => cost_of(width as u64, height as u64),
            None => 0,
        }
    }

    /// Packs the frames into one sheet, row by row from the top left, at most
    /// `frames_per_row` in a row. Cells of the last row that no frame fills
    /// stay transparent. There is no sheet unless the frames share one size,
    /// the layout has a size, and that size fits a frame.
    pub fn generate_spritesheet(
        frames: &Frames,
        spritesheet_params: &SpritesheetGenerationParams,
    ) -> (r: Option<Frame>)
        ensures
            r is Some ==> uniform(views(frames@)) && frames@.len() > 0
                && spritesheet_params.frames_per_row > 0,
            r is Some <==> Self::sheet_fits(views(frames@), spritesheet_params.frames_per_row as nat),
            r matches Some(packed) ==> packed@ == sheet(
                views(frames@),
                spritesheet_params.frames_per_row as nat,
            ),
    {
        let size = match Self::get_frame_size(frames) {
            Some(size) => size,
            None => {
                proof {
                    if frames@.len() > 0 {
                        let i = choose|i: int|
                            0 <= i < frames@.len() && !((#[trigger] frames@[i])@.width
                                == frames@[0]@.width && frames@[i]@.height == frames@[0]@.height);
                        assert(views(frames@)[i] == frames@[i]@);
                    }
                }
                return None;
            },
        };
        let (frame_width, frame_height) = size;
        let count: usize = frames.len();
        let sheet_dims = match Self::get_spritesheet_size(
            spritesheet_params,
            count,
            frame_width,
            frame_height,
        ) {
            Some(dims) => dims,
            None => {
                return None;
            },
        };
        let (width, height) = sheet_dims;
        if width > u32::MAX as usize || height > u32::MAX as usize {
            return None;
        }
        let area: usize = match width.checked_mul(height) {
            Some(area) => area,
            None => {
                return None;
            },
        };
        let columns: usize = if spritesheet_params.frames_per_row < count {
            spritesheet_params.frames_per_row
        } else {
            count
        };
        let ghost all = views(frames@);
        let mut pixels: Vec<Rgba> = Vec::new();
        let mut y: usize = 0;
        while y < height
            invariant
                y <= height,
                width * height == area,
                pixels@.len() == y * width,
                all == views(frames@),
                uniform(all),
                count == frames@.len(),
                count > 0,
                columns == columns_for(count as nat, spritesheet_params.frames_per_row as nat),
                columns > 0,
                frame_width == all[0].width,
                frame_height == all[0].height,
                width == frame_width * columns,
                height == frame_height * rows_for(count as nat, columns as nat),
                forall|k: int|
                    0 <= k < pixels@.len() ==> pixels@[k] == sheet_pixel(
                        all,
                        columns as nat,
                        k % width as int,
                        k / width as int,
                    ),
            decreases height - y,
        {
            let mut x: usize = 0;
            proof {
                assert(y * width + width == (y + 1) * width) by (nonlinear_arith);
                assert((y + 1) * width <= height * width) by (nonlinear_arith)
                    requires
                        y + 1 <= height,
                        width >= 0,
                ;
            }
            while x < width
                invariant
                    x <= width,
                    y < height,
                    width * height == area,
                    (y + 1) * width <= height * width,
                    pixels@.len() == y * width + x,
                    all == views(frames@),
                    uniform(all),
                    count == frames@.len(),
                    count > 0,
                    columns == columns_for(count as nat, spritesheet_params.frames_per_row as nat),
                    columns > 0,
                    frame_width == all[0].width,
                    frame_height == all[0].height,
                    width == frame_width * columns,
                    height == frame_height * rows_for(count as nat, columns as nat),
                    forall|k: int|
                        0 <= k < pixels@.len() ==> pixels@[k] == sheet_pixel(
                            all,
                            columns as nat,
                            k % width as int,
                            k / width as int,
                        ),
                decreases width - x,
            {
                proof {
                    lemma_fundamental_div_mod_converse(
                        y * width + x,
                        width as int,
                        y as int,
                        x as int,
                    );
                    assert(frame_width > 0) by (nonlinear_arith)
                        requires
                            width == frame_width * columns,
                            width > 0,
                    ;
                    assert(frame_height > 0) by (nonlinear_arith)
                        requires
                            height > 0,
                            height == frame_height * rows_for(count as nat, columns as nat),
                    ;
                }
                let column: usize = x / frame_width;
                let row: usize = y / frame_height;
                proof {
                    vstd::arithmetic::div_mod::lemma_fundamental_div_mod(
                        x as int,
                        frame_width as int,
                    );
                    vstd::arithmetic::div_mod::lemma_mod_pos_bound(x as int, frame_width as int);
                    vstd::arithmetic::div_mod::lemma_mod_pos_bound(y as int, frame_height as int);
                    assert(column < columns) by (nonlinear_arith)
                        requires
                            x == frame_width * column + (x % frame_width),
                            0 <= x % frame_width,
                            x < frame_width * columns,
                            frame_width > 0,
                    ;
                    assert(row * columns + column < (row + 1) * columns) by (nonlinear_arith)
                        requires
                            column < columns,
                    ;
                }
                let pixel: Rgba = match row.checked_mul(columns) {
                    None => Rgba { r: 0, g: 0, b: 0, a: 0 },
                    Some(before) => match before.checked_add(column) {
                        None => Rgba { r: 0, g: 0, b: 0, a: 0 },
                        Some(i) => if i < count {
                            let frame = &frames[i];
                            let source = frame.pixels();
                            let available: usize = source.len();
                            let inner_x: usize = x % frame_width;
                            let inner_y: usize = y % frame_height;
                            proof {
                                assert(all[i as int].wf());
                                lemma_index_in_bounds(
                                    frame_width as nat,
                                    frame_height as nat,
                                    inner_x as int,
                                    inner_y as int,
                                );
                                assert(inner_y * frame_width + inner_x < available);
                            }
                            source[inner_y * frame_width + inner_x]
                        } else {
                            Rgba { r: 0, g: 0, b: 0, a: 0 }
                        },
                    },
                };
                pixels.push(pixel);
                x += 1;
            }
            y += 1;
        }
        assert(pixels@.len() == width * height) by (nonlinear_arith)
            requires
                pixels@.len() == y * width,
                y == height,
        ;
        assert(pixels@ =~= sheet(all, spritesheet_params.frames_per_row as nat).pixels);
        Frame::new(width as u32, height as u32, pixels)
    }

    /// Whether the frames can be packed: they share one size, the layout has
    /// a size, each side of it fits 32 bits and its area the machine's word.
    pub open spec fn sheet_fits(frames: Seq<FrameView>, frames_per_row: nat) -> bool {
        let size = sheet_size(frames.len(), frames_per_row, frames[0].width, frames[0].height);
        &&& frames.len() > 0
        &&& frames_per_row > 0
        &&& forall|i: int|
            0 <= i < frames.len() ==> (#[trigger] frames[i]).width == frames[0].width
                && frames[i].height == frames[0].height
        &&& size.0 <= u32::MAX
        &&& size.1 <= u32::MAX
        &&& size.0 * size.1 <= usize::MAX
    }
}

} // verus!
