use vstd::prelude::*;
use crate::color::{filter_pixel, neighbor, recon_pixel, wrap_add, wrap_sub, zeros, Color};
use crate::err::PngError;
use crate::pngfile::{raster_view, raster_wf, PngInfo};

verus! {

/// The first `x` pixels of row `enc` reconstructed under filter type `t`,
/// left to right, `prev` being the reconstructed row above (empty for the
/// top row).
pub open spec fn recon_row(t: u8, enc: Seq<Seq<u8>>, prev: Seq<Seq<u8>>, x: nat) -> Seq<Seq<u8>>
    decreases x,
{
    if x == 0 {
        seq![]
    } else {
        let done = recon_row(t, enc, prev, (x - 1) as nat);
        let i = x - 1;
        let n = enc[i].len();
        let left = if i > 0 { done[i - 1] } else { zeros(n) };
        let up = if i < prev.len() { prev[i] } else { zeros(n) };
        let left_up = if i > 0 && i - 1 < prev.len() { prev[i - 1] } else { zeros(n) };
        done.push(recon_pixel(t, enc[i], left, up, left_up))
    }
}

/// The first `y` rows of raster `enc` reconstructed, top to bottom, row `i`
/// under filter type `types[i]`.
pub open spec fn recon_rows(enc: Seq<Seq<Seq<u8>>>, types: Seq<u8>, y: nat) -> Seq<Seq<Seq<u8>>>
    decreases y,
{
    if y == 0 {
        seq![]
    } else {
        let done = recon_rows(enc, types, (y - 1) as nat);
        let prev = if y >= 2 { done[y - 2] } else { seq![] };
        done.push(recon_row(types[y - 1], enc[y - 1], prev, enc[y - 1].len()))
    }
}

/// The row above row `y`, or none for the top row.
pub open spec fn row_above(r: Seq<Seq<Seq<u8>>>, y: int) -> Seq<Seq<u8>> {
    if y > 0 { r[y - 1] } else { seq![] }
}

pub proof fn lemma_recon_row_len(t: u8, enc: Seq<Seq<u8>>, prev: Seq<Seq<u8>>, x: nat)
    requires
        x <= enc.len(),
    ensures
        recon_row(t, enc, prev, x).len() == x,
        forall|i: int| 0 <= i < x ==> #[trigger] recon_row(t, enc, prev, x)[i].len() == enc[i].len(),
    decreases x,
{
    if x > 0 {
        lemma_recon_row_len(t, enc, prev, (x - 1) as nat);
    }
}

pub proof fn lemma_recon_rows_len(enc: Seq<Seq<Seq<u8>>>, types: Seq<u8>, y: nat)
    requires
        y <= enc.len(),
    ensures
        recon_rows(enc, types, y).len() == y,
        forall|i: int| 0 <= i < y ==> #[trigger] recon_rows(enc, types, y)[i].len() == enc[i].len(),
        forall|i: int, j: int| 0 <= i < y && 0 <= j < enc[i].len()
            ==> #[trigger] recon_rows(enc, types, y)[i][j].len() == enc[i][j].len(),
    decreases y,
{
    if y > 0 {
        lemma_recon_rows_len(enc, types, (y - 1) as nat);
        let prev = if y >= 2 { recon_rows(enc, types, (y - 1) as nat)[y - 2] } else { seq![] };
        lemma_recon_row_len(types[y - 1], enc[y - 1], prev, enc[y - 1].len());
    }
}

/// Under filter type 0 a row is its own reconstruction.
pub proof fn lemma_recon_row_none(enc: Seq<Seq<u8>>, prev: Seq<Seq<u8>>, x: nat)
    requires
        x <= enc.len(),
    ensures
        recon_row(0, enc, prev, x) == enc.take(x as int),
    decreases x,
{
    if x > 0 {
        lemma_recon_row_none(enc, prev, (x - 1) as nat);
        let i = x - 1;
        let n = enc[i].len();
        let done = recon_row(0, enc, prev, (x - 1) as nat);
        let left = if i > 0 { done[i - 1] } else { zeros(n) };
        let up = if i < prev.len() { prev[i] } else { zeros(n) };
        let left_up = if i > 0 && i - 1 < prev.len() { prev[i - 1] } else { zeros(n) };
        assert(recon_pixel(0, enc[i], left, up, left_up) =~= enc[i]);
        assert(recon_row(0, enc, prev, x) =~= enc.take(x as int));
    }
}


pub open spec fn row_view(row: Seq<Color>) -> Seq<Seq<u8>> {
    Seq::new(row.len(), |i: int| row[i]@)
}

/// What row `y` of a well-formed raster becomes under filter type `t`.
pub open spec fn row_step(rv: Seq<Seq<Seq<u8>>>, y: int, t: u8, w: nat) -> Seq<Seq<Seq<u8>>> {
    rv.update(y, recon_row(t, rv[y], row_above(rv, y), w))
}

fn left(row: &Vec<Color>, x: usize) -> (r: Option<&Color>)
    ensures
        x > 0 && x - 1 < row@.len() ==> r == Some(&row@[x - 1]),
        !(x > 0 && x - 1 < row@.len()) ==> r is None,
{
    if x > 0 && x - 1 < row.len() {
        Some(&row[x - 1])
    } else {
        None
    }
}

fn up(idat: &Vec<Vec<Color>>, y: usize, x: usize) -> (r: Option<&Color>)
    ensures
        y > 0 && y - 1 < idat@.len() && x < idat@[y - 1]@.len() ==> r == Some(&idat@[y - 1]@[x as int]),
        !(y > 0 && y - 1 < idat@.len() && x < idat@[y - 1]@.len()) ==> r is None,
{
    if y > 0 {
        data_get(idat, y - 1, x)
    } else {
        None
    }
}

fn left_up(idat: &Vec<Vec<Color>>, y: usize, x: usize) -> (r: Option<&Color>)
    ensures
        y > 0 && x > 0 && y - 1 < idat@.len() && x - 1 < idat@[y - 1]@.len()
            ==> r == Some(&idat@[y - 1]@[x - 1]),
        !(y > 0 && x > 0 && y - 1 < idat@.len() && x - 1 < idat@[y - 1]@.len()) ==> r is None,
{
    if y > 0 && x > 0 {
        data_get(idat, y - 1, x - 1)
    } else {
        None
    }
}

fn data_get(idat: &Vec<Vec<Color>>, y: usize, x: usize) -> (r: Option<&Color>)
    ensures
        y < idat@.len() && x < idat@[y as int]@.len() ==> r == Some(&idat@[y as int]@[x as int]),
        !(y < idat@.len() && x < idat@[y as int]@.len()) ==> r is None,
{
    if y < idat.len() && x < idat[y].len() {
        Some(&idat[y][x])
    } else {
        None
    }
}

/// The pixel that a row helper reads and the neighbours it hands on, as
/// views of the raster and of the row built so far.
proof fn lemma_row_facts(idat: Seq<Vec<Color>>, row: Seq<Color>, y: int, x: int, h: nat, w: nat, n: nat, t: u8)
    requires
        raster_wf(raster_view(idat), h, w, n),
        0 <= y < h,
        0 <= x < w,
        row_view(row) == recon_row(t, raster_view(idat)[y], row_above(raster_view(idat), y), x as nat),
    ensures
        raster_view(idat)[y][x] == idat[y]@[x]@,
        idat[y]@.len() == w,
        idat[y]@[x]@.len() == n,
        row.len() == x,
        x > 0 ==> row_view(row)[x - 1] == row[x - 1]@ && row[x - 1]@.len() == n,
        y > 0 ==> idat[y - 1]@.len() == w && raster_view(idat)[y - 1][x] == idat[y - 1]@[x]@
            && idat[y - 1]@[x]@.len() == n,
        y > 0 && x > 0 ==> raster_view(idat)[y - 1][x - 1] == idat[y - 1]@[x - 1]@
            && idat[y - 1]@[x - 1]@.len() == n,
{
    let rv = raster_view(idat);
    lemma_recon_row_len(t, rv[y], row_above(rv, y), x as nat);
    assert(rv[y].len() == w);
    assert(rv[y][x].len() == n);
    if x > 0 {
        assert(row_view(row)[x - 1] == row[x - 1]@);
        assert(rv[y][x - 1].len() == n);
    }
    if y > 0 {
        assert(rv[y - 1].len() == w);
        assert(rv[y - 1][x].len() == n);
        if x > 0 {
            assert(rv[y - 1][x - 1].len() == n);
        }
    }
}

/// One step of a row's reconstruction under filter type `t`: pixel `x`,
/// computed from whichever neighbours `t` reads, extends the row built so
/// far.
proof fn lemma_row_step(
    t: u8,
    enc: Seq<Seq<u8>>,
    prev: Seq<Seq<u8>>,
    x: nat,
    built: Seq<Seq<u8>>,
    px: Seq<u8>,
    a: Seq<u8>,
    b: Seq<u8>,
    c: Seq<u8>,
)
    requires
        1 <= t <= 4,
        x < enc.len(),
        built == recon_row(t, enc, prev, x),
        px == recon_pixel(t, enc[x as int], a, b, c),
        t != 2 ==> a == if x > 0 { built[x - 1] } else { zeros(enc[x as int].len()) },
        t >= 2 ==> b == if x < prev.len() { prev[x as int] } else { zeros(enc[x as int].len()) },
        t == 4 ==> c == if x > 0 && x - 1 < prev.len() { prev[x - 1] } else { zeros(enc[x as int].len()) },
    ensures
        built.push(px) == recon_row(t, enc, prev, x + 1),
{
    let n = enc[x as int].len();
    assert(px =~= recon_pixel(
        t,
        enc[x as int],
        if x > 0 { built[x - 1] } else { zeros(n) },
        if x < prev.len() { prev[x as int] } else { zeros(n) },
        if x > 0 && x - 1 < prev.len() { prev[x - 1] } else { zeros(n) },
    ));
}

/// Reconstructs row `y` under the Sub filter, left to right.
fn apply_sub(idat: &mut Vec<Vec<Color>>, y: usize, png_info: &PngInfo)
    requires
        y < png_info.height,
        raster_wf(raster_view(old(idat)@), png_info.height as nat, png_info.width as nat, png_info.px_bytes()),
    ensures
        raster_view(final(idat)@) == row_step(raster_view(old(idat)@), y as int, 1, png_info.width as nat),
{
    let ghost rv = raster_view(idat@);
    let ghost enc = rv[y as int];
    let ghost prev = row_above(rv, y as int);
    let ghost n = png_info.px_bytes();
    let w = png_info.width as usize;
    let mut row: Vec<Color> = Vec::with_capacity(w);
    for x in 0..w
        invariant
            rv == raster_view(idat@),
            enc == rv[y as int],
            prev == row_above(rv, y as int),
            n == png_info.px_bytes(),
            y < png_info.height,
            w == png_info.width,
            raster_wf(rv, png_info.height as nat, png_info.width as nat, n),
            row_view(row@) == recon_row(1, enc, prev, x as nat),
    {
        proof {
            lemma_row_facts(idat@, row@, y as int, x as int, png_info.height as nat, w as nat, n, 1);
        }
        let target = data_get(idat, y, x).unwrap();
        let l = left(&row, x);
        let c = target.apply_sub(l);
        proof {
            lemma_row_step(1, enc, prev, x as nat, row_view(row@), c@, neighbor(l, n), zeros(n), zeros(n));
        }
        row.push(c);
        assert(row_view(row@) =~= recon_row(1, enc, prev, (x + 1) as nat));
    }
    proof {
        lemma_recon_row_len(1, enc, prev, w as nat);
    }
    idat[y] = row;
    assert(raster_view(idat@) =~= row_step(rv, y as int, 1, w as nat));
}

/// Reconstructs row `y` under the Up filter, left to right.
fn apply_up(idat: &mut Vec<Vec<Color>>, y: usize, png_info: &PngInfo)
    requires
        y < png_info.height,
        raster_wf(raster_view(old(idat)@), png_info.height as nat, png_info.width as nat, png_info.px_bytes()),
    ensures
        raster_view(final(idat)@) == row_step(raster_view(old(idat)@), y as int, 2, png_info.width as nat),
{
    let ghost rv = raster_view(idat@);
    let ghost enc = rv[y as int];
    let ghost prev = row_above(rv, y as int);
    let ghost n = png_info.px_bytes();
    let w = png_info.width as usize;
    let mut row: Vec<Color> = Vec::with_capacity(w);
    for x in 0..w
        invariant
            rv == raster_view(idat@),
            enc == rv[y as int],
            prev == row_above(rv, y as int),
            n == png_info.px_bytes(),
            y < png_info.height,
            w == png_info.width,
            raster_wf(rv, png_info.height as nat, png_info.width as nat, n),
            row_view(row@) == recon_row(2, enc, prev, x as nat),
    {
        proof {
            lemma_row_facts(idat@, row@, y as int, x as int, png_info.height as nat, w as nat, n, 2);
        }
        let target = data_get(idat, y, x).unwrap();
        let u = up(idat, y, x);
        let c = target.apply_up(u);
        proof {
            lemma_row_step(2, enc, prev, x as nat, row_view(row@), c@, zeros(n), neighbor(u, n), zeros(n));
        }
        row.push(c);
        assert(row_view(row@) =~= recon_row(2, enc, prev, (x + 1) as nat));
    }
    proof {
        lemma_recon_row_len(2, enc, prev, w as nat);
    }
    idat[y] = row;
    assert(raster_view(idat@) =~= row_step(rv, y as int, 2, w as nat));
}

/// Reconstructs row `y` under the Average filter, left to right.
fn apply_avg(idat: &mut Vec<Vec<Color>>, y: usize, png_info: &PngInfo)
    requires
        y < png_info.height,
        raster_wf(raster_view(old(idat)@), png_info.height as nat, png_info.width as nat, png_info.px_bytes()),
    ensures
        raster_view(final(idat)@) == row_step(raster_view(old(idat)@), y as int, 3, png_info.width as nat),
{
    let ghost rv = raster_view(idat@);
    let ghost enc = rv[y as int];
    let ghost prev = row_above(rv, y as int);
    let ghost n = png_info.px_bytes();
    let w = png_info.width as usize;
    let mut row: Vec<Color> = Vec::with_capacity(w);
    for x in 0..w
        invariant
            rv == raster_view(idat@),
            enc == rv[y as int],
            prev == row_above(rv, y as int),
            n == png_info.px_bytes(),
            y < png_info.height,
            w == png_info.width,
            raster_wf(rv, png_info.height as nat, png_info.width as nat, n),
            row_view(row@) == recon_row(3, enc, prev, x as nat),
    {
        proof {
            lemma_row_facts(idat@, row@, y as int, x as int, png_info.height as nat, w as nat, n, 3);
        }
        let target = data_get(idat, y, x).unwrap();
        let l = left(&row, x);
        let u = up(idat, y, x);
        let c = target.apply_avg(l, u);
        proof {
            lemma_row_step(3, enc, prev, x as nat, row_view(row@), c@, neighbor(l, n), neighbor(u, n), zeros(n));
        }
        row.push(c);
        assert(row_view(row@) =~= recon_row(3, enc, prev, (x + 1) as nat));
    }
    proof {
        lemma_recon_row_len(3, enc, prev, w as nat);
    }
    idat[y] = row;
    assert(raster_view(idat@) =~= row_step(rv, y as int, 3, w as nat));
}

/// Reconstructs row `y` under the Paeth filter, left to right.
fn apply_paeth(idat: &mut Vec<Vec<Color>>, y: usize, png_info: &PngInfo)
    requires
        y < png_info.height,
        raster_wf(raster_view(old(idat)@), png_info.height as nat, png_info.width as nat, png_info.px_bytes()),
    ensures
        raster_view(final(idat)@) == row_step(raster_view(old(idat)@), y as int, 4, png_info.width as nat),
{
    let ghost rv = raster_view(idat@);
    let ghost enc = rv[y as int];
    let ghost prev = row_above(rv, y as int);
    let ghost n = png_info.px_bytes();
    let w = png_info.width as usize;
    let mut row: Vec<Color> = Vec::with_capacity(w);
    for x in 0..w
        invariant
            rv == raster_view(idat@),
            enc == rv[y as int],
            prev == row_above(rv, y as int),
            n == png_info.px_bytes(),
            y < png_info.height,
            w == png_info.width,
            raster_wf(rv, png_info.height as nat, png_info.width as nat, n),
            row_view(row@) == recon_row(4, enc, prev, x as nat),
    {
        proof {
            lemma_row_facts(idat@, row@, y as int, x as int, png_info.height as nat, w as nat, n, 4);
        }
        let target = data_get(idat, y, x).unwrap();
        let l = left(&row, x);
        let u = up(idat, y, x);
        let lu = left_up(idat, y, x);
        let c = target.apply_paeth(l, u, lu);
        proof {
            lemma_row_step(4, enc, prev, x as nat, row_view(row@), c@, neighbor(l, n), neighbor(u, n), neighbor(lu, n));
        }
        row.push(c);
        assert(row_view(row@) =~= recon_row(4, enc, prev, (x + 1) as nat));
    }
    proof {
        lemma_recon_row_len(4, enc, prev, w as nat);
    }
    idat[y] = row;
    assert(raster_view(idat@) =~= row_step(rv, y as int, 4, w as nat));
}

/// Reconstructs every row of the raster in place, top to bottom, row `y`
/// under `filter_types[y]`; stops at the first filter type above 4, leaving
/// the rows above it reconstructed and the rest as they were. Filter types
/// past the last row are not read.
pub fn apply_filter(idat: &mut Vec<Vec<Color>>, filter_types: Vec<u8>, png_info: &PngInfo) -> (r: Result<(), PngError>)
    requires
        filter_types@.len() >= png_info.height,
        raster_wf(raster_view(old(idat)@), png_info.height as nat, png_info.width as nat, png_info.px_bytes()),
    ensures
        raster_wf(raster_view(final(idat)@), png_info.height as nat, png_info.width as nat, png_info.px_bytes()),
        r is Ok <==> forall|i: int| 0 <= i < png_info.height ==> filter_types@[i] <= 4,
        r is Ok ==> raster_view(final(idat)@) == recon_rows(
            raster_view(old(idat)@),
            filter_types@,
            png_info.height as nat,
        ),
        r matches Err(e) ==> exists|k: int|
            0 <= k < png_info.height && filter_types@[k] > 4
                && (forall|j: int| 0 <= j < k ==> filter_types@[j] <= 4)
                && e == PngError::UnsupportedFilterType(filter_types@[k])
                && raster_view(final(idat)@) == recon_rows(raster_view(old(idat)@), filter_types@, k as nat)
                    + raster_view(old(idat)@).skip(k),
{
    let ghost enc = raster_view(idat@);
    let ghost types = filter_types@;
    let h = png_info.height as usize;
    let ghost w = png_info.width as nat;
    let ghost n = png_info.px_bytes();
    for y in 0..h
        invariant
            h == png_info.height,
            w == png_info.width,
            n == png_info.px_bytes(),
            types == filter_types@,
            types.len() >= h,
            enc == raster_view(old(idat)@),
            raster_wf(enc, h as nat, w, n),
            raster_wf(raster_view(idat@), h as nat, w, n),
            raster_view(idat@) == recon_rows(enc, types, y as nat) + enc.skip(y as int),
            forall|j: int| 0 <= j < y ==> types[j] <= 4,
    {
        let filter_type = filter_types[y];
        let ghost cur = raster_view(idat@);
        proof {
            lemma_recon_rows_len(enc, types, y as nat);
            lemma_recon_rows_len(enc, types, (y + 1) as nat);
            assert(cur[y as int] == enc[y as int]);
            if y > 0 {
                assert(row_above(cur, y as int) == recon_rows(enc, types, y as nat)[y - 1]);
            }
        }
        match filter_type {
            0 => {
                proof {
                    lemma_recon_row_none(enc[y as int], row_above(cur, y as int), w);
                    assert(enc[y as int].take(w as int) =~= enc[y as int]);
                }
            },
            1 => apply_sub(idat, y, png_info),
            2 => apply_up(idat, y, png_info),
            3 => apply_avg(idat, y, png_info),
            4 => apply_paeth(idat, y, png_info),
            _ => {
                let ghost k = y as int;
                assert(raster_view(idat@) == recon_rows(enc, types, k as nat) + enc.skip(k));
                assert(0 <= k < h && types[k] > 4 && (forall|j: int| 0 <= j < k ==> types[j] <= 4));
                return Err(PngError::UnsupportedFilterType(filter_type));
            },
        }
        assert(raster_view(idat@) =~= recon_rows(enc, types, (y + 1) as nat) + enc.skip(y + 1));
    }
    proof {
        lemma_recon_rows_len(enc, types, h as nat);
    }
    assert(raster_view(idat@) =~= recon_rows(enc, types, h as nat));
    Ok(())
}

/// Pixel `(y, x)` of a raster, or `n` zeros outside it.
pub open spec fn px_or_zero(r: Seq<Seq<Seq<u8>>>, y: int, x: int, n: nat) -> Seq<u8> {
    if 0 <= y < r.len() && 0 <= x < r[y].len() { r[y][x] } else { zeros(n) }
}

/// The raster that encoding `raw` gives, row `y` under filter type
/// `types[y]`, every predictor taken from the raw neighbours.
pub open spec fn filter_rows(raw: Seq<Seq<Seq<u8>>>, types: Seq<u8>) -> Seq<Seq<Seq<u8>>> {
    Seq::new(raw.len(), |y: int| Seq::new(raw[y].len(), |x: int|
        filter_pixel(
            types[y],
            raw[y][x],
            px_or_zero(raw, y, x - 1, raw[y][x].len()),
            px_or_zero(raw, y - 1, x, raw[y][x].len()),
            px_or_zero(raw, y - 1, x - 1, raw[y][x].len()),
        )))
}

proof fn lemma_byte_round_trip(v: u8, p: u8)
    ensures
        wrap_add(wrap_sub(v, p), p) == v,
{
    if v >= p {
        assert((v as int - p as int) % 256 == v as int - p as int);
    } else {
        assert((v as int - p as int) % 256 == v as int - p as int + 256);
    }
}

proof fn lemma_row_round_trip(raw: Seq<Seq<Seq<u8>>>, types: Seq<u8>, y: int, x: nat, h: nat, w: nat, n: nat)
    requires
        raster_wf(raw, h, w, n),
        types.len() == h,
        0 <= y < h,
        x <= w,
    ensures
        recon_row(types[y], filter_rows(raw, types)[y], row_above(raw, y), x) == raw[y].take(x as int),
    decreases x,
{
    if x > 0 {
        let enc = filter_rows(raw, types);
        let t = types[y];
        let i = x - 1;
        lemma_row_round_trip(raw, types, y, (x - 1) as nat, h, w, n);
        let done = recon_row(t, enc[y], row_above(raw, y), (x - 1) as nat);
        let left = if i > 0 { done[i - 1] } else { zeros(n) };
        let up = if i < row_above(raw, y).len() { row_above(raw, y)[i] } else { zeros(n) };
        let left_up = if i > 0 && i - 1 < row_above(raw, y).len() { row_above(raw, y)[i - 1] } else { zeros(n) };
        assert(enc[y][i].len() == n);
        assert(left == px_or_zero(raw, y, i - 1, n));
        assert(up == px_or_zero(raw, y - 1, i, n));
        assert(left_up == px_or_zero(raw, y - 1, i - 1, n));
        let px = recon_pixel(t, enc[y][i], left, up, left_up);
        assert forall|k: int| 0 <= k < n implies px[k] == raw[y][i][k] by {
            lemma_byte_round_trip(raw[y][i][k], crate::color::predictor(t, left[k], up[k], left_up[k]));
        }
        assert(px =~= raw[y][i]);
        assert(done.push(px) =~= raw[y].take(x as int));
    }
}

/// Encoding a raster with any filter types in range and then reconstructing
/// it gives back the raster byte for byte.
pub proof fn lemma_filter_round_trip(raw: Seq<Seq<Seq<u8>>>, types: Seq<u8>, h: nat, w: nat, n: nat)
    requires
        raster_wf(raw, h, w, n),
        types.len() == h,
        forall|i: int| 0 <= i < h ==> types[i] <= 4,
    ensures
        recon_rows(filter_rows(raw, types), types, h) == raw,
{
    lemma_rows_round_trip(raw, types, h, h, w, n);
    assert(raw.take(h as int) =~= raw);
}

proof fn lemma_rows_round_trip(raw: Seq<Seq<Seq<u8>>>, types: Seq<u8>, y: nat, h: nat, w: nat, n: nat)
    requires
        raster_wf(raw, h, w, n),
        types.len() == h,
        y <= h,
    ensures
        recon_rows(filter_rows(raw, types), types, y) == raw.take(y as int),
    decreases y,
{
    if y > 0 {
        let enc = filter_rows(raw, types);
        lemma_rows_round_trip(raw, types, (y - 1) as nat, h, w, n);
        let done = recon_rows(enc, types, (y - 1) as nat);
        let prev = if y >= 2 { done[y - 2] } else { seq![] };
        assert(prev == row_above(raw, y - 1));
        lemma_row_round_trip(raw, types, y - 1, w, h, w, n);
        assert(enc[y - 1].len() == w);
        assert(raw[y - 1].take(w as int) =~= raw[y - 1]);
        assert(done.push(raw[y - 1]) =~= raw.take(y as int));
    }
}

} // verus!
