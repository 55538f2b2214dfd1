//! The tile grid: which tiles make up an image, where each is fetched from,
//! and how large the composed canvas is.
use vstd::prelude::*;
use crate::margins::Margins;
use crate::output_level::{OutputLevel, is_level};
use crate::text::{decimal, push_decimal, push_zero_padded};
use crate::timestamp::{ImageTimestamp, push_time, push_year, time_text, two_digits, year_text};

verus! {

/// Width and height of one tile, in pixels.
pub const TILE_WIDTH: u32 = 550;

/// Where the tiles and the metadata are served.
pub const BASE_URL: &'static str = "https://himawari8-dl.nict.go.jp/himawari8/img/D531106";

/// The path of the metadata document, up to its cache-busting value.
pub const LATEST_PATH: &'static str = "/latest.json?_=";

/// The URL of the metadata document; `cache_buster` (the current unix time)
/// keeps caches from answering with a stale copy.
pub open spec fn metadata_url_text(cache_buster: nat) -> Seq<char> {
    BASE_URL@ + LATEST_PATH@ + decimal(cache_buster)
}

/// `{base}/{level}d/{width}/{year}/{month}/{day}/{HHMMSS}_{x}_{y}.png`
pub open spec fn tile_url_text(level: nat, t: ImageTimestamp, x: nat, y: nat) -> Seq<char> {
    BASE_URL@ + seq!['/'] + decimal(level) + seq!['d', '/'] + decimal(TILE_WIDTH as nat) + seq!['/']
        + year_text(t.year as int) + seq!['/'] + two_digits(t.month) + seq!['/'] + two_digits(
        t.day,
    ) + seq!['/'] + time_text(t) + seq!['_'] + decimal(x) + seq!['_'] + decimal(y) + seq![
        '.',
        'p',
        'n',
        'g',
    ]
}

/// The canvas width and height for a level and margins, in pixels.
pub open spec fn canvas_dims(level: int, m: Margins) -> (int, int) {
    (
        m.left + m.right + level * TILE_WIDTH,
        m.top + m.bottom + level * TILE_WIDTH,
    )
}

/// Whether a canvas of these dimensions can be made: each side fits in a
/// `u32` and its four bytes per pixel fit in memory's address range.
pub open spec fn canvas_fits(dims: (int, int)) -> bool {
    &&& dims.0 <= u32::MAX
    &&& dims.1 <= u32::MAX
    &&& dims.0 * dims.1 * 4 <= usize::MAX
}

/// The URL of the metadata document.
pub fn metadata_url(cache_buster: u64) -> (r: String)
    ensures
        r@ == metadata_url_text(cache_buster as nat),
{
    let mut s = String::from_str(BASE_URL);
    s.append(LATEST_PATH);
    push_decimal(&mut s, cache_buster);
    assert(s@ =~= metadata_url_text(cache_buster as nat));
    s
}

/// The URL of the tile at column `x` and row `y`.
pub fn tile_url(level: u32, t: &ImageTimestamp, x: u32, y: u32) -> (r: String)
    ensures
        r@ == tile_url_text(level as nat, *t, x as nat, y as nat),
{
    proof {
        reveal_strlit("/");
        reveal_strlit("d/");
        reveal_strlit("_");
        reveal_strlit(".png");
    }
    let mut s = String::from_str(BASE_URL);
    s.append("/");
    push_decimal(&mut s, level as u64);
    s.append("d/");
    push_decimal(&mut s, TILE_WIDTH as u64);
    s.append("/");
    push_year(&mut s, t.year);
    s.append("/");
    push_zero_padded(&mut s, t.month as u64, 2);
    s.append("/");
    push_zero_padded(&mut s, t.day as u64, 2);
    s.append("/");
    push_time(&mut s, t);
    s.append("_");
    push_decimal(&mut s, x as u64);
    s.append("_");
    push_decimal(&mut s, y as u64);
    s.append(".png");
    assert(s@ =~= tile_url_text(level as nat, *t, x as nat, y as nat));
    s
}

/// The canvas dimensions for a level and margins, where a canvas that large
/// can be made.
pub fn canvas_size(level: &OutputLevel, margins: &Margins) -> (r: Option<(u32, u32)>)
    ensures
        canvas_fits(canvas_dims(level@ as int, *margins)) ==> r == Some(
            (
                canvas_dims(level@ as int, *margins).0 as u32,
                canvas_dims(level@ as int, *margins).1 as u32,
            ),
        ),
        !canvas_fits(canvas_dims(level@ as int, *margins)) ==> r is None,
{
    let n = level.to_level() as u64;
    assert(n <= 20);
    let w: u64 = margins.left as u64 + margins.right as u64 + n * TILE_WIDTH as u64;
    let h: u64 = margins.top as u64 + margins.bottom as u64 + n * TILE_WIDTH as u64;
    if w > u32::MAX as u64 || h > u32::MAX as u64 {
        return None;
    }
    assert((w as u128) * (h as u128) * 4 <= 4 * 0xffff_ffffu128 * 0xffff_ffffu128) by (nonlinear_arith)
        requires w <= 0xffff_ffffu64, h <= 0xffff_ffffu64;
    let bytes: u128 = (w as u128) * (h as u128) * 4;
    if bytes > usize::MAX as u128 {
        return None;
    }
    Some((w as u32, h as u32))
}

/// The tile coordinates of a level's grid, row by row: column `x` and row
/// `y` of every tile, each once.
pub fn plan(level: &OutputLevel) -> (r: Vec<(u32, u32)>)
    ensures
        r.len() == level@ * level@,
        forall|i: int| 0 <= i < r.len() ==> r@[i].0 < level@ && r@[i].1 < level@,
        forall|i: int, j: int| 0 <= i < j < r.len() ==> r@[i] != r@[j],
        forall|x: u32, y: u32| x < level@ && y < level@ ==> r@.contains((x, y)),
{
    let n = level.to_level();
    let mut r: Vec<(u32, u32)> = Vec::new();
    let mut y: u32 = 0;
    while y < n
        invariant
            is_level(n),
            y <= n,
            r.len() == y * n,
            forall|i: int| 0 <= i < r.len() ==> #[trigger] r@[i].0 < n && r@[i].1 < n && r@[i].1 * n + r@[i].0 == i,
        decreases n - y,
    {
        let mut x: u32 = 0;
        while x < n
            invariant
                is_level(n),
                y < n,
                x <= n,
                r.len() == y * n + x,
                forall|i: int| 0 <= i < r.len() ==> #[trigger] r@[i].0 < n && r@[i].1 < n && r@[i].1 * n + r@[i].0 == i,
            decreases n - x,
        {
            r.push((x, y));
            x = x + 1;
        }
        y = y + 1;
        assert(r.len() == y * n) by (nonlinear_arith)
            requires r.len() == (y - 1) * n + n;
    }
    proof {
        assert forall|i: int, j: int| 0 <= i < j < r.len() implies r@[i] != r@[j] by {
            assert(r@[i].0 < n && r@[i].1 < n && r@[i].1 * n + r@[i].0 == i);
            assert(r@[j].0 < n && r@[j].1 < n && r@[j].1 * n + r@[j].0 == j);
        }
        assert forall|x: u32, y: u32| x < n && y < n implies r@.contains((x, y)) by {
            let i = y * n + x;
            assert(i < n * n) by (nonlinear_arith)
                requires x < n, y < n, i == y * n + x;
            let p = r@[i];
            assert(p.1 * n + p.0 == i);
            lemma_cell_index_unique(n as int, x as int, y as int, p.0 as int, p.1 as int);
            assert(r@[i] == (x, y));
        }
    }
    r
}

/// A tile to fetch: its grid coordinate and its URL.
pub struct TileRequest {
    pub x: u32,
    pub y: u32,
    pub url: String,
}

/// The requests of a level's grid: one per tile of the grid, each with the
/// URL of that tile at time `t`.
pub open spec fn is_fetch_plan(level: int, t: ImageTimestamp, reqs: Seq<TileRequest>) -> bool {
    &&& reqs.len() == level * level
    &&& forall|i: int|
        0 <= i < reqs.len() ==> {
            &&& (#[trigger] reqs[i]).x < level
            &&& reqs[i].y < level
            &&& reqs[i].url@ == tile_url_text(level as nat, t, reqs[i].x as nat, reqs[i].y as nat)
        }
    &&& forall|i: int, j: int|
        0 <= i < j < reqs.len() ==> (reqs[i].x, reqs[i].y) != (reqs[j].x, reqs[j].y)
    &&& forall|x: u32, y: u32| x < level && y < level ==> #[trigger] requests_cell(reqs, x, y)
}

/// Whether some request is for the tile at column `x` and row `y`.
pub open spec fn requests_cell(reqs: Seq<TileRequest>, x: u32, y: u32) -> bool {
    exists|i: int| 0 <= i < reqs.len() && (#[trigger] reqs[i]).x == x && reqs[i].y == y
}

/// The tiles to fetch for a level's grid at time `t`.
pub fn tile_requests(level: &OutputLevel, t: &ImageTimestamp) -> (r: Vec<TileRequest>)
    ensures
        is_fetch_plan(level@ as int, *t, r@),
{
    let n = level.to_level();
    let cells = plan(level);
    let mut r: Vec<TileRequest> = Vec::new();
    let mut i: usize = 0;
    while i < cells.len()
        invariant
            n == level@,
            i <= cells.len(),
            cells.len() == n * n,
            forall|k: int| 0 <= k < cells.len() ==> cells@[k].0 < n && cells@[k].1 < n,
            r.len() == i,
            forall|k: int|
                0 <= k < i ==> (#[trigger] r@[k]).x == cells@[k].0 && r@[k].y == cells@[k].1
                    && r@[k].url@ == tile_url_text(n as nat, *t, r@[k].x as nat, r@[k].y as nat),
        decreases cells.len() - i,
    {
        let (x, y) = cells[i];
        r.push(TileRequest { x, y, url: tile_url(n, t, x, y) });
        i = i + 1;
    }
    proof {
        assert forall|i: int, j: int| 0 <= i < j < r.len() implies (r@[i].x, r@[i].y) != (
        r@[j].x, r@[j].y) by {
            assert(cells@[i] != cells@[j]);
        }
        assert forall|x: u32, y: u32| x < n && y < n implies #[trigger] requests_cell(r@, x, y) by {
            assert(cells@.contains((x, y)));
            let k = choose|k: int| 0 <= k < cells.len() && cells@[k] == (x, y);
            assert(r@[k].x == x && r@[k].y == y);
        }
    }
    r
}

/// A row and a column below `n` are told apart by `row * n + column`.
proof fn lemma_cell_index_unique(n: int, x: int, y: int, x2: int, y2: int)
    requires
        0 <= x < n,
        0 <= y,
        0 <= x2 < n,
        0 <= y2,
        y * n + x == y2 * n + x2,
    ensures
        x == x2,
        y == y2,
{
    if y < y2 {
        assert(y * n + x < y2 * n + x2) by (nonlinear_arith)
            requires y < y2, 0 <= x < n, 0 <= x2;
    } else if y2 < y {
        assert(y2 * n + x2 < y * n + x) by (nonlinear_arith)
            requires y2 < y, 0 <= x2 < n, 0 <= x;
    }
}

} // verus!
