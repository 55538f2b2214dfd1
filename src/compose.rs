//! Placing tiles on the canvas. A tile lands in the cell of its grid
//! coordinate; a tile that is missing, or did not decode to the tile size,
//! leaves its cell as the canvas was.
use vstd::prelude::*;
use crate::canvas::{
    Canvas, IMAGE_ERROR_KIND, Rgba8, blank, block_dimensions, block_extent, block_pixels, canvas_extent,
    canvas_pixels, decode_png, new_canvas, paste, png_decoded,
};
use crate::error::AppErr;
use crate::grid::{TILE_WIDTH, canvas_dims, canvas_fits, canvas_size};
use crate::margins::Margins;
use crate::output_level::OutputLevel;

verus! {

/// A decoded tile and its grid coordinate.
pub struct Tile {
    pub x: u32,
    pub y: u32,
    pub image: image::DynamicImage,
}

/// The outcome of fetching one tile: its bytes, or why there are none.
pub struct FetchedTile {
    pub x: u32,
    pub y: u32,
    pub data: Result<Vec<u8>, AppErr>,
}

/// A tile whose bytes arrived but were not placed: they did not decode, or
/// the image does not fit its cell.
pub struct TileError {
    pub x: u32,
    pub y: u32,
    pub error: AppErr,
}

/// A tile as placement sees it: its grid coordinate, its pixels by column
/// and row, and its width and height.
pub struct TileView {
    pub x: u32,
    pub y: u32,
    pub pixels: Map<(int, int), Rgba8>,
    pub extent: (u32, u32),
}

/// What placement sees of a decoded tile.
pub open spec fn view_of(t: Tile) -> TileView {
    TileView { x: t.x, y: t.y, pixels: block_pixels(t.image), extent: block_extent(t.image) }
}

/// The top left pixel of the cell at column `x` and row `y`.
pub open spec fn cell_origin(m: Margins, x: int, y: int) -> (int, int) {
    (m.left + x * TILE_WIDTH, m.top + y * TILE_WIDTH)
}

/// Whether pixel `p` lies in the cell at column `x` and row `y`.
pub open spec fn in_cell(m: Margins, x: int, y: int, p: (int, int)) -> bool {
    let o = cell_origin(m, x, y);
    o.0 <= p.0 < o.0 + TILE_WIDTH && o.1 <= p.1 < o.1 + TILE_WIDTH
}

/// Whether a tile is placed: its coordinate lies in the grid and it has the
/// tile size.
pub open spec fn placeable(level: int, t: TileView) -> bool {
    &&& t.x < level
    &&& t.y < level
    &&& t.extent == (TILE_WIDTH, TILE_WIDTH)
}

/// Whether tile `t` is placed and writes pixel `p`.
pub open spec fn covers(level: int, m: Margins, t: TileView, p: (int, int)) -> bool {
    placeable(level, t) && in_cell(m, t.x as int, t.y as int, p)
}

/// The pixel of tile `t` that lands on canvas pixel `p`.
pub open spec fn tile_pixel(m: Margins, t: TileView, p: (int, int)) -> Rgba8 {
    let o = cell_origin(m, t.x as int, t.y as int);
    t.pixels[(p.0 - o.0, p.1 - o.1)]
}

/// `pixels` after tile `t` is placed on it.
pub open spec fn layer(pixels: Map<(int, int), Rgba8>, level: int, m: Margins, t: TileView) -> Map<
    (int, int),
    Rgba8,
> {
    Map::new(
        |p: (int, int)| pixels.dom().contains(p),
        |p: (int, int)|
            if covers(level, m, t, p) {
                tile_pixel(m, t, p)
            } else {
                pixels[p]
            },
    )
}

/// `base` after the tiles are placed on it one by one, in their order.
pub open spec fn composite(
    base: Map<(int, int), Rgba8>,
    level: int,
    m: Margins,
    tiles: Seq<TileView>,
) -> Map<(int, int), Rgba8>
    decreases tiles.len(),
{
    if tiles.len() == 0 {
        base
    } else {
        layer(composite(base, level, m, tiles.drop_last()), level, m, tiles.last())
    }
}

/// No two tiles have the same grid coordinate.
pub open spec fn distinct_cells(tiles: Seq<TileView>) -> bool {
    forall|i: int, j: int|
        0 <= i < j < tiles.len() ==> (tiles[i].x, tiles[i].y) != (tiles[j].x, tiles[j].y)
}

/// The tag of a canvas that cannot be made.
pub const CANVAS_KIND: &'static str = "Canvas";

/// The message of a canvas that cannot be made.
pub const CANVAS_TOO_LARGE: &'static str = "the canvas dimensions do not fit in memory";

/// Places the tiles on a canvas of the grid's size, in their order.
pub fn place_tiles(canvas: &mut Canvas, level: &OutputLevel, margins: &Margins, tiles: &Vec<Tile>)
    requires
        canvas_extent(*old(canvas)).0 == canvas_dims(level@ as int, *margins).0,
        canvas_extent(*old(canvas)).1 == canvas_dims(level@ as int, *margins).1,
    ensures
        canvas_extent(*final(canvas)) == canvas_extent(*old(canvas)),
        canvas_pixels(*final(canvas)) == composite(
            canvas_pixels(*old(canvas)),
            level@ as int,
            *margins,
            tiles@.map_values(|t: Tile| view_of(t)),
        ),
{
    let n = level.to_level();
    let ghost base = canvas_pixels(*canvas);
    let ghost extent = canvas_extent(*canvas);
    let mut i: usize = 0;
    assert(tiles@.subrange(0, 0) =~= Seq::<Tile>::empty());
    while i < tiles.len()
        invariant
            n == level@,
            n <= 20,
            i <= tiles.len(),
            canvas_extent(*canvas) == extent,
            extent.0 == canvas_dims(n as int, *margins).0,
            extent.1 == canvas_dims(n as int, *margins).1,
            canvas_pixels(*canvas) == composite(
                base,
                n as int,
                *margins,
                tiles@.subrange(0, i as int).map_values(|t: Tile| view_of(t)),
            ),
        decreases tiles.len() - i,
    {
        let t = &tiles[i];
        let ghost before = canvas_pixels(*canvas);
        let (bw, bh) = block_dimensions(&t.image);
        if t.x < n && t.y < n && bw == TILE_WIDTH && bh == TILE_WIDTH {
            assert(t.x * 550 + 550 <= n * 550) by (nonlinear_arith)
                requires t.x < n;
            assert(t.y * 550 + 550 <= n * 550) by (nonlinear_arith)
                requires t.y < n;
            let ox = margins.left + t.x * TILE_WIDTH;
            let oy = margins.top + t.y * TILE_WIDTH;
            let r = paste(canvas, &t.image, ox, oy);
            assert(r is Ok);
            assert(canvas_pixels(*canvas) =~= layer(before, n as int, *margins, view_of(*t)));
        } else {
            assert(layer(before, n as int, *margins, view_of(*t)) =~= before);
        }
        let ghost prefix = tiles@.subrange(0, i + 1).map_values(|t: Tile| view_of(t));
        assert(prefix.drop_last() =~= tiles@.subrange(0, i as int).map_values(|t: Tile| view_of(t)));
        i = i + 1;
    }
    assert(tiles@.subrange(0, i as int) =~= tiles@);
}

/// Placing tiles keeps the canvas's pixel positions.
proof fn lemma_composite_dom(base: Map<(int, int), Rgba8>, level: int, m: Margins, tiles: Seq<TileView>)
    ensures
        composite(base, level, m, tiles).dom() == base.dom(),
    decreases tiles.len(),
{
    if tiles.len() > 0 {
        lemma_composite_dom(base, level, m, tiles.drop_last());
        assert(composite(base, level, m, tiles).dom() =~= base.dom());
    }
}

/// A pixel that no placed tile covers keeps the value it had.
proof fn lemma_uncovered_pixel(
    base: Map<(int, int), Rgba8>,
    level: int,
    m: Margins,
    tiles: Seq<TileView>,
    p: (int, int),
)
    requires
        forall|k: int| 0 <= k < tiles.len() ==> !covers(level, m, #[trigger] tiles[k], p),
    ensures
        composite(base, level, m, tiles).dom() == base.dom(),
        base.dom().contains(p) ==> composite(base, level, m, tiles)[p] == base[p],
    decreases tiles.len(),
{
    if tiles.len() > 0 {
        let init = tiles.drop_last();
        assert forall|k: int| 0 <= k < init.len() implies !covers(level, m, #[trigger] init[k], p) by {
            assert(init[k] == tiles[k]);
        }
        lemma_uncovered_pixel(base, level, m, init, p);
        assert(!covers(level, m, tiles[tiles.len() - 1], p));
        assert(composite(base, level, m, tiles).dom() =~= base.dom());
    }
}

/// Two cells that share a pixel are the same cell.
proof fn lemma_cells_disjoint(m: Margins, x1: int, y1: int, x2: int, y2: int, p: (int, int))
    requires
        in_cell(m, x1, y1, p),
        in_cell(m, x2, y2, p),
    ensures
        x1 == x2,
        y1 == y2,
{
}

/// Where no two tiles share a grid coordinate, a pixel shows the tile that
/// covers it, whichever place that tile has in the order, and otherwise keeps
/// its value.
proof fn lemma_composite_at(
    base: Map<(int, int), Rgba8>,
    level: int,
    m: Margins,
    tiles: Seq<TileView>,
    p: (int, int),
)
    requires
        distinct_cells(tiles),
        base.dom().contains(p),
    ensures
        forall|t: TileView|
            tiles.contains(t) && covers(level, m, t, p) ==> composite(base, level, m, tiles)[p]
                == tile_pixel(m, t, p),
        (forall|t: TileView| tiles.contains(t) ==> !covers(level, m, t, p)) ==> composite(
            base,
            level,
            m,
            tiles,
        )[p] == base[p],
    decreases tiles.len(),
{
    if tiles.len() > 0 {
        let n = tiles.len() - 1;
        let init = tiles.drop_last();
        let last = tiles[n];
        assert(distinct_cells(init)) by {
            assert forall|i: int, j: int| 0 <= i < j < init.len() implies (init[i].x, init[i].y) != (
            init[j].x, init[j].y) by {
                assert(init[i] == tiles[i] && init[j] == tiles[j]);
            }
        }
        lemma_composite_at(base, level, m, init, p);
        lemma_composite_dom(base, level, m, init);
        let before = composite(base, level, m, init);
        assert(composite(base, level, m, tiles) == layer(before, level, m, last));
        assert(before.dom().contains(p));
        assert forall|t: TileView|
            tiles.contains(t) && covers(level, m, t, p) implies composite(base, level, m, tiles)[p]
                == tile_pixel(m, t, p) by {
            let k = choose|k: int| 0 <= k < tiles.len() && tiles[k] == t;
            if k < n {
                assert(init[k] == t);
                assert(init.contains(t));
                if covers(level, m, last, p) {
                    lemma_cells_disjoint(m, t.x as int, t.y as int, last.x as int, last.y as int, p);
                    assert((tiles[k].x, tiles[k].y) == (tiles[n].x, tiles[n].y));
                }
            }
        }
        if forall|t: TileView| tiles.contains(t) ==> !covers(level, m, t, p) {
            assert(tiles[n] == last);
            assert(tiles.contains(last));
            assert forall|t: TileView| init.contains(t) implies !covers(level, m, t, p) by {
                let k = choose|k: int| 0 <= k < init.len() && init[k] == t;
                assert(tiles[k] == t);
                assert(tiles.contains(t));
            }
        }
    }
}

/// Placing the same tiles in any other order gives the same canvas, where no
/// two tiles share a grid coordinate.
pub proof fn lemma_order_independent(
    base: Map<(int, int), Rgba8>,
    level: int,
    m: Margins,
    a: Seq<TileView>,
    b: Seq<TileView>,
)
    requires
        a.to_multiset() == b.to_multiset(),
        distinct_cells(a),
        distinct_cells(b),
    ensures
        composite(base, level, m, a) == composite(base, level, m, b),
{
    broadcast use vstd::seq_lib::group_to_multiset_ensures;

    lemma_composite_dom(base, level, m, a);
    lemma_composite_dom(base, level, m, b);
    assert forall|t: TileView| a.contains(t) <==> b.contains(t) by {
        assert(a.contains(t) <==> a.to_multiset().count(t) > 0);
        assert(b.contains(t) <==> b.to_multiset().count(t) > 0);
    }
    assert forall|p: (int, int)| base.dom().contains(p) implies composite(base, level, m, a)[p]
        == composite(base, level, m, b)[p] by {
        lemma_composite_at(base, level, m, a, p);
        lemma_composite_at(base, level, m, b, p);
        if exists|t: TileView| a.contains(t) && covers(level, m, t, p) {
            let t = choose|t: TileView| a.contains(t) && covers(level, m, t, p);
            assert(b.contains(t));
        }
    }
    assert(composite(base, level, m, a) =~= composite(base, level, m, b));
}

/// Where no tile has the grid coordinate `(x, y)`, every pixel of that cell
/// keeps the value it had on the canvas before: on a blank canvas, the
/// background.
pub proof fn lemma_missing_tile_leaves_hole(
    base: Map<(int, int), Rgba8>,
    level: int,
    m: Margins,
    tiles: Seq<TileView>,
    x: u32,
    y: u32,
)
    requires
        forall|k: int| 0 <= k < tiles.len() ==> (#[trigger] tiles[k].x, tiles[k].y) != (x, y),
    ensures
        forall|p: (int, int)|
            base.dom().contains(p) && in_cell(m, x as int, y as int, p) ==> #[trigger] composite(
                base,
                level,
                m,
                tiles,
            )[p] == base[p],
{
    assert forall|p: (int, int)|
        base.dom().contains(p) && in_cell(m, x as int, y as int, p) implies #[trigger] composite(
        base,
        level,
        m,
        tiles,
    )[p] == base[p] by {
        assert forall|k: int| 0 <= k < tiles.len() implies !covers(level, m, #[trigger] tiles[k], p) by {
            if covers(level, m, tiles[k], p) {
                lemma_cells_disjoint(m, tiles[k].x as int, tiles[k].y as int, x as int, y as int, p);
            }
        }
        lemma_uncovered_pixel(base, level, m, tiles, p);
    }
}

/// Adding a tile changes no pixel outside its own cell.
pub proof fn lemma_tile_affects_only_its_cell(
    base: Map<(int, int), Rgba8>,
    level: int,
    m: Margins,
    tiles: Seq<TileView>,
    t: TileView,
)
    ensures
        composite(base, level, m, tiles.push(t)).dom() == composite(base, level, m, tiles).dom(),
        forall|p: (int, int)|
            composite(base, level, m, tiles).dom().contains(p) && !in_cell(m, t.x as int, t.y as int, p)
                ==> #[trigger] composite(base, level, m, tiles.push(t))[p] == composite(
                base,
                level,
                m,
                tiles,
            )[p],
{
    assert(tiles.push(t).drop_last() =~= tiles);
}

/// The tile that an outcome gives, where its bytes arrived and decode.
pub open spec fn arrived_view(f: FetchedTile) -> Option<TileView> {
    match f.data {
        Ok(b) => match png_decoded(b@) {
            Some(d) => Some(TileView { x: f.x, y: f.y, pixels: d.0, extent: d.1 }),
            None => None,
        },
        Err(_) => None,
    }
}

/// The tiles placed from the outcomes, in arrival order: those whose bytes
/// arrived, decode and fit their cell.
pub open spec fn placed_views(level: int, fetched: Seq<FetchedTile>) -> Seq<TileView>
    decreases fetched.len(),
{
    if fetched.len() == 0 {
        Seq::empty()
    } else {
        let init = placed_views(level, fetched.drop_last());
        match arrived_view(fetched.last()) {
            Some(v) => if placeable(level, v) {
                init.push(v)
            } else {
                init
            },
            None => init,
        }
    }
}

/// The outcomes whose bytes arrived but give no tile to place, in arrival
/// order: the coordinate, and whether the bytes decoded.
pub open spec fn rejected(level: int, fetched: Seq<FetchedTile>) -> Seq<(u32, u32, bool)>
    decreases fetched.len(),
{
    if fetched.len() == 0 {
        Seq::empty()
    } else {
        let init = rejected(level, fetched.drop_last());
        let f = fetched.last();
        if f.data is Ok {
            match arrived_view(f) {
                None => init.push((f.x, f.y, false)),
                Some(v) => if placeable(level, v) {
                    init
                } else {
                    init.push((f.x, f.y, true))
                },
            }
        } else {
            init
        }
    }
}

/// Whether `failed` reports the rejected outcomes, in order: bytes that do
/// not decode with the decoder's error, an image that does not fit its cell
/// with a tile error.
pub open spec fn reports(failed: Seq<TileError>, level: int, fetched: Seq<FetchedTile>) -> bool {
    let r = rejected(level, fetched);
    &&& failed.len() == r.len()
    &&& forall|k: int|
        0 <= k < r.len() ==> {
            &&& (#[trigger] failed[k]).x == r[k].0
            &&& failed[k].y == r[k].1
            &&& if r[k].2 {
                failed[k].error.kind@ == TILE_KIND@ && failed[k].error.message@ == TILE_MISFIT@
                    && failed[k].error.cause is None
            } else {
                failed[k].error.kind@ == IMAGE_ERROR_KIND@ && failed[k].error.cause is Some
            }
        }
}

/// Whether a placed tile has its cell over pixel `p`.
pub open spec fn delivered(level: int, m: Margins, fetched: Seq<FetchedTile>, p: (int, int)) -> bool {
    exists|j: int|
        0 <= j < fetched.len() && (#[trigger] arrived_view(fetched[j])) is Some && covers(
            level,
            m,
            arrived_view(fetched[j])->0,
            p,
        )
}

/// The tag of a tile whose image does not fit its cell.
pub const TILE_KIND: &'static str = "Tile";

/// The message of a tile whose image does not fit its cell.
pub const TILE_MISFIT: &'static str = "the tile image does not fit its cell";

/// Each placed tile is the decoded image of an outcome, and fits its cell.
proof fn lemma_placed_views_arrived(level: int, fetched: Seq<FetchedTile>)
    ensures
        forall|k: int|
            0 <= k < placed_views(level, fetched).len() ==> placeable(
                level,
                #[trigger] placed_views(level, fetched)[k],
            ) && exists|j: int|
                0 <= j < fetched.len() && arrived_view(fetched[j]) == Some(
                    placed_views(level, fetched)[k],
                ),
    decreases fetched.len(),
{
    if fetched.len() > 0 {
        let init = fetched.drop_last();
        lemma_placed_views_arrived(level, init);
        let pv = placed_views(level, fetched);
        assert forall|k: int| 0 <= k < pv.len() implies placeable(level, #[trigger] pv[k]) && exists|j: int|
            0 <= j < fetched.len() && arrived_view(fetched[j]) == Some(pv[k]) by {
            if k < placed_views(level, init).len() {
                assert(pv[k] == placed_views(level, init)[k]);
                let j = choose|j: int| 0 <= j < init.len() && arrived_view(init[j]) == Some(placed_views(level, init)[k]);
                assert(fetched[j] == init[j]);
            } else {
                assert(arrived_view(fetched[fetched.len() - 1]) == Some(pv[k]));
            }
        }
    }
}

/// Where no outcome for the cell `(x, y)` gives a tile to place (its fetch
/// failed, its bytes do not decode, or its image does not fit), every pixel
/// of that cell keeps the value it had: on a blank canvas, the background.
pub proof fn lemma_unplaced_cell_keeps_base(
    base: Map<(int, int), Rgba8>,
    level: int,
    m: Margins,
    fetched: Seq<FetchedTile>,
    x: u32,
    y: u32,
)
    requires
        forall|j: int|
            0 <= j < fetched.len() && (#[trigger] fetched[j]).x == x && fetched[j].y == y
                ==> !(arrived_view(fetched[j]) is Some && placeable(level, arrived_view(fetched[j])->0)),
    ensures
        forall|p: (int, int)|
            base.dom().contains(p) && in_cell(m, x as int, y as int, p) ==> #[trigger] composite(
                base,
                level,
                m,
                placed_views(level, fetched),
            )[p] == base[p],
{
    let placed = placed_views(level, fetched);
    lemma_placed_views_arrived(level, fetched);
    assert forall|k: int| 0 <= k < placed.len() implies (#[trigger] placed[k].x, placed[k].y) != (x, y) by {
        let j = choose|j: int| 0 <= j < fetched.len() && arrived_view(fetched[j]) == Some(placed[k]);
        assert(placed[k].x == fetched[j].x && placed[k].y == fetched[j].y);
    }
    lemma_missing_tile_leaves_hole(base, level, m, placed, x, y);
}

/// Composes the tiles whose bytes arrived on a blank canvas of the grid's
/// size, in arrival order. Bytes that do not decode, and images that do not
/// fit their cell, are reported and leave the cell as it was, like tiles
/// that were not fetched.
pub fn compose(level: &OutputLevel, margins: &Margins, fetched: &Vec<FetchedTile>) -> (r: Result<
    (Canvas, Vec<TileError>),
    AppErr,
>)
    ensures
        canvas_fits(canvas_dims(level@ as int, *margins)) <==> r is Ok,
        r matches Err(e) ==> e.kind@ == CANVAS_KIND@ && e.message@ == CANVAS_TOO_LARGE@,
        r matches Ok((c, failed)) ==> {
            let dims = canvas_dims(level@ as int, *margins);
            &&& canvas_extent(c).0 == dims.0
            &&& canvas_extent(c).1 == dims.1
            &&& canvas_pixels(c) == composite(
                blank(dims.0, dims.1),
                level@ as int,
                *margins,
                placed_views(level@ as int, fetched@),
            )
            &&& canvas_pixels(c).dom() == blank(dims.0, dims.1).dom()
            &&& reports(failed@, level@ as int, fetched@)
            &&& forall|p: (int, int)|
                canvas_pixels(c).dom().contains(p) && !delivered(level@ as int, *margins, fetched@, p)
                    ==> #[trigger] canvas_pixels(c)[p] == (0u8, 0u8, 0u8, 0u8)
        },
{
    let (w, h) = match canvas_size(level, margins) {
        Some(d) => d,
        None => {
            return Err(AppErr::new(CANVAS_KIND, CANVAS_TOO_LARGE));
        },
    };
    let n = level.to_level();
    let ghost lv = level@ as int;
    let ghost all = fetched@;
    let mut tiles: Vec<Tile> = Vec::new();
    let mut failed: Vec<TileError> = Vec::new();
    let mut i: usize = 0;
    assert(all.subrange(0, 0) =~= Seq::<FetchedTile>::empty());
    assert(tiles@.map_values(|t: Tile| view_of(t)) =~= Seq::<TileView>::empty());
    while i < fetched.len()
        invariant
            fetched@ == all,
            n == lv,
            i <= all.len(),
            tiles@.map_values(|t: Tile| view_of(t)) == placed_views(lv, all.subrange(0, i as int)),
            reports(failed@, lv, all.subrange(0, i as int)),
        decreases all.len() - i,
    {
        let ghost pre = all.subrange(0, i + 1);
        assert(pre.drop_last() =~= all.subrange(0, i as int));
        assert(pre.last() == all[i as int]);
        let ghost old_failed = failed@;
        let ghost old_rejected = rejected(lv, all.subrange(0, i as int));
        let f = &fetched[i];
        match &f.data {
            Ok(bytes) => {
                match decode_png(bytes.as_slice()) {
                    Ok(img) => {
                        let (bw, bh) = block_dimensions(&img);
                        if f.x < n && f.y < n && bw == TILE_WIDTH && bh == TILE_WIDTH {
                            tiles.push(Tile { x: f.x, y: f.y, image: img });
                        } else {
                            failed.push(
                                TileError { x: f.x, y: f.y, error: AppErr::new(TILE_KIND, TILE_MISFIT) },
                            );
                        }
                    },
                    Err(e) => {
                        failed.push(
                            TileError {
                                x: f.x,
                                y: f.y,
                                error: AppErr::from_err(IMAGE_ERROR_KIND, e.to_string()),
                            },
                        );
                    },
                }
            },
            Err(_) => {},
        }
        i = i + 1;
        assert(tiles@.map_values(|t: Tile| view_of(t)) =~= placed_views(lv, pre));
        proof {
            let r = rejected(lv, pre);
            assert(failed@.len() == r.len());
            assert forall|k: int| 0 <= k < r.len() implies (#[trigger] failed@[k]).x == r[k].0 by {
                if k < old_rejected.len() {
                    assert(failed@[k] == old_failed[k]);
                }
            }
        }
    }
    assert(all.subrange(0, i as int) =~= all);
    assert(w as int * h as int * 4 <= usize::MAX);
    let mut canvas = new_canvas(w, h);
    place_tiles(&mut canvas, level, margins, &tiles);
    proof {
        let base = blank(w as int, h as int);
        let placed = placed_views(lv, all);
        lemma_placed_views_arrived(lv, all);
        assert forall|p: (int, int)|
            canvas_pixels(canvas).dom().contains(p) && !delivered(lv, *margins, all, p)
                implies #[trigger] canvas_pixels(canvas)[p] == (0u8, 0u8, 0u8, 0u8) by {
            assert forall|k: int| 0 <= k < placed.len() implies !covers(lv, *margins, #[trigger] placed[k], p) by {
                if covers(lv, *margins, placed[k], p) {
                    let j = choose|j: int| 0 <= j < all.len() && arrived_view(all[j]) == Some(placed[k]);
                    assert(arrived_view(all[j]) is Some);
                }
            }
            lemma_uncovered_pixel(base, lv, *margins, placed, p);
        }
        lemma_composite_dom(base, lv, *margins, placed);
    }
    Ok((canvas, failed))
}

} // verus!
