use vstd::prelude::*;

use crate::palette::{palette, palette_seq, Pixel};
use crate::perturb::{perturb, perturbed};
use crate::quantize::{lemma_nearest_index, nearest_index, nearest_index_in, quantize};
use vstd::arithmetic::div_mod::lemma_fundamental_div_mod_converse;
use crate::tile::{catalog_tile, tile_size, DitherError, Tile, TileModel};

verus! {

/// Output colour of a pixel with source colour `p` at `(x, y)` under tile `t`.
pub open spec fn dithered_pixel(p: Pixel, x: int, y: int, t: TileModel) -> Pixel {
    quantize(perturbed(p, t.rank_at(x, y) as int, t.divisor() as int))
}

/// Output grid for a row-major source grid `src` whose rows are `width`
/// pixels long: pixel `i` stands at column `i % width`, row `i / width`.
pub open spec fn dither_grid(src: Seq<Pixel>, width: nat, t: TileModel) -> Seq<Pixel> {
    Seq::new(src.len(), |i: int| dithered_pixel(src[i], i % (width as int), i / (width as int), t))
}

/// Dithering is a function of its inputs: two output grids that both meet
/// the contract of `dither` (or of `dither_named`) for the same source
/// grid, width and tile are byte for byte the same.
pub proof fn lemma_dither_deterministic(
    src: Seq<Pixel>,
    width: nat,
    t: TileModel,
    a: Seq<Pixel>,
    b: Seq<Pixel>,
)
    requires
        a == dither_grid(src, width, t),
        b == dither_grid(src, width, t),
    ensures
        a == b,
{
}

/// Every output pixel is exactly one of the palette entries.
pub proof fn lemma_palette_closure(src: Seq<Pixel>, width: nat, t: TileModel)
    ensures
        dither_grid(src, width, t).len() == src.len(),
        forall|i: int|
            0 <= i < src.len() ==> palette_seq().contains(#[trigger] dither_grid(src, width, t)[i]),
{
    assert forall|i: int| 0 <= i < src.len() implies palette_seq().contains(
        #[trigger] dither_grid(src, width, t)[i],
    ) by {
        let c = perturbed(src[i], t.rank_at(i % (width as int), i / (width as int)) as int, t.divisor() as int);
        lemma_nearest_index(c);
        assert(palette_seq()[nearest_index(c)] == dither_grid(src, width, t)[i]);
    }
}

/// The tile repeats: two pixels of equal source colour whose columns agree
/// modulo the tile width and whose rows agree modulo the tile height get
/// the same output colour.
pub proof fn lemma_tile_periodic(
    src: Seq<Pixel>,
    width: nat,
    t: TileModel,
    x1: int,
    y1: int,
    x2: int,
    y2: int,
)
    requires
        t.wf(),
        0 <= x1 < width,
        0 <= x2 < width,
        0 <= y1,
        0 <= y2,
        y1 * width + x1 < src.len(),
        y2 * width + x2 < src.len(),
        src[y1 * width + x1] == src[y2 * width + x2],
        x1 % (t.width as int) == x2 % (t.width as int),
        y1 % (t.height as int) == y2 % (t.height as int),
    ensures
        dither_grid(src, width, t)[y1 * width + x1] == dither_grid(src, width, t)[y2 * width + x2],
{
    let i1 = y1 * width + x1;
    let i2 = y2 * width + x2;
    lemma_fundamental_div_mod_converse(i1, width as int, y1, x1);
    lemma_fundamental_div_mod_converse(i2, width as int, y2, x2);
    assert(t.index_at(x1, y1) == t.index_at(x2, y2));
}

fn dither_pixel_with(pal: &Vec<Pixel>, p: Pixel, x: usize, y: usize, tile: &Tile) -> (r: Pixel)
    requires
        pal@ == palette_seq(),
    ensures
        r == dithered_pixel(p, x as int, y as int, tile@),
{
    proof {
        use_type_invariant(tile);
    }
    let rank = tile.rank_at(x, y);
    let c = perturb(p, rank, tile.divisor() as u32);
    let k = nearest_index_in(pal, c);
    pal[k]
}

/// Output colour of a pixel with source colour `p` at `(x, y)`.
pub fn dither_pixel(p: Pixel, x: usize, y: usize, tile: &Tile) -> (r: Pixel)
    ensures
        r == dithered_pixel(p, x as int, y as int, tile@),
{
    let pal = palette();
    dither_pixel_with(&pal, p, x, y, tile)
}

/// Ordered dithering of a row-major `width` by `height` grid with `tile`:
/// every pixel is perturbed by the tile rank at its position and
/// quantized to the palette.
pub fn dither(source: &Vec<Pixel>, width: usize, height: usize, tile: &Tile) -> (r: Vec<Pixel>)
    requires
        source.len() == width * height,
    ensures
        r@ == dither_grid(source@, width as nat, tile@),
        tile@.wf(),
{
    proof {
        use_type_invariant(tile);
    }
    let pal = palette();
    let mut out: Vec<Pixel> = Vec::with_capacity(source.len());
    let mut i: usize = 0;
    while i < source.len()
        invariant
            pal@ == palette_seq(),
            i <= source.len(),
            source.len() == width * height,
            out@.len() == i,
            forall|j: int| 0 <= j < i ==> #[trigger] out@[j] == dither_grid(source@, width as nat, tile@)[j],
        decreases source.len() - i,
    {
        assert(width > 0) by (nonlinear_arith)
            requires
                i < width * height,
        ;
        let x: usize = i % width;
        let y: usize = i / width;
        let px = dither_pixel_with(&pal, source[i], x, y, tile);
        out.push(px);
        i = i + 1;
    }
    assert(out@ =~= dither_grid(source@, width as nat, tile@));
    out
}

/// Ordered dithering with the tile that `name` selects; fails with
/// `InvalidTileName`, and produces nothing, when `name` selects none.
pub fn dither_named(source: &Vec<Pixel>, width: usize, height: usize, name: &str) -> (r: Result<
    Vec<Pixel>,
    DitherError,
>)
    requires
        source.len() == width * height,
    ensures
        match tile_size(name@) {
            Some((w, h)) => r is Ok && r->Ok_0@ == dither_grid(source@, width as nat, catalog_tile(w, h)),
            None => r == Err::<Vec<Pixel>, DitherError>(DitherError::InvalidTileName),
        },
{
    match Tile::from_name(name) {
        Ok(tile) => Ok(dither(source, width, height, &tile)),
        Err(e) => Err(e),
    }
}

} // verus!
