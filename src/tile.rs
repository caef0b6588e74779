use vstd::prelude::*;

verus! {

/// Failure of the dithering core.
#[derive(Clone, Copy, Debug, PartialEq, Eq, Structural)]
pub enum DitherError {
    /// The tile name is not one of the supported shapes.
    InvalidTileName,
}

/// Mathematical model of a threshold tile.
pub struct TileModel {
    /// Rank of each cell, flattened with `height` as the row stride.
    pub ranks: Seq<u32>,
    pub width: nat,
    pub height: nat,
}

impl TileModel {
    /// Number of cells, which normalises a rank into `[0, 1)`.
    pub open spec fn divisor(self) -> nat {
        self.width * self.height
    }

    pub open spec fn wf(self) -> bool {
        &&& 1 <= self.height <= self.width <= 255
        &&& self.ranks.len() == self.divisor()
        &&& forall|i: int| 0 <= i < self.ranks.len() ==> #[trigger] self.ranks[i] < self.divisor()
    }

    /// Position in `ranks` that pixel `(x, y)` samples: the row is taken
    /// modulo `height`, the column modulo `width`, and rows are `height`
    /// cells apart.
    pub open spec fn index_at(self, x: int, y: int) -> int {
        (y % (self.height as int)) * (self.height as int) + x % (self.width as int)
    }

    /// Rank that pixel `(x, y)` samples.
    pub open spec fn rank_at(self, x: int, y: int) -> u32 {
        self.ranks[self.index_at(x, y)]
    }
}

/// Width and height of the tile that `name` selects, if it names one.
pub open spec fn tile_size(name: Seq<char>) -> Option<(nat, nat)> {
    if name == seq!['2', 'x', '2'] {
        Some((2, 2))
    } else if name == seq!['4', 'x', '4'] {
        Some((4, 4))
    } else if name == seq!['8', 'x', '8'] {
        Some((8, 8))
    } else if name == seq!['4', 'x', '2'] {
        Some((4, 2))
    } else if name == seq!['8', 'x', '2'] {
        Some((8, 2))
    } else if name == seq!['8', 'x', '4'] {
        Some((8, 4))
    } else if name == seq!['3', 'x', '3'] {
        Some((3, 3))
    } else if name == seq!['5', 'x', '3'] {
        Some((5, 3))
    } else if name == seq!['4', 'x', '1'] {
        Some((4, 1))
    } else {
        None
    }
}

/// Whether some tile name selects a tile of this size.
pub open spec fn supported_size(width: nat, height: nat) -> bool {
    exists|name: Seq<char>| tile_size(name) == Some((width, height))
}

/// The dispersed-dot ranks of the supported tile of the given size.
pub open spec fn catalog_ranks(width: nat, height: nat) -> Seq<u32> {
    if width == 2 && height == 2 {
        seq![0, 3, 2, 1]
    } else if width == 4 && height == 4 {
        seq![0, 12, 3, 15, 8, 4, 11, 7, 2, 14, 1, 13, 10, 6, 9, 5]
    } else if width == 8 && height == 8 {
        seq![
            0, 48, 12, 60, 3, 51, 15, 63,
            32, 16, 44, 28, 35, 19, 47, 31,
            8, 56, 4, 52, 11, 59, 7, 55,
            40, 24, 36, 20, 43, 27, 39, 23,
            2, 50, 14, 62, 1, 49, 13, 61,
            34, 18, 46, 30, 33, 17, 45, 29,
            10, 58, 6, 54, 9, 57, 5, 53,
            42, 26, 38, 22, 41, 25, 37, 21,
        ]
    } else if width == 4 && height == 2 {
        seq![0, 4, 2, 6, 3, 7, 1, 5]
    } else if width == 8 && height == 2 {
        seq![0, 8, 4, 12, 2, 10, 6, 14, 3, 11, 7, 15, 1, 9, 5, 13]
    } else if width == 8 && height == 4 {
        seq![
            0, 16, 8, 24, 2, 18, 10, 26,
            12, 28, 4, 20, 14, 30, 6, 22,
            3, 19, 11, 27, 1, 17, 9, 25,
            15, 31, 7, 23, 13, 29, 5, 21,
        ]
    } else if width == 3 && height == 3 {
        seq![0, 5, 2, 3, 8, 7, 6, 1, 4]
    } else if width == 5 && height == 3 {
        seq![0, 12, 7, 3, 9, 14, 8, 1, 5, 11, 6, 4, 10, 13, 2]
    } else {
        seq![0, 2, 1, 3]
    }
}

/// The tile a supported name selects.
pub open spec fn catalog_tile(width: nat, height: nat) -> TileModel {
    TileModel { ranks: catalog_ranks(width, height), width, height }
}

/// A threshold tile: a small matrix of rank values, repeated across the image.
pub struct Tile {
    ranks: Vec<u32>,
    width: usize,
    height: usize,
}

impl View for Tile {
    type V = TileModel;

    closed spec fn view(&self) -> TileModel {
        TileModel { ranks: self.ranks@, width: self.width as nat, height: self.height as nat }
    }
}

impl Tile {
    #[verifier::type_invariant]
    pub open spec fn inv(self) -> bool {
        self@.wf()
    }

    pub fn width(&self) -> (r: usize)
        ensures
            r == self@.width,
    {
        self.width
    }

    pub fn height(&self) -> (r: usize)
        ensures
            r == self@.height,
    {
        self.height
    }

    /// Cell count, by which ranks are normalised.
    pub fn divisor(&self) -> (r: usize)
        ensures
            r == self@.divisor(),
            0 < r <= 255 * 255,
    {
        proof {
            use_type_invariant(self);
        }
        assert(0 < self.width * self.height <= 255 * 255) by (nonlinear_arith)
            requires
                1 <= self.height <= self.width <= 255,
        ;
        self.ranks.len()
    }

    /// Rank that pixel `(x, y)` samples.
    pub fn rank_at(&self, x: usize, y: usize) -> (r: u32)
        ensures
            r == self@.rank_at(x as int, y as int),
            r < self@.divisor(),
    {
        proof {
            use_type_invariant(self);
        }
        let row: usize = y % self.height;
        let col: usize = x % self.width;
        assert(row * self.height + col < self.width * self.height <= 255 * 255) by (nonlinear_arith)
            requires
                row < self.height,
                col < self.width,
                self.height <= self.width <= 255,
        ;
        let i: usize = row * self.height + col;
        assert(self@.index_at(x as int, y as int) == i);
        assert(self@.ranks[i as int] < self@.divisor());
        self.ranks[i]
    }

    /// The tile that `name` selects, or `InvalidTileName` when `name` is
    /// not one of `2x2`, `4x4`, `8x8`, `4x2`, `8x2`, `8x4`, `3x3`, `5x3`, `4x1`.
    pub fn from_name(name: &str) -> (r: Result<Tile, DitherError>)
        ensures
            match tile_size(name@) {
                Some((w, h)) => r is Ok && r->Ok_0@ == catalog_tile(w, h),
                None => r == Err::<Tile, DitherError>(DitherError::InvalidTileName),
            },
    {
        if name.unicode_len() != 3 {
            return Err(DitherError::InvalidTileName);
        }
        let c0 = name.get_char(0);
        let c1 = name.get_char(1);
        let c2 = name.get_char(2);
        assert(name@ == seq![c0, c1, c2]);
        if c1 != 'x' {
            return Err(DitherError::InvalidTileName);
        }
        let (width, height): (usize, usize) = if c0 == '2' && c2 == '2' {
            (2, 2)
        } else if c0 == '4' && c2 == '4' {
            (4, 4)
        } else if c0 == '8' && c2 == '8' {
            (8, 8)
        } else if c0 == '4' && c2 == '2' {
            (4, 2)
        } else if c0 == '8' && c2 == '2' {
            (8, 2)
        } else if c0 == '8' && c2 == '4' {
            (8, 4)
        } else if c0 == '3' && c2 == '3' {
            (3, 3)
        } else if c0 == '5' && c2 == '3' {
            (5, 3)
        } else if c0 == '4' && c2 == '1' {
            (4, 1)
        } else {
            return Err(DitherError::InvalidTileName);
        };
        let ranks = catalog_ranks_vec(width, height);
        Ok(Tile { ranks, width, height })
    }
}

fn catalog_ranks_vec(width: usize, height: usize) -> (r: Vec<u32>)
    requires
        supported_size(width as nat, height as nat),
    ensures
        r@ == catalog_ranks(width as nat, height as nat),
        catalog_tile(width as nat, height as nat).wf(),
{
    let r: Vec<u32> = if width == 2 && height == 2 {
        vec![0, 3, 2, 1]
    } else if width == 4 && height == 4 {
        vec![0, 12, 3, 15, 8, 4, 11, 7, 2, 14, 1, 13, 10, 6, 9, 5]
    } else if width == 8 && height == 8 {
        vec![
            0, 48, 12, 60, 3, 51, 15, 63,
            32, 16, 44, 28, 35, 19, 47, 31,
            8, 56, 4, 52, 11, 59, 7, 55,
            40, 24, 36, 20, 43, 27, 39, 23,
            2, 50, 14, 62, 1, 49, 13, 61,
            34, 18, 46, 30, 33, 17, 45, 29,
            10, 58, 6, 54, 9, 57, 5, 53,
            42, 26, 38, 22, 41, 25, 37, 21,
        ]
    } else if width == 4 && height == 2 {
        vec![0, 4, 2, 6, 3, 7, 1, 5]
    } else if width == 8 && height == 2 {
        vec![0, 8, 4, 12, 2, 10, 6, 14, 3, 11, 7, 15, 1, 9, 5, 13]
    } else if width == 8 && height == 4 {
        vec![
            0, 16, 8, 24, 2, 18, 10, 26,
            12, 28, 4, 20, 14, 30, 6, 22,
            3, 19, 11, 27, 1, 17, 9, 25,
            15, 31, 7, 23, 13, 29, 5, 21,
        ]
    } else if width == 3 && height == 3 {
        vec![0, 5, 2, 3, 8, 7, 6, 1, 4]
    } else if width == 5 && height == 3 {
        vec![0, 12, 7, 3, 9, 14, 8, 1, 5, 11, 6, 4, 10, 13, 2]
    } else {
        vec![0, 2, 1, 3]
    };
    assert(r@ =~= catalog_ranks(width as nat, height as nat));
    r
}

} // verus!
