use vstd::prelude::*;

verus! {

/// An 8-bit RGB colour.
#[derive(Clone, Copy, Debug, PartialEq, Eq, Structural)]
pub struct Pixel {
    pub r: u8,
    pub g: u8,
    pub b: u8,
}

/// Number of entries in the fixed output palette.
pub const PALETTE_LEN: usize = 18;

/// The fixed output palette, in definition order.
pub open spec fn palette_seq() -> Seq<Pixel> {
    seq![
        Pixel { r: 0x00, g: 0x00, b: 0x00 }, Pixel { r: 0x00, g: 0x80, b: 0x00 }, Pixel { r: 0x00, g: 0xFF, b: 0x00 },
        Pixel { r: 0x00, g: 0x00, b: 0xFF }, Pixel { r: 0x00, g: 0x80, b: 0xFF }, Pixel { r: 0x00, g: 0xFF, b: 0xFF },
        Pixel { r: 0x80, g: 0x00, b: 0x00 }, Pixel { r: 0x80, g: 0x80, b: 0x00 }, Pixel { r: 0x80, g: 0xFF, b: 0x00 },
        Pixel { r: 0x80, g: 0x00, b: 0xFF }, Pixel { r: 0x80, g: 0x80, b: 0xFF }, Pixel { r: 0x80, g: 0xFF, b: 0xFF },
        Pixel { r: 0xFF, g: 0x00, b: 0x00 }, Pixel { r: 0xFF, g: 0x80, b: 0x00 }, Pixel { r: 0xFF, g: 0xFF, b: 0x00 },
        Pixel { r: 0xFF, g: 0x00, b: 0xFF }, Pixel { r: 0xFF, g: 0x80, b: 0xFF }, Pixel { r: 0xFF, g: 0xFF, b: 0xFF },
    ]
}

/// The palette as a vector, in definition order.
pub fn palette() -> (r: Vec<Pixel>)
    ensures
        r@ == palette_seq(),
{
    let r: Vec<Pixel> = vec![
        Pixel { r: 0x00, g: 0x00, b: 0x00 }, Pixel { r: 0x00, g: 0x80, b: 0x00 }, Pixel { r: 0x00, g: 0xFF, b: 0x00 },
        Pixel { r: 0x00, g: 0x00, b: 0xFF }, Pixel { r: 0x00, g: 0x80, b: 0xFF }, Pixel { r: 0x00, g: 0xFF, b: 0xFF },
        Pixel { r: 0x80, g: 0x00, b: 0x00 }, Pixel { r: 0x80, g: 0x80, b: 0x00 }, Pixel { r: 0x80, g: 0xFF, b: 0x00 },
        Pixel { r: 0x80, g: 0x00, b: 0xFF }, Pixel { r: 0x80, g: 0x80, b: 0xFF }, Pixel { r: 0x80, g: 0xFF, b: 0xFF },
        Pixel { r: 0xFF, g: 0x00, b: 0x00 }, Pixel { r: 0xFF, g: 0x80, b: 0x00 }, Pixel { r: 0xFF, g: 0xFF, b: 0x00 },
        Pixel { r: 0xFF, g: 0x00, b: 0xFF }, Pixel { r: 0xFF, g: 0x80, b: 0xFF }, Pixel { r: 0xFF, g: 0xFF, b: 0xFF },
    ];
    assert(r@ =~= palette_seq());
    r
}

} // verus!
