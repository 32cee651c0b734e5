use vstd::prelude::*;

verus! {

/// The RGBA colour of every display pixel: white where the pixel is 1, black elsewhere, opaque.
pub open spec fn display_rgba(display: Seq<u8>) -> Seq<u8> {
    Seq::new(
        display.len() * 4,
        |j: int|
            if j % 4 == 3 || display[j / 4] == 1 {
                255u8
            } else {
                0u8
            },
    )
}

/// The screen as an image: four RGBA bytes per pixel, row by row.
pub fn image_from_chip8_display(display: &[u8]) -> (pixels: Vec<u8>)
    requires
        display@.len() * 4 <= usize::MAX,
    ensures
        pixels@ == display_rgba(display@),
{
    let mut pixels: Vec<u8> = Vec::new();
    let mut i: usize = 0;
    while i < display.len()
        invariant
            i <= display@.len(),
            display@.len() * 4 <= usize::MAX,
            pixels@ == display_rgba(display@).take(i * 4),
        decreases display@.len() - i,
    {
        let color: u8 = if display[i] == 1 {
            255
        } else {
            0
        };
        pixels.push(color);
        pixels.push(color);
        pixels.push(color);
        pixels.push(255);
        i = i + 1;
        proof {
            assert(pixels@ =~= display_rgba(display@).take(i * 4));
        }
    }
    proof {
        assert(display_rgba(display@).take(i * 4) =~= display_rgba(display@));
    }
    pixels
}

} // verus!
