//! The text that shows an icon on a console.

use crate::icon::{IconView, SimpleIcon};
use crate::layout::{grid_of, well_shaped};
use crate::number::{append_decimal, decimal_digits};
use vstd::prelude::*;

verus! {

/// What is shown for a pixel: an `x` for the character `1`, a blank for
/// every other.
pub open spec fn glyph(pixel: char) -> char {
    if pixel == '1' {
        'x'
    } else {
        ' '
    }
}

/// The glyphs of a row of pixels.
pub open spec fn glyphs(row: Seq<char>) -> Seq<char> {
    Seq::new(row.len(), |col: int| glyph(row[col]))
}

/// The line for a row: its glyphs, a blank and a line feed.
pub open spec fn row_text(row: Seq<char>) -> Seq<char> {
    glyphs(row) + seq![' ', '\n']
}

/// The lines of all rows, from the top.
pub open spec fn rows_text(pixels: Seq<Seq<char>>) -> Seq<char>
    decreases pixels.len(),
{
    if pixels.len() == 0 {
        Seq::empty()
    } else {
        rows_text(pixels.drop_last()) + row_text(pixels.last())
    }
}

/// The heading: `<name> (<width>x<height>)`, then `Version: <version>`,
/// then an empty line.
pub open spec fn heading_text(icon: IconView) -> Seq<char> {
    icon.name + " ("@ + decimal_digits(icon.width) + "x"@ + decimal_digits(icon.height)
        + ")\nVersion: "@ + decimal_digits(icon.file_version) + "\n\n"@
}

/// The whole text for an icon: the heading, then one line for each row.
pub open spec fn rendered(icon: IconView) -> Seq<char> {
    heading_text(icon) + rows_text(icon.pixels)
}

impl SimpleIcon {
    /// The text that shows the icon.
    pub fn render(&self) -> (text: String)
        ensures
            text@ == rendered(self@),
    {
        let mut text = String::new();
        text.append(self.name());
        text.append(" (");
        append_decimal(&mut text, self.width() as u64);
        text.append("x");
        append_decimal(&mut text, self.height() as u64);
        text.append(")\nVersion: ");
        append_decimal(&mut text, self.file_version() as u64);
        text.append("\n\n");
        assert(text@ =~= heading_text(self@));

        let data = self.data();
        let width = self.width() as usize;
        let height = self.height() as usize;
        let ghost pixels = self@.pixels;
        assert(pixels.take(0) =~= Seq::<Seq<char>>::empty());
        let mut row: usize = 0;
        while row < height
            invariant
                pixels == self@.pixels,
                pixels == grid_of(data@),
                well_shaped(pixels, width as nat, height as nat),
                row <= height,
                text@ == heading_text(self@) + rows_text(pixels.take(row as int)),
            decreases height - row,
        {
            let ghost before = text@;
            let mut col: usize = 0;
            while col < width
                invariant
                    pixels == grid_of(data@),
                    well_shaped(pixels, width as nat, height as nat),
                    row < height,
                    col <= width,
                    text@ == before + glyphs(pixels[row as int]).take(col as int),
                decreases width - col,
            {
                let piece = if data[row][col] == '1' {
                    "x"
                } else {
                    " "
                };
                text.append(piece);
                proof {
                    reveal_strlit("x");
                    reveal_strlit(" ");
                    assert(piece@ =~= seq![glyph(pixels[row as int][col as int])]);
                    assert(glyphs(pixels[row as int]).take(col + 1) =~= glyphs(
                        pixels[row as int],
                    ).take(col as int) + piece@);
                }
                col += 1;
            }
            text.append(" \n");
            proof {
                reveal_strlit(" \n");
                let upto = pixels.take(row + 1);
                assert(upto.drop_last() =~= pixels.take(row as int));
                assert(upto.last() == pixels[row as int]);
                assert(glyphs(pixels[row as int]).take(width as int) =~= glyphs(
                    pixels[row as int],
                ));
                assert(text@ =~= heading_text(self@) + rows_text(upto));
            }
            row += 1;
        }
        assert(pixels.take(height as int) =~= pixels);
        text
    }
}

} // verus!
