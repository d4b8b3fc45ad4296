//! What holds of every decoding, stated over the model of the format.

use crate::error::{DecodeError, DecodeErrorView};
use crate::format::{decoded, delimiter, dimensions_of, outcome};
use crate::icon::{IconView, SimpleIcon};
use crate::layout::{banded_grid, row_major_grid, well_shaped};
use crate::number::decimal_value;
use crate::text::split;
use vstd::prelude::*;

verus! {

/// The header of `text` is valid: four segments or more, a version that is
/// a number of 16 bits, and dimensions that are two numbers of 32 bits.
pub open spec fn has_valid_header(text: Seq<char>) -> bool {
    let segments = split(text, delimiter());
    &&& segments.len() >= 4
    &&& decimal_value(segments[1], u16::MAX as nat) is Some
    &&& dimensions_of(segments[2]) is Some
}

/// Number of payload characters that the header of `text` asks for.
pub open spec fn cells_announced(text: Seq<char>) -> nat {
    let (width, height) = dimensions_of(split(text, delimiter())[2])->0;
    width * height
}

/// Decoding is a function of the text alone: whenever two results were
/// returned for the same text, they are the same icon or the same error.
pub proof fn lemma_decoding_is_deterministic(
    first_text: Seq<char>,
    second_text: Seq<char>,
    first: Result<SimpleIcon, DecodeError>,
    second: Result<SimpleIcon, DecodeError>,
)
    requires
        first_text == second_text,
        outcome(first) == decoded(first_text),
        outcome(second) == decoded(second_text),
    ensures
        outcome(first) == outcome(second),
{
}

/// A decoded icon has exactly `height` rows, and each of them exactly
/// `width` cells.
pub proof fn lemma_decoded_icon_is_well_shaped(text: Seq<char>, icon: IconView)
    requires
        decoded(text) == Ok::<IconView, DecodeErrorView>(icon),
    ensures
        icon.pixels.len() == icon.height,
        forall|row: int|
            0 <= row < icon.height ==> (#[trigger] icon.pixels[row]).len() == icon.width,
        well_shaped(icon.pixels, icon.width, icon.height),
{
}

/// The version selects the layout: version 1 reads the payload row by row;
/// every other version, 0 and 65535 among them, reads it in bands.
pub proof fn lemma_version_selects_layout(text: Seq<char>, icon: IconView)
    requires
        decoded(text) == Ok::<IconView, DecodeErrorView>(icon),
    ensures
        icon.file_version == 1 ==> icon.pixels == row_major_grid(
            split(text, delimiter())[3],
            icon.width,
            icon.height,
        ),
        icon.file_version != 1 ==> icon.pixels == banded_grid(
            split(text, delimiter())[3],
            icon.width,
            icon.height,
        ),
{
}

/// Under a valid header, a payload shorter than the grid is refused as
/// truncated, whatever the version, and no icon is returned; a payload that
/// fills the grid gives an icon.
pub proof fn lemma_short_payload_is_truncated(text: Seq<char>)
    requires
        has_valid_header(text),
    ensures
        split(text, delimiter())[3].len() < cells_announced(text) ==> decoded(text) == Err::<
            IconView,
            DecodeErrorView,
        >((DecodeErrorView::TruncatedData { position: split(text, delimiter())[3].len() })),
        split(text, delimiter())[3].len() >= cells_announced(text) ==> decoded(text) is Ok,
{
}

/// A text of fewer than four segments is refused as malformed, whatever
/// its segments hold.
pub proof fn lemma_few_segments_are_malformed(text: Seq<char>)
    requires
        split(text, delimiter()).len() < 4,
    ensures
        decoded(text) == Err::<IconView, DecodeErrorView>(
            (DecodeErrorView::MalformedHeader { segments: split(text, delimiter()).len() }),
        ),
{
}

} // verus!
