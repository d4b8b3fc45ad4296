//! The file format: `<name>;;<version>;;<width>x<height>;;<payload>`.

use crate::builder::SimpleIconBuilder;
use crate::error::{DecodeError, DecodeErrorView};
use crate::icon::{IconView, SimpleIcon};
use crate::layout::{banded_grid, row_major_grid, well_shaped};
use crate::number::{decimal_value, is_digit, parse_decimal, strip_plus};
use crate::text::{
    collect_chars, first_occurrence, lemma_first_occurrence_absent, lemma_split_pieces, occurs_at,
    split, split_first,
};
use vstd::prelude::*;
use vstd::slice::slice_to_vec;

verus! {

/// What separates the segments of a file: two semicolons.
pub open spec fn delimiter() -> Seq<char> {
    seq![';', ';']
}

/// What separates width and height in the dimension field.
pub open spec fn dimension_separator() -> Seq<char> {
    seq!['x']
}

/// Width and height written in a dimension field: exactly two parts around
/// one `x`, each an unsigned 32-bit decimal number.
pub open spec fn dimensions_of(field: Seq<char>) -> Option<(nat, nat)> {
    let parts = split(field, dimension_separator());
    if parts.len() == 2 {
        match (decimal_value(parts[0], u32::MAX as nat), decimal_value(parts[1], u32::MAX as nat)) {
            (Some(width), Some(height)) => Some((width, height)),
            _ => None,
        }
    } else {
        None
    }
}

/// The grid that a payload holds: version 1 is laid out row by row, every
/// other version in bands.
pub open spec fn pixel_grid(file_version: nat, payload: Seq<char>, width: nat, height: nat) -> Seq<
    Seq<char>,
> {
    if file_version == 1 {
        row_major_grid(payload, width, height)
    } else {
        banded_grid(payload, width, height)
    }
}

/// What the text of a file decodes to.
///
/// The text is split at every `;;`. The first four segments are the name,
/// the version, the dimensions and the payload; further segments are
/// ignored. The checks are made in this order: the number of segments, the
/// version, the dimensions, the length of the payload.
pub open spec fn decoded(text: Seq<char>) -> Result<IconView, DecodeErrorView> {
    let segments = split(text, delimiter());
    if segments.len() < 4 {
        Err(DecodeErrorView::MalformedHeader { segments: segments.len() })
    } else {
        match decimal_value(segments[1], u16::MAX as nat) {
            None => Err(DecodeErrorView::InvalidVersion { text: segments[1] }),
            Some(file_version) => match dimensions_of(segments[2]) {
                None => Err(DecodeErrorView::InvalidDimensions { text: segments[2] }),
                Some((width, height)) => if segments[3].len() < width * height {
                    Err(DecodeErrorView::TruncatedData { position: segments[3].len() })
                } else {
                    Ok(
                        IconView {
                            name: segments[0],
                            file_version,
                            width,
                            height,
                            pixels: pixel_grid(file_version, segments[3], width, height),
                        },
                    )
                },
            },
        }
    }
}

/// A field that reads as a decimal number holds no `x`.
proof fn lemma_number_holds_no_separator(field: Seq<char>, max: nat)
    requires
        decimal_value(field, max) is Some,
    ensures
        first_occurrence(field, dimension_separator()) is None,
        split(field, dimension_separator()) == seq![field],
{
    let digits = strip_plus(field);
    assert forall|j: int| !occurs_at(field, dimension_separator(), j) by {
        if occurs_at(field, dimension_separator(), j) {
            assert(field.subrange(j, j + 1)[0] == 'x');
            assert(field[j] == 'x');
            if field[0] == '+' {
                if j > 0 {
                    assert(digits[j - 1] == field[j]);
                    assert(is_digit(digits[j - 1]));
                }
            } else {
                assert(is_digit(digits[j]));
            }
        }
    }
    lemma_first_occurrence_absent(field, dimension_separator());
}

/// Reads a dimension field.
pub fn parse_dimensions(field: &[char]) -> (dimensions: Option<(u32, u32)>)
    ensures
        dimensions == (match dimensions_of(field@) {
            Some((width, height)) => Some((width as u32, height as u32)),
            None => None::<(u32, u32)>,
        }),
{
    let separator: [char; 1] = ['x'];
    let pattern = separator.as_slice();
    assert(pattern@ =~= dimension_separator());
    let (head, rest) = split_first(field, pattern);
    let tail = match rest {
        Some(tail) => tail,
        None => { return None; },
    };
    proof {
        lemma_split_pieces(tail@, pattern@);
    }
    let width = match parse_decimal(head, u32::MAX as u64) {
        Some(value) => value as u32,
        None => { return None; },
    };
    let height = match parse_decimal(tail, u32::MAX as u64) {
        Some(value) => value as u32,
        None => { return None; },
    };
    proof {
        lemma_number_holds_no_separator(tail@, u32::MAX as nat);
    }
    Some((width, height))
}

/// The characters `from..to` of `text` as a string of their own.
fn segment_text(text: &str, from: usize, to: usize) -> (segment: String)
    requires
        from <= to <= text@.len(),
    ensures
        segment@ == text@.subrange(from as int, to as int),
{
    text.substring_char(from, to).to_owned()
}

/// The mathematical value of what a decoder returned.
pub open spec fn outcome(result: Result<SimpleIcon, DecodeError>) -> Result<
    IconView,
    DecodeErrorView,
> {
    match result {
        Ok(icon) => Ok(icon@),
        Err(e) => Err(e@),
    }
}

/// Decodes the text of a file: the icon that it describes, or the first
/// reason for which it describes none.
pub fn decode(file_text: &str) -> (result: Result<SimpleIcon, DecodeError>)
    ensures
        outcome(result) == decoded(file_text@),
        result matches Ok(icon) ==> well_shaped(icon@.pixels, icon@.width, icon@.height),
{
    let chars = collect_chars(file_text);
    let whole = chars.as_slice();
    let marks: [char; 2] = [';', ';'];
    let pattern = marks.as_slice();
    assert(pattern@ =~= delimiter());

    let (name_field, rest) = split_first(whole, pattern);
    let after_name = match rest {
        Some(tail) => tail,
        None => { return Err(DecodeError::MalformedHeader { segments: 1 }); },
    };
    let (version_field, rest) = split_first(after_name, pattern);
    let after_version = match rest {
        Some(tail) => tail,
        None => { return Err(DecodeError::MalformedHeader { segments: 2 }); },
    };
    let (dimension_field, rest) = split_first(after_version, pattern);
    let after_dimensions = match rest {
        Some(tail) => tail,
        None => { return Err(DecodeError::MalformedHeader { segments: 3 }); },
    };
    // The payload is the fourth segment: it ends at the next delimiter, if
    // there is one.
    let (payload_field, _) = split_first(after_dimensions, pattern);
    proof {
        lemma_split_pieces(after_dimensions@, pattern@);
        let segments = split(file_text@, delimiter());
        assert(segments.len() >= 4);
        assert(segments[0] == name_field@);
        assert(segments[1] == version_field@);
        assert(segments[2] == dimension_field@);
        assert(segments[3] == payload_field@);
    }
    // Where the version and the dimensions stand in the text, for the errors
    // that quote them.
    assert(name_field@.len() + 2 + after_name@.len() == chars@.len());
    assert(version_field@.len() + 2 + after_version@.len() == after_name@.len());
    assert(dimension_field@.len() + 2 + after_dimensions@.len() == after_version@.len());
    let version_start = name_field.len() + 2;
    let version_end = version_start + version_field.len();
    let dimension_start = version_end + 2;
    let dimension_end = dimension_start + dimension_field.len();
    proof {
        assert(file_text@.subrange(0, name_field@.len() as int) =~= name_field@);
        assert(file_text@.subrange(version_start as int, version_end as int) =~= version_field@);
        assert(file_text@.subrange(dimension_start as int, dimension_end as int)
            =~= dimension_field@);
    }
    let file_version = match parse_decimal(version_field, u16::MAX as u64) {
        Some(value) => value as u16,
        None => {
            return Err(
                DecodeError::InvalidVersion {
                    text: segment_text(file_text, version_start, version_end),
                },
            );
        },
    };
    let (width, height) = match parse_dimensions(dimension_field) {
        Some(dimensions) => dimensions,
        None => {
            return Err(
                DecodeError::InvalidDimensions {
                    text: segment_text(file_text, dimension_start, dimension_end),
                },
            );
        },
    };
    let payload = slice_to_vec(payload_field);
    let grid = if file_version == 1 {
        SimpleIconBuilder::parse_data(width, height, payload)
    } else {
        SimpleIconBuilder::parse_data_v2(width, height, payload)
    };
    let data = match grid {
        Ok(data) => data,
        Err(e) => { return Err(e); },
    };
    let name = segment_text(file_text, 0, name_field.len());
    Ok(SimpleIcon::new(name, file_version, width, height, data))
}

} // verus!
