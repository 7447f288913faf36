//! Orbital models built from two-line elements.
//!
//! Decoding the element lines and deriving the propagation constants is the
//! work of the `sgp4` crate; this module states what the session relies on
//! and turns both failures into one error type.

use vstd::prelude::*;
use vstd::utf8::encode_utf8;

verus! {

/// Number of bytes in each line of a two-line element set.
pub const TLE_LINE_LENGTH: usize = 69;

/// Why `sgp4` could not decode a pair of lines.
#[verifier::external_type_specification]
#[verifier::external_body]
pub struct ExTleError(sgp4::TleError);

/// The propagation constants that `sgp4` derives from elements.
#[verifier::external_type_specification]
#[verifier::external_body]
pub struct ExConstants(sgp4::Constants);

/// Why `sgp4` could derive no constants from elements.
#[verifier::external_type_specification]
#[verifier::external_body]
pub struct ExElementsError(sgp4::ElementsError);

/// The bytes of a text in UTF-8.
pub open spec fn line_bytes(text: Seq<char>) -> Seq<u8> {
    encode_utf8(text)
}

/// What a line must be before it is decoded at all: 69 bytes, all of them
/// ASCII, the last of them no less than the digit zero, where the checksum
/// stands.
pub open spec fn has_line_shape(text: Seq<char>) -> bool {
    let bytes = line_bytes(text);
    &&& bytes.len() == TLE_LINE_LENGTH
    &&& bytes[TLE_LINE_LENGTH - 1] >= 48
    &&& forall|i: int| 0 <= i < bytes.len() ==> #[trigger] bytes[i] < 128
}

/// What one byte adds to a line's checksum: a digit its value, a minus
/// sign one, anything else nothing.
pub open spec fn checksum_weight(b: u8) -> int {
    if b == 45 {
        1
    } else if 48 <= b <= 57 {
        b - 48
    } else {
        0
    }
}

/// The sum of the weights of all bytes.
pub open spec fn weight_sum(bytes: Seq<u8>) -> int
    decreases bytes.len(),
{
    if bytes.len() == 0 {
        0
    } else {
        weight_sum(bytes.drop_last()) + checksum_weight(bytes.last())
    }
}

/// The last byte of the line is the digit that the 68 bytes before it sum
/// to, modulo ten.
pub open spec fn has_checksum(text: Seq<char>) -> bool {
    let bytes = line_bytes(text);
    &&& bytes.len() == TLE_LINE_LENGTH
    &&& weight_sum(bytes.take(TLE_LINE_LENGTH - 1)) % 10 == bytes[TLE_LINE_LENGTH - 1] - 48
}

/// Whether `sgp4` decodes the two lines into elements.
pub uninterp spec fn tle_accepted(line_1: Seq<char>, line_2: Seq<char>) -> bool;

/// Whether `sgp4` derives propagation constants from the elements that the
/// two lines decode to.
pub uninterp spec fn elements_usable(line_1: Seq<char>, line_2: Seq<char>) -> bool;

/// Why an update's elements were refused.
#[derive(Debug, Clone, Copy, PartialEq, Eq, Structural)]
pub enum ElementParseError {
    /// A line breaks the two-line encoding: its length, a checksum, a field.
    Encoding,
    /// The lines decode, but to elements that describe no orbit.
    InvalidElements,
}

/// An orbit ready to be propagated.
pub struct OrbitalModel {
    pub constants: sgp4::Constants,
}

/// Calls `sgp4::Elements::from_tle` on the bytes of the two lines, with the
/// satellite's identifier as the object's name, and on the elements it
/// gives `sgp4::Constants::from_elements`. The outer result is that of the
/// decoder, which succeeds exactly on the pairs that `tle_accepted` names
/// and on none with a line whose checksum does not match: it compares both
/// checksums before it builds any element. The inner result is that of the
/// derivation, which succeeds exactly on the pairs that `elements_usable`
/// names. Lines without the shape are kept from the decoder: it reads its
/// fields at fixed byte offsets and subtracts the digit zero from the last
/// byte.
#[verifier::external_body]
fn constants_from_tle(satellite_id: &str, line_1: &str, line_2: &str) -> (r: Result<
    Result<sgp4::Constants, sgp4::ElementsError>,
    sgp4::TleError,
>)
    requires
        has_line_shape(line_1@),
        has_line_shape(line_2@),
    ensures
        r is Ok == tle_accepted(line_1@, line_2@),
        r is Ok ==> has_checksum(line_1@) && has_checksum(line_2@),
        r is Ok ==> (r->Ok_0 is Ok) == elements_usable(line_1@, line_2@),
{
    let name = Some(satellite_id.to_owned());
    match sgp4::Elements::from_tle(name, line_1.as_bytes(), line_2.as_bytes()) {
        Ok(elements) => Ok(sgp4::Constants::from_elements(&elements)),
        Err(e) => Err(e),
    }
}

/// Turns what `sgp4` made of decoded elements into the session's terms:
/// constants become a model, and any refusal is `InvalidElements`.
pub fn model_from(derived: Result<sgp4::Constants, sgp4::ElementsError>) -> (r: Result<
    OrbitalModel,
    ElementParseError,
>)
    ensures
        match derived {
            Ok(constants) => r == Ok::<OrbitalModel, ElementParseError>(
                OrbitalModel { constants },
            ),
            Err(_) => r == Err::<OrbitalModel, ElementParseError>(
                ElementParseError::InvalidElements,
            ),
        },
{
    match derived {
        Ok(constants) => Ok(OrbitalModel { constants }),
        Err(_) => Err(ElementParseError::InvalidElements),
    }
}

/// Tells whether a line has the shape that decoding starts from.
pub fn check_line_shape(line: &str) -> (r: bool)
    ensures
        r == has_line_shape(line@),
{
    let bytes = line.as_bytes();
    if bytes.len() != TLE_LINE_LENGTH {
        return false;
    }
    if bytes[TLE_LINE_LENGTH - 1] < 48 {
        return false;
    }
    let mut i: usize = 0;
    while i < TLE_LINE_LENGTH
        invariant
            bytes@ == line_bytes(line@),
            bytes@.len() == TLE_LINE_LENGTH,
            bytes@[TLE_LINE_LENGTH - 1] >= 48,
            i <= TLE_LINE_LENGTH,
            forall|k: int| 0 <= k < i ==> #[trigger] bytes@[k] < 128,
        decreases TLE_LINE_LENGTH - i,
    {
        if bytes[i] >= 128 {
            return false;
        }
        i = i + 1;
    }
    true
}

/// Whether a pair of lines yields a model: both have the shape of an
/// element line, `sgp4` decodes them, and the elements describe an orbit.
pub open spec fn yields_model(line_1: Seq<char>, line_2: Seq<char>) -> bool {
    &&& has_line_shape(line_1)
    &&& has_line_shape(line_2)
    &&& tle_accepted(line_1, line_2)
    &&& elements_usable(line_1, line_2)
}

/// Whether a pair of lines is refused as badly encoded: a line lacks the
/// shape, or `sgp4` does not decode the pair.
pub open spec fn badly_encoded(line_1: Seq<char>, line_2: Seq<char>) -> bool {
    ||| !has_line_shape(line_1)
    ||| !has_line_shape(line_2)
    ||| !tle_accepted(line_1, line_2)
}

/// Builds the orbital model of one update. There is a model exactly where
/// the pair yields one. A pair that is badly encoded gives `Encoding`, and
/// so does every pair with a line whose checksum does not match; a line
/// without the shape is never handed to the decoder. Every other pair
/// without a model gives `InvalidElements`.
pub fn initialize(line_1: &str, line_2: &str, satellite_id: &str) -> (r: Result<
    OrbitalModel,
    ElementParseError,
>)
    ensures
        r is Ok <==> yields_model(line_1@, line_2@),
        r == Err::<OrbitalModel, ElementParseError>(ElementParseError::Encoding) <==> badly_encoded(
            line_1@,
            line_2@,
        ),
        r == Err::<OrbitalModel, ElementParseError>(ElementParseError::InvalidElements)
            <==> !badly_encoded(line_1@, line_2@) && !elements_usable(line_1@, line_2@),
        !has_checksum(line_1@) || !has_checksum(line_2@) ==> r == Err::<
            OrbitalModel,
            ElementParseError,
        >(ElementParseError::Encoding),
{
    if !check_line_shape(line_1) || !check_line_shape(line_2) {
        return Err(ElementParseError::Encoding);
    }
    match constants_from_tle(satellite_id, line_1, line_2) {
        Err(_) => Err(ElementParseError::Encoding),
        Ok(derived) => model_from(derived),
    }
}

} // verus!
