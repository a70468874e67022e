//! The point record: three coordinates, each held as the decimal text it is
//! written with.

use vstd::prelude::*;
use vstd::string::*;
use crate::decimal::decimal_digits;

verus! {

pub const COLON: u8 = 58;
pub const SPACE: u8 = 32;
pub const COMMA: u8 = 44;
pub const OPEN_BRACE: u8 = 123;
pub const CLOSE_BRACE: u8 = 125;
pub const NEWLINE: u8 = 10;
pub const LETTER_X: u8 = 120;
pub const LETTER_Y: u8 = 121;
pub const LETTER_Z: u8 = 122;

/// Whether `b` may occur in the text of a number: an ASCII digit or letter,
/// a sign or the decimal point.
pub open spec fn is_number_byte(b: u8) -> bool {
    ||| 48 <= b <= 57
    ||| 65 <= b <= 90
    ||| 97 <= b <= 122
    ||| b == 43
    ||| b == 45
    ||| b == 46
}

/// Whether `s` can stand for a number in the inline form: it is not empty and
/// holds number bytes only, so none of the bytes that delimit a field.
pub open spec fn is_number_text(s: Seq<u8>) -> bool {
    &&& s.len() > 0
    &&& forall|i: int| 0 <= i < s.len() ==> is_number_byte(#[trigger] s[i])
}

/// One coordinate of a point. Its view is the text of the number.
#[derive(Debug, PartialEq, Eq)]
pub struct Coordinate {
    text: Vec<u8>,
}

impl View for Coordinate {
    type V = Seq<u8>;

    closed spec fn view(&self) -> Seq<u8> {
        self.text@
    }
}

impl Coordinate {
    /// What holds of every coordinate: its text is a number text.
    #[verifier::type_invariant]
    pub open spec fn valid(&self) -> bool {
        is_number_text(self@)
    }

    /// Takes the text of a number as a coordinate, or refuses a text that is
    /// no number text.
    pub fn from_text(text: &str) -> (r: Option<Coordinate>)
        ensures
            match r {
                Some(c) => c@ == text.spec_bytes() && is_number_text(c@),
                None => !is_number_text(text.spec_bytes()),
            },
    {
        let bytes = text.as_bytes();
        if bytes.len() == 0 {
            return None;
        }
        let mut i: usize = 0;
        while i < bytes.len()
            invariant
                i <= bytes@.len(),
                bytes@ == text.spec_bytes(),
                forall|j: int| 0 <= j < i ==> is_number_byte(#[trigger] bytes@[j]),
            decreases bytes@.len() - i,
        {
            if !number_byte(bytes[i]) {
                assert(!is_number_byte(text.spec_bytes()[i as int]));
                return None;
            }
            i += 1;
        }
        Some(Coordinate { text: vstd::slice::slice_to_vec(bytes) })
    }

    /// The text of the number.
    pub fn as_bytes(&self) -> (r: &[u8])
        ensures
            r@ == self@,
            is_number_text(r@),
    {
        proof {
            use_type_invariant(self);
        }
        self.text.as_slice()
    }
}

/// Decides [`is_number_byte`].
pub fn number_byte(b: u8) -> (r: bool)
    ensures
        r == is_number_byte(b),
{
    (48 <= b && b <= 57) || (65 <= b && b <= 90) || (97 <= b && b <= 122) || b == 43 || b == 45
        || b == 46
}

/// A point in space.
#[derive(Debug, PartialEq, Eq)]
pub struct Point {
    pub x: Coordinate,
    pub y: Coordinate,
    pub z: Coordinate,
}

/// What a point is to the contracts: the texts of its three coordinates.
pub ghost struct PointView {
    pub x: Seq<u8>,
    pub y: Seq<u8>,
    pub z: Seq<u8>,
}

impl PointView {
    /// Each coordinate is a number text.
    pub open spec fn wf(self) -> bool {
        &&& is_number_text(self.x)
        &&& is_number_text(self.y)
        &&& is_number_text(self.z)
    }
}

impl View for Point {
    type V = PointView;

    open spec fn view(&self) -> PointView {
        PointView { x: self.x@, y: self.y@, z: self.z@ }
    }
}

/// What follows the key on a line: `: {x: `.
pub open spec fn after_key() -> Seq<u8> {
    seq![COLON, SPACE, OPEN_BRACE, LETTER_X, COLON, SPACE]
}

/// What parts `x` from `y`: `, y: `.
pub open spec fn before_y() -> Seq<u8> {
    seq![COMMA, SPACE, LETTER_Y, COLON, SPACE]
}

/// What parts `y` from `z`: `, z: `.
pub open spec fn before_z() -> Seq<u8> {
    seq![COMMA, SPACE, LETTER_Z, COLON, SPACE]
}

/// What ends a line: the closing brace and a newline.
pub open spec fn line_end() -> Seq<u8> {
    seq![CLOSE_BRACE, NEWLINE]
}

/// The line of the inline form for one entry:
/// `<key>: {x: <x>, y: <y>, z: <z>}` and a newline.
pub open spec fn line(key: u32, p: PointView) -> Seq<u8> {
    decimal_digits(key as nat) + after_key() + p.x + before_y() + p.y + before_z() + p.z
        + line_end()
}

impl Point {
    /// A point of the three coordinates.
    pub fn new(x: Coordinate, y: Coordinate, z: Coordinate) -> (p: Point)
        ensures
            p@ == (PointView { x: x@, y: y@, z: z@ }),
            p@.wf(),
    {
        proof {
            use_type_invariant(&x);
            use_type_invariant(&y);
            use_type_invariant(&z);
        }
        Point { x, y, z }
    }

    /// Appends this point's line under `key` to `out`.
    pub fn write_line(&self, key: u32, out: &mut Vec<u8>)
        ensures
            final(out)@ == old(out)@ + line(key, self@),
    {
        crate::decimal::push_decimal(out, key);
        let after_key: [u8; 6] = [COLON, SPACE, OPEN_BRACE, LETTER_X, COLON, SPACE];
        out.extend_from_slice(after_key.as_slice());
        out.extend_from_slice(self.x.as_bytes());
        let before_y: [u8; 5] = [COMMA, SPACE, LETTER_Y, COLON, SPACE];
        out.extend_from_slice(before_y.as_slice());
        out.extend_from_slice(self.y.as_bytes());
        let before_z: [u8; 5] = [COMMA, SPACE, LETTER_Z, COLON, SPACE];
        out.extend_from_slice(before_z.as_slice());
        out.extend_from_slice(self.z.as_bytes());
        let line_end: [u8; 2] = [CLOSE_BRACE, NEWLINE];
        out.extend_from_slice(line_end.as_slice());
        assert(out@ =~= old(out)@ + line(key, self@));
    }
}

} // verus!
