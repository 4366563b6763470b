//! The points of a plot.

use crate::number::Number;
use crate::text::Render;
use vstd::prelude::*;
use vstd::std_specs::convert::FromSpecImpl;
use vstd::string::*;

verus! {

/// Coordinate in a two-dimensional plot.
#[derive(Clone, Copy, Debug)]
#[non_exhaustive]
pub struct Coordinate2D {
    pub x: Number,
    pub y: Number,
    /// Error bars are not drawn for this value alone: the plot must also set
    /// the character and the direction of the *x* error bars.
    pub error_x: Option<Number>,
    /// Error bars are not drawn for this value alone: the plot must also set
    /// the character and the direction of the *y* error bars.
    pub error_y: Option<Number>,
}

/// The text of an error magnitude, `0` for one that is not set.
pub open spec fn error_text(error: Option<Number>) -> Seq<char> {
    match error {
        Some(magnitude) => magnitude.text(),
        None => "0"@,
    }
}

impl Render for Coordinate2D {
    /// `(x,y)`, followed by both error magnitudes if either is set.
    open spec fn text(&self) -> Seq<char> {
        let point = "("@ + self.x.text() + ","@ + self.y.text() + ")"@;
        if self.error_x is Some || self.error_y is Some {
            point + "\t+- ("@ + error_text(self.error_x) + ","@ + error_text(self.error_y) + ")"@
        } else {
            point
        }
    }

    fn to_string(&self) -> (r: String) {
        let mut out = String::from_str("(");
        out.append(self.x.to_string().as_str());
        out.append(",");
        out.append(self.y.to_string().as_str());
        out.append(")");
        if self.error_x.is_some() || self.error_y.is_some() {
            out.append("\t+- (");
            match &self.error_x {
                Some(magnitude) => out.append(magnitude.to_string().as_str()),
                None => out.append("0"),
            }
            out.append(",");
            match &self.error_y {
                Some(magnitude) => out.append(magnitude.to_string().as_str()),
                None => out.append("0"),
            }
            out.append(")");
        }
        assert(out@ =~= self.text());
        out
    }
}

impl FromSpecImpl<(Number, Number)> for Coordinate2D {
    open spec fn obeys_from_spec() -> bool {
        true
    }

    open spec fn from_spec(coordinate: (Number, Number)) -> Coordinate2D {
        Coordinate2D { x: coordinate.0, y: coordinate.1, error_x: None, error_y: None }
    }
}

impl From<(Number, Number)> for Coordinate2D {
    /// Conversion from an `(x,y)` tuple into a two-dimensional coordinate.
    fn from(coordinate: (Number, Number)) -> (r: Coordinate2D) {
        Coordinate2D { x: coordinate.0, y: coordinate.1, error_x: None, error_y: None }
    }
}

impl FromSpecImpl<(Number, Number, Option<Number>, Option<Number>)> for Coordinate2D {
    open spec fn obeys_from_spec() -> bool {
        true
    }

    open spec fn from_spec(
        coordinate: (Number, Number, Option<Number>, Option<Number>),
    ) -> Coordinate2D {
        Coordinate2D {
            x: coordinate.0,
            y: coordinate.1,
            error_x: coordinate.2,
            error_y: coordinate.3,
        }
    }
}

impl From<(Number, Number, Option<Number>, Option<Number>)> for Coordinate2D {
    /// Conversion from an `(x,y,error_x,error_y)` tuple into a
    /// two-dimensional coordinate.
    fn from(coordinate: (Number, Number, Option<Number>, Option<Number>)) -> (r: Coordinate2D) {
        Coordinate2D {
            x: coordinate.0,
            y: coordinate.1,
            error_x: coordinate.2,
            error_y: coordinate.3,
        }
    }
}

} // verus!
