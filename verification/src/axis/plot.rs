//! A plot and what styles it: keys, plot types, error bars and markers.

pub use crate::axis::plot::color::Color;
use crate::axis::plot::coordinate::Coordinate2D;
use crate::key::{put, Key, Keys};
use crate::number::Number;
use crate::text::{joined, lines, push_joined, push_lines, texts, Render};
use vstd::prelude::*;
use vstd::string::*;

/// Universal color utility.
pub mod color;
/// Coordinates inside a plot.
pub mod coordinate;

verus! {

/// PGFPlots options passed to a plot.
///
/// The most commonly used key-value pairs are variants of this enum. The
/// [`PlotKey::Custom`] variant is provided to add other keys and is written
/// verbatim in the options of the `\addplot[...]` command.
#[derive(Clone, Debug)]
#[non_exhaustive]
pub enum PlotKey {
    /// Custom key-value pairs. These are appended verbatim to the options of
    /// the `\addplot[...]` command.
    Custom(String),
    /// Control the type of two dimensional plots.
    Type2D(Type2D),
    /// Control the character (absolute or relative) of the error bars of the
    /// *x* coordinates. Error bars are not drawn unless
    /// [`PlotKey::XErrorDirection`] is also set.
    XError(ErrorCharacter),
    /// Control the direction of the error bars of the *x* coordinates. Error
    /// bars are not drawn unless [`PlotKey::XError`] is also set.
    XErrorDirection(ErrorDirection),
    /// Control the character (absolute or relative) of the error bars of the
    /// *y* coordinates. Error bars are not drawn unless
    /// [`PlotKey::YErrorDirection`] is also set.
    YError(ErrorCharacter),
    /// Control the direction of the error bars of the *y* coordinates. Error
    /// bars are not drawn unless [`PlotKey::YError`] is also set.
    YErrorDirection(ErrorDirection),
    /// Control the shape, color and size of markers.
    Marker(Marker),
}

impl PlotKey {
    /// The number of the variant, none for a custom key.
    fn slot(&self) -> (r: Option<u8>)
        ensures
            r is Some == self.tag() is Some,
            r is Some ==> self.tag() == Some(r->0 as nat),
    {
        match self {
            PlotKey::Custom(_) => None,
            PlotKey::Type2D(_) => Some(0),
            PlotKey::XError(_) => Some(1),
            PlotKey::XErrorDirection(_) => Some(2),
            PlotKey::YError(_) => Some(3),
            PlotKey::YErrorDirection(_) => Some(4),
            PlotKey::Marker(_) => Some(5),
        }
    }
}

impl Key for PlotKey {
    open spec fn tag(&self) -> Option<nat> {
        match self {
            PlotKey::Custom(_) => None,
            PlotKey::Type2D(_) => Some(0),
            PlotKey::XError(_) => Some(1),
            PlotKey::XErrorDirection(_) => Some(2),
            PlotKey::YError(_) => Some(3),
            PlotKey::YErrorDirection(_) => Some(4),
            PlotKey::Marker(_) => Some(5),
        }
    }

    fn is_verbatim(&self) -> (r: bool) {
        self.slot().is_none()
    }

    fn same_tag(&self, other: &Self) -> (r: bool) {
        match (self.slot(), other.slot()) {
            (Some(mine), Some(theirs)) => mine == theirs,
            (None, None) => true,
            _ => false,
        }
    }
}

impl Render for PlotKey {
    open spec fn text(&self) -> Seq<char> {
        match self {
            PlotKey::Custom(key) => key@,
            PlotKey::Type2D(value) => value.text(),
            PlotKey::XError(value) => "error bars/x "@ + value.text(),
            PlotKey::XErrorDirection(value) => "error bars/x dir="@ + value.text(),
            PlotKey::YError(value) => "error bars/y "@ + value.text(),
            PlotKey::YErrorDirection(value) => "error bars/y dir="@ + value.text(),
            PlotKey::Marker(marker) => marker.text(),
        }
    }

    fn to_string(&self) -> (r: String) {
        match self {
            PlotKey::Custom(key) => key.clone(),
            PlotKey::Type2D(value) => value.to_string(),
            PlotKey::XError(value) => String::from_str("error bars/x ").concat(
                value.to_string().as_str(),
            ),
            PlotKey::XErrorDirection(value) => String::from_str("error bars/x dir=").concat(
                value.to_string().as_str(),
            ),
            PlotKey::YError(value) => String::from_str("error bars/y ").concat(
                value.to_string().as_str(),
            ),
            PlotKey::YErrorDirection(value) => String::from_str("error bars/y dir=").concat(
                value.to_string().as_str(),
            ),
            PlotKey::Marker(marker) => marker.to_string(),
        }
    }
}

/// Two-dimensional plot inside an axis.
///
/// Adding a [`Plot2D`] to an axis environment is equivalent to:
///
/// ```text
/// \addplot[PlotKeys]
///     % coordinates;
/// ```
#[derive(Clone, Debug)]
pub struct Plot2D {
    pub keys: Keys<PlotKey>,
    pub coordinates: Vec<Coordinate2D>,
}

impl Plot2D {
    /// Creates a new, empty two-dimensional plot.
    pub fn new() -> (r: Self)
        ensures
            r.keys@ == Seq::<PlotKey>::empty(),
            r.coordinates@ == Seq::<Coordinate2D>::empty(),
            r.keys.wf(),
    {
        Plot2D { keys: Keys::new(), coordinates: Vec::new() }
    }

    /// Add a key to control the appearance of the plot. This replaces the
    /// key of the same variant, if there is one, and the new key comes last;
    /// a custom key replaces nothing.
    pub fn add_key(&mut self, key: PlotKey)
        ensures
            final(self).keys@ == put(old(self).keys@, key),
            final(self).coordinates == old(self).coordinates,
            old(self).keys.wf() ==> final(self).keys.wf(),
    {
        self.keys.add(key);
    }
}

impl Default for Plot2D {
    fn default() -> (r: Self)
        ensures
            r.keys@ == Seq::<PlotKey>::empty(),
            r.coordinates@ == Seq::<Coordinate2D>::empty(),
            r.keys.wf(),
    {
        Plot2D::new()
    }
}

impl Render for Plot2D {
    /// The `\addplot` command: the keys one per line between the brackets,
    /// which stay on one line without keys, then the coordinates one per
    /// line between braces.
    open spec fn text(&self) -> Seq<char> {
        "\t\\addplot["@ + (if self.keys@.len() > 0 {
            "\n"@ + lines(texts(self.keys@), "\t\t"@, ",\n"@) + "\t"@
        } else {
            Seq::empty()
        }) + "] coordinates {\n"@ + lines(texts(self.coordinates@), "\t\t"@, "\n"@) + "\t};"@
    }

    fn to_string(&self) -> (r: String) {
        let mut out = String::from_str("\t\\addplot[");
        if self.keys.as_vec().len() > 0 {
            out.append("\n");
            push_lines(&mut out, self.keys.as_vec(), "\t\t", ",\n");
            out.append("\t");
        }
        out.append("] coordinates {\n");
        push_lines(&mut out, &self.coordinates, "\t\t", "\n");
        out.append("\t};");
        assert(out@ =~= self.text());
        out
    }
}

/// Control the type of two dimensional plots.
#[derive(Clone, Copy, Debug)]
#[non_exhaustive]
pub enum Type2D {
    /// Coordinates are simply connected by straight lines.
    SharpPlot,
    /// Interpolate smoothly between successive points. The `tension` controls
    /// how "smooth" a plot is; a higher value results in more "round" curves.
    Smooth { tension: Number },
    /// Coordinates are connected with horizontal and vertical lines. Marks are
    /// placed to the left of each horizontal line.
    ConstLeft,
    /// Coordinates are connected with horizontal and vertical lines. Marks are
    /// placed to the right of each horizontal line.
    ConstRight,
    /// Coordinates are connected with horizontal and vertical lines. Marks are
    /// placed to the middle of each horizontal line.
    ConstMid,
    /// Variant of [`Type2D::ConstLeft`] which does not draw vertical lines.
    JumpLeft,
    /// Variant of [`Type2D::ConstRight`] which does not draw vertical lines.
    JumpRight,
    /// Variant of [`Type2D::ConstMid`] which does not draw vertical lines.
    JumpMid,
    /// Draw horizontal bars between the *y = 0* line and each coordinate. The
    /// `bar_width` field controls the width of the horizontal bars, and
    /// `bar_shift` controls the vertical shift.
    XBar { bar_width: Number, bar_shift: Number },
    /// Draw vertical bars between the *x = 0* line and each coordinate. The
    /// `bar_width` field controls the width of the vertical bars, and
    /// `bar_shift` controls the horizontal shift.
    YBar { bar_width: Number, bar_shift: Number },
    /// Similar to [`Type2D::XBar`] except that it draws a single horizontal
    /// lines instead of rectangles.
    XComb,
    /// Similar to [`Type2D::YBar`] except that it draws a single vertical
    /// lines instead of rectangles.
    YComb,
    /// Draw only markers.
    OnlyMarks,
}

impl Render for Type2D {
    open spec fn text(&self) -> Seq<char> {
        match self {
            Type2D::SharpPlot => "sharp plot"@,
            Type2D::Smooth { tension } => "smooth, tension="@ + tension.text(),
            Type2D::ConstLeft => "const plot mark left"@,
            Type2D::ConstRight => "const plot mark right"@,
            Type2D::ConstMid => "const plot mark mid"@,
            Type2D::JumpLeft => "jump mark left"@,
            Type2D::JumpRight => "jump mark right"@,
            Type2D::JumpMid => "jump mark mid"@,
            Type2D::XBar { bar_width, bar_shift } => "xbar, bar width="@ + bar_width.text()
                + ", bar shift="@ + bar_shift.text(),
            Type2D::YBar { bar_width, bar_shift } => "ybar, bar width="@ + bar_width.text()
                + ", bar shift="@ + bar_shift.text(),
            Type2D::XComb => "xcomb"@,
            Type2D::YComb => "ycomb"@,
            Type2D::OnlyMarks => "only marks"@,
        }
    }

    fn to_string(&self) -> (r: String) {
        match self {
            Type2D::SharpPlot => String::from_str("sharp plot"),
            Type2D::Smooth { tension } => String::from_str("smooth, tension=").concat(
                tension.to_string().as_str(),
            ),
            Type2D::ConstLeft => String::from_str("const plot mark left"),
            Type2D::ConstRight => String::from_str("const plot mark right"),
            Type2D::ConstMid => String::from_str("const plot mark mid"),
            Type2D::JumpLeft => String::from_str("jump mark left"),
            Type2D::JumpRight => String::from_str("jump mark right"),
            Type2D::JumpMid => String::from_str("jump mark mid"),
            Type2D::XBar { bar_width, bar_shift } => {
                let mut out = String::from_str("xbar, bar width=");
                out.append(bar_width.to_string().as_str());
                out.append(", bar shift=");
                out.append(bar_shift.to_string().as_str());
                out
            },
            Type2D::YBar { bar_width, bar_shift } => {
                let mut out = String::from_str("ybar, bar width=");
                out.append(bar_width.to_string().as_str());
                out.append(", bar shift=");
                out.append(bar_shift.to_string().as_str());
                out
            },
            Type2D::XComb => String::from_str("xcomb"),
            Type2D::YComb => String::from_str("ycomb"),
            Type2D::OnlyMarks => String::from_str("only marks"),
        }
    }
}

/// Control the character of error bars.
#[derive(Clone, Copy, Debug)]
pub enum ErrorCharacter {
    /// The value of an error (if any) is absolute.
    Absolute,
    /// The value of an error (if any) is relative to the value of the
    /// coordinate.
    Relative,
}

impl Render for ErrorCharacter {
    open spec fn text(&self) -> Seq<char> {
        match self {
            ErrorCharacter::Absolute => "explicit"@,
            ErrorCharacter::Relative => "explicit relative"@,
        }
    }

    fn to_string(&self) -> (r: String) {
        match self {
            ErrorCharacter::Absolute => String::from_str("explicit"),
            ErrorCharacter::Relative => String::from_str("explicit relative"),
        }
    }
}

/// Control the direction of error bars.
#[derive(Clone, Copy, Debug)]
pub enum ErrorDirection {
    /// Draws no error bars.
    Neither,
    /// Draws only upper bounds in the direction of interest.
    Plus,
    /// Draws only lower bounds in the direction of interest.
    Minus,
    /// Draws upper and lower bounds in the direction of interest.
    Both,
}

impl Render for ErrorDirection {
    open spec fn text(&self) -> Seq<char> {
        match self {
            ErrorDirection::Neither => "none"@,
            ErrorDirection::Plus => "plus"@,
            ErrorDirection::Minus => "minus"@,
            ErrorDirection::Both => "both"@,
        }
    }

    fn to_string(&self) -> (r: String) {
        match self {
            ErrorDirection::Neither => String::from_str("none"),
            ErrorDirection::Plus => String::from_str("plus"),
            ErrorDirection::Minus => String::from_str("minus"),
            ErrorDirection::Both => String::from_str("both"),
        }
    }
}

/// Control shape, size and color of markers.
#[derive(Clone, Debug)]
pub struct Marker {
    shape: MarkShape,
    options: Vec<MarkOption>,
}

impl Marker {
    /// The shape of the marker.
    pub closed spec fn shape(&self) -> MarkShape {
        self.shape
    }

    /// The options of the marker, in the order in which they are written.
    pub closed spec fn options(&self) -> Seq<MarkOption> {
        self.options@
    }

    /// A marker of that shape with those options, which are all kept, in
    /// their order.
    pub fn new(shape: MarkShape, options: Vec<MarkOption>) -> (r: Self)
        ensures
            r.shape() == shape,
            r.options() == options@,
    {
        Self { shape, options }
    }
}

impl Render for Marker {
    /// The shape, then the options between braces with a comma and a space
    /// between neighbours.
    open spec fn text(&self) -> Seq<char> {
        "mark="@ + self.shape().text() + ", mark options={"@ + joined(
            texts(self.options()),
            ", "@,
        ) + "}"@
    }

    fn to_string(&self) -> (r: String) {
        let mut out = String::from_str("mark=");
        out.append(self.shape.to_string().as_str());
        out.append(", mark options={");
        push_joined(&mut out, &self.options, ", ");
        out.append("}");
        assert(out@ =~= self.text());
        out
    }
}

/// Control the shape of markers.
#[derive(Clone, Debug)]
pub enum MarkShape {
    /// Set the marker to a circle.
    O,
    /// Set the marker to a filled circle.
    OFilled,
    /// Set the marker to a cross.
    X,
    /// Set the marker to a plus sign.
    Plus,
    /// Set the marker to a minus sign.
    Minus,
    /// Set the marker to a vertical bar.
    Pipe,
    /// Set the marker to a five-pointed star.
    Star,
    /// Set the marker to an asterisk.
    Asterisk,
    /// Set the marker to a circled plus sign.
    OPlus,
    /// Same as [`MarkShape::OPlus`] but filled with a color.
    OPlusFilled,
    /// Set the marker to a circled cross.
    OTimes,
    /// Same as [`MarkShape::OTimes`] but filled with a color.
    OTimesFilled,
    /// Set the marker to a square.
    Square,
    /// Same as [`MarkShape::Square`] but filled with a color.
    SquareFilled,
    /// Set the marker to a triangle.
    Triangle,
    /// Same as [`MarkShape::Triangle`] but filled with a color.
    TriangleFilled,
    /// Set the marker to a diamond.
    Diamond,
    /// Same as [`MarkShape::Diamond`] but filled with a color.
    DiamondFilled,
    /// Set the marker to a pentagon.
    Pentagon,
    /// Same as [`MarkShape::Pentagon`] but filled with a color.
    PentagonFilled,
    /// Set the marker to specified text.
    Text(String),
}

impl Render for MarkShape {
    /// The name of the shape as the `mark` key takes it. The text shape is
    /// the name `text` followed by the key that carries the text itself.
    open spec fn text(&self) -> Seq<char> {
        match self {
            MarkShape::O => "o"@,
            MarkShape::OFilled => "*"@,
            MarkShape::X => "x"@,
            MarkShape::Plus => "+"@,
            MarkShape::Minus => "-"@,
            MarkShape::Pipe => "|"@,
            MarkShape::Star => "star"@,
            MarkShape::Asterisk => "asterisk"@,
            MarkShape::OPlus => "oplus"@,
            MarkShape::OPlusFilled => "oplus*"@,
            MarkShape::OTimes => "otimes"@,
            MarkShape::OTimesFilled => "otimes*"@,
            MarkShape::Square => "square"@,
            MarkShape::SquareFilled => "square*"@,
            MarkShape::Triangle => "triangle"@,
            MarkShape::TriangleFilled => "triangle*"@,
            MarkShape::Diamond => "diamond"@,
            MarkShape::DiamondFilled => "diamond*"@,
            MarkShape::Pentagon => "pentagon"@,
            MarkShape::PentagonFilled => "pentagon*"@,
            MarkShape::Text(text) => "text, text mark="@ + text@,
        }
    }

    fn to_string(&self) -> (r: String) {
        match self {
            MarkShape::O => String::from_str("o"),
            MarkShape::OFilled => String::from_str("*"),
            MarkShape::X => String::from_str("x"),
            MarkShape::Plus => String::from_str("+"),
            MarkShape::Minus => String::from_str("-"),
            MarkShape::Pipe => String::from_str("|"),
            MarkShape::Star => String::from_str("star"),
            MarkShape::Asterisk => String::from_str("asterisk"),
            MarkShape::OPlus => String::from_str("oplus"),
            MarkShape::OPlusFilled => String::from_str("oplus*"),
            MarkShape::OTimes => String::from_str("otimes"),
            MarkShape::OTimesFilled => String::from_str("otimes*"),
            MarkShape::Square => String::from_str("square"),
            MarkShape::SquareFilled => String::from_str("square*"),
            MarkShape::Triangle => String::from_str("triangle"),
            MarkShape::TriangleFilled => String::from_str("triangle*"),
            MarkShape::Diamond => String::from_str("diamond"),
            MarkShape::DiamondFilled => String::from_str("diamond*"),
            MarkShape::Pentagon => String::from_str("pentagon"),
            MarkShape::PentagonFilled => String::from_str("pentagon*"),
            MarkShape::Text(text) => String::from_str("text, text mark=").concat(text.as_str()),
        }
    }
}

/// Control the color and scaling of markers.
#[non_exhaustive]
#[derive(Clone, Debug)]
pub enum MarkOption {
    /// Scale the size of the marker.
    Scale(Number),
    /// Color the body of the marker. Only filled shapes support filling the
    /// body.
    Fill(Color),
    /// Color the edge of the marker.
    Draw(Color),
    /// Scale the size of the marker on the x-axis only.
    XScale(Number),
    /// Scale the size of the marker on the y-axis only.
    YScale(Number),
}

impl Render for MarkOption {
    open spec fn text(&self) -> Seq<char> {
        match self {
            MarkOption::Scale(number) => "scale="@ + number.text(),
            MarkOption::Fill(color) => "fill="@ + color.text(),
            MarkOption::Draw(color) => "draw="@ + color.text(),
            MarkOption::XScale(number) => "xscale="@ + number.text(),
            MarkOption::YScale(number) => "yscale="@ + number.text(),
        }
    }

    fn to_string(&self) -> (r: String) {
        match self {
            MarkOption::Scale(number) => String::from_str("scale=").concat(
                number.to_string().as_str(),
            ),
            MarkOption::Fill(color) => String::from_str("fill=").concat(
                color.to_string().as_str(),
            ),
            MarkOption::Draw(color) => String::from_str("draw=").concat(
                color.to_string().as_str(),
            ),
            MarkOption::XScale(number) => String::from_str("xscale=").concat(
                number.to_string().as_str(),
            ),
            MarkOption::YScale(number) => String::from_str("yscale=").concat(
                number.to_string().as_str(),
            ),
        }
    }
}

} // verus!
