//! The axis environment: its keys, its plots, and how it is written.

use crate::axis::plot::Plot2D;
use crate::key::{put, Key, Keys};
use crate::text::{lines, option_block, push_lines, push_option_block, texts, Render};
use vstd::prelude::*;
use vstd::std_specs::convert::FromSpecImpl;
use vstd::string::*;

/// Plot inside an axis environment.
pub mod plot;

verus! {

/// PGFPlots options passed to the axis environment.
///
/// The most commonly used key-value pairs are variants of this enum. The
/// [`AxisKey::Custom`] variant is provided to add other keys and is written
/// verbatim in the options of the axis environment.
#[derive(Clone, Debug)]
#[non_exhaustive]
pub enum AxisKey {
    /// Custom key-value pairs. These are appended verbatim to the options of
    /// the axis.
    Custom(String),
    /// Control the scaling of the *x* axis.
    XMode(Scale),
    /// Control the scaling of the *y* axis.
    YMode(Scale),
    /// Control the title of the axis environment.
    Title(String),
    /// Control the label of the *x* axis.
    XLabel(String),
    /// Control the label of the *y* axis.
    YLabel(String),
}

impl AxisKey {
    /// The number of the variant, none for a custom key.
    fn slot(&self) -> (r: Option<u8>)
        ensures
            r is Some == self.tag() is Some,
            r is Some ==> self.tag() == Some(r->0 as nat),
    {
        match self {
            AxisKey::Custom(_) => None,
            AxisKey::XMode(_) => Some(0),
            AxisKey::YMode(_) => Some(1),
            AxisKey::Title(_) => Some(2),
            AxisKey::XLabel(_) => Some(3),
            AxisKey::YLabel(_) => Some(4),
        }
    }
}

impl Key for AxisKey {
    open spec fn tag(&self) -> Option<nat> {
        match self {
            AxisKey::Custom(_) => None,
            AxisKey::XMode(_) => Some(0),
            AxisKey::YMode(_) => Some(1),
            AxisKey::Title(_) => Some(2),
            AxisKey::XLabel(_) => Some(3),
            AxisKey::YLabel(_) => Some(4),
        }
    }

    fn is_verbatim(&self) -> (r: bool) {
        self.slot().is_none()
    }

    fn same_tag(&self, other: &Self) -> (r: bool) {
        match (self.slot(), other.slot()) {
            (Some(mine), Some(theirs)) => mine == theirs,
            (None, None) => true,
            _ => false,
        }
    }
}

impl Render for AxisKey {
    open spec fn text(&self) -> Seq<char> {
        match self {
            AxisKey::Custom(key) => key@,
            AxisKey::XMode(value) => "xmode="@ + value.text(),
            AxisKey::YMode(value) => "ymode="@ + value.text(),
            AxisKey::Title(value) => "title={"@ + value@ + "}"@,
            AxisKey::XLabel(value) => "xlabel={"@ + value@ + "}"@,
            AxisKey::YLabel(value) => "ylabel={"@ + value@ + "}"@,
        }
    }

    fn to_string(&self) -> (r: String) {
        match self {
            AxisKey::Custom(key) => key.clone(),
            AxisKey::XMode(value) => String::from_str("xmode=").concat(value.to_string().as_str()),
            AxisKey::YMode(value) => String::from_str("ymode=").concat(value.to_string().as_str()),
            AxisKey::Title(value) => String::from_str("title={").concat(value.as_str()).concat(
                "}",
            ),
            AxisKey::XLabel(value) => String::from_str("xlabel={").concat(value.as_str()).concat(
                "}",
            ),
            AxisKey::YLabel(value) => String::from_str("ylabel={").concat(value.as_str()).concat(
                "}",
            ),
        }
    }
}

/// Axis environment inside a picture.
///
/// An [`Axis`] is equivalent to the PGFPlots axis environment:
///
/// ```text
/// \begin{axis}[AxisKeys]
///     % plots
/// \end{axis}
/// ```
#[derive(Clone, Debug)]
pub struct Axis {
    pub keys: Keys<AxisKey>,
    pub plots: Vec<Plot2D>,
}

/// `key` sets the title of an axis to `title`.
pub open spec fn is_title(key: AxisKey, title: Seq<char>) -> bool {
    key matches AxisKey::Title(text) && text@ == title
}

/// `key` sets the label of the *x* axis to `label`.
pub open spec fn is_x_label(key: AxisKey, label: Seq<char>) -> bool {
    key matches AxisKey::XLabel(text) && text@ == label
}

/// `key` sets the label of the *y* axis to `label`.
pub open spec fn is_y_label(key: AxisKey, label: Seq<char>) -> bool {
    key matches AxisKey::YLabel(text) && text@ == label
}

impl Axis {
    /// Creates a new, empty axis environment.
    pub fn new() -> (r: Self)
        ensures
            r.keys@ == Seq::<AxisKey>::empty(),
            r.plots@ == Seq::<Plot2D>::empty(),
            r.keys.wf(),
    {
        Axis { keys: Keys::new(), plots: Vec::new() }
    }

    /// Set the title of the axis environment. This can be valid LaTeX e.g.
    /// inline math. An earlier title is replaced.
    pub fn set_title(&mut self, title: &str)
        ensures
            exists|key: AxisKey|
                is_title(key, title@) && final(self).keys@ == put(old(self).keys@, key),
            final(self).plots == old(self).plots,
            old(self).keys.wf() ==> final(self).keys.wf(),
    {
        let key = AxisKey::Title(String::from_str(title));
        assert(is_title(key, title@));
        self.add_key(key);
    }

    /// Set the label of the *x* axis. This can be valid LaTeX e.g. inline
    /// math. An earlier label of the *x* axis is replaced.
    pub fn set_x_label(&mut self, label: &str)
        ensures
            exists|key: AxisKey|
                is_x_label(key, label@) && final(self).keys@ == put(old(self).keys@, key),
            final(self).plots == old(self).plots,
            old(self).keys.wf() ==> final(self).keys.wf(),
    {
        let key = AxisKey::XLabel(String::from_str(label));
        assert(is_x_label(key, label@));
        self.add_key(key);
    }

    /// Set the label of the *y* axis. This can be valid LaTeX e.g. inline
    /// math. An earlier label of the *y* axis is replaced.
    pub fn set_y_label(&mut self, label: &str)
        ensures
            exists|key: AxisKey|
                is_y_label(key, label@) && final(self).keys@ == put(old(self).keys@, key),
            final(self).plots == old(self).plots,
            old(self).keys.wf() ==> final(self).keys.wf(),
    {
        let key = AxisKey::YLabel(String::from_str(label));
        assert(is_y_label(key, label@));
        self.add_key(key);
    }

    /// Add a key to control the appearance of the axis. This replaces the
    /// key of the same variant, if there is one, and the new key comes last;
    /// a custom key replaces nothing.
    pub fn add_key(&mut self, key: AxisKey)
        ensures
            final(self).keys@ == put(old(self).keys@, key),
            final(self).plots == old(self).plots,
            old(self).keys.wf() ==> final(self).keys.wf(),
    {
        self.keys.add(key);
    }
}

impl Default for Axis {
    fn default() -> (r: Self)
        ensures
            r.keys@ == Seq::<AxisKey>::empty(),
            r.plots@ == Seq::<Plot2D>::empty(),
            r.keys.wf(),
    {
        Axis::new()
    }
}

impl Render for Axis {
    /// The axis environment: the opening with the block of keys, the plots
    /// one after the other, the closing.
    open spec fn text(&self) -> Seq<char> {
        "\\begin{axis}"@ + option_block(texts(self.keys@)) + "\n"@ + lines(
            texts(self.plots@),
            ""@,
            "\n"@,
        ) + "\\end{axis}"@
    }

    fn to_string(&self) -> (r: String) {
        let mut out = String::from_str("\\begin{axis}");
        push_option_block(&mut out, self.keys.as_vec());
        out.append("\n");
        push_lines(&mut out, &self.plots, "", "\n");
        out.append("\\end{axis}");
        assert(out@ =~= self.text());
        out
    }
}

/// An axis without keys is written without brackets: the line of the
/// opening ends right after the name of the environment.
pub proof fn lemma_axis_without_keys_has_no_brackets(axis: Axis)
    requires
        axis.keys@.len() == 0,
    ensures
        axis.text() == "\\begin{axis}"@ + "\n"@ + lines(texts(axis.plots@), ""@, "\n"@)
            + "\\end{axis}"@,
{
    assert(option_block(texts(axis.keys@)) =~= Seq::<char>::empty());
    assert("\\begin{axis}"@ + Seq::<char>::empty() =~= "\\begin{axis}"@);
}

impl FromSpecImpl<Plot2D> for Axis {
    open spec fn obeys_from_spec() -> bool {
        false
    }

    open spec fn from_spec(plot: Plot2D) -> Axis {
        arbitrary()
    }
}

impl From<Plot2D> for Axis {
    /// An axis without keys that holds the one plot.
    fn from(plot: Plot2D) -> (r: Axis)
        ensures
            r.keys@ == Seq::<AxisKey>::empty(),
            r.plots@ == seq![plot],
            r.keys.wf(),
    {
        let mut plots = Vec::new();
        plots.push(plot);
        assert(plots@ =~= seq![plot]);
        Axis { keys: Keys::new(), plots }
    }
}

/// Control the scaling of an axis.
#[derive(Clone, Copy, Debug)]
pub enum Scale {
    /// Logarithmic scaling i.e. apply the natural logarithm to each coordinate.
    Log,
    /// Linear scaling of the coordinates.
    Normal,
}

impl Render for Scale {
    open spec fn text(&self) -> Seq<char> {
        match self {
            Scale::Log => "log"@,
            Scale::Normal => "normal"@,
        }
    }

    fn to_string(&self) -> (r: String) {
        match self {
            Scale::Log => String::from_str("log"),
            Scale::Normal => String::from_str("normal"),
        }
    }
}

} // verus!
