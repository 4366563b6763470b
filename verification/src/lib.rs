//! Builder for PGFPlots figures: typed coordinates, plots, axes and pictures
//! that render to exact, whitespace-significant markup.
//!
//! A [`Picture`] holds axes, an [`axis::Axis`] holds plots, and an
//! [`axis::plot::Plot2D`] holds coordinates. Each of the three is customised
//! by keys: adding a key replaces the key of the same variant and puts the
//! new key last, while custom keys are written verbatim and accumulate.

use crate::axis::plot::Plot2D;
use crate::axis::Axis;
pub use crate::compile::Engine;
use crate::key::{put, Key, Keys};
use crate::text::{lines, option_block, push_lines, push_option_block, texts, Render};
use vstd::prelude::*;
use vstd::std_specs::convert::FromSpecImpl;
use vstd::string::*;

/// Axis environment inside a picture.
pub mod axis;
pub mod compile;
pub mod key;
pub mod number;
pub mod scientific;
pub mod text;

verus! {

/// TikZ options passed to the picture environment.
///
/// The [`PictureKey::Custom`] variant is written verbatim in the options of
/// the picture environment.
#[derive(Clone, Debug)]
#[non_exhaustive]
pub enum PictureKey {
    /// Custom key-value pairs. These are appended verbatim to the options of
    /// the picture.
    Custom(String),
}

impl Key for PictureKey {
    open spec fn tag(&self) -> Option<nat> {
        None
    }

    fn is_verbatim(&self) -> (r: bool) {
        true
    }

    fn same_tag(&self, other: &Self) -> (r: bool) {
        true
    }
}

impl Render for PictureKey {
    open spec fn text(&self) -> Seq<char> {
        match self {
            PictureKey::Custom(key) => key@,
        }
    }

    fn to_string(&self) -> (r: String) {
        match self {
            PictureKey::Custom(key) => key.clone(),
        }
    }
}

/// Picture environment.
///
/// Creating a [`Picture`] is equivalent to the TikZ graphics environment:
///
/// ```text
/// \begin{tikzpicture}[PictureKeys]
///     % axis environments
/// \end{tikzpicture}
/// ```
#[derive(Clone, Debug)]
pub struct Picture {
    pub keys: Keys<PictureKey>,
    pub axes: Vec<Axis>,
}

impl Picture {
    /// The document that holds nothing but the picture.
    pub open spec fn standalone_text(&self) -> Seq<char> {
        "\\documentclass{standalone}\n"@ + "\\usepackage{pgfplots}\n"@ + "\\begin{document}\n"@
            + self.text() + "\n\\end{document}"@
    }

    /// Create a new, empty picture environment.
    pub fn new() -> (r: Self)
        ensures
            r.keys@ == Seq::<PictureKey>::empty(),
            r.axes@ == Seq::<Axis>::empty(),
            r.keys.wf(),
    {
        Picture { keys: Keys::new(), axes: Vec::new() }
    }

    /// Add a key to control the appearance of the picture. Every key of a
    /// picture is custom, so the key is appended and replaces nothing.
    pub fn add_key(&mut self, key: PictureKey)
        ensures
            final(self).keys@ == put(old(self).keys@, key),
            final(self).keys@ == old(self).keys@.push(key),
            final(self).axes == old(self).axes,
            final(self).keys.wf(),
    {
        self.keys.add(key);
    }

    /// Return a [`String`] with LaTeX code that generates a standalone PDF
    /// with the picture environment.
    ///
    /// # Note
    ///
    /// Passing this string directly to e.g. `pdflatex` will fail to generate
    /// a PDF document. It is usually necessary to replace all the occurrences
    /// of `\n` and `\t` with white space before sending this string as an
    /// argument to a LaTeX compiler.
    pub fn standalone_string(&self) -> (r: String)
        ensures
            r@ == self.standalone_text(),
    {
        let mut out = String::from_str("\\documentclass{standalone}\n");
        out.append("\\usepackage{pgfplots}\n");
        out.append("\\begin{document}\n");
        out.append(self.to_string().as_str());
        out.append("\n\\end{document}");
        out
    }
}

impl Default for Picture {
    fn default() -> (r: Self)
        ensures
            r.keys@ == Seq::<PictureKey>::empty(),
            r.axes@ == Seq::<Axis>::empty(),
            r.keys.wf(),
    {
        Picture::new()
    }
}

impl Render for Picture {
    /// The picture environment: the opening with the block of keys, the axes
    /// one after the other, the closing.
    open spec fn text(&self) -> Seq<char> {
        "\\begin{tikzpicture}"@ + option_block(texts(self.keys@)) + "\n"@ + lines(
            texts(self.axes@),
            ""@,
            "\n"@,
        ) + "\\end{tikzpicture}"@
    }

    fn to_string(&self) -> (r: String) {
        let mut out = String::from_str("\\begin{tikzpicture}");
        push_option_block(&mut out, self.keys.as_vec());
        out.append("\n");
        push_lines(&mut out, &self.axes, "", "\n");
        out.append("\\end{tikzpicture}");
        assert(out@ =~= self.text());
        out
    }
}

/// A picture without keys is written without brackets: the line of the
/// opening ends right after the name of the environment.
pub proof fn lemma_picture_without_keys_has_no_brackets(picture: Picture)
    requires
        picture.keys@.len() == 0,
    ensures
        picture.text() == "\\begin{tikzpicture}"@ + "\n"@ + lines(
            texts(picture.axes@),
            ""@,
            "\n"@,
        ) + "\\end{tikzpicture}"@,
{
    assert(option_block(texts(picture.keys@)) =~= Seq::<char>::empty());
    assert("\\begin{tikzpicture}"@ + Seq::<char>::empty() =~= "\\begin{tikzpicture}"@);
}

impl FromSpecImpl<Axis> for Picture {
    open spec fn obeys_from_spec() -> bool {
        false
    }

    open spec fn from_spec(axis: Axis) -> Picture {
        arbitrary()
    }
}

impl From<Axis> for Picture {
    /// A picture without keys that holds the one axis.
    fn from(axis: Axis) -> (r: Picture)
        ensures
            r.keys@ == Seq::<PictureKey>::empty(),
            r.axes@ == seq![axis],
            r.keys.wf(),
    {
        let mut axes = Vec::new();
        axes.push(axis);
        assert(axes@ =~= seq![axis]);
        Picture { keys: Keys::new(), axes }
    }
}

impl FromSpecImpl<Plot2D> for Picture {
    open spec fn obeys_from_spec() -> bool {
        false
    }

    open spec fn from_spec(plot: Plot2D) -> Picture {
        arbitrary()
    }
}

impl From<Plot2D> for Picture {
    /// A picture without keys that holds one axis without keys, which holds
    /// the one plot.
    fn from(plot: Plot2D) -> (r: Picture)
        ensures
            r.keys@ == Seq::<PictureKey>::empty(),
            r.axes@.len() == 1,
            r.axes@[0].keys@ == Seq::<crate::axis::AxisKey>::empty(),
            r.axes@[0].plots@ == seq![plot],
            r.keys.wf() && r.axes@[0].keys.wf(),
    {
        Picture::from(Axis::from(plot))
    }
}

} // verus!
