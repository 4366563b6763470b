//! What compiling a picture needs besides running the compiler: the name of
//! a job that collides with nothing, the arguments of the compiler, and the
//! names of the files that it leaves behind.

use crate::text::is_digit;
use rand::distributions::{Alphanumeric, DistString};
use vstd::prelude::*;
use vstd::string::*;

verus! {

/// Engine to compile a picture into a PDF.
#[derive(Clone, Copy, Debug)]
#[non_exhaustive]
pub enum Engine {
    /// `pdflatex` engine (requires `pdflatex` to be installed).
    PdfLatex,
}

/// Whether `c` is an ASCII letter or digit.
pub open spec fn is_alphanumeric(c: char) -> bool {
    is_digit(c) || ('a' <= c && c <= 'z') || ('A' <= c && c <= 'Z')
}

/// Whether `name` is the fixed prefix of job names followed by `suffix`
/// letters and digits.
pub open spec fn is_jobname(name: Seq<char>, suffix: nat) -> bool {
    &&& name.len() == "pgfplots_"@.len() + suffix
    &&& name.subrange(0, "pgfplots_"@.len() as int) == "pgfplots_"@
    &&& forall|i: int| "pgfplots_"@.len() <= i < name.len() ==> is_alphanumeric(#[trigger] name[i])
}

/// Appends `count` random letters and digits to `text`.
///
/// This is `rand::distributions::DistString::append_string` of
/// `Alphanumeric`, fed by `rand::thread_rng()`. What is claimed of it: the
/// text that was there stays, exactly `count` characters follow it, and each
/// of them is one of `a-z`, `A-Z`, `0-9`. Which ones is left open. The
/// generator of the thread panics if the system gives it no seed.
#[verifier::external_body]
fn append_alphanumerics(text: &mut String, count: usize)
    ensures
        final(text)@.len() == old(text)@.len() + count,
        final(text)@.subrange(0, old(text)@.len() as int) == old(text)@,
        forall|i: int|
            old(text)@.len() <= i < final(text)@.len() ==> is_alphanumeric(
                #[trigger] final(text)@[i],
            ),
{
    Alphanumeric.append_string(&mut rand::thread_rng(), text, count);
}

/// A job name drawn at random: `pgfplots_` and eight letters and digits.
/// Whether files of that name exist already is for the caller to find out.
pub fn random_jobname() -> (r: String)
    ensures
        is_jobname(r@, 8),
{
    let mut jobname = String::from_str("pgfplots_");
    append_alphanumerics(&mut jobname, 8);
    jobname
}

/// The name of the file of kind `extension` that a job leaves behind.
pub open spec fn artifact_name(jobname: Seq<char>, extension: Seq<char>) -> Seq<char> {
    jobname + "."@ + extension
}

/// The names of the PDF, the log and the auxiliary file of a job, in that
/// order: a job name is free when none of the three exists.
pub fn artifacts(jobname: &str) -> (r: (String, String, String))
    ensures
        r.0@ == artifact_name(jobname@, "pdf"@),
        r.1@ == artifact_name(jobname@, "log"@),
        r.2@ == artifact_name(jobname@, "aux"@),
{
    (
        String::from_str(jobname).concat(".").concat("pdf"),
        String::from_str(jobname).concat(".").concat("log"),
        String::from_str(jobname).concat(".").concat("aux"),
    )
}

impl Engine {
    /// The program that the engine runs.
    pub open spec fn program_text(&self) -> Seq<char> {
        match self {
            Engine::PdfLatex => "pdflatex"@,
        }
    }

    /// The arguments before the path of the source: no prompts, stop at the
    /// first error, and the name of the job.
    pub open spec fn argument_texts(&self, jobname: Seq<char>) -> Seq<Seq<char>> {
        match self {
            Engine::PdfLatex => seq![
                "-interaction=batchmode"@,
                "-halt-on-error"@,
                "-jobname="@ + jobname,
            ],
        }
    }

    /// The program that the engine runs.
    pub fn program(&self) -> (r: String)
        ensures
            r@ == self.program_text(),
    {
        match self {
            Engine::PdfLatex => String::from_str("pdflatex"),
        }
    }

    /// The arguments that the program takes before the path of the source.
    pub fn arguments(&self, jobname: &str) -> (r: Vec<String>)
        ensures
            r@.len() == self.argument_texts(jobname@).len(),
            forall|i: int| 0 <= i < r@.len() ==> r@[i]@ == self.argument_texts(jobname@)[i],
    {
        match self {
            Engine::PdfLatex => {
                let mut arguments = Vec::new();
                arguments.push(String::from_str("-interaction=batchmode"));
                arguments.push(String::from_str("-halt-on-error"));
                arguments.push(String::from_str("-jobname=").concat(jobname));
                arguments
            },
        }
    }
}

} // verus!
