//! Errors of a build.
use vstd::prelude::*;
use crate::link::Link;

verus! {

/// The links that could not be resolved or reached.
pub struct InvalidLinks(pub Vec<Link>);

/// How a front-matter block breaks the fixed field order.
#[derive(PartialEq, Eq, Structural, Clone, Copy, Debug)]
pub enum HeaderError {
    /// The block does not start with `title = `.
    MissingTitle,
    /// The title line has no newline after it.
    UnterminatedTitle,
    /// The title is not enclosed in matching quotes.
    UnquotedTitle,
    /// The title line is not followed by `date = `.
    MissingDate,
    /// The date line has no newline after it.
    UnterminatedDate,
    /// The draft line has no newline after it.
    UnterminatedDraft,
}

pub enum BuildError {
    /// Links that do not resolve; each names the page it came from.
    InvalidLinks(InvalidLinks),
    /// A read, write or directory creation failed, with the system's message.
    IoError(String),
    /// The front matter of the document at the given source path is malformed.
    HeaderParse(String, HeaderError),
    /// Two staged entries would be written to the same destination path.
    DuplicatePath(String),
}

pub const INVALID_LINK: &'static str = "\nInvalid link: ";

pub const FROM_FILE: &'static str = " from file: \"";

pub const CLOSE_QUOTE: &'static str = "\"";

pub const MALFORMED_HEADER: &'static str = "Malformed front matter in \"";

pub const MALFORMED_REASON: &'static str = "\": ";

pub const DUPLICATE_PATH: &'static str = "Two entries would be written to \"";

/// One line per link: its target and the file it came from.
pub open spec fn invalid_text(ls: Seq<Link>) -> Seq<char>
    decreases ls.len(),
{
    if ls.len() == 0 {
        Seq::empty()
    } else {
        invalid_text(ls.drop_last()) + INVALID_LINK@ + ls.last().link@ + FROM_FILE@
            + ls.last().file@ + CLOSE_QUOTE@
    }
}

impl HeaderError {
    pub open spec fn reason_text(self) -> Seq<char> {
        match self {
            HeaderError::MissingTitle => "expected 'title = ' after the header delimiter"@,
            HeaderError::UnterminatedTitle => "expected a newline after the title"@,
            HeaderError::UnquotedTitle => "expected the title in matching quotes"@,
            HeaderError::MissingDate => "expected 'date = ' after the title"@,
            HeaderError::UnterminatedDate => "expected a newline after the date"@,
            HeaderError::UnterminatedDraft => "expected a newline after the draft flag"@,
        }
    }

    pub fn reason(&self) -> (r: &'static str)
        ensures
            r@ == self.reason_text(),
    {
        match self {
            HeaderError::MissingTitle => "expected 'title = ' after the header delimiter",
            HeaderError::UnterminatedTitle => "expected a newline after the title",
            HeaderError::UnquotedTitle => "expected the title in matching quotes",
            HeaderError::MissingDate => "expected 'date = ' after the title",
            HeaderError::UnterminatedDate => "expected a newline after the date",
            HeaderError::UnterminatedDraft => "expected a newline after the draft flag",
        }
    }
}

/// The text shown for an error.
pub open spec fn error_text(e: BuildError) -> Seq<char> {
    match e {
        BuildError::InvalidLinks(links) => invalid_text(links.0@),
        BuildError::IoError(m) => m@,
        BuildError::HeaderParse(f, h) => MALFORMED_HEADER@ + f@ + MALFORMED_REASON@ + h.reason_text(),
        BuildError::DuplicatePath(p) => DUPLICATE_PATH@ + p@ + CLOSE_QUOTE@,
    }
}

impl BuildError {
    /// A description of the error; for invalid links, one line per link.
    pub fn message(&self) -> (r: String)
        ensures
            r@ == error_text(*self),
    {
        match self {
            BuildError::InvalidLinks(links) => {
                let mut s = String::new();
                let mut i: usize = 0;
                while i < links.0.len()
                    invariant
                        i <= links.0@.len(),
                        s@ == invalid_text(links.0@.take(i as int)),
                    decreases links.0@.len() - i,
                {
                    let l = &links.0[i];
                    s.append(INVALID_LINK);
                    s.append(l.link.as_str());
                    s.append(FROM_FILE);
                    s.append(l.file.as_str());
                    s.append(CLOSE_QUOTE);
                    assert(links.0@.take(i + 1).drop_last() =~= links.0@.take(i as int));
                    i = i + 1;
                }
                assert(links.0@.take(i as int) =~= links.0@);
                s
            },
            BuildError::IoError(m) => m.clone(),
            BuildError::HeaderParse(f, h) => {
                let mut s = String::from_str(MALFORMED_HEADER);
                s.append(f.as_str());
                s.append(MALFORMED_REASON);
                s.append(h.reason());
                s
            },
            BuildError::DuplicatePath(p) => {
                let mut s = String::from_str(DUPLICATE_PATH);
                s.append(p.as_str());
                s.append(CLOSE_QUOTE);
                s
            },
        }
    }
}

} // verus!
