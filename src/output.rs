use vstd::prelude::*;

verus! {

/// The formats a results file can be written in.
#[derive(Debug, Clone, Copy, PartialEq, Eq, Structural)]
pub enum GraphFormat {
    Csv,
}

/// Why no results writer could be opened for a path.
#[derive(Debug, Clone, PartialEq, Eq)]
pub enum FormatError {
    /// The path names a PNG file; that format is reserved and not yet written.
    PngNotImplemented,
    /// The path has an extension that no format is written for; the extension
    /// is held without its dot.
    UnsupportedExtension(String),
    /// The path has no extension to choose a format by.
    UnknownFormat,
}

/// What a path's extension is, as the standard library's `Path::extension`
/// reads it: the part of the final component after its last dot. There is
/// none where the path has no final file name (as with `..`), where that name
/// has no dot, or where its only dot is its first character (as in `.csv`).
pub uninterp spec fn path_extension(path: Seq<char>) -> Option<Seq<char>>;

/// Relies on `std::path::Path::extension` for the extension of the path's
/// final component, converted to a string.
#[verifier::external_body]
fn extension_of(path: &str) -> (r: Option<String>)
    ensures
        r matches Some(e) ==> path_extension(path@) == Some(e@),
        r is None ==> path_extension(path@) is None,
{
    std::path::Path::new(path).extension().map(|e| e.to_string_lossy().into_owned())
}

pub open spec fn csv_ext() -> Seq<char> {
    seq!['c', 's', 'v']
}

pub open spec fn png_ext() -> Seq<char> {
    seq!['p', 'n', 'g']
}

/// The outcome of choosing a format from an extension.
pub enum FormatChoice {
    Format(GraphFormat),
    Png,
    Unsupported(Seq<char>),
    Unknown,
}

pub open spec fn choose_format(ext: Option<Seq<char>>) -> FormatChoice {
    match ext {
        None => FormatChoice::Unknown,
        Some(e) => if e == csv_ext() {
            FormatChoice::Format(GraphFormat::Csv)
        } else if e == png_ext() {
            FormatChoice::Png
        } else {
            FormatChoice::Unsupported(e)
        },
    }
}

pub open spec fn outcome_matches(r: Result<GraphFormat, FormatError>, c: FormatChoice) -> bool {
    match c {
        FormatChoice::Format(f) => r == Ok::<GraphFormat, FormatError>(f),
        FormatChoice::Png => r matches Err(FormatError::PngNotImplemented),
        FormatChoice::Unsupported(e) => r matches Err(FormatError::UnsupportedExtension(x))
            && x@ == e,
        FormatChoice::Unknown => r matches Err(FormatError::UnknownFormat),
    }
}

impl GraphFormat {
    /// Chooses the results format from a file extension (given without its
    /// dot), or `None` where the path has none.
    pub fn from_extension(ext: Option<&str>) -> (r: Result<GraphFormat, FormatError>)
        ensures
            outcome_matches(r, choose_format(match ext {
                Some(e) => Some(e@),
                None => None,
            })),
    {
        proof {
            reveal_strlit("csv");
            reveal_strlit("png");
            assert("csv"@ =~= csv_ext());
            assert("png"@ =~= png_ext());
        }
        match ext {
            None => Err(FormatError::UnknownFormat),
            Some(e) => {
                let owned = e.to_owned();
                let csv = String::from_str("csv");
                let png = String::from_str("png");
                if owned == csv {
                    Ok(GraphFormat::Csv)
                } else if owned == png {
                    Err(FormatError::PngNotImplemented)
                } else {
                    Err(FormatError::UnsupportedExtension(owned))
                }
            },
        }
    }

    /// Chooses the results format from the extension of an output path.
    pub fn from_path(path: &str) -> (r: Result<GraphFormat, FormatError>)
        ensures
            outcome_matches(r, choose_format(path_extension(path@))),
    {
        let ext = extension_of(path);
        match ext {
            Some(e) => GraphFormat::from_extension(Some(e.as_str())),
            None => GraphFormat::from_extension(None),
        }
    }
}

impl FormatError {
    pub open spec fn message_text(&self) -> Seq<char> {
        match self {
            FormatError::PngNotImplemented => "PNG output not yet implemented"@,
            FormatError::UnsupportedExtension(ext) => "Unsupported extension for --graph-results-path: ."@
                + ext@,
            FormatError::UnknownFormat => "Could not determine output file format from --graph-results-path"@,
        }
    }

    /// A description of the error for a person reading it.
    pub fn message(&self) -> (r: String)
        ensures
            r@ == self.message_text(),
    {
        match self {
            FormatError::PngNotImplemented => String::from_str("PNG output not yet implemented"),
            FormatError::UnsupportedExtension(ext) => String::from_str(
                "Unsupported extension for --graph-results-path: .",
            ).concat(ext.as_str()),
            FormatError::UnknownFormat => String::from_str(
                "Could not determine output file format from --graph-results-path",
            ),
        }
    }
}

} // verus!
