//! The file format of the saved image.
use vstd::prelude::*;
use crate::error::AppErr;
use crate::margins::INVALID_VALUE;
use crate::text::{chars_of, span_is, trim, trim_span};

verus! {

/// The two formats an image can be saved in.
#[derive(Clone, Copy, Debug, PartialEq, Eq, Structural)]
pub enum OutputFormat {
    PNG,
    JPEG,
}

/// The file extension of a format, which also selects the encoder.
pub open spec fn extension_of(f: OutputFormat) -> Seq<char> {
    match f {
        OutputFormat::PNG => seq!['p', 'n', 'g'],
        OutputFormat::JPEG => seq!['j', 'p', 'e', 'g'],
    }
}

/// The format that a command-line value names: `PNG` or `JPEG`, in upper or
/// lower case, with white space around it.
pub open spec fn parse_format(s: Seq<char>) -> Option<OutputFormat> {
    let t = trim(s);
    if t == seq!['P', 'N', 'G'] || t == seq!['p', 'n', 'g'] {
        Some(OutputFormat::PNG)
    } else if t == seq!['J', 'P', 'E', 'G'] || t == seq!['j', 'p', 'e', 'g'] {
        Some(OutputFormat::JPEG)
    } else {
        None
    }
}

/// What the value parser says where the text names no format.
pub const FORMAT_USAGE: &'static str = "Invalid image format, use JPEG or PNG";

impl OutputFormat {
    /// The file extension: `png` or `jpeg`.
    pub fn extension(&self) -> (r: &'static str)
        ensures
            r@ == extension_of(*self),
    {
        match self {
            OutputFormat::PNG => {
                proof { reveal_strlit("png"); }
                "png"
            },
            OutputFormat::JPEG => {
                proof { reveal_strlit("jpeg"); }
                "jpeg"
            },
        }
    }

    /// The format as it is shown: its file extension.
    pub fn to_string(&self) -> (r: String)
        ensures
            r@ == extension_of(*self),
    {
        String::from_str(self.extension())
    }
}

impl Default for OutputFormat {
    fn default() -> (r: OutputFormat)
        ensures
            r == OutputFormat::JPEG,
    {
        OutputFormat::JPEG
    }
}

/// Reads a command-line value as an output format.
#[derive(Clone, Copy, Debug)]
pub struct OutputFormatValueParser;

impl OutputFormatValueParser {
    /// The format that `value` names, or an `InvalidValue` error.
    pub fn parse_ref(&self, value: &str) -> (r: Result<OutputFormat, AppErr>)
        ensures
            match parse_format(value@) {
                Some(f) => r == Ok::<OutputFormat, AppErr>(f),
                None => r matches Err(e) && e.kind@ == INVALID_VALUE@ && e.message@
                    == FORMAT_USAGE@ && e.cause is None,
            },
    {
        let v = chars_of(value);
        let (a, b) = trim_span(&v, 0, v.len());
        assert(v@.subrange(0, v.len() as int) =~= value@);
        if span_is(&v, a, b, &vec!['P', 'N', 'G']) || span_is(&v, a, b, &vec!['p', 'n', 'g']) {
            Ok(OutputFormat::PNG)
        } else if span_is(&v, a, b, &vec!['J', 'P', 'E', 'G']) || span_is(
            &v,
            a,
            b,
            &vec!['j', 'p', 'e', 'g'],
        ) {
            Ok(OutputFormat::JPEG)
        } else {
            Err(AppErr::new(INVALID_VALUE, FORMAT_USAGE))
        }
    }
}

} // verus!
