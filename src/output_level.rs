//! The resolution level: how many tiles make up each side of the grid.
use vstd::prelude::*;
use crate::error::AppErr;
use crate::margins::INVALID_VALUE;
use crate::text::{chars_of, parse_u32, parse_u32_span, trim, trim_span};

verus! {

/// The levels the tile service offers.
pub open spec fn is_level(n: u32) -> bool {
    n == 4 || n == 8 || n == 16 || n == 20
}

/// The level that a command-line value gives: 4, 8, 16 or 20, with white
/// space around it.
pub open spec fn parse_level(s: Seq<char>) -> Option<u32> {
    match parse_u32(trim(s)) {
        Some(n) => if is_level(n) {
            Some(n)
        } else {
            None
        },
        None => None,
    }
}

/// What the value parser says where the text is not a level.
pub const LEVEL_USAGE: &'static str = "Invalid level, use 4, 8, 16 or 20";

/// A resolution level; always one of 4, 8, 16 and 20.
#[derive(Clone, Copy, Debug)]
pub struct OutputLevel(u32);

impl View for OutputLevel {
    type V = u32;

    closed spec fn view(&self) -> u32 {
        self.0
    }
}

impl OutputLevel {
    #[verifier::type_invariant]
    spec fn inv(&self) -> bool {
        is_level(self.0)
    }

    /// The level `n`, where it is one of 4, 8, 16 and 20.
    pub fn new(n: u32) -> (r: Option<OutputLevel>)
        ensures
            r is Some <==> is_level(n),
            r matches Some(l) ==> l@ == n,
    {
        if n == 4 || n == 8 || n == 16 || n == 20 {
            Some(OutputLevel(n))
        } else {
            None
        }
    }

    /// The number of tiles along each side of the grid.
    pub fn to_level(&self) -> (r: u32)
        ensures
            r == self@,
            is_level(r),
    {
        proof { use_type_invariant(self); }
        self.0
    }

    /// The level as it is shown: its number in decimal.
    pub fn to_string(&self) -> (r: String)
        ensures
            r@ == crate::text::decimal(self@ as nat),
    {
        let mut r = String::new();
        crate::text::push_decimal(&mut r, self.to_level() as u64);
        r
    }
}

impl Default for OutputLevel {
    fn default() -> (r: OutputLevel)
        ensures
            r@ == 8,
    {
        OutputLevel(8)
    }
}

/// Reads a command-line value as a resolution level.
#[derive(Clone, Copy, Debug)]
pub struct OutputLevelValueParser;

impl OutputLevelValueParser {
    /// The level that `value` gives, or an `InvalidValue` error.
    pub fn parse_ref(&self, value: &str) -> (r: Result<OutputLevel, AppErr>)
        ensures
            match parse_level(value@) {
                Some(n) => r matches Ok(l) && l@ == n,
                None => r matches Err(e) && e.kind@ == INVALID_VALUE@ && e.message@
                    == LEVEL_USAGE@ && e.cause is None,
            },
    {
        let v = chars_of(value);
        let (a, b) = trim_span(&v, 0, v.len());
        assert(v@.subrange(0, v.len() as int) =~= value@);
        match parse_u32_span(&v, a, b) {
            Some(n) => match OutputLevel::new(n) {
                Some(l) => Ok(l),
                None => Err(AppErr::new(INVALID_VALUE, LEVEL_USAGE)),
            },
            None => Err(AppErr::new(INVALID_VALUE, LEVEL_USAGE)),
        }
    }
}

} // verus!
