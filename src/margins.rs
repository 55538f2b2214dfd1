//! Margins around the composed image.
use vstd::prelude::*;
use crate::error::AppErr;
use crate::text::{chars_of, decimal, parse_u32, parse_u32_span, push_decimal, split_on, trim, trim_span};

verus! {

/// Four insets, in pixels, added around the tile grid.
#[derive(Clone, Copy, Debug, PartialEq, Eq, Structural)]
pub struct Margins {
    pub top: u32,
    pub right: u32,
    pub bottom: u32,
    pub left: u32,
}

/// Margins from one to four values: `top`, then `right` (else `top`), then
/// `bottom` (else `top`), then `left` (else `right` where there are exactly
/// two values, else `top`).
pub open spec fn margins_from(values: Seq<u32>) -> Margins
    recommends
        1 <= values.len() <= 4,
{
    let top = values[0];
    let right = if values.len() > 1 {
        values[1]
    } else {
        top
    };
    let bottom = if values.len() > 2 {
        values[2]
    } else {
        top
    };
    let left = if values.len() > 3 {
        values[3]
    } else if values.len() == 2 {
        right
    } else {
        top
    };
    Margins { top, right, bottom, left }
}

/// The value of one comma-separated field: a `u32` with white space around it.
pub open spec fn field_value(field: Seq<char>) -> Option<u32> {
    parse_u32(trim(field))
}

/// The margins that `TOP[,RIGHT][,BOTTOM][,LEFT]` gives: none where there are
/// more than four fields or a field is not a number.
pub open spec fn parse_margins(s: Seq<char>) -> Option<Margins> {
    let fields = split_on(s, ',');
    if fields.len() <= 4 && forall|i: int| 0 <= i < fields.len() ==> #[trigger] field_value(fields[i]) is Some {
        Some(margins_from(fields.map_values(|f: Seq<char>| field_value(f)->0)))
    } else {
        None
    }
}

/// What the value parser says where the text is not a margin list.
pub const MARGINS_USAGE: &'static str = "Use format TOP[,RIGHT][,BOTTOM][,LEFT]";

/// The tag of a configuration value that could not be read.
pub const INVALID_VALUE: &'static str = "InvalidValue";

impl Margins {
    /// No margins at all.
    pub fn empty() -> (r: Margins)
        ensures
            r == (Margins { top: 0, right: 0, bottom: 0, left: 0 }),
    {
        Margins { top: 0, right: 0, bottom: 0, left: 0 }
    }

    /// Reads `TOP[,RIGHT][,BOTTOM][,LEFT]`.
    pub fn try_parse(input: &str) -> (r: Option<Margins>)
        ensures
            r == parse_margins(input@),
    {
        let v = chars_of(input);
        let n = v.len();
        let mut results: Vec<Option<u32>> = Vec::new();
        let ghost mut done: Seq<Seq<char>> = Seq::empty();
        let mut start: usize = 0;
        let mut i: usize = 0;
        proof {
            let e = v@.subrange(0, 0);
            assert(e.len() == 0);
            assert(split_on(e, ',') == seq![Seq::<char>::empty()]);
            assert(e =~= Seq::<char>::empty());
            assert(done.push(e) =~= seq![Seq::<char>::empty()]);
        }
        while i < n
            invariant
                n == v.len(),
                start <= i <= n,
                split_on(v@.subrange(0, i as int), ',') == done.push(
                    v@.subrange(start as int, i as int),
                ),
                results@ == done.map_values(|f: Seq<char>| field_value(f)),
            decreases n - i,
        {
            let ghost s1 = v@.subrange(0, i + 1);
            assert(s1.drop_last() =~= v@.subrange(0, i as int));
            if v[i] == ',' {
                let (a, b) = trim_span(&v, start, i);
                results.push(parse_u32_span(&v, a, b));
                proof {
                    done = done.push(v@.subrange(start as int, i as int));
                    assert(v@.subrange(i + 1, i + 1) =~= Seq::<char>::empty());
                }
                start = i + 1;
            } else {
                assert(v@.subrange(start as int, i + 1) =~= v@.subrange(start as int, i as int).push(v[i as int]));
            }
            i = i + 1;
            assert(results@ =~= done.map_values(|f: Seq<char>| field_value(f)));
        }
        let (a, b) = trim_span(&v, start, n);
        results.push(parse_u32_span(&v, a, b));
        let ghost fields = done.push(v@.subrange(start as int, n as int));
        assert(v@.subrange(0, n as int) =~= input@);
        assert(results@ =~= fields.map_values(|f: Seq<char>| field_value(f)));
        if results.len() > 4 {
            return None;
        }
        let mut values: Vec<u32> = Vec::new();
        let mut k: usize = 0;
        while k < results.len()
            invariant
                results@ == fields.map_values(|f: Seq<char>| field_value(f)),
                fields == split_on(input@, ','),
                k <= results.len() <= 4,
                values.len() == k,
                forall|j: int| 0 <= j < k ==> #[trigger] field_value(fields[j]) == Some(values@[j]),
            decreases results.len() - k,
        {
            match results[k] {
                Some(x) => values.push(x),
                None => {
                    assert(field_value(fields[k as int]) is None);
                    return None;
                }
            }
            k = k + 1;
        }
        assert(fields.map_values(|f: Seq<char>| field_value(f)->0) =~= values@);
        let top = values[0];
        let right = if values.len() > 1 { values[1] } else { top };
        let bottom = if values.len() > 2 { values[2] } else { top };
        let left = if values.len() > 3 {
            values[3]
        } else if values.len() == 2 {
            right
        } else {
            top
        };
        Some(Margins { top, right, bottom, left })
    }
}

/// `top, right, bottom, left`, as the margins are shown.
pub open spec fn margins_text(m: Margins) -> Seq<char> {
    decimal(m.top as nat) + seq![',', ' '] + decimal(m.right as nat) + seq![',', ' '] + decimal(
        m.bottom as nat,
    ) + seq![',', ' '] + decimal(m.left as nat)
}

impl Margins {
    /// The margins as they are shown: `top, right, bottom, left`.
    pub fn to_string(&self) -> (r: String)
        ensures
            r@ == margins_text(*self),
    {
        proof { reveal_strlit(", "); }
        let mut s = String::new();
        push_decimal(&mut s, self.top as u64);
        s.append(", ");
        push_decimal(&mut s, self.right as u64);
        s.append(", ");
        push_decimal(&mut s, self.bottom as u64);
        s.append(", ");
        push_decimal(&mut s, self.left as u64);
        assert(s@ =~= margins_text(*self));
        s
    }
}

impl Default for Margins {
    fn default() -> (r: Margins)
        ensures
            r == (Margins { top: 0, right: 0, bottom: 0, left: 0 }),
    {
        Margins::empty()
    }
}

/// Reads a command-line value as margins.
#[derive(Clone, Copy, Debug)]
pub struct MarginsValueParser;

impl MarginsValueParser {
    /// The margins that `value` gives, or an `InvalidValue` error that shows
    /// the expected format.
    pub fn parse_ref(&self, value: &str) -> (r: Result<Margins, AppErr>)
        ensures
            match parse_margins(value@) {
                Some(m) => r == Ok::<Margins, AppErr>(m),
                None => r matches Err(e) && e.kind@ == INVALID_VALUE@ && e.message@
                    == MARGINS_USAGE@ && e.cause is None,
            },
    {
        match Margins::try_parse(value) {
            Some(m) => Ok(m),
            None => Err(AppErr::new(INVALID_VALUE, MARGINS_USAGE)),
        }
    }
}

} // verus!
