//! Output naming: format selection, decimal page numbers, and the file
//! names the converter writes.
use vstd::prelude::*;
use crate::OutputFormat;

verus! {

/// The decimal digit characters.
pub open spec fn digit_char(d: nat) -> char {
    if d == 0 {
        '0'
    } else if d == 1 {
        '1'
    } else if d == 2 {
        '2'
    } else if d == 3 {
        '3'
    } else if d == 4 {
        '4'
    } else if d == 5 {
        '5'
    } else if d == 6 {
        '6'
    } else if d == 7 {
        '7'
    } else if d == 8 {
        '8'
    } else {
        '9'
    }
}

/// The decimal rendering of a number, most significant digit first.
pub open spec fn spec_decimal(n: nat) -> Seq<char>
    decreases n,
{
    if n < 10 {
        seq![digit_char(n)]
    } else {
        spec_decimal(n / 10).push(digit_char(n % 10))
    }
}

/// The expression names the lossless format: the three letters `png` in any
/// casing. Anything else selects the lossy format.
pub open spec fn is_png_text(s: Seq<char>) -> bool {
    &&& s.len() == 3
    &&& (s[0] == 'p' || s[0] == 'P')
    &&& (s[1] == 'n' || s[1] == 'N')
    &&& (s[2] == 'g' || s[2] == 'G')
}

/// The extension each format writes.
pub open spec fn spec_extension(f: OutputFormat) -> Seq<char> {
    match f {
        OutputFormat::Png => seq!['p', 'n', 'g'],
        OutputFormat::Jpeg => seq!['j', 'p', 'g'],
    }
}

/// How one output file of a document is distinguished from the others.
#[derive(Clone, Copy, PartialEq, Eq, Structural, Debug)]
pub enum NameSuffix {
    /// The document's only output file.
    Plain,
    /// One page among several, carrying its 1-based page number.
    PageNumber(usize),
    /// All selected pages merged into one image.
    Merged,
}

pub open spec fn spec_suffix(s: NameSuffix) -> Seq<char> {
    match s {
        NameSuffix::Plain => Seq::empty(),
        NameSuffix::PageNumber(n) => seq!['_', 'p', 'a', 'g', 'e', '_'] + spec_decimal(n as nat),
        NameSuffix::Merged => seq!['_', 'm', 'e', 'r', 'g', 'e', 'd'],
    }
}

/// The full path of one output file: directory, base name, suffix and the
/// format's extension.
pub open spec fn spec_file_name(
    dir: Seq<char>,
    base: Seq<char>,
    suffix: NameSuffix,
    f: OutputFormat,
) -> Seq<char> {
    dir + seq!['/'] + base + spec_suffix(suffix) + seq!['.'] + spec_extension(f)
}

/// Pick the output format a request's format text names: `png` in any
/// casing means the lossless format, anything else the lossy one.
pub fn parse_format(s: &str) -> (f: OutputFormat)
    ensures
        f == (if is_png_text(s@) {
            OutputFormat::Png
        } else {
            OutputFormat::Jpeg
        }),
{
    let n = s.unicode_len();
    if n != 3 {
        return OutputFormat::Jpeg;
    }
    let c0 = s.get_char(0);
    let c1 = s.get_char(1);
    let c2 = s.get_char(2);
    if (c0 == 'p' || c0 == 'P') && (c1 == 'n' || c1 == 'N') && (c2 == 'g' || c2 == 'G') {
        OutputFormat::Png
    } else {
        OutputFormat::Jpeg
    }
}

/// The one-character string of a decimal digit.
fn digit_literal(d: usize) -> (s: &'static str)
    requires
        d < 10,
    ensures
        s@ =~= seq![digit_char(d as nat)],
{
    proof {
        reveal_strlit("0");
        reveal_strlit("1");
        reveal_strlit("2");
        reveal_strlit("3");
        reveal_strlit("4");
        reveal_strlit("5");
        reveal_strlit("6");
        reveal_strlit("7");
        reveal_strlit("8");
        reveal_strlit("9");
    }
    match d {
        0 => "0",
        1 => "1",
        2 => "2",
        3 => "3",
        4 => "4",
        5 => "5",
        6 => "6",
        7 => "7",
        8 => "8",
        _ => "9",
    }
}

/// Render a number in decimal.
pub fn usize_to_decimal(n: usize) -> (s: String)
    ensures
        s@ =~= spec_decimal(n as nat),
    decreases n,
{
    if n < 10 {
        String::from_str(digit_literal(n))
    } else {
        let mut s = usize_to_decimal(n / 10);
        s.append(digit_literal(n % 10));
        proof {
            assert(spec_decimal((n / 10) as nat).push(digit_char((n % 10) as nat)) =~= spec_decimal(
                (n / 10) as nat,
            ) + seq![digit_char((n % 10) as nat)]);
        }
        s
    }
}

/// Build the full path of one output file, as `spec_file_name` describes.
pub fn output_file_name(dir: &str, base: &str, suffix: NameSuffix, f: OutputFormat) -> (r: String)
    ensures
        r@ =~= spec_file_name(dir@, base@, suffix, f),
{
    proof {
        reveal_strlit("/");
        reveal_strlit("_page_");
        reveal_strlit("_merged");
        reveal_strlit(".");
        reveal_strlit("png");
        reveal_strlit("jpg");
    }
    let mut r = String::from_str(dir);
    r.append("/");
    r.append(base);
    match suffix {
        NameSuffix::Plain => {},
        NameSuffix::PageNumber(n) => {
            r.append("_page_");
            let digits = usize_to_decimal(n);
            r.append(digits.as_str());
        },
        NameSuffix::Merged => {
            r.append("_merged");
        },
    }
    r.append(".");
    match f {
        OutputFormat::Png => {
            r.append("png");
        },
        OutputFormat::Jpeg => {
            r.append("jpg");
        },
    }
    r
}

} // verus!
