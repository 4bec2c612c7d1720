//! Format dispatch by file extension, and the deterministic names of
//! output files.
//!
//! The extension match is ASCII case-insensitive: the legacy binary
//! container, the modern container, and its macro-enabled twin are
//! recognized; anything else is unsupported.

use vstd::prelude::*;
use vstd::string::{StrSliceExecFns, StringExecFns};
use crate::text::{spec_u64_text, u64_text};

verus! {

/// The container formats a source file can declare by its extension.
#[derive(Clone, Copy, PartialEq, Eq, Structural, Debug)]
pub enum SourceFormat {
    /// The legacy binary container.
    Legacy,
    /// The modern container.
    Modern,
    /// The modern container with macros enabled.
    MacroEnabled,
}

/// ASCII lowercasing of one character; anything but an ASCII capital
/// letter is kept as it is.
pub open spec fn spec_lower_char(c: char) -> char {
    match c {
        'A' => 'a',
        'B' => 'b',
        'C' => 'c',
        'D' => 'd',
        'E' => 'e',
        'F' => 'f',
        'G' => 'g',
        'H' => 'h',
        'I' => 'i',
        'J' => 'j',
        'K' => 'k',
        'L' => 'l',
        'M' => 'm',
        'N' => 'n',
        'O' => 'o',
        'P' => 'p',
        'Q' => 'q',
        'R' => 'r',
        'S' => 's',
        'T' => 't',
        'U' => 'u',
        'V' => 'v',
        'W' => 'w',
        'X' => 'x',
        'Y' => 'y',
        'Z' => 'z',
        _ => c,
    }
}

/// ASCII lowercasing of a character sequence.
pub open spec fn spec_lower(s: Seq<char>) -> Seq<char> {
    s.map_values(|c: char| spec_lower_char(c))
}

fn lower_char(c: char) -> (r: char)
    ensures
        r == spec_lower_char(c),
{
    match c {
        'A' => 'a',
        'B' => 'b',
        'C' => 'c',
        'D' => 'd',
        'E' => 'e',
        'F' => 'f',
        'G' => 'g',
        'H' => 'h',
        'I' => 'i',
        'J' => 'j',
        'K' => 'k',
        'L' => 'l',
        'M' => 'm',
        'N' => 'n',
        'O' => 'o',
        'P' => 'p',
        'Q' => 'q',
        'R' => 'r',
        'S' => 's',
        'T' => 't',
        'U' => 'u',
        'V' => 'v',
        'W' => 'w',
        'X' => 'x',
        'Y' => 'y',
        'Z' => 'z',
        _ => c,
    }
}

/// Whether `s`, lowercased ASCII-wise, reads exactly as `t`.
fn lower_eq(s: &String, t: &str) -> (r: bool)
    ensures
        r == (spec_lower(s@) == t@),
{
    let sl = s.as_str().unicode_len();
    let tl = t.unicode_len();
    if sl != tl {
        proof {
            assert(spec_lower(s@).len() == s@.len());
        }
        return false;
    }
    let mut i: usize = 0;
    while i < sl
        invariant
            i <= sl,
            sl == s@.len(),
            tl == t@.len(),
            sl == tl,
            forall|j: int| 0 <= j < i ==> spec_lower_char(s@[j]) == #[trigger] t@[j],
        decreases sl - i,
    {
        let c = s.as_str().get_char(i);
        let d = t.get_char(i);
        if lower_char(c) != d {
            proof {
                assert(spec_lower(s@)[i as int] != t@[i as int]);
            }
            return false;
        }
        i += 1;
    }
    proof {
        assert(spec_lower(s@) =~= t@);
    }
    true
}

/// The format an extension declares, if any: the legacy container for
/// "xls", the modern container for "xlsx", its macro-enabled twin for
/// "xlsm", each matched without regard to ASCII case; any other
/// extension declares no supported format.
pub open spec fn spec_classify(ext: Seq<char>) -> Option<SourceFormat> {
    if spec_lower(ext) == "xlsx"@ {
        Some(SourceFormat::Modern)
    } else if spec_lower(ext) == "xlsm"@ {
        Some(SourceFormat::MacroEnabled)
    } else if spec_lower(ext) == "xls"@ {
        Some(SourceFormat::Legacy)
    } else {
        None
    }
}

/// Classifies a file extension into the format it declares.
pub fn classify_extension(ext: &String) -> (r: Option<SourceFormat>)
    ensures
        r == spec_classify(ext@),
{
    if lower_eq(ext, "xlsx") {
        Some(SourceFormat::Modern)
    } else if lower_eq(ext, "xlsm") {
        Some(SourceFormat::MacroEnabled)
    } else if lower_eq(ext, "xls") {
        Some(SourceFormat::Legacy)
    } else {
        None
    }
}

/// Whether an extension marks a file that header checking picks up
/// while walking a directory: exactly "xlsx", "xls" or "xlsm",
/// case-sensitively.
pub fn is_spreadsheet_extension(ext: &String) -> (r: bool)
    ensures
        r == (ext@ == "xlsx"@ || ext@ == "xls"@ || ext@ == "xlsm"@),
{
    let a = "xlsx".to_owned();
    let b = "xls".to_owned();
    let c = "xlsm".to_owned();
    ext.eq(&a) || ext.eq(&b) || ext.eq(&c)
}

/// Whether an extension marks a legacy file that bulk conversion picks
/// up: exactly "xls", case-sensitively.
pub fn is_legacy_extension(ext: &String) -> (r: bool)
    ensures
        r == (ext@ == "xls"@),
{
    let a = "xls".to_owned();
    ext.eq(&a)
}

/// The output name of a converted legacy file: the relative path with
/// its ".xls" extension replaced by ".xlsx", directories untouched, so
/// that outputs mirror the input directory layout.
pub fn converted_file_name(rel: &String) -> (r: String)
    requires
        rel@.len() >= 4,
        rel@.subrange(rel@.len() - 4, rel@.len() as int) == ".xls"@,
    ensures
        r@ == rel@.subrange(0, rel@.len() - 4) + ".xlsx"@,
{
    let mut s = rel.clone();
    s.append("x");
    proof {
        reveal_strlit(".xls");
        reveal_strlit(".xlsx");
        reveal_strlit("x");
        assert(rel@ =~= rel@.subrange(0, rel@.len() - 4) + rel@.subrange(
            rel@.len() - 4,
            rel@.len() as int,
        ));
        assert(s@ =~= rel@.subrange(0, rel@.len() - 4) + ".xlsx"@);
    }
    s
}

/// The deterministic name of one partition file: the source's base name,
/// a "_split_" tag, the 1-based partition index, and the modern
/// container's extension.  The same inputs always name the same file,
/// so re-running a split overwrites rather than multiplies.
pub fn split_file_name(stem: &String, index: u64) -> (r: String)
    ensures
        r@ == stem@ + "_split_"@ + spec_u64_text(index as nat) + ".xlsx"@,
{
    let mut s = stem.clone();
    s.append("_split_");
    let num = u64_text(index);
    s.append(num.as_str());
    s.append(".xlsx");
    s
}

} // verus!
