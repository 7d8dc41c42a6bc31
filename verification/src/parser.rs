//! The line-oriented state machine that groups a vector file into cases.
//!
//! A case is one block of `Key = Value` lines. Blank lines separate cases,
//! `#` starts a comment, and a `[section]` marker — legal only before the
//! first attribute line of a case — replaces the persistent current-section
//! name without becoming an attribute itself.

use crate::case::AttrView;
use crate::case::TestCase;
use crate::errors::TestError;
use crate::text::spec_trim;
use crate::text::trim_str;
use vstd::prelude::*;
use vstd::string::StrSliceExecFns;
use vstd::string::StringExecFns;

verus! {

/// The literal ` = ` separator starts at `i` in `line`.
pub open spec fn sep_at(line: Seq<char>, i: int) -> bool {
    &&& 0 <= i
    &&& i + 3 <= line.len()
    &&& line[i] == ' '
    &&& line[i + 1] == '='
    &&& line[i + 2] == ' '
}

/// Some ` = ` separator occurs in `line`.
pub open spec fn has_sep(line: Seq<char>) -> bool {
    exists|i: int| #[trigger] sep_at(line, i)
}

/// `i` is the first occurrence of the ` = ` separator.
pub open spec fn is_first_sep(line: Seq<char>, i: int) -> bool {
    sep_at(line, i) && forall|j: int| 0 <= j < i ==> !(#[trigger] sep_at(line, j))
}

/// The position of the first ` = ` separator.
pub open spec fn first_sep(line: Seq<char>) -> int {
    choose|i: int| is_first_sep(line, i)
}

proof fn lemma_first_sep_exists(line: Seq<char>, w: int)
    requires
        sep_at(line, w),
    ensures
        exists|i: int| #[trigger] is_first_sep(line, i),
    decreases w,
{
    if forall|j: int| 0 <= j < w ==> !(#[trigger] sep_at(line, j)) {
        assert(is_first_sep(line, w));
    } else {
        let j = choose|j: int| 0 <= j < w && #[trigger] sep_at(line, j);
        lemma_first_sep_exists(line, j);
    }
}

/// Pins [`first_sep`] down once a first occurrence is known.
proof fn lemma_first_sep_at(line: Seq<char>, i: int)
    requires
        is_first_sep(line, i),
    ensures
        has_sep(line),
        first_sep(line) == i,
{
    lemma_first_sep_exists(line, i);
    let c = first_sep(line);
    assert(is_first_sep(line, c));
    if c < i {
        assert(!sep_at(line, c));
    } else if i < c {
        assert(!sep_at(line, i));
    }
}

/// The attribute an ordinary content line declares: key and value split at
/// the first ` = ` and trimmed. `None` when the line has no separator or a
/// (non-quoted) empty value — both grammar errors.
pub open spec fn line_attr(line: Seq<char>) -> Option<AttrView> {
    if !has_sep(line) {
        None
    } else {
        let i = first_sep(line);
        let key = spec_trim(line.take(i));
        let value = spec_trim(line.skip(i + 3));
        if value.len() == 0 {
            None
        } else {
            Some(AttrView { key, value, consumed: false })
        }
    }
}

/// What one parser invocation produces.
pub ghost enum ParseStep {
    /// End of input with an empty pending case: the file has no more cases.
    NoMore { section: Seq<char>, pos: int },
    /// One case handed out, with the section name and cursor that follow it.
    Emitted { attrs: Seq<AttrView>, section: Seq<char>, pos: int },
    /// A grammar violation: a misplaced or unterminated section marker, a
    /// line without ` = `, or an empty unquoted value.
    Failed,
}

/// The parser's transition relation, one line at a time: from the cursor
/// `pos`, the current `section`, the attributes of the pending case, and
/// whether that case is still empty (`first`), to the step it produces.
pub open spec fn spec_parse(
    lines: Seq<Seq<char>>,
    pos: int,
    section: Seq<char>,
    attrs: Seq<AttrView>,
    first: bool,
) -> ParseStep
    decreases lines.len() - pos,
    when 0 <= pos <= lines.len()
{
    if pos >= lines.len() {
        if first {
            ParseStep::NoMore { section, pos }
        } else {
            ParseStep::Emitted { attrs, section, pos }
        }
    } else {
        let line = lines[pos];
        if line.len() == 0 {
            if first {
                spec_parse(lines, pos + 1, section, attrs, true)
            } else {
                ParseStep::Emitted { attrs, section, pos: pos + 1 }
            }
        } else if line[0] == '#' {
            spec_parse(lines, pos + 1, section, attrs, first)
        } else if line[0] == '[' {
            if first && line.len() >= 2 && line.last() == ']' {
                spec_parse(lines, pos + 1, line.subrange(1, line.len() - 1), attrs, first)
            } else {
                ParseStep::Failed
            }
        } else {
            match line_attr(line) {
                Some(a) => spec_parse(lines, pos + 1, section, attrs.push(a), false),
                None => ParseStep::Failed,
            }
        }
    }
}

/// A scan never hands out an empty case: parsing with a fresh pending case
/// either reports the input exhausted or emits a case with at least one
/// attribute, however many blank lines, comments and section markers stand
/// before it.
pub proof fn lemma_no_empty_case(
    lines: Seq<Seq<char>>,
    pos: int,
    section: Seq<char>,
    attrs: Seq<AttrView>,
    first: bool,
)
    requires
        0 <= pos <= lines.len(),
        !first ==> attrs.len() > 0,
    ensures
        (match spec_parse(lines, pos, section, attrs, first) {
            ParseStep::Emitted { attrs: a, section: s, pos: p } => a.len() > 0,
            _ => true,
        }),
    decreases lines.len() - pos,
{
    if pos < lines.len() {
        let line = lines[pos];
        if line.len() == 0 {
            if first {
                lemma_no_empty_case(lines, pos + 1, section, attrs, true);
            }
        } else if line[0] == '#' {
            lemma_no_empty_case(lines, pos + 1, section, attrs, first);
        } else if line[0] == '[' {
            if first && line.len() >= 2 && line.last() == ']' {
                lemma_no_empty_case(lines, pos + 1, line.subrange(1, line.len() - 1), attrs, first);
            }
        } else {
            match line_attr(line) {
                Some(a) => lemma_no_empty_case(lines, pos + 1, section, attrs.push(a), false),
                None => {},
            }
        }
    }
}

/// Find the first ` = ` separator in `s`.
fn find_sep_str(s: &str) -> (r: Option<usize>)
    ensures
        match r {
            Some(i) => is_first_sep(s@, i as int),
            None => !has_sep(s@),
        },
{
    let len = s.unicode_len();
    if len < 3 {
        return None;
    }
    let mut i: usize = 0;
    while i < len - 2
        invariant
            len == s@.len(),
            3 <= len,
            i <= len - 2,
            forall|j: int| 0 <= j < i ==> !(#[trigger] sep_at(s@, j)),
        decreases len - i,
    {
        if s.get_char(i) == ' ' && s.get_char(i + 1) == '=' && s.get_char(i + 2) == ' ' {
            return Some(i);
        }
        i = i + 1;
    }
    None
}

/// Read the next test case, advancing `pos` over the lines consumed and
/// keeping `current_section` up to date with any `[section]` markers seen.
/// `Ok(None)` means the input is exhausted; a grammar violation is
/// `SyntaxError` and abandons the scan.
#[verifier::loop_isolation(false)]
pub fn parse_test_case(lines: &Vec<String>, pos: &mut usize, current_section: &mut String) -> (r:
    Result<Option<TestCase>, TestError>)
    requires
        *old(pos) <= lines@.len(),
    ensures
        *final(pos) <= lines@.len(),
        ({
            match spec_parse(
                lines.deep_view(),
                *old(pos) as int,
                old(current_section)@,
                Seq::<AttrView>::empty(),
                true,
            ) {
                ParseStep::NoMore { section, pos: p } => r == Ok::<Option<TestCase>, TestError>(
                    None::<TestCase>,
                ) && final(current_section)@ == section && *final(pos) as int == p,
                ParseStep::Emitted { attrs, section, pos: p } => (r matches Ok(Some(tc)) && tc@
                    == attrs) && final(current_section)@ == section && *final(pos) as int == p,
                ParseStep::Failed => r == Err::<Option<TestCase>, TestError>(
                    TestError::SyntaxError,
                ),
            }
        }),
{
    let ghost model = lines.deep_view();
    let n = lines.len();
    let mut case = TestCase::new();
    let mut first = true;
    while *pos < n
        invariant
            *pos <= n,
            spec_parse(model, *old(pos) as int, old(current_section)@, Seq::<AttrView>::empty(), true)
                == spec_parse(model, *pos as int, current_section@, case@, first),
        decreases n - *pos,
    {
        let line: &String = &lines[*pos];
        let st = line.as_str();
        let len = st.unicode_len();
        proof {
            assert(model[*pos as int] == st@);
        }
        let ghost pos_here = *pos as int;
        *pos = *pos + 1;
        if len == 0 {
            if !first {
                return Ok(Some(case));
            }
        } else if st.get_char(0) == '#' {
            // A comment: ignored wherever it stands.
        } else if st.get_char(0) == '[' {
            if !first || len < 2 || st.get_char(len - 1) != ']' {
                return Err(TestError::SyntaxError);
            }
            let inner = st.substring_char(1, len - 1);
            *current_section = String::from_str(inner);
        } else {
            match find_sep_str(st) {
                None => {
                    return Err(TestError::SyntaxError);
                },
                Some(isep) => {
                    proof {
                        lemma_first_sep_at(st@, isep as int);
                        assert(st@.subrange(0, isep as int) =~= st@.take(isep as int));
                        assert(st@.subrange(isep as int + 3, len as int) =~= st@.skip(
                            isep as int + 3,
                        ));
                    }
                    let key = trim_str(st.substring_char(0, isep));
                    let value = trim_str(st.substring_char(isep + 3, len));
                    if value.as_str().unicode_len() == 0 {
                        return Err(TestError::SyntaxError);
                    }
                    case.push_attribute(key, value);
                    first = false;
                },
            }
        }
    }
    if first {
        Ok(None)
    } else {
        Ok(Some(case))
    }
}

} // verus!
