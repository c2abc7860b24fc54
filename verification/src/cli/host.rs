//! Reading the host context a discovery report carries out of the text
//! of the system files that hold it: the distribution's pretty name from
//! an os-release file, and the kernel release.

use vstd::prelude::*;
use vstd::string::*;
use crate::cli::device::{find_char, first_index_of, lemma_first_index_of};
use crate::text::str_equal;

verus! {

/// Whether `c` has Unicode's `White_Space` property: what `str::trim`
/// strips.
pub open spec fn is_white_space(c: char) -> bool {
    ||| '\u{9}' <= c && c <= '\u{d}'
    ||| c == ' '
    ||| c == '\u{85}'
    ||| c == '\u{a0}'
    ||| c == '\u{1680}'
    ||| '\u{2000}' <= c && c <= '\u{200a}'
    ||| c == '\u{2028}'
    ||| c == '\u{2029}'
    ||| c == '\u{202f}'
    ||| c == '\u{205f}'
    ||| c == '\u{3000}'
}

/// Which characters a trim strips.
#[derive(Debug, Clone, Copy, PartialEq, Eq, Structural)]
pub enum Strip {
    /// Unicode white space.
    WhiteSpace,
    /// Double quotes.
    Quote,
}

/// Whether `strip` strips `c`.
pub open spec fn strips(strip: Strip, c: char) -> bool {
    match strip {
        Strip::WhiteSpace => is_white_space(c),
        Strip::Quote => c == '"',
    }
}

fn strips_exec(strip: Strip, c: char) -> (r: bool)
    ensures
        r == strips(strip, c),
{
    match strip {
        Strip::WhiteSpace => {
            ('\u{9}' <= c && c <= '\u{d}') || c == ' ' || c == '\u{85}' || c == '\u{a0}' || c == '\u{1680}'
                || ('\u{2000}' <= c && c <= '\u{200a}') || c == '\u{2028}' || c == '\u{2029}' || c == '\u{202f}'
                || c == '\u{205f}' || c == '\u{3000}'
        },
        Strip::Quote => c == '"',
    }
}

/// `s` without the characters `strip` strips at its start.
pub open spec fn trim_start(s: Seq<char>, strip: Strip) -> Seq<char>
    decreases s.len(),
{
    if s.len() > 0 && strips(strip, s[0]) {
        trim_start(s.drop_first(), strip)
    } else {
        s
    }
}

/// `s` without the characters `strip` strips at its end.
pub open spec fn trim_end(s: Seq<char>, strip: Strip) -> Seq<char>
    decreases s.len(),
{
    if s.len() > 0 && strips(strip, s.last()) {
        trim_end(s.drop_last(), strip)
    } else {
        s
    }
}

/// `s` without the characters `strip` strips at either end.
pub open spec fn trimmed(s: Seq<char>, strip: Strip) -> Seq<char> {
    trim_end(trim_start(s, strip), strip)
}

/// `s` without the characters `strip` strips at either end.
pub fn trim(s: &str, strip: Strip) -> (r: &str)
    ensures
        r@ == trimmed(s@, strip),
{
    let n = s.unicode_len();
    let mut k: usize = 0;
    proof {
        assert(s@.skip(0) =~= s@);
    }
    while k < n && strips_exec(strip, s.get_char(k))
        invariant
            n == s@.len(),
            k <= n,
            trim_start(s@, strip) == trim_start(s@.skip(k as int), strip),
        decreases n - k,
    {
        proof {
            assert(s@.skip(k as int).drop_first() =~= s@.skip(k + 1));
        }
        k = k + 1;
    }
    proof {
        assert(trim_start(s@, strip) == s@.skip(k as int));
        assert(s@.subrange(k as int, n as int) =~= s@.skip(k as int));
    }
    let mut e: usize = n;
    while e > k && strips_exec(strip, s.get_char(e - 1))
        invariant
            n == s@.len(),
            k <= e <= n,
            trimmed(s@, strip) == trim_end(s@.subrange(k as int, e as int), strip),
        decreases e,
    {
        proof {
            assert(s@.subrange(k as int, e as int).drop_last() =~= s@.subrange(k as int, e - 1));
        }
        e = e - 1;
    }
    let r = s.substring_char(k, e);
    proof {
        assert(r@ =~= s@.subrange(k as int, e as int));
    }
    r
}

/// A line without the carriage return of a `\r\n` ending.
pub open spec fn strip_cr(line: Seq<char>) -> Seq<char> {
    if line.len() > 0 && line.last() == '\r' {
        line.drop_last()
    } else {
        line
    }
}

/// The lines of `s` as `str::lines` splits them: at each `\n`, dropping
/// a `\r` just before it; a final line ending adds no empty line.
pub open spec fn lines_of(s: Seq<char>) -> Seq<Seq<char>>
    decreases s.len(),
{
    if s.len() == 0 {
        Seq::empty()
    } else {
        match first_index_of(s, '\n') {
            None => seq![s],
            Some(i) => {
                proof {
                    lemma_first_index_of(s, '\n');
                }
                seq![strip_cr(s.take(i))] + lines_of(s.skip(i + 1))
            },
        }
    }
}

/// What follows `prefix` on the first of `lines` that starts with it.
pub open spec fn after_first_prefixed(lines: Seq<Seq<char>>, prefix: Seq<char>) -> Option<Seq<char>>
    decreases lines.len(),
{
    if lines.len() == 0 {
        None
    } else if lines[0].len() >= prefix.len() && lines[0].take(prefix.len() as int) == prefix {
        Some(lines[0].skip(prefix.len() as int))
    } else {
        after_first_prefixed(lines.drop_first(), prefix)
    }
}

/// The distribution's name in an os-release file: the value of its first
/// `PRETTY_NAME=` line, without surrounding quotes; `unknown` when the
/// file could not be read or has no such line.
pub open spec fn spec_os_version(contents: Option<Seq<char>>) -> Seq<char> {
    match contents {
        Some(text) => match after_first_prefixed(lines_of(text), "PRETTY_NAME="@) {
            Some(value) => trimmed(value, Strip::Quote),
            None => "unknown"@,
        },
        None => "unknown"@,
    }
}

/// The kernel release: the file's text without surrounding white space;
/// `unknown` when it could not be read.
pub open spec fn spec_kernel_version(contents: Option<Seq<char>>) -> Seq<char> {
    match contents {
        Some(text) => trimmed(text, Strip::WhiteSpace),
        None => "unknown"@,
    }
}

/// The value of the first `PRETTY_NAME=` line of `text`, if any.
fn pretty_name(text: &str) -> (r: Option<&str>)
    ensures
        match r {
            Some(v) => after_first_prefixed(lines_of(text@), "PRETTY_NAME="@) == Some(v@),
            None => after_first_prefixed(lines_of(text@), "PRETTY_NAME="@) is None,
        },
{
    proof {
        reveal_strlit("PRETTY_NAME=");
    }
    let mut rest: &str = text;
    while rest.unicode_len() > 0
        invariant
            after_first_prefixed(lines_of(text@), "PRETTY_NAME="@)
                == after_first_prefixed(lines_of(rest@), "PRETTY_NAME="@),
            "PRETTY_NAME="@.len() == 12,
        decreases rest@.len(),
    {
        let n = rest.unicode_len();
        proof {
            lemma_first_index_of(rest@, '\n');
        }
        let (line, next): (&str, &str) = match find_char(rest, '\n') {
            Some(i) => {
                let raw = rest.substring_char(0, i);
                let line = if i > 0 && rest.get_char(i - 1) == '\r' {
                    rest.substring_char(0, i - 1)
                } else {
                    raw
                };
                proof {
                    assert(raw@ =~= rest@.take(i as int));
                    assert(line@ =~= strip_cr(rest@.take(i as int)));
                }
                (line, rest.substring_char(i + 1, n))
            },
            None => (rest, rest.substring_char(n, n)),
        };
        proof {
            let lines = lines_of(rest@);
            assert(lines.len() > 0 && lines[0] == line@);
            if let Some(i) = first_index_of(rest@, '\n') {
                assert(next@ =~= rest@.skip(i + 1));
                assert(lines.drop_first() =~= lines_of(next@));
            } else {
                assert(next@ =~= Seq::<char>::empty());
                assert(lines.drop_first() =~= lines_of(next@));
            }
        }
        if line.unicode_len() >= 12 {
            let head = line.substring_char(0, 12);
            if str_equal(head, "PRETTY_NAME=") {
                let value = line.substring_char(12, line.unicode_len());
                proof {
                    assert(head@ =~= line@.take(12));
                    assert(value@ =~= line@.skip(12));
                }
                return Some(value);
            }
            proof {
                assert(head@ =~= line@.take(12));
            }
        }
        rest = next;
    }
    None
}

/// The distribution's name from the text of an os-release file, or
/// `unknown`.
pub fn os_version(contents: Option<&str>) -> (r: String)
    ensures
        r@ == spec_os_version(match contents {
            Some(t) => Some(t@),
            None => None,
        }),
{
    match contents {
        Some(text) => match pretty_name(text) {
            Some(value) => trim(value, Strip::Quote).to_owned(),
            None => String::from_str("unknown"),
        },
        None => String::from_str("unknown"),
    }
}

/// The kernel release from the text of the file holding it, or
/// `unknown`.
pub fn kernel_version(contents: Option<&str>) -> (r: String)
    ensures
        r@ == spec_kernel_version(match contents {
            Some(t) => Some(t@),
            None => None,
        }),
{
    match contents {
        Some(text) => trim(text, Strip::WhiteSpace).to_owned(),
        None => String::from_str("unknown"),
    }
}

} // verus!
