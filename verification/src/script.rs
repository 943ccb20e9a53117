//! The standalone-script heuristic detector. A candidate file is a
//! standalone script when it is a regular file with a recognized source
//! extension, its first three bytes are the shebang marker `#!` followed by a
//! path separator or an ASCII whitespace byte (ruling out a language
//! attribute such as `#![...]`, whose third byte differs), and the remainder
//! of its first line contains the fixed marker substring. Every observation
//! is best-effort: an unreadable step excludes the candidate, it never
//! aborts the scan.
use vstd::prelude::*;

use crate::abs_path::{has_script_extension, has_script_extension_exec, AbsPath};
use crate::bytestr::{contains_bytes, contains_bytes_exec, script_marker, script_marker_exec};

verus! {

/// A byte is ASCII whitespace: space, horizontal tab, line feed, form feed
/// or carriage return.
pub open spec fn is_ascii_whitespace(b: u8) -> bool {
    b == 32 || b == 9 || b == 10 || b == 12 || b == 13
}

/// The three leading bytes form the shebang marker: `#`, `!`, then a path
/// separator or an ASCII whitespace byte.
pub open spec fn shebang_bytes_accepted(head: Seq<u8>) -> bool {
    head.len() == 3 && head[0] == 35 && head[1] == 33 && (head[2] == 47 || is_ascii_whitespace(
        head[2],
    ))
}

/// What discovery observed about one directory entry while probing it as a
/// standalone-script candidate. The path is the entry's resolved absolute
/// path; `head` holds the first three bytes when they could be read;
/// `first_line_rest` holds the remainder of the first line, decoded as text,
/// when one could be read.
pub struct ScriptCandidate {
    pub path: AbsPath,
    pub is_dir: bool,
    pub head: Option<Vec<u8>>,
    pub first_line_rest: Option<Vec<u8>>,
}

/// The mathematical value of a probed candidate.
#[verifier::ext_equal]
pub struct ScriptCandidateView {
    pub path: Seq<Seq<u8>>,
    pub is_dir: bool,
    pub head: Option<Seq<u8>>,
    pub first_line_rest: Option<Seq<u8>>,
}

impl View for ScriptCandidate {
    type V = ScriptCandidateView;

    open spec fn view(&self) -> ScriptCandidateView {
        ScriptCandidateView {
            path: self.path@,
            is_dir: self.is_dir,
            head: match self.head {
                Some(h) => Some(h@),
                None => None,
            },
            first_line_rest: match self.first_line_rest {
                Some(l) => Some(l@),
                None => None,
            },
        }
    }
}

/// The detector's verdict on a probed candidate: a regular file, a
/// recognized source extension on the final path component, a readable
/// shebang head that passes the byte checks, and a readable first-line
/// remainder containing the marker substring.
pub open spec fn script_accepted(c: ScriptCandidateView) -> bool {
    &&& !c.is_dir
    &&& c.path.len() > 0
    &&& has_script_extension(c.path.last())
    &&& c.head matches Some(h) && shebang_bytes_accepted(h)
    &&& c.first_line_rest matches Some(l) && contains_bytes(l, script_marker())
}

/// Decides `script_accepted` for one probed candidate.
pub fn script_accepted_exec(c: &ScriptCandidate) -> (r: bool)
    ensures
        r == script_accepted(c@),
{
    if c.is_dir {
        return false;
    }
    let n = c.path.components.len();
    if n == 0 {
        return false;
    }
    if !has_script_extension_exec(&c.path.components[n - 1]) {
        proof {
            assert(c@.path.last() == c.path.components@[n - 1]@);
        }
        return false;
    }
    proof {
        assert(c@.path.last() == c.path.components@[n - 1]@);
    }
    match &c.head {
        None => false,
        Some(h) => {
            if h.len() != 3 {
                return false;
            }
            let b2 = h[2];
            if !(h[0] == 35 && h[1] == 33 && (b2 == 47 || b2 == 32 || b2 == 9 || b2 == 10 || b2
                == 12 || b2 == 13)) {
                return false;
            }
            match &c.first_line_rest {
                None => false,
                Some(l) => {
                    let marker = script_marker_exec();
                    contains_bytes_exec(l, &marker)
                },
            }
        },
    }
}

/// A position in a text document, zero-based.
#[derive(Clone, Copy, Debug, PartialEq, Eq, Structural)]
pub struct TextPosition {
    pub line: u32,
    pub character: u32,
}

/// A half-open span between two positions in a text document.
#[derive(Clone, Copy, Debug, PartialEq, Eq, Structural)]
pub struct Span {
    pub start: TextPosition,
    pub end: TextPosition,
}

/// Metadata about a discovered standalone script: its absolute path and,
/// when manifest parsing has located it, the span of the embedded manifest
/// declaration within the script's text.
#[derive(Clone, Debug, PartialEq, Eq)]
pub struct RustScriptMeta {
    pub script_file: AbsPath,
    pub manifest_span: Option<Span>,
}

} // verus!
