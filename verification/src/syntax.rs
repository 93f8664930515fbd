//! File types for the editor, derived from a path's extension.
//!
//! Rendering a highlighted line is a concern of the terminal surface;
//! the library only decides which language a path calls for.

use vstd::prelude::*;

use crate::text::{chars_is, lower_chars, lower_seq};

verus! {

/// The languages the editor distinguishes.
#[derive(Debug, Clone, PartialEq, Eq, Structural)]
pub enum FileType {
    Json,
    Yaml,
    Toml,
    Sql,
    Bash,
    Plain,
}

/// The text after the last `'.'` of `s`, or all of `s` when it holds
/// no dot; `acc` carries the characters gathered so far.
pub open spec fn tail_after_dot(s: Seq<char>, acc: Seq<char>) -> Seq<char>
    decreases s.len(),
{
    if s.len() == 0 {
        acc
    } else if s.last() == '.' {
        acc
    } else {
        tail_after_dot(s.drop_last(), seq![s.last()] + acc)
    }
}

/// The language a case-folded extension names.
pub open spec fn spec_classify_ext(low: Seq<char>) -> FileType {
    if low == "json"@ {
        FileType::Json
    } else if low == "yaml"@ || low == "yml"@ {
        FileType::Yaml
    } else if low == "toml"@ {
        FileType::Toml
    } else if low == "sql"@ {
        FileType::Sql
    } else if low == "sh"@ || low == "bash"@ {
        FileType::Bash
    } else {
        FileType::Plain
    }
}

/// Classify an already case-folded extension.
fn classify_ext(low: &Vec<char>) -> (r: FileType)
    ensures
        r == spec_classify_ext(low@),
{
    if chars_is(low, "json") {
        FileType::Json
    } else if chars_is(low, "yaml") || chars_is(low, "yml") {
        FileType::Yaml
    } else if chars_is(low, "toml") {
        FileType::Toml
    } else if chars_is(low, "sql") {
        FileType::Sql
    } else if chars_is(low, "sh") || chars_is(low, "bash") {
        FileType::Bash
    } else {
        FileType::Plain
    }
}

impl FileType {
    /// The language a path names: its extension (the text after the
    /// last dot, or the whole path without one), case folded.
    pub open spec fn spec_from_path(path: Seq<char>) -> FileType {
        spec_classify_ext(lower_seq(tail_after_dot(path, Seq::empty())))
    }

    /// Derive the language from a file path.
    pub fn from_path(path: &str) -> (r: FileType)
        ensures
            r == Self::spec_from_path(path@),
    {
        let n = path.unicode_len();
        let mut j: usize = n;
        proof {
            assert(path@.subrange(0, n as int) =~= path@);
            assert(path@.subrange(n as int, n as int) =~= Seq::<char>::empty());
        }
        while j > 0
            invariant
                n == path@.len(),
                j <= n,
                tail_after_dot(path@, Seq::empty()) == tail_after_dot(
                    path@.subrange(0, j as int),
                    path@.subrange(j as int, n as int),
                ),
            decreases j,
        {
            let c = path.get_char(j - 1);
            proof {
                let pre = path@.subrange(0, j as int);
                assert(pre.last() == path@[j - 1]);
                assert(pre.drop_last() =~= path@.subrange(0, j - 1));
                assert(seq![path@[j - 1]] + path@.subrange(j as int, n as int) =~= path@.subrange(
                    j - 1,
                    n as int,
                ));
            }
            if c == '.' {
                let ext = lower_chars(path.substring_char(j, n));
                return classify_ext(&ext);
            }
            j = j - 1;
        }
        proof {
            assert(path@.subrange(0, 0) =~= Seq::<char>::empty());
            assert(tail_after_dot(path@, Seq::empty()) == path@.subrange(0, n as int));
        }
        let ext = lower_chars(path.substring_char(0, n));
        classify_ext(&ext)
    }
}

/// The basic highlighter: remembers which language it renders. The
/// styling of lines lives with the terminal surface.
#[derive(Debug, Clone)]
pub struct BasicHighlighter {
    file_type: FileType,
}

impl BasicHighlighter {
    /// The language this highlighter renders.
    pub closed spec fn spec_file_type(&self) -> FileType {
        self.file_type
    }

    /// A highlighter for one language.
    pub fn new(file_type: FileType) -> (r: Self)
        ensures
            r.spec_file_type() == file_type,
    {
        BasicHighlighter { file_type }
    }

    /// The language this highlighter was made for.
    pub fn file_type(&self) -> (r: FileType)
        ensures
            r == self.spec_file_type(),
    {
        match self.file_type {
            FileType::Json => FileType::Json,
            FileType::Yaml => FileType::Yaml,
            FileType::Toml => FileType::Toml,
            FileType::Sql => FileType::Sql,
            FileType::Bash => FileType::Bash,
            FileType::Plain => FileType::Plain,
        }
    }
}

} // verus!
