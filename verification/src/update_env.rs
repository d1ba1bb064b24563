//! Updating one variable of a `.env` file: every line that starts with
//! `NAME=` is replaced, and the assignment is appended when no line did.

use vstd::prelude::*;
use crate::strutil::{
    self, spec_join, spec_lines, spec_starts_with,
};

verus! {

/// The command's arguments: variable name, optional value (read from
/// standard input when absent), and the file to update.
#[derive(Debug, Clone)]
pub struct Cmd {
    pub name: String,
    pub value: Option<String>,
    pub env_file: String,
}

/// What can go wrong while updating the file.
#[derive(Debug, Clone, PartialEq, Eq)]
pub enum Error {
    Io(String),
}

/// The lines of `input`, those starting with `prefix` replaced by
/// `replacement`; when none starts with it, `replacement` is appended.
pub open spec fn spec_replace_lines(
    input: Seq<char>,
    prefix: Seq<char>,
    replacement: Seq<char>,
) -> Seq<char> {
    let ls = spec_lines(input);
    let mapped = ls.map_values(
        |l: Seq<char>| if spec_starts_with(l, prefix) {
            replacement
        } else {
            l
        },
    );
    let found = exists|i: int| 0 <= i < ls.len() && spec_starts_with(#[trigger] ls[i], prefix);
    if found {
        spec_join(mapped, "\n"@)
    } else {
        spec_join(mapped.push(replacement), "\n"@)
    }
}

/// Replaces every line of `input` that starts with `starts_with` by
/// `replacement`, appending `replacement` if no line started with it.
pub fn replace_lines_starting_with(input: &str, starts_with: &str, replacement: &str) -> (r:
    String)
    ensures
        r@ == spec_replace_lines(input@, starts_with@, replacement@),
{
    let lines = strutil::split_lines(input);
    let ghost ls = lines.deep_view();
    let ghost mapped = ls.map_values(
        |l: Seq<char>| if spec_starts_with(l, starts_with@) {
            replacement@
        } else {
            l
        },
    );
    let mut found = false;
    let mut v: Vec<String> = Vec::new();
    let mut i: usize = 0;
    while i < lines.len()
        invariant
            ls == lines.deep_view(),
            mapped == ls.map_values(
                |l: Seq<char>| if spec_starts_with(l, starts_with@) {
                    replacement@
                } else {
                    l
                },
            ),
            lines@.len() == ls.len(),
            i <= ls.len(),
            v.deep_view() =~= mapped.take(i as int),
            found == exists|t: int|
                0 <= t < i && spec_starts_with(#[trigger] ls[t], starts_with@),
        decreases ls.len() - i,
    {
        let ghost old_found = found;
        if strutil::starts_with(lines[i].as_str(), starts_with) {
            found = true;
            v.push(String::from_str(replacement));
            proof {
                assert(ls[i as int] == lines@[i as int]@);
                assert(spec_starts_with(ls[i as int], starts_with@));
            }
        } else {
            v.push(lines[i].clone());
            proof {
                assert(ls[i as int] == lines@[i as int]@);
                assert(!spec_starts_with(ls[i as int], starts_with@));
                if found {
                    let t = choose|t: int|
                        0 <= t < i && spec_starts_with(#[trigger] ls[t], starts_with@);
                    assert(spec_starts_with(ls[t], starts_with@));
                }
            }
        }
        proof {
            assert(mapped[i as int] == if spec_starts_with(ls[i as int], starts_with@) {
                replacement@
            } else {
                ls[i as int]
            });
            assert(mapped.take(i + 1) =~= mapped.take(i as int).push(mapped[i as int]));
            assert(v.deep_view() =~= mapped.take(i + 1));
        }
        i = i + 1;
    }
    proof {
        assert(mapped.take(ls.len() as int) =~= mapped);
    }
    if !found {
        v.push(String::from_str(replacement));
        proof {
            assert(v.deep_view() =~= mapped.push(replacement@));
        }
    }
    strutil::join_with(&v, "\n")
}

impl Cmd {
    /// The new contents of the file: the existing text with the variable's
    /// assignment replaced or appended.
    pub fn new_env_contents(&self, existing: &str, value: &str) -> (r: String)
        ensures
            r@ == spec_replace_lines(
                existing@,
                self.name@ + "="@,
                self.name@ + "="@ + value@,
            ),
    {
        let prefix = strutil::strcat(self.name.as_str(), "=");
        let replacement = strutil::strcat(prefix.as_str(), value);
        replace_lines_starting_with(existing, prefix.as_str(), replacement.as_str())
    }
}

} // verus!
