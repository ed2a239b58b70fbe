//! Parsing of the source-control change summary and the manifest-marker
//! checks that decide which dependency installers a change calls for.

use vstd::prelude::*;
use vstd::hash_set::StringHashSet;

use crate::text::{split_on, split_str, trim_spec, trim_str};

verus! {

/// A decimal digit.
pub open spec fn is_digit(c: char) -> bool {
    '0' <= c && c <= '9'
}

/// A well-formed change identifier: digits only (the empty string included,
/// as the syntax admits it).
pub open spec fn valid_change_id(s: Seq<char>) -> bool {
    forall|i: int| 0 <= i < s.len() ==> is_digit(s[i])
}

/// Whether `change` is a syntactically well-formed change identifier: every
/// character a decimal digit. Callers must validate identifiers with this
/// before any external call is made on their behalf.
pub fn is_valid_gerrit_change(change: &str) -> (r: bool)
    ensures
        r == valid_change_id(change@),
{
    let n = change.unicode_len();
    let mut i: usize = 0;
    while i < n
        invariant
            i <= n,
            n == change@.len(),
            forall|j: int| 0 <= j < i ==> is_digit(change@[j]),
        decreases n - i,
    {
        let c = change.get_char(i);
        if !('0' <= c && c <= '9') {
            return false;
        }
        i += 1;
    }
    true
}

/// The changed-path column of one summary line: what stands before the first
/// column separator, with surrounding whitespace removed.
pub open spec fn first_field(line: Seq<char>) -> Seq<char> {
    trim_spec(split_on(line, '|')[0])
}

/// The set of changed paths named by a one-commit summary with per-file
/// statistics: every line but the headline and the trailing total contributes
/// its path column.
pub open spec fn changed_files_spec(out: Seq<char>) -> Set<Seq<char>> {
    let lines = split_on(trim_spec(out), '\n');
    Set::new(
        |f: Seq<char>| exists|i: int| 1 <= i < lines.len() - 1 && first_field(#[trigger] lines[i]) == f,
    )
}

/// Extracts the changed-path column of one summary line.
#[verifier::loop_isolation(false)]
fn first_field_str(line: &str) -> (r: String)
    ensures
        r@ == first_field(line@),
{
    let n = line.unicode_len();
    let mut c: usize = 0;
    while c < n && line.get_char(c) != '|'
        invariant
            c <= n,
            forall|j: int| 0 <= j < c ==> line@[j] != '|',
        decreases n - c,
    {
        c += 1;
    }
    proof {
        crate::text::lemma_split_first(line@, '|', c as int);
    }
    let prefix = line.substring_char(0, c);
    let trimmed = trim_str(prefix);
    trimmed.to_owned()
}

/// Parses a one-commit summary with per-file statistics into the set of
/// changed paths: the headline and the trailing totals line are skipped, and
/// each remaining line contributes the trimmed text before its first column
/// separator.
#[verifier::loop_isolation(false)]
pub fn parse_changed_files(output: &str) -> (r: StringHashSet)
    ensures
        r@ == changed_files_spec(output@),
{
    let trimmed = trim_str(output);
    let lines = split_str(trimmed, '\n');
    let ghost lview = split_on(trim_spec(output@), '\n');
    proof {
        assert(lines.deep_view() =~~= lview);
    }
    let mut files = StringHashSet::new();
    let n = lines.len();
    let m: usize = if n == 0 {
        0
    } else {
        n - 1
    };
    let mut i: usize = 1;
    while i < m
        invariant
            1 <= i,
            i <= m || i == 1,
            files@ =~= Set::new(
                |f: Seq<char>|
                    exists|j: int| 1 <= j < i && first_field(#[trigger] lview[j]) == f,
            ),
        decreases m - i,
    {
        proof {
            assert(lview[i as int] == lines.deep_view()[i as int]);
        }
        let field = first_field_str(&lines[i]);
        files.insert(field);
        proof {
            assert(files@ =~= Set::new(
                |f: Seq<char>|
                    exists|j: int| 1 <= j < i + 1 && first_field(#[trigger] lview[j]) == f,
            ));
        }
        i += 1;
    }
    proof {
        if m >= 1 {
            assert(i == m);
        } else {
            assert(i == 1);
        }
        assert(files@ =~= changed_files_spec(output@));
    }
    files
}

/// Whether the changed-path set touches the manifest or lock file of the
/// first dependency-manager ecosystem.
pub fn has_npm_changes(changes: &StringHashSet) -> (r: bool)
    ensures
        r == (changes@.contains("package.json"@) || changes@.contains("package-lock.json"@)),
{
    changes.contains("package.json") || changes.contains("package-lock.json")
}

/// Whether the changed-path set touches the manifest of the second
/// dependency-manager ecosystem.
pub fn has_composer_changes(changes: &StringHashSet) -> (r: bool)
    ensures
        r == changes@.contains("composer.json"@),
{
    changes.contains("composer.json")
}

} // verus!
