//! Colouring of diff text for display: the diff is HTML-escaped, then every
//! added line is wrapped in a green span and every removed line in a red one.
//! Downstream rendering keys off the `+`/`-` line prefixes, which escaping
//! keeps intact.

use vstd::prelude::*;

use crate::text::{split_on, split_str};

verus! {

/// The HTML entity encoding of one character: the five XML-significant
/// characters and the forward slash become entities, everything else stays.
pub open spec fn escape_char(c: char) -> Seq<char> {
    if c == '&' {
        "&amp;"@
    } else if c == '<' {
        "&lt;"@
    } else if c == '>' {
        "&gt;"@
    } else if c == '"' {
        "&quot;"@
    } else if c == '\'' {
        "&#x27;"@
    } else if c == '/' {
        "&#x2F;"@
    } else {
        seq![c]
    }
}

/// The HTML entity encoding of a string, character by character.
pub open spec fn escape_html_spec(s: Seq<char>) -> Seq<char>
    decreases s.len(),
{
    if s.len() == 0 {
        Seq::empty()
    } else {
        escape_char(s[0]) + escape_html_spec(s.drop_first())
    }
}

/// Relies on `tera::escape_html`: each of the characters `&`, `<`, `>`, `"`,
/// `'` and `/` is replaced by its HTML entity encoding and every other
/// character is kept unchanged, in order.
#[verifier::external_body]
fn escape_html(s: &str) -> (r: String)
    ensures
        r@ == escape_html_spec(s@),
{
    tera::escape_html(s)
}

/// One line of escaped diff text, coloured: an added line sits in a green
/// span, a removed line in a red one, any other line stays bare.
pub open spec fn pretty_line(l: Seq<char>) -> Seq<char> {
    if l.len() > 0 && l[0] == '+' {
        "<span style=\"color: #14866d;\">"@ + l + "</span>"@
    } else if l.len() > 0 && l[0] == '-' {
        "<span style=\"color: #d33;\">"@ + l + "</span>"@
    } else {
        l
    }
}

/// The pieces of `ls` joined with `sep` between them.
pub open spec fn join_with(ls: Seq<Seq<char>>, sep: char) -> Seq<char>
    decreases ls.len(),
{
    if ls.len() == 0 {
        Seq::empty()
    } else if ls.len() == 1 {
        ls[0]
    } else {
        ls[0] + seq![sep] + join_with(ls.drop_first(), sep)
    }
}

/// Joining one more piece appends a separator and the piece.
proof fn lemma_join_push(ls: Seq<Seq<char>>, x: Seq<char>, sep: char)
    requires
        ls.len() >= 1,
    ensures
        join_with(ls.push(x), sep) =~= join_with(ls, sep) + seq![sep] + x,
    decreases ls.len(),
{
    if ls.len() == 1 {
        assert(ls.push(x)[0] == ls[0]);
        assert(ls.push(x).drop_first() =~= seq![x]);
        assert(join_with(seq![x], sep) == x);
    } else {
        assert(ls.push(x).drop_first() =~= ls.drop_first().push(x));
        lemma_join_push(ls.drop_first(), x, sep);
        assert(ls.push(x)[0] == ls[0]);
    }
}

/// The coloured rendering of a whole diff: the text is HTML-escaped, split
/// into lines, each line coloured, and the lines joined back together.
pub open spec fn prettify_spec(original: Seq<char>) -> Seq<char> {
    join_with(
        split_on(escape_html_spec(original), '\n').map_values(|l: Seq<char>| pretty_line(l)),
        '\n',
    )
}

/// Colours a diff for display, returning safe HTML: the text is escaped, and
/// every added or removed line is wrapped in a coloured span.
#[verifier::loop_isolation(false)]
pub fn prettify_diff(original: &str) -> (r: String)
    ensures
        r@ == prettify_spec(original@),
{
    let escaped = escape_html(original);
    let lines = split_str(escaped.as_str(), '\n');
    let ghost pls = split_on(escape_html_spec(original@), '\n').map_values(
        |l: Seq<char>| pretty_line(l),
    );
    proof {
        assert(lines.deep_view() =~~= split_on(escape_html_spec(original@), '\n'));
    }
    let n = lines.len();
    let mut pretty = String::new();
    let mut i: usize = 0;
    while i < n
        invariant
            i <= n,
            pretty@ =~= join_with(pls.take(i as int), '\n'),
        decreases n - i,
    {
        proof {
            assert(lines.deep_view()[i as int] == lines@[i as int]@);
            assert(pls[i as int] == pretty_line(lines@[i as int]@));
        }
        if i > 0 {
            pretty.append("\n");
            proof {
                reveal_strlit("\n");
                assert("\n"@ =~= seq!['\n']);
            }
        }
        let line = &lines[i];
        let len = line.unicode_len();
        if len > 0 && line.get_char(0) == '+' {
            pretty.append("<span style=\"color: #14866d;\">");
            pretty.append(line.as_str());
            pretty.append("</span>");
        } else if len > 0 && line.get_char(0) == '-' {
            pretty.append("<span style=\"color: #d33;\">");
            pretty.append(line.as_str());
            pretty.append("</span>");
        } else {
            pretty.append(line.as_str());
        }
        proof {
            if i == 0 {
                assert(pls.take(1int) =~= seq![pls[0int]]);
                assert(join_with(pls.take(1int), '\n') == pls[0int]);
            } else {
                lemma_join_push(pls.take(i as int), pls[i as int], '\n');
                assert(pls.take(i as int).push(pls[i as int]) =~= pls.take(i + 1));
            }
        }
        i += 1;
    }
    proof {
        assert(pls.take(n as int) =~= pls);
    }
    pretty
}

} // verus!
