//! Reading and rendering of `export KEY="value"` lines: the text form in
//! which the two managed variables are persisted inside profile files and
//! the satellite variables file.
use vstd::prelude::*;

verus! {

use crate::search::find_char_spec;
use crate::search::find_char_from;
use crate::search::lemma_find_char_props;
use crate::text::trim_spec;
use crate::text::trim_chars;
use crate::text::copy_range;
use crate::text::push_chars;
use crate::text::push_str_chars;
use crate::text::chars_to_string;
use crate::text::str_to_chars;
use crate::text::starts_with;

/// The two variable names this library manages.
pub open spec fn dist_key() -> Seq<char> {
    "RUSTUP_DIST_SERVER"@
}

pub open spec fn root_key() -> Seq<char> {
    "RUSTUP_UPDATE_ROOT"@
}

pub fn dist_key_chars() -> (r: Vec<char>)
    ensures
        r@ == dist_key(),
{
    str_to_chars("RUSTUP_DIST_SERVER")
}

pub fn root_key_chars() -> (r: Vec<char>)
    ensures
        r@ == root_key(),
{
    str_to_chars("RUSTUP_UPDATE_ROOT")
}

/// The trimmed value with one layer of wrapping quotes removed, if both
/// ends carry the same quote.
pub open spec fn strip_quotes_spec(v: Seq<char>) -> Seq<char> {
    let t = trim_spec(v);
    if t.len() >= 2 && ((t[0] == '"' && t[t.len() - 1] == '"') || (t[0] == '\'' && t[t.len() - 1]
        == '\'')) {
        t.subrange(1, t.len() - 1)
    } else {
        t
    }
}

/// Trims the value and removes one layer of matching wrapping quotes.
pub fn strip_wrapping_quotes(v: &Vec<char>) -> (r: Vec<char>)
    ensures
        r@ == strip_quotes_spec(v@),
{
    let t = trim_chars(v);
    let n = t.len();
    if n >= 2 && ((t[0] == '"' && t[n - 1] == '"') || (t[0] == '\'' && t[n - 1] == '\'')) {
        copy_range(&t, 1, n - 1)
    } else {
        t
    }
}

/// The value a single profile line assigns to `key`: blank and comment
/// lines carry nothing; an optional `export ` prefix is dropped; the
/// remainder after `KEY=` is unquoted.
pub open spec fn line_value_spec(line: Seq<char>, key: Seq<char>) -> Option<Seq<char>> {
    let t = trim_spec(line);
    if t.len() == 0 || t[0] == '#' {
        Option::None
    } else {
        let w = if t.len() >= 7 && t.subrange(0, 7) == "export "@ {
            t.subrange(7, t.len() as int)
        } else {
            t
        };
        let prefix = key.push('=');
        if w.len() >= prefix.len() && w.subrange(0, prefix.len() as int) == prefix {
            Option::Some(strip_quotes_spec(w.subrange(prefix.len() as int, w.len() as int)))
        } else {
            Option::None
        }
    }
}

/// The value one line assigns to `key`, if any.
pub fn line_value(line: &Vec<char>, key: &Vec<char>) -> (r: Option<Vec<char>>)
    ensures
        r matches Some(v) ==> line_value_spec(line@, key@) == Some(v@),
        r is None ==> line_value_spec(line@, key@) is None,
{
    let t = trim_chars(line);
    if t.len() == 0 {
        return None;
    }
    if t[0] == '#' {
        return None;
    }
    let export_prefix = str_to_chars("export ");
    proof {
        reveal_strlit("export ");
    }
    let w = if starts_with(&t, &export_prefix) {
        copy_range(&t, 7, t.len())
    } else {
        t
    };
    let mut prefix = copy_range(key, 0, key.len());
    proof {
        assert(prefix@ =~= key@);
    }
    prefix.push('=');
    if starts_with(&w, &prefix) {
        let rest = copy_range(&w, prefix.len(), w.len());
        let out = strip_wrapping_quotes(&rest);
        Some(out)
    } else {
        None
    }
}

/// The value the text's first matching line assigns to `key`, scanning
/// line by line from position `pos`.
pub open spec fn parse_env_from(s: Seq<char>, key: Seq<char>, pos: nat) -> Option<Seq<char>>
    decreases s.len() - pos,
    when pos <= s.len()
{
    match find_char_spec(s, pos, '\n') {
        Option::Some(i) => if pos <= i < s.len() {
            match line_value_spec(s.subrange(pos as int, i), key) {
                Option::Some(v) => Option::Some(v),
                Option::None => parse_env_from(s, key, (i + 1) as nat),
            }
        } else {
            Option::None
        },
        Option::None => line_value_spec(s.subrange(pos as int, s.len() as int), key),
    }
}

/// The value the text assigns to `key`, per its first matching line.
pub open spec fn parse_env_lines_spec(s: Seq<char>, key: Seq<char>) -> Option<Seq<char>> {
    parse_env_from(s, key, 0)
}

/// Scans the text line by line for an assignment to `key`.
pub fn parse_env_value_from_lines(lines: &Vec<char>, key: &Vec<char>) -> (r: Option<Vec<char>>)
    ensures
        r matches Some(v) ==> parse_env_lines_spec(lines@, key@) == Some(v@),
        r is None ==> parse_env_lines_spec(lines@, key@) is None,
{
    let n = lines.len();
    let mut pos: usize = 0;
    loop
        invariant
            pos <= n,
            n == lines@.len(),
            parse_env_lines_spec(lines@, key@) == parse_env_from(lines@, key@, pos as nat),
        decreases n - pos,
    {
        match find_char_from(lines, pos, '\n') {
            Some(i) => {
                proof {
                    lemma_find_char_props(lines@, pos as nat, '\n');
                }
                let line = copy_range(lines, pos, i);
                match line_value(&line, key) {
                    Some(v) => {
                        return Some(v);
                    },
                    None => {
                        pos = i + 1;
                    },
                }
            },
            None => {
                let line = copy_range(lines, pos, n);
                return line_value(&line, key);
            },
        }
    }
}

/// Doubled backslashes and escaped double quotes, as a double-quoted
/// shell value needs.
pub open spec fn escape_shell_spec(s: Seq<char>) -> Seq<char>
    decreases s.len(),
{
    if s.len() == 0 {
        Seq::<char>::empty()
    } else {
        let head: Seq<char> = if s[0] == '\\' {
            seq!['\\', '\\']
        } else if s[0] == '"' {
            seq!['\\', '"']
        } else {
            seq![s[0]]
        };
        head + escape_shell_spec(s.subrange(1, s.len() as int))
    }
}

/// Escapes a value for a double-quoted shell assignment.
pub fn escape_shell_value(v: &Vec<char>) -> (r: Vec<char>)
    ensures
        r@ == escape_shell_spec(v@),
{
    let n = v.len();
    let mut out: Vec<char> = Vec::new();
    let mut i: usize = 0;
    proof {
        assert(v@.subrange(0, v@.len() as int) =~= v@);
        assert(Seq::<char>::empty() + escape_shell_spec(v@) =~= escape_shell_spec(v@));
    }
    while i < n
        invariant
            i <= n,
            n == v@.len(),
            escape_shell_spec(v@) =~= out@ + escape_shell_spec(
                v@.subrange(i as int, v@.len() as int),
            ),
        decreases n - i,
    {
        proof {
            let rest = v@.subrange(i as int, v@.len() as int);
            assert(rest[0] == v@[i as int]);
            assert(rest.subrange(1, rest.len() as int) =~= v@.subrange(
                i + 1 as int,
                v@.len() as int,
            ));
        }
        let c = v[i];
        if c == '\\' {
            out.push('\\');
            out.push('\\');
        } else if c == '"' {
            out.push('\\');
            out.push('"');
        } else {
            out.push(c);
        }
        i = i + 1;
        proof {
            assert(escape_shell_spec(v@) =~= out@ + escape_shell_spec(
                v@.subrange(i as int, v@.len() as int),
            ));
        }
    }
    proof {
        assert(v@.subrange(n as int, n as int) =~= Seq::<char>::empty());
        assert(out@ + Seq::<char>::empty() =~= out@);
    }
    out
}

/// One `export KEY="escaped value"` line.
pub open spec fn export_line_spec(key: Seq<char>, value: Seq<char>) -> Seq<char> {
    "export "@ + key + "=\""@ + escape_shell_spec(value) + "\""@
}

/// The lines the managed block body (or variables file) holds for the
/// given values: one export line per set variable, dist first.
pub open spec fn export_lines_spec(dist: Option<Seq<char>>, root: Option<Seq<char>>) -> Seq<
    char,
> {
    match (dist, root) {
        (Option::Some(d), Option::Some(r)) => export_line_spec(dist_key(), d) + seq!['\n']
            + export_line_spec(root_key(), r),
        (Option::Some(d), Option::None) => export_line_spec(dist_key(), d),
        (Option::None, Option::Some(r)) => export_line_spec(root_key(), r),
        (Option::None, Option::None) => Seq::<char>::empty(),
    }
}

fn push_export_line(out: &mut Vec<char>, key: &Vec<char>, value: &Vec<char>)
    ensures
        final(out)@ == old(out)@ + export_line_spec(key@, value@),
{
    push_str_chars(out, "export ");
    push_chars(out, key);
    push_str_chars(out, "=\"");
    let esc = escape_shell_value(value);
    push_chars(out, &esc);
    push_str_chars(out, "\"");
    proof {
        assert(out@ =~= old(out)@ + export_line_spec(key@, value@));
    }
}

/// Renders the export lines for the given values.
pub fn build_export_lines(dist: Option<&Vec<char>>, root: Option<&Vec<char>>) -> (r: Vec<char>)
    ensures
        r@ == export_lines_spec(
            match dist {
                Some(d) => Some(d@),
                None => None,
            },
            match root {
                Some(t) => Some(t@),
                None => None,
            },
        ),
{
    let mut out: Vec<char> = Vec::new();
    let dk = dist_key_chars();
    let rk = root_key_chars();
    match (dist, root) {
        (Some(d), Some(r)) => {
            push_export_line(&mut out, &dk, d);
            out.push('\n');
            push_export_line(&mut out, &rk, r);
            proof {
                assert(out@ =~= export_line_spec(dist_key(), d@) + seq!['\n'] + export_line_spec(
                    root_key(),
                    r@,
                ));
            }
        },
        (Some(d), None) => {
            push_export_line(&mut out, &dk, d);
        },
        (None, Some(r)) => {
            push_export_line(&mut out, &rk, r);
        },
        (None, None) => {},
    }
    out
}

/// The banner line that opens the satellite variables file.
pub open spec fn env_file_header() -> Seq<char> {
    "# Managed by QuickChangeRustInfo\n"@
}

/// The variables file content for the given values: `None` when both are
/// cleared (the file is removed), else the banner plus the export lines.
pub open spec fn env_file_content_spec(dist: Option<Seq<char>>, root: Option<Seq<char>>) -> Option<
    Seq<char>,
> {
    if dist is None && root is None {
        Option::None
    } else {
        let exports = export_lines_spec(dist, root);
        if exports.len() == 0 {
            Option::Some(env_file_header())
        } else {
            Option::Some(env_file_header() + exports + seq!['\n'])
        }
    }
}

/// Renders the satellite variables file, or says it must be removed.
pub fn env_file_content(dist: Option<&Vec<char>>, root: Option<&Vec<char>>) -> (r: Option<String>)
    ensures
        ({
            let spec = env_file_content_spec(
                match dist {
                    Some(d) => Some(d@),
                    None => None,
                },
                match root {
                    Some(t) => Some(t@),
                    None => None,
                },
            );
            match r {
                Some(s) => spec == Some(s@),
                None => spec is None,
            }
        }),
{
    if dist.is_none() && root.is_none() {
        return None;
    }
    let mut out: Vec<char> = Vec::new();
    push_str_chars(&mut out, "# Managed by QuickChangeRustInfo\n");
    let exports = build_export_lines(dist, root);
    if exports.len() > 0 {
        push_chars(&mut out, &exports);
        out.push('\n');
        proof {
            assert(out@ =~= env_file_header() + exports@ + seq!['\n']);
        }
    }
    Some(chars_to_string(&out))
}

} // verus!
