//! The managed block: a delimited region inside a shell profile file,
//! owned by this library, found, replaced, inserted and removed as a
//! pure text transformation.
use vstd::prelude::*;

verus! {

use crate::search::occurs_at;
use crate::search::find_pat;
use crate::search::find_char_spec;
use crate::search::rfind_char_spec;
use crate::search::find_in;
use crate::search::find_char_from;
use crate::search::rfind_char_before;
use crate::text::str_to_chars;
use crate::text::copy_range;

/// The line that opens a managed block.
pub open spec fn start_marker() -> Seq<char> {
    "# >>> quickchange rustup env >>>"@
}

/// The line that closes a managed block.
pub open spec fn end_marker() -> Seq<char> {
    "# <<< quickchange rustup env <<<"@
}

/// Both markers are non-empty, hold no newline, and differ.
pub proof fn lemma_marker_facts()
    ensures
        start_marker().len() == 32,
        end_marker().len() == 32,
        forall|i: int| 0 <= i < 32 ==> start_marker()[i] != '\n',
        forall|i: int| 0 <= i < 32 ==> end_marker()[i] != '\n',
        start_marker() != end_marker(),
{
    reveal_strlit("# >>> quickchange rustup env >>>");
    reveal_strlit("# <<< quickchange rustup env <<<");
    assert(start_marker()[2] == '>');
    assert(end_marker()[2] == '<');
}

pub fn start_marker_vec() -> (r: Vec<char>)
    ensures
        r@ == start_marker(),
{
    str_to_chars("# >>> quickchange rustup env >>>")
}

pub fn end_marker_vec() -> (r: Vec<char>)
    ensures
        r@ == end_marker(),
{
    str_to_chars("# <<< quickchange rustup env <<<")
}

/// The whole-line region `[start, end)` that the managed block occupies:
/// from the start of the line holding the first start marker to just past
/// the newline that ends the line holding the first end marker.
pub open spec fn spec_find_block(s: Seq<char>) -> Option<(int, int)> {
    match find_pat(s, start_marker()) {
        Option::None => Option::None,
        Option::Some(st) => match find_pat(s, end_marker()) {
            Option::None => Option::None,
            Option::Some(en) => {
                let start_line = match rfind_char_spec(s, st as nat, '\n') {
                    Option::Some(i) => i + 1,
                    Option::None => 0,
                };
                let end_line = match find_char_spec(s, en as nat, '\n') {
                    Option::Some(i) => i + 1,
                    Option::None => s.len() as int,
                };
                Option::Some((start_line, end_line))
            },
        },
    }
}

/// Appends a newline unless the text already ends with one; empty text
/// is left alone when `only_nonempty` is set.
pub open spec fn with_trailing_newline(s: Seq<char>, only_nonempty: bool) -> Seq<char> {
    if s.len() == 0 {
        if only_nonempty {
            s
        } else {
            s.push('\n')
        }
    } else if s[s.len() - 1] == '\n' {
        s
    } else {
        s.push('\n')
    }
}

/// The profile text after the managed block is replaced by `block`
/// (`None` removes it): the region between the markers is substituted,
/// everything before and after is kept; with no block present, a block
/// to write is appended at the end.
pub open spec fn spec_apply_block(content: Seq<char>, block: Option<Seq<char>>) -> Seq<char> {
    match spec_find_block(content) {
        Option::Some((a, b)) => {
            let pre = content.subrange(0, a);
            let suf = content.subrange(b, content.len() as int);
            match block {
                Option::Some(bl) => with_trailing_newline(
                    with_trailing_newline(pre, true) + bl,
                    false,
                ) + suf,
                Option::None => pre + suf,
            }
        },
        Option::None => match block {
            Option::Some(bl) => with_trailing_newline(
                with_trailing_newline(content, true) + bl,
                false,
            ),
            Option::None => content,
        },
    }
}

/// Locates the managed block's whole-line region, if both markers occur.
pub fn find_managed_block(content: &Vec<char>) -> (r: Option<(usize, usize)>)
    ensures
        r matches Some(p) ==> spec_find_block(content@) == Some((p.0 as int, p.1 as int))
            && p.0 <= content@.len() && p.1 <= content@.len(),
        r is None ==> spec_find_block(content@) is None,
{
    proof {
        lemma_marker_facts();
    }
    let sm = start_marker_vec();
    let em = end_marker_vec();
    let st = match find_in(content, &sm) {
        Some(i) => i,
        None => {
            return None;
        },
    };
    let en = match find_in(content, &em) {
        Some(i) => i,
        None => {
            return None;
        },
    };
    proof {
        crate::search::lemma_find_from_props(content@, start_marker(), 0);
        crate::search::lemma_find_from_props(content@, end_marker(), 0);
    }
    let start_line: usize = match rfind_char_before(content, st, '\n') {
        Some(i) => i + 1,
        None => 0,
    };
    let n = content.len();
    let end_line: usize = match find_char_from(content, en, '\n') {
        Some(i) => i + 1,
        None => n,
    };
    proof {
        crate::search::lemma_rfind_char_props(content@, st as nat, '\n');
        crate::search::lemma_find_char_props(content@, en as nat, '\n');
    }
    Some((start_line, end_line))
}

fn push_newline_if_missing(v: &mut Vec<char>, only_nonempty: bool)
    ensures
        final(v)@ == with_trailing_newline(old(v)@, only_nonempty),
{
    if v.len() == 0 {
        if !only_nonempty {
            v.push('\n');
        }
    } else if v[v.len() - 1] != '\n' {
        v.push('\n');
    }
}

/// Rewrites the managed block region of `content` to hold `block`
/// (`None` removes the block, markers included).
pub fn apply_managed_block(content: &Vec<char>, block: Option<&Vec<char>>) -> (r: Vec<char>)
    ensures
        r@ == spec_apply_block(
            content@,
            match block {
                Some(b) => Some(b@),
                None => None,
            },
        ),
{
    match find_managed_block(content) {
        Some((a, b)) => {
            let mut out = copy_range(content, 0, a);
            match block {
                Some(bl) => {
                    push_newline_if_missing(&mut out, true);
                    crate::text::push_chars(&mut out, bl);
                    push_newline_if_missing(&mut out, false);
                },
                None => {},
            }
            let suf = copy_range(content, b, content.len());
            crate::text::push_chars(&mut out, &suf);
            out
        },
        None => {
            match block {
                Some(bl) => {
                    let mut out = copy_range(content, 0, content.len());
                    proof {
                        assert(out@ =~= content@);
                    }
                    push_newline_if_missing(&mut out, true);
                    crate::text::push_chars(&mut out, bl);
                    push_newline_if_missing(&mut out, false);
                    out
                },
                None => {
                    let out = copy_range(content, 0, content.len());
                    proof {
                        assert(out@ =~= content@);
                    }
                    out
                },
            }
        },
    }
}

/// A fully framed managed block: start marker line, the body with its
/// trailing whitespace dropped, end marker line.
pub open spec fn spec_build_block(body: Seq<char>) -> Seq<char> {
    start_marker() + seq!['\n'] + crate::text::trim_end_rec(body) + seq!['\n'] + end_marker()
}

/// Frames `body` between the two marker lines.
pub fn build_managed_block(body: &Vec<char>) -> (r: Vec<char>)
    ensures
        r@ == spec_build_block(body@),
{
    let mut out = start_marker_vec();
    out.push('\n');
    let trimmed = crate::text::trim_end_chars(body);
    crate::text::push_chars(&mut out, &trimmed);
    out.push('\n');
    let em = end_marker_vec();
    crate::text::push_chars(&mut out, &em);
    proof {
        assert(out@ =~= spec_build_block(body@));
    }
    out
}

/// The body between the marker lines, trimmed, if a block with a
/// non-blank body is present.
pub open spec fn spec_extract_body(s: Seq<char>) -> Option<Seq<char>> {
    match find_pat(s, start_marker()) {
        Option::None => Option::None,
        Option::Some(st) => match find_pat(s, end_marker()) {
            Option::None => Option::None,
            Option::Some(en) => {
                let body_start = match find_char_spec(s, st as nat, '\n') {
                    Option::Some(i) => i + 1,
                    Option::None => en,
                };
                if body_start > en {
                    Option::None
                } else {
                    let body = crate::text::trim_spec(s.subrange(body_start, en));
                    if body.len() == 0 {
                        Option::None
                    } else {
                        Option::Some(body)
                    }
                }
            },
        },
    }
}

/// Text in which neither marker line occurs.
pub open spec fn marker_free(s: Seq<char>) -> bool {
    (forall|k: int| 0 <= k ==> !occurs_at(s, start_marker(), k)) && (forall|k: int|
        0 <= k ==> !occurs_at(s, end_marker(), k))
}

/// A newline inside `s` never falls within an occurrence of a
/// newline-free pattern.
proof fn lemma_window_avoids_newline(s: Seq<char>, pat: Seq<char>, j: int, t: int)
    requires
        occurs_at(s, pat, j),
        forall|u: int| 0 <= u < pat.len() ==> pat[u] != '\n',
        0 <= t < s.len(),
        s[t] == '\n',
    ensures
        t < j || t >= j + pat.len(),
{
    if j <= t < j + pat.len() {
        assert(pat[t - j] == s.subrange(j, j + pat.len() as int)[t - j]);
    }
}

/// The built block followed by one newline, as it stands in the file.
pub open spec fn framed_block(body: Seq<char>) -> Seq<char> {
    spec_build_block(body) + seq!['\n']
}

/// In a freshly framed block, a 32-character newline-free pattern that
/// does not occur in the trimmed body occurs only where a marker stands.
proof fn lemma_framed_occurrences(body: Seq<char>, pat: Seq<char>, j: int)
    requires
        pat.len() == 32,
        forall|u: int| 0 <= u < pat.len() ==> pat[u] != '\n',
        forall|k: int| 0 <= k ==> !occurs_at(crate::text::trim_end_rec(body), pat, k),
        occurs_at(framed_block(body), pat, j),
    ensures
        j == 0 || j == 34 + crate::text::trim_end_rec(body).len(),
{
    lemma_marker_facts();
    let tb = crate::text::trim_end_rec(body);
    let s = framed_block(body);
    assert(s.len() == 67 + tb.len());
    assert(s[32] == '\n');
    assert(s[33 + tb.len() as int] == '\n');
    assert(s[66 + tb.len() as int] == '\n');
    lemma_window_avoids_newline(s, pat, j, 32);
    if j > 0 {
        assert(j >= 33);
        lemma_window_avoids_newline(s, pat, j, 33 + tb.len() as int);
        if j + 32 <= 33 + tb.len() {
            assert(occurs_at(tb, pat, j - 33)) by {
                assert(s.subrange(j, j + 32) =~= tb.subrange(j - 33, j - 33 + 32)) by {
                    assert forall|u: int| 0 <= u < 32 implies #[trigger] s.subrange(j, j + 32)[u]
                        == tb.subrange(j - 33, j - 33 + 32)[u] by {
                        assert(s[j + u] == tb[j - 33 + u]);
                    }
                }
            }
            assert(false);
        }
        assert(j >= 34 + tb.len());
        lemma_window_avoids_newline(s, pat, j, 66 + tb.len() as int);
        assert(j + 32 <= s.len());
        assert(j == 34 + tb.len());
    }
}

/// The marker positions inside a freshly framed block.
proof fn lemma_framed_markers(body: Seq<char>)
    requires
        marker_free(crate::text::trim_end_rec(body)),
    ensures
        find_pat(framed_block(body), start_marker()) == Some(0int),
        find_pat(framed_block(body), end_marker()) == Some(
            34 + crate::text::trim_end_rec(body).len() as int,
        ),
        framed_block(body).len() == 67 + crate::text::trim_end_rec(body).len(),
{
    lemma_marker_facts();
    let tb = crate::text::trim_end_rec(body);
    let s = framed_block(body);
    assert(s.subrange(0, 32) =~= start_marker());
    assert(occurs_at(s, start_marker(), 0));
    crate::search::lemma_find_pat_is(s, start_marker(), 0);
    let em_at = 34 + tb.len() as int;
    assert(s.subrange(em_at, em_at + 32) =~= end_marker()) by {
        assert forall|u: int| 0 <= u < 32 implies #[trigger] s.subrange(em_at, em_at + 32)[u]
            == end_marker()[u] by {
            assert(s[em_at + u] == end_marker()[u]);
        }
    }
    assert(occurs_at(s, end_marker(), em_at));
    assert forall|k: int| 0 <= k < em_at implies !occurs_at(s, end_marker(), k) by {
        if occurs_at(s, end_marker(), k) {
            lemma_framed_occurrences(body, end_marker(), k);
            assert(k == 0);
            assert(s.subrange(0, 32) == end_marker());
            assert(start_marker() == end_marker());
        }
    }
    crate::search::lemma_find_pat_is(s, end_marker(), em_at);
}

/// Writing a block into marker-free text that ends with a newline (or is
/// empty) appends the framed block at the end.
pub proof fn lemma_apply_block_appends(c: Seq<char>, body: Seq<char>)
    requires
        marker_free(c),
        c.len() > 0 ==> c[c.len() - 1] == '\n',
    ensures
        spec_apply_block(c, Some(spec_build_block(body))) == c + framed_block(body),
{
    lemma_marker_facts();
    let b = spec_build_block(body);
    crate::search::lemma_find_pat_none(c, start_marker());
    assert(spec_find_block(c) is None);
    let base = with_trailing_newline(c, true);
    assert(base == c);
    let withb = c + b;
    assert(withb.len() > 0);
    assert(withb[withb.len() - 1] == end_marker()[31]);
    assert(end_marker()[31] != '\n');
    assert(with_trailing_newline(withb, false) =~= c + framed_block(body));
}

/// After a block was appended to marker-free newline-terminated text, the
/// block's whole-line region is exactly the appended part.
pub proof fn lemma_find_block_after_write(c: Seq<char>, body: Seq<char>)
    requires
        marker_free(c),
        c.len() > 0 ==> c[c.len() - 1] == '\n',
        marker_free(crate::text::trim_end_rec(body)),
    ensures
        spec_find_block(c + framed_block(body)) == Some(
            (c.len() as int, (c + framed_block(body)).len() as int),
        ),
{
    lemma_marker_facts();
    lemma_framed_markers(body);
    let tb = crate::text::trim_end_rec(body);
    let fb = framed_block(body);
    let c1 = c + fb;
    crate::search::lemma_find_pat_append(c, fb, start_marker());
    crate::search::lemma_find_pat_append(c, fb, end_marker());
    let st = c.len() as int;
    let en = c.len() + 34 + tb.len() as int;
    assert(find_pat(c1, start_marker()) == Some(st));
    assert(find_pat(c1, end_marker()) == Some(en));
    crate::search::lemma_rfind_char_props(c1, c.len(), '\n');
    let start_line = match rfind_char_spec(c1, c.len(), '\n') {
        Option::Some(i) => i + 1,
        Option::None => 0int,
    };
    if c.len() > 0 {
        assert(c1[c.len() - 1] == '\n');
        match rfind_char_spec(c1, c.len(), '\n') {
            Option::Some(j) => {
                if j < c.len() - 1 {
                    assert(c1[c.len() - 1] != '\n');
                }
                assert(j == c.len() - 1);
            },
            Option::None => {
                assert(c1[c.len() - 1] != '\n');
            },
        }
        assert(start_line == c.len() as int);
    } else {
        assert(start_line == 0);
    }
    crate::search::lemma_find_char_props(c1, en as nat, '\n');
    assert(c1[en + 32] == '\n') by {
        assert(fb[66 + tb.len() as int] == '\n');
    }
    assert forall|k: int| en <= k < en + 32 implies c1[k] != '\n' by {
        assert(c1[k] == end_marker()[k - en]);
    }
    let end_line = match find_char_spec(c1, en as nat, '\n') {
        Option::Some(i) => i + 1,
        Option::None => c1.len() as int,
    };
    match find_char_spec(c1, en as nat, '\n') {
        Option::Some(j) => {
            if j < en + 32 {
                assert(c1[j] != '\n');
            }
            if j > en + 32 {
                assert(c1[en + 32] != '\n');
            }
            assert(j == en + 32);
        },
        Option::None => {
            assert(c1[en + 32] != '\n');
        },
    }
    assert(end_line == en + 33);
    assert(end_line == c1.len() as int);
}

/// Law: writing a managed block into marker-free profile text that ends
/// with a newline (or is empty), then writing an updated block, then
/// clearing the block, leaves every byte outside the managed region
/// untouched at each step, and the final text is exactly the original,
/// markers gone.
pub proof fn lemma_managed_block_idempotence(c: Seq<char>, body1: Seq<char>, body2: Seq<char>)
    requires
        marker_free(c),
        c.len() > 0 ==> c[c.len() - 1] == '\n',
        marker_free(crate::text::trim_end_rec(body1)),
        marker_free(crate::text::trim_end_rec(body2)),
    ensures
        ({
            let c1 = spec_apply_block(c, Some(spec_build_block(body1)));
            let c2 = spec_apply_block(c1, Some(spec_build_block(body2)));
            let c3 = spec_apply_block(c2, None);
            c1 == c + framed_block(body1) && c2 == c + framed_block(body2) && c3 == c
                && marker_free(c3)
        }),
{
    lemma_marker_facts();
    lemma_apply_block_appends(c, body1);
    let c1 = spec_apply_block(c, Some(spec_build_block(body1)));
    assert(c1 == c + framed_block(body1));
    lemma_find_block_after_write(c, body1);
    let a = c.len() as int;
    let b = c1.len() as int;
    assert(spec_find_block(c1) == Some((a, b)));
    let pre = c1.subrange(0, a);
    let suf = c1.subrange(b, c1.len() as int);
    assert(pre =~= c);
    assert(suf =~= Seq::<char>::empty());
    let c2 = spec_apply_block(c1, Some(spec_build_block(body2)));
    assert(with_trailing_newline(pre, true) == c);
    let withb = c + spec_build_block(body2);
    assert(withb.len() > 0);
    assert(withb[withb.len() - 1] == end_marker()[31]);
    assert(end_marker()[31] != '\n');
    assert(with_trailing_newline(withb, false) =~= c + framed_block(body2));
    assert(c2 =~= c + framed_block(body2)) by {
        assert(c2 == with_trailing_newline(withb, false) + suf);
    }
    lemma_find_block_after_write(c, body2);
    let a2 = c.len() as int;
    let b2 = c2.len() as int;
    assert(spec_find_block(c2) == Some((a2, b2)));
    let c3 = spec_apply_block(c2, None);
    assert(c3 =~= c);
}

/// The value the managed block assigns to `key`, if a block with a body
/// is present and one of its lines sets the key.
pub open spec fn spec_profile_block_value(content: Seq<char>, key: Seq<char>) -> Option<Seq<char>> {
    match spec_extract_body(content) {
        Option::Some(b) => crate::envtext::parse_env_lines_spec(b, key),
        Option::None => Option::None,
    }
}

/// Reads the value the profile's managed block assigns to `key`.
pub fn profile_block_value(content: &Vec<char>, key: &Vec<char>) -> (r: Option<Vec<char>>)
    ensures
        r matches Some(v) ==> spec_profile_block_value(content@, key@) == Some(v@),
        r is None ==> spec_profile_block_value(content@, key@) is None,
{
    match extract_managed_block_body(content) {
        Some(b) => crate::envtext::parse_env_value_from_lines(&b, key),
        None => None,
    }
}

/// The profile text after the managed block is rewritten to export the
/// given values; with both values cleared, the block — markers included —
/// is removed.
pub open spec fn spec_profile_update(
    existing: Seq<char>,
    dist: Option<Seq<char>>,
    root: Option<Seq<char>>,
) -> Seq<char> {
    if dist is None && root is None {
        spec_apply_block(existing, Option::None)
    } else {
        spec_apply_block(
            existing,
            Option::Some(spec_build_block(crate::envtext::export_lines_spec(dist, root))),
        )
    }
}

/// Rewrites the profile's managed block to export the given values.
pub fn profile_update_for(
    existing: &Vec<char>,
    dist: Option<&Vec<char>>,
    root: Option<&Vec<char>>,
) -> (r: Vec<char>)
    ensures
        r@ == spec_profile_update(
            existing@,
            match dist {
                Some(d) => Some(d@),
                None => None,
            },
            match root {
                Some(t) => Some(t@),
                None => None,
            },
        ),
{
    if dist.is_none() && root.is_none() {
        apply_managed_block(existing, None)
    } else {
        let exports = crate::envtext::build_export_lines(dist, root);
        let block = build_managed_block(&exports);
        apply_managed_block(existing, Some(&block))
    }
}

/// The lines the generic Unix profile's managed block holds: they source
/// the satellite variables file where it exists.
pub open spec fn unix_sourcing_lines() -> Seq<char> {
    "if [ -f \"$HOME/.config/quickchange/rustup.env\" ]; then\n  . \"$HOME/.config/quickchange/rustup.env\"\nfi"@
}

/// The generic Unix profile after its managed block is rewritten: cleared
/// with both values, else holding the sourcing lines.
pub open spec fn spec_unix_profile_update(
    existing: Seq<char>,
    dist: Option<Seq<char>>,
    root: Option<Seq<char>>,
) -> Seq<char> {
    if dist is None && root is None {
        spec_apply_block(existing, Option::None)
    } else {
        spec_apply_block(existing, Option::Some(spec_build_block(unix_sourcing_lines())))
    }
}

/// Rewrites the generic Unix profile's managed block: removed when both
/// values clear, else set to source the satellite variables file.
pub fn unix_profile_update(
    existing: &Vec<char>,
    dist: Option<&Vec<char>>,
    root: Option<&Vec<char>>,
) -> (r: Vec<char>)
    ensures
        r@ == spec_unix_profile_update(
            existing@,
            match dist {
                Some(d) => Some(d@),
                None => None,
            },
            match root {
                Some(t) => Some(t@),
                None => None,
            },
        ),
{
    if dist.is_none() && root.is_none() {
        apply_managed_block(existing, None)
    } else {
        let lines = str_to_chars(
            "if [ -f \"$HOME/.config/quickchange/rustup.env\" ]; then\n  . \"$HOME/.config/quickchange/rustup.env\"\nfi",
        );
        let block = build_managed_block(&lines);
        apply_managed_block(existing, Some(&block))
    }
}

/// Extracts the managed block's body, if one is present and non-blank.
pub fn extract_managed_block_body(content: &Vec<char>) -> (r: Option<Vec<char>>)
    ensures
        r matches Some(v) ==> spec_extract_body(content@) == Some(v@),
        r is None ==> spec_extract_body(content@) is None,
{
    proof {
        lemma_marker_facts();
    }
    let sm = start_marker_vec();
    let em = end_marker_vec();
    let st = match find_in(content, &sm) {
        Some(i) => i,
        None => {
            return None;
        },
    };
    let en = match find_in(content, &em) {
        Some(i) => i,
        None => {
            return None;
        },
    };
    proof {
        crate::search::lemma_find_from_props(content@, start_marker(), 0);
        crate::search::lemma_find_from_props(content@, end_marker(), 0);
    }
    let n = content.len();
    let body_start: usize = match find_char_from(content, st, '\n') {
        Some(i) => i + 1,
        None => en,
    };
    proof {
        crate::search::lemma_find_char_props(content@, st as nat, '\n');
    }
    if body_start > en {
        return None;
    }
    let raw = copy_range(content, body_start, en);
    let body = crate::text::trim_chars(&raw);
    if body.len() == 0 {
        None
    } else {
        Some(body)
    }
}

} // verus!

