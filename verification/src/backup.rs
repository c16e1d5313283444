//! The backup store's pure logic: label sanitization, snapshot names,
//! bare-file-name reduction (the traversal guard), the `.toml` filter and
//! the newest-first ordering of listings.
use vstd::prelude::*;

verus! {

use crate::paths::Os;
use crate::search::rfind_char_spec;
use crate::search::rfind_char_before;
use crate::search::lemma_rfind_char_props;
use crate::text::is_control_char;
use crate::text::is_ws_char;
use crate::text::control_char;
use crate::text::ws_char;
use crate::text::copy_range;
use crate::text::chars_eq;
use crate::text::str_to_chars;
use crate::text::push_chars;
use crate::text::push_str_chars;
use crate::text::chars_to_string;
use crate::text::dec_digits;
use crate::text::u64_to_dec;

/// One stored snapshot of the configuration file.
#[derive(Clone, Debug)]
pub struct BackupEntry {
    pub name: String,
    pub path: String,
    pub modified: u64,
    pub size: u64,
}

/// A character the backup name may not carry: path separators and the
/// names the filesystem reserves.
pub open spec fn is_reserved_label_char(c: char) -> bool {
    c == '<' || c == '>' || c == ':' || c == '"' || c == '/' || c == '\\' || c == '|' || c == '?'
        || c == '*'
}

pub fn reserved_label_char(c: char) -> (r: bool)
    ensures
        r == is_reserved_label_char(c),
{
    c == '<' || c == '>' || c == ':' || c == '"' || c == '/' || c == '\\' || c == '|' || c == '?'
        || c == '*'
}

/// A character a sanitized label may hold.
pub open spec fn is_clean_label_char(c: char) -> bool {
    !is_control_char(c) && !is_ws_char(c) && !is_reserved_label_char(c)
}

/// Control characters dropped; reserved and whitespace characters each
/// replaced by a dash.
pub open spec fn sanitize_map(s: Seq<char>) -> Seq<char>
    decreases s.len(),
{
    if s.len() == 0 {
        Seq::<char>::empty()
    } else {
        let head: Seq<char> = if is_control_char(s[0]) {
            Seq::<char>::empty()
        } else if is_reserved_label_char(s[0]) || is_ws_char(s[0]) {
            seq!['-']
        } else {
            seq![s[0]]
        };
        head + sanitize_map(s.subrange(1, s.len() as int))
    }
}

pub proof fn lemma_sanitize_map_clean(s: Seq<char>)
    ensures
        forall|k: int|
            0 <= k < sanitize_map(s).len() ==> is_clean_label_char(#[trigger] sanitize_map(s)[k])
                || sanitize_map(s)[k] == '-',
    decreases s.len(),
{
    if s.len() > 0 {
        let rest = s.subrange(1, s.len() as int);
        lemma_sanitize_map_clean(rest);
        let head: Seq<char> = if is_control_char(s[0]) {
            Seq::<char>::empty()
        } else if is_reserved_label_char(s[0]) || is_ws_char(s[0]) {
            seq!['-']
        } else {
            seq![s[0]]
        };
        assert forall|k: int|
            0 <= k < sanitize_map(s).len() implies is_clean_label_char(
            #[trigger] sanitize_map(s)[k],
        ) || sanitize_map(s)[k] == '-' by {
            if k >= head.len() {
                assert(sanitize_map(s)[k] == sanitize_map(rest)[k - head.len()]);
            }
        }
    }
}

/// Mapping a label whose characters are already clean changes nothing.
pub proof fn lemma_sanitize_map_identity(s: Seq<char>)
    requires
        forall|k: int| 0 <= k < s.len() ==> is_clean_label_char(#[trigger] s[k]) || s[k] == '-',
    ensures
        sanitize_map(s) =~= s,
    decreases s.len(),
{
    if s.len() > 0 {
        lemma_sanitize_map_identity(s.subrange(1, s.len() as int));
        assert(seq![s[0]] + s.subrange(1, s.len() as int) =~= s);
    }
}

pub open spec fn trim_dash_start(s: Seq<char>) -> Seq<char>
    decreases s.len(),
{
    if s.len() > 0 && s[0] == '-' {
        trim_dash_start(s.subrange(1, s.len() as int))
    } else {
        s
    }
}

pub open spec fn trim_dash_end(s: Seq<char>) -> Seq<char>
    decreases s.len(),
{
    if s.len() > 0 && s[s.len() - 1] == '-' {
        trim_dash_end(s.subrange(0, s.len() - 1))
    } else {
        s
    }
}

/// The label without leading and trailing dashes.
pub open spec fn trim_dash(s: Seq<char>) -> Seq<char> {
    trim_dash_end(trim_dash_start(s))
}

proof fn lemma_trim_dash_start_skip(s: Seq<char>, k: int)
    requires
        0 <= k <= s.len(),
        forall|i: int| 0 <= i < k ==> s[i] == '-',
        k < s.len() ==> s[k] != '-',
    ensures
        trim_dash_start(s) =~= s.subrange(k, s.len() as int),
    decreases k,
{
    if k == 0 {
        assert(trim_dash_start(s) =~= s.subrange(0, s.len() as int));
    } else {
        let t = s.subrange(1, s.len() as int);
        lemma_trim_dash_start_skip(t, k - 1);
        assert(t.subrange(k - 1, t.len() as int) =~= s.subrange(k, s.len() as int));
    }
}

proof fn lemma_trim_dash_end_skip(s: Seq<char>, k: int)
    requires
        0 <= k <= s.len(),
        forall|i: int| k <= i < s.len() ==> s[i] == '-',
        k > 0 ==> s[k - 1] != '-',
    ensures
        trim_dash_end(s) =~= s.subrange(0, k),
    decreases s.len() - k,
{
    if k == s.len() {
        assert(trim_dash_end(s) =~= s.subrange(0, k));
    } else {
        let t = s.subrange(0, s.len() - 1);
        lemma_trim_dash_end_skip(t, k);
        assert(t.subrange(0, k) =~= s.subrange(0, k));
    }
}

/// What the sanitizer yields: the mapped label without outer dashes, or
/// the fallback `custom` where nothing is left.
pub open spec fn sanitize_label_spec(s: Seq<char>) -> Seq<char> {
    let cleaned = trim_dash(sanitize_map(s));
    if cleaned.len() == 0 {
        "custom"@
    } else {
        cleaned
    }
}

/// Trims the label of leading and trailing dashes.
pub fn trim_dash_chars(v: &Vec<char>) -> (r: Vec<char>)
    ensures
        r@ == trim_dash(v@),
{
    let n = v.len();
    let mut a: usize = 0;
    while a < n && v[a] == '-'
        invariant
            a <= n,
            n == v@.len(),
            forall|i: int| 0 <= i < a ==> v@[i] == '-',
        decreases n - a,
    {
        a = a + 1;
    }
    let mut b: usize = n;
    while b > a && v[b - 1] == '-'
        invariant
            a <= b <= n,
            n == v@.len(),
            forall|i: int| 0 <= i < a ==> v@[i] == '-',
            forall|i: int| b <= i < n ==> v@[i] == '-',
        decreases b,
    {
        b = b - 1;
    }
    let r = copy_range(v, a, b);
    proof {
        lemma_trim_dash_start_skip(v@, a as int);
        let t = v@.subrange(a as int, n as int);
        if a == b {
            lemma_trim_dash_end_skip(t, 0);
        } else {
            lemma_trim_dash_end_skip(t, b - a);
        }
        assert(t.subrange(0, b - a) =~= v@.subrange(a as int, b as int));
    }
    r
}

/// Sanitizes a user-supplied backup label: control characters dropped,
/// whitespace and reserved characters mapped to dashes, outer dashes
/// trimmed, `custom` where nothing remains.
pub fn sanitize_backup_label(label: &Vec<char>) -> (r: Vec<char>)
    ensures
        r@ == sanitize_label_spec(label@),
{
    let n = label.len();
    let mut mapped: Vec<char> = Vec::new();
    let mut i: usize = 0;
    proof {
        assert(Seq::<char>::empty() + sanitize_map(label@) =~= sanitize_map(label@));
        assert(label@.subrange(0, label@.len() as int) =~= label@);
    }
    while i < n
        invariant
            i <= n,
            n == label@.len(),
            sanitize_map(label@) =~= mapped@ + sanitize_map(
                label@.subrange(i as int, label@.len() as int),
            ),
        decreases n - i,
    {
        proof {
            let rest = label@.subrange(i as int, label@.len() as int);
            assert(rest[0] == label@[i as int]);
            assert(rest.subrange(1, rest.len() as int) =~= label@.subrange(
                i + 1 as int,
                label@.len() as int,
            ));
        }
        let c = label[i];
        if control_char(c) {
        } else if reserved_label_char(c) || ws_char(c) {
            mapped.push('-');
        } else {
            mapped.push(c);
        }
        i = i + 1;
        proof {
            assert(sanitize_map(label@) =~= mapped@ + sanitize_map(
                label@.subrange(i as int, label@.len() as int),
            ));
        }
    }
    proof {
        assert(label@.subrange(n as int, n as int) =~= Seq::<char>::empty());
        assert(mapped@ + Seq::<char>::empty() =~= mapped@);
    }
    let cleaned = trim_dash_chars(&mapped);
    if cleaned.len() == 0 {
        str_to_chars("custom")
    } else {
        cleaned
    }
}

/// Law: sanitizing is idempotent — a sanitized label passes through the
/// sanitizer unchanged.
pub proof fn lemma_sanitize_idempotent(s: Seq<char>)
    ensures
        sanitize_label_spec(sanitize_label_spec(s)) == sanitize_label_spec(s),
{
    let r = sanitize_label_spec(s);
    let cleaned = trim_dash(sanitize_map(s));
    lemma_sanitize_map_clean(s);
    if cleaned.len() == 0 {
        reveal_strlit("custom");
        assert(r == "custom"@);
        assert(r.len() == 6);
        assert forall|k: int| 0 <= k < r.len() implies is_clean_label_char(#[trigger] r[k]) by {
            assert(r[0] == 'c' && r[1] == 'u' && r[2] == 's' && r[3] == 't' && r[4] == 'o' && r[5]
                == 'm');
        }
        lemma_sanitize_map_identity(r);
        assert(r[0] != '-' && r[r.len() - 1] != '-');
        assert(trim_dash_start(r) == r);
        assert(trim_dash_end(r) == r);
    } else {
        let m = sanitize_map(s);
        lemma_trim_dash_props(m);
        assert forall|k: int| 0 <= k < r.len() implies is_clean_label_char(#[trigger] r[k]) || r[k]
            == '-' by {
            assert(exists|j: int|
                0 <= j < m.len() && m[j] == r[k] && (is_clean_label_char(#[trigger] m[j]) || m[j]
                    == '-'));
        }
        lemma_sanitize_map_identity(r);
        assert(r.len() > 0 && r[0] != '-' && r[r.len() - 1] != '-');
        assert(trim_dash_start(r) == r);
        assert(trim_dash_end(r) == r);
    }
}

/// Trimming dashes yields a subrange that carries no outer dash.
proof fn lemma_trim_dash_props(s: Seq<char>)
    ensures
        ({
            let t = trim_dash(s);
            (t.len() > 0 ==> t[0] != '-' && t[t.len() - 1] != '-') && (forall|k: int|
                0 <= k < t.len() ==> exists|j: int| 0 <= j < s.len() && s[j] == #[trigger] t[k])
        }),
{
    let a = lemma_trim_dash_start_witness(s);
    let t1 = s.subrange(a, s.len() as int);
    let b = lemma_trim_dash_end_witness(t1);
    let t = t1.subrange(0, b);
    assert(trim_dash(s) == t);
    if t.len() > 0 {
        assert(t[0] == t1[0] && t1[0] == s[a]);
        assert(t[t.len() - 1] == t1[b - 1]);
    }
    assert forall|k: int| 0 <= k < t.len() implies exists|j: int|
        0 <= j < s.len() && s[j] == #[trigger] t[k] by {
        assert(t[k] == s[a + k]);
    }
}

proof fn lemma_trim_dash_start_witness(s: Seq<char>) -> (a: int)
    ensures
        0 <= a <= s.len(),
        forall|i: int| 0 <= i < a ==> s[i] == '-',
        a < s.len() ==> s[a] != '-',
        trim_dash_start(s) == s.subrange(a, s.len() as int),
    decreases s.len(),
{
    if s.len() > 0 && s[0] == '-' {
        let t = s.subrange(1, s.len() as int);
        let a0 = lemma_trim_dash_start_witness(t);
        assert(t.subrange(a0, t.len() as int) =~= s.subrange(a0 + 1, s.len() as int));
        assert forall|i: int| 0 <= i < a0 + 1 implies s[i] == '-' by {
            if i > 0 {
                assert(t[i - 1] == '-');
            }
        }
        a0 + 1
    } else {
        assert(s.subrange(0, s.len() as int) =~= s);
        0
    }
}

proof fn lemma_trim_dash_end_witness(s: Seq<char>) -> (b: int)
    ensures
        0 <= b <= s.len(),
        forall|i: int| b <= i < s.len() ==> s[i] == '-',
        b > 0 ==> s[b - 1] != '-',
        trim_dash_end(s) == s.subrange(0, b),
    decreases s.len(),
{
    if s.len() > 0 && s[s.len() - 1] == '-' {
        let t = s.subrange(0, s.len() - 1);
        let b0 = lemma_trim_dash_end_witness(t);
        assert(t.subrange(0, b0) =~= s.subrange(0, b0));
        assert forall|i: int| b0 <= i < s.len() implies s[i] == '-' by {
            if i < s.len() - 1 {
                assert(t[i] == '-');
            }
        }
        b0
    } else {
        assert(s.subrange(0, s.len() as int) =~= s);
        s.len() as int
    }
}

/// The snapshot file name: `manual-<sanitized label>-<millis>.toml` for a
/// labelled backup, `auto-<millis>.toml` otherwise.
pub open spec fn backup_name_spec(label: Option<Seq<char>>, millis: u64) -> Seq<char> {
    let prefix = match label {
        Option::Some(l) => "manual-"@ + sanitize_label_spec(l),
        Option::None => "auto"@,
    };
    prefix + "-"@ + dec_digits(millis as nat) + ".toml"@
}

/// Builds the snapshot file name for the given label and timestamp.
pub fn build_backup_name(label: Option<&Vec<char>>, millis: u64) -> (r: Vec<char>)
    ensures
        r@ == backup_name_spec(
            match label {
                Some(l) => Some(l@),
                None => None,
            },
            millis,
        ),
{
    let mut out: Vec<char> = Vec::new();
    match label {
        Some(l) => {
            push_str_chars(&mut out, "manual-");
            let s = sanitize_backup_label(l);
            push_chars(&mut out, &s);
        },
        None => {
            push_str_chars(&mut out, "auto");
        },
    }
    push_str_chars(&mut out, "-");
    let stamp = u64_to_dec(millis);
    push_chars(&mut out, &stamp);
    push_str_chars(&mut out, ".toml");
    proof {
        assert(out@ =~= backup_name_spec(
            match label {
                Some(l) => Some(l@),
                None => None,
            },
            millis,
        ));
    }
    out
}

/// The text after the last occurrence of `c`.
pub open spec fn after_last(s: Seq<char>, c: char) -> Seq<char> {
    match rfind_char_spec(s, s.len(), c) {
        Option::Some(i) => s.subrange(i + 1, s.len() as int),
        Option::None => s,
    }
}

/// The bare file name a caller-supplied backup name reduces to: the text
/// after the last separator, refused when empty or a dot component. Every
/// name this yields stays inside the directory it is joined to.
pub open spec fn bare_file_name_spec(name: Seq<char>, os: Os) -> Option<Seq<char>> {
    let a = after_last(name, '/');
    let b = if os is Windows {
        after_last(a, '\\')
    } else {
        a
    };
    if b.len() == 0 || b == "."@ || b == ".."@ {
        Option::None
    } else {
        Option::Some(b)
    }
}

fn after_last_exec(s: &Vec<char>, c: char) -> (r: Vec<char>)
    ensures
        r@ == after_last(s@, c),
{
    match rfind_char_before(s, s.len(), c) {
        Some(i) => {
            proof {
                lemma_rfind_char_props(s@, s@.len(), c);
            }
            copy_range(s, i + 1, s.len())
        },
        None => {
            let r = copy_range(s, 0, s.len());
            proof {
                assert(r@ =~= s@);
            }
            r
        },
    }
}

/// Reduces a caller-supplied name to its bare file-name component.
pub fn bare_file_name(name: &Vec<char>, os: Os) -> (r: Option<Vec<char>>)
    ensures
        r matches Some(b) ==> bare_file_name_spec(name@, os) == Some(b@),
        r is None ==> bare_file_name_spec(name@, os) is None,
{
    let a = after_last_exec(name, '/');
    let b = match os {
        Os::Windows => after_last_exec(&a, '\\'),
        _ => a,
    };
    let dot = str_to_chars(".");
    let dotdot = str_to_chars("..");
    if b.len() == 0 || chars_eq(&b, &dot) || chars_eq(&b, &dotdot) {
        None
    } else {
        Some(b)
    }
}

/// Law: a bare file name never traverses out of the directory it is
/// joined to — it is non-empty, no dot component, and holds no separator.
pub proof fn lemma_backup_name_safety(name: Seq<char>, os: Os)
    ensures
        match bare_file_name_spec(name, os) {
            Option::Some(b) => b.len() > 0 && b != "."@ && b != ".."@ && (forall|k: int|
                0 <= k < b.len() ==> b[k] != '/') && (os is Windows ==> forall|k: int|
                0 <= k < b.len() ==> b[k] != '\\'),
            Option::None => true,
        },
{
    lemma_rfind_char_props(name, name.len(), '/');
    let a = after_last(name, '/');
    assert(forall|k: int| 0 <= k < a.len() ==> a[k] != '/');
    if os is Windows {
        lemma_rfind_char_props(a, a.len(), '\\');
        let b = after_last(a, '\\');
        assert(forall|k: int| 0 <= k < b.len() ==> b[k] != '\\');
        assert forall|k: int| 0 <= k < b.len() implies b[k] != '/' by {
            match rfind_char_spec(a, a.len(), '\\') {
                Option::Some(i) => {
                    assert(b[k] == a[i + 1 + k]);
                },
                Option::None => {},
            }
        }
    }
}

/// Whether the file name carries a real `.toml` extension (a name that is
/// nothing but the extension does not).
pub open spec fn has_toml_ext(name: Seq<char>) -> bool {
    name.len() > 5 && name.subrange(name.len() - 5, name.len() as int) == ".toml"@
}

/// Whether the name ends in `.toml` at all.
pub open spec fn ends_with_toml(name: Seq<char>) -> bool {
    name.len() >= 5 && name.subrange(name.len() - 5, name.len() as int) == ".toml"@
}

fn toml_suffix_at(name: &Vec<char>, from: usize) -> (r: bool)
    requires
        from + 5 == name@.len(),
    ensures
        r == (name@.subrange(from as int, name@.len() as int) == ".toml"@),
{
    let tail = copy_range(name, from, name.len());
    let pat = str_to_chars(".toml");
    chars_eq(&tail, &pat)
}

/// Tests for a real `.toml` extension.
pub fn file_has_toml_ext(name: &Vec<char>) -> (r: bool)
    ensures
        r == has_toml_ext(name@),
{
    if name.len() > 5 {
        toml_suffix_at(name, name.len() - 5)
    } else {
        false
    }
}

/// Tests whether the name ends in `.toml`.
pub fn name_ends_with_toml(name: &Vec<char>) -> (r: bool)
    ensures
        r == ends_with_toml(name@),
{
    if name.len() >= 5 {
        toml_suffix_at(name, name.len() - 5)
    } else {
        false
    }
}

/// The name with `.toml` appended where it is missing.
pub open spec fn with_toml_ext(name: Seq<char>) -> Seq<char> {
    if ends_with_toml(name) {
        name
    } else {
        name + ".toml"@
    }
}

/// Appends `.toml` to the name where it is missing.
pub fn ensure_toml_ext(name: &Vec<char>) -> (r: Vec<char>)
    ensures
        r@ == with_toml_ext(name@),
{
    if name_ends_with_toml(name) {
        let r = copy_range(name, 0, name.len());
        proof {
            assert(r@ =~= name@);
        }
        r
    } else {
        let mut r = copy_range(name, 0, name.len());
        proof {
            assert(r@ =~= name@);
        }
        push_str_chars(&mut r, ".toml");
        r
    }
}

/// The two bare file names a rename works on: the source resolved to its
/// bare name, the target resolved and given a `.toml` extension.
pub open spec fn rename_plan_spec(old_name: Seq<char>, new_name: Seq<char>, os: Os) -> Result<
    (Seq<char>, Seq<char>),
    Seq<char>,
> {
    match bare_file_name_spec(old_name, os) {
        Option::None => Result::Err("Invalid old backup name"@),
        Option::Some(ob) => match bare_file_name_spec(new_name, os) {
            Option::None => Result::Err("Invalid new backup name"@),
            Option::Some(nb) => Result::Ok((ob, with_toml_ext(nb))),
        },
    }
}

/// Resolves the names a rename touches; fails on a name with no usable
/// file-name component.
pub fn plan_rename(old_name: &Vec<char>, new_name: &Vec<char>, os: Os) -> (r: Result<
    (Vec<char>, Vec<char>),
    String,
>)
    ensures
        r matches Ok(p) ==> rename_plan_spec(old_name@, new_name@, os) == Result::<
            (Seq<char>, Seq<char>),
            Seq<char>,
        >::Ok((p.0@, p.1@)),
        r matches Err(e) ==> rename_plan_spec(old_name@, new_name@, os) == Result::<
            (Seq<char>, Seq<char>),
            Seq<char>,
        >::Err(e@),
{
    let ob = match bare_file_name(old_name, os) {
        Some(b) => b,
        None => {
            return Err(crate::text::chars_to_string(&str_to_chars("Invalid old backup name")));
        },
    };
    let nb = match bare_file_name(new_name, os) {
        Some(b) => b,
        None => {
            return Err(crate::text::chars_to_string(&str_to_chars("Invalid new backup name")));
        },
    };
    let nt = ensure_toml_ext(&nb);
    Ok((ob, nt))
}

/// Entries newest first.
pub open spec fn sorted_newest_first(s: Seq<BackupEntry>) -> bool {
    forall|i: int, j: int| 0 <= i < j < s.len() ==> s[i].modified >= s[j].modified
}

/// The `.toml` snapshots among the directory's entries, newest first.
#[verifier::loop_isolation(false)]
pub fn select_backups(entries: Vec<BackupEntry>) -> (r: Vec<BackupEntry>)
    ensures
        sorted_newest_first(r@),
        r@.to_multiset() == entries@.filter(
            |e: BackupEntry| has_toml_ext(e.name@),
        ).to_multiset(),
{
    broadcast use vstd::seq_lib::group_to_multiset_ensures;

    let ghost all = entries@;
    let ghost pred = |e: BackupEntry| has_toml_ext(e.name@);
    let mut rest = entries;
    let total: usize = rest.len();
    let mut out: Vec<BackupEntry> = Vec::new();
    let mut idx: usize = 0;
    proof {
        assert(all.subrange(0, 0).filter(pred) =~= Seq::<BackupEntry>::empty()) by {
            reveal(Seq::filter);
            assert(all.subrange(0, 0) =~= Seq::<BackupEntry>::empty());
        }
    }
    while rest.len() > 0
        invariant
            idx + rest@.len() == all.len(),
            rest@ =~= all.subrange(idx as int, all.len() as int),
            sorted_newest_first(out@),
            out@.to_multiset() == all.subrange(0, idx as int).filter(pred).to_multiset(),
        decreases rest@.len(),
    {
        let e = rest.remove(0);
        proof {
            assert(e == all[idx as int]);
            assert(rest@ =~= all.subrange(idx as int + 1, all.len() as int));
        }
        let name = str_to_chars(e.name.as_str());
        let is_toml = file_has_toml_ext(&name);
        proof {
            assert(pred(e) == has_toml_ext(e.name@));
            let prefix = all.subrange(0, idx as int);
            assert(all.subrange(0, idx as int + 1) =~= prefix + seq![e]);
            Seq::<BackupEntry>::filter_distributes_over_add(prefix, seq![e], pred);
            assert(seq![e].filter(pred) =~= if pred(e) {
                seq![e]
            } else {
                Seq::<BackupEntry>::empty()
            }) by {
                reveal_with_fuel(Seq::filter, 2);
                assert(seq![e].drop_last() =~= Seq::<BackupEntry>::empty());
            }
        }
        if is_toml {
            let mut pos: usize = 0;
            while pos < out.len() && out[pos].modified >= e.modified
                invariant
                    pos <= out@.len(),
                    forall|k: int| 0 <= k < pos ==> out@[k].modified >= e.modified,
                    sorted_newest_first(out@),
                decreases out@.len() - pos,
            {
                pos = pos + 1;
            }
            let ghost before = out@;
            out.insert(pos, e);
            proof {
                assert(out@ == before.insert(pos as int, e));
                assert forall|i: int, j: int|
                    0 <= i < j < out@.len() implies out@[i].modified >= out@[j].modified by {
                    if i < pos && j == pos {
                    } else if i == pos && j > pos {
                        assert(out@[j] == before[j - 1]);
                        assert(before[pos as int].modified < e.modified);
                    } else if i < pos && j > pos {
                        assert(out@[j] == before[j - 1]);
                    } else if i > pos && j > pos {
                        assert(out@[i] == before[i - 1] && out@[j] == before[j - 1]);
                    }
                }
                let prefix = all.subrange(0, idx as int);
                assert((prefix + seq![e]).filter(pred) =~= prefix.filter(pred) + seq![e]);
                assert(out@.to_multiset() == before.to_multiset().insert(e));
                assert((prefix.filter(pred) + seq![e]).to_multiset() == prefix.filter(
                    pred,
                ).to_multiset().insert(e)) by {
                    assert(prefix.filter(pred) + seq![e] =~= prefix.filter(pred).push(e));
                }
            }
        } else {
            proof {
                let prefix = all.subrange(0, idx as int);
                assert((prefix + seq![e]).filter(pred) =~= prefix.filter(pred));
            }
        }
        idx = idx + 1;
    }
    proof {
        assert(all.subrange(0, idx as int) =~= all);
    }
    out
}

/// The directory entries a clear-all removes: every `.toml` file name.
#[verifier::loop_isolation(false)]
pub fn select_toml_names(names: Vec<String>) -> (r: Vec<String>)
    ensures
        r@ =~= names@.filter(|n: String| has_toml_ext(n@)),
{
    let ghost pred = |n: String| has_toml_ext(n@);
    let ghost all = names@;
    let mut rest = names;
    let total: usize = rest.len();
    let mut out: Vec<String> = Vec::new();
    let mut idx: usize = 0;
    proof {
        assert(all.subrange(0, 0).filter(pred) =~= Seq::<String>::empty()) by {
            reveal(Seq::filter);
            assert(all.subrange(0, 0) =~= Seq::<String>::empty());
        }
    }
    while rest.len() > 0
        invariant
            idx + rest@.len() == all.len(),
            rest@ =~= all.subrange(idx as int, all.len() as int),
            out@ =~= all.subrange(0, idx as int).filter(pred),
        decreases rest@.len(),
    {
        let n = rest.remove(0);
        proof {
            assert(n == all[idx as int]);
            assert(rest@ =~= all.subrange(idx as int + 1, all.len() as int));
            let prefix = all.subrange(0, idx as int);
            assert(all.subrange(0, idx as int + 1) =~= prefix + seq![n]);
            Seq::<String>::filter_distributes_over_add(prefix, seq![n], pred);
            assert(seq![n].filter(pred) =~= if pred(n) {
                seq![n]
            } else {
                Seq::<String>::empty()
            }) by {
                reveal_with_fuel(Seq::filter, 2);
                assert(seq![n].drop_last() =~= Seq::<String>::empty());
            }
        }
        let nv = str_to_chars(n.as_str());
        if file_has_toml_ext(&nv) {
            out.push(n);
        }
        idx = idx + 1;
    }
    proof {
        assert(all.subrange(0, idx as int) =~= all);
    }
    out
}

} // verus!
