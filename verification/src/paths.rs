//! Path resolution: tilde and environment-variable expansion, the default
//! configuration path, and the derived backup and profile paths.
use vstd::prelude::*;

verus! {

use crate::text::str_to_chars;
use crate::text::chars_to_string;
use crate::text::push_chars;
use crate::text::push_str_chars;
use crate::text::trim_chars;
use crate::text::trim_spec;
use crate::text::copy_range;

/// The three operating-system families the library distinguishes.
#[derive(Clone, Copy, PartialEq, Eq, Structural)]
pub enum Os {
    Windows,
    MacOs,
    Linux,
}

/// The path separator the OS family prefers.
pub open spec fn sep_char(os: Os) -> char {
    if os is Windows {
        '\\'
    } else {
        '/'
    }
}

pub fn sep_of(os: Os) -> (r: char)
    ensures
        r == sep_char(os),
{
    match os {
        Os::Windows => '\\',
        Os::MacOs => '/',
        Os::Linux => '/',
    }
}

/// `base` with `rest` joined behind one separator; a separator already
/// ending `base` is not doubled.
pub open spec fn join_spec(base: Seq<char>, rest: Seq<char>, os: Os) -> Seq<char> {
    if base.len() > 0 && base[base.len() - 1] == sep_char(os) {
        base + rest
    } else {
        base + seq![sep_char(os)] + rest
    }
}

/// Joins one path component onto `base`.
pub fn join_path(base: &Vec<char>, rest: &Vec<char>, os: Os) -> (r: Vec<char>)
    ensures
        r@ == join_spec(base@, rest@, os),
{
    let sep = sep_of(os);
    let mut out = copy_range(base, 0, base.len());
    proof {
        assert(out@ =~= base@);
    }
    if !(base.len() > 0 && base[base.len() - 1] == sep) {
        out.push(sep);
    }
    push_chars(&mut out, rest);
    proof {
        assert(out@ =~= join_spec(base@, rest@, os));
    }
    out
}

/// The text before the final separator: the directory holding the path.
/// A path without a separator has the empty parent; the separator that
/// opens an absolute path is kept.
pub open spec fn parent_dir_spec(p: Seq<char>, os: Os) -> Seq<char> {
    match crate::search::rfind_char_spec(p, p.len(), sep_char(os)) {
        Option::Some(i) => if i == 0 {
            p.subrange(0, 1)
        } else {
            p.subrange(0, i)
        },
        Option::None => Seq::<char>::empty(),
    }
}

/// The directory part of `p`.
pub fn parent_dir(p: &Vec<char>, os: Os) -> (r: Vec<char>)
    ensures
        r@ == parent_dir_spec(p@, os),
{
    let sep = sep_of(os);
    match crate::search::rfind_char_before(p, p.len(), sep) {
        Some(i) => {
            proof {
                crate::search::lemma_rfind_char_props(p@, p@.len(), sep);
            }
            if i == 0 {
                copy_range(p, 0, 1)
            } else {
                copy_range(p, 0, i)
            }
        },
        None => Vec::new(),
    }
}

/// The default configuration path: `.cargo/config.toml` under the home
/// directory.
pub open spec fn cargo_config_path_spec(home: Seq<char>, os: Os) -> Seq<char> {
    join_spec(join_spec(home, ".cargo"@, os), "config.toml"@, os)
}

/// The default configuration path under the given home directory.
pub fn get_cargo_config_path(home: &str, os: Os) -> (r: String)
    ensures
        r@ == cargo_config_path_spec(home@, os),
{
    let h = str_to_chars(home);
    let c = str_to_chars(".cargo");
    let f = str_to_chars("config.toml");
    let d = join_path(&h, &c, os);
    let p = join_path(&d, &f, os);
    chars_to_string(&p)
}

/// The fixed-name backup directory beside the configuration file.
pub open spec fn backup_dir_spec(config_path: Seq<char>, os: Os) -> Seq<char> {
    let base = parent_dir_spec(config_path, os);
    let base_or_dot = if base.len() == 0 {
        "."@
    } else {
        base
    };
    join_spec(base_or_dot, "quickchange-backups"@, os)
}

/// The user's shell profile path: the zsh profile where one exists (only
/// consulted on the Mac family), else the generic profile.
pub open spec fn user_profile_path_spec(home: Seq<char>, os: Os, zprofile_exists: bool) -> Seq<
    char,
> {
    if os is MacOs && zprofile_exists {
        join_spec(home, ".zprofile"@, os)
    } else {
        join_spec(home, ".profile"@, os)
    }
}

/// The user's shell profile path. `zprofile_exists` reports whether the
/// zsh profile file is present; the caller checks the filesystem.
pub fn get_user_profile_path(home: &str, os: Os, zprofile_exists: bool) -> (r: String)
    ensures
        r@ == user_profile_path_spec(home@, os, zprofile_exists),
{
    let h = str_to_chars(home);
    let zp = match os {
        Os::MacOs => zprofile_exists,
        _ => false,
    };
    let name = if zp {
        str_to_chars(".zprofile")
    } else {
        str_to_chars(".profile")
    };
    let p = join_path(&h, &name, os);
    chars_to_string(&p)
}

/// The satellite variables file under the per-application configuration
/// directory.
pub open spec fn linux_env_file_spec(home: Seq<char>, os: Os) -> Seq<char> {
    join_spec(join_spec(join_spec(home, ".config"@, os), "quickchange"@, os), "rustup.env"@, os)
}

/// The satellite variables file for the generic Unix family.
pub fn get_linux_env_file(home: &str, os: Os) -> (r: String)
    ensures
        r@ == linux_env_file_spec(home@, os),
{
    let h = str_to_chars(home);
    let a = join_path(&h, &str_to_chars(".config"), os);
    let b = join_path(&a, &str_to_chars("quickchange"), os);
    let c = join_path(&b, &str_to_chars("rustup.env"), os);
    chars_to_string(&c)
}

/// The value the ordered environment snapshot gives the first pair whose
/// name matches.
pub open spec fn env_lookup_from(env: Seq<(String, String)>, name: Seq<char>, i: nat) -> Option<
    Seq<char>,
>
    decreases env.len() - i,
    when i <= env.len()
{
    if i >= env.len() {
        Option::None
    } else if env[i as int].0@ == name {
        Option::Some(env[i as int].1@)
    } else {
        env_lookup_from(env, name, i + 1)
    }
}

/// The value the snapshot holds for `name`.
pub open spec fn env_lookup(env: Seq<(String, String)>, name: Seq<char>) -> Option<Seq<char>> {
    env_lookup_from(env, name, 0)
}

/// Looks `name` up in the environment snapshot.
pub fn env_get(env: &Vec<(String, String)>, name: &Vec<char>) -> (r: Option<Vec<char>>)
    ensures
        r matches Some(v) ==> env_lookup(env@, name@) == Some(v@),
        r is None ==> env_lookup(env@, name@) is None,
{
    let n = env.len();
    let mut i: usize = 0;
    while i < n
        invariant
            i <= n,
            n == env@.len(),
            env_lookup(env@, name@) == env_lookup_from(env@, name@, i as nat),
        decreases n - i,
    {
        let p = &env[i];
        let k = str_to_chars(p.0.as_str());
        if crate::text::chars_eq(&k, name) {
            return Some(str_to_chars(p.1.as_str()));
        }
        i = i + 1;
    }
    None
}

/// A leading `~` resolved to the home directory; the input is trimmed
/// first, and anything else is left as it stands.
pub open spec fn expand_tilde_spec(input: Seq<char>, home: Seq<char>, os: Os) -> Seq<char> {
    let t = trim_spec(input);
    if t == "~"@ {
        home
    } else if t.len() >= 2 && t[0] == '~' && (t[1] == '/' || t[1] == '\\') {
        join_spec(home, t.subrange(2, t.len() as int), os)
    } else {
        t
    }
}

/// Resolves a leading `~` against the home directory.
pub fn expand_tilde(input: &Vec<char>, home: &Vec<char>, os: Os) -> (r: Vec<char>)
    ensures
        r@ == expand_tilde_spec(input@, home@, os),
{
    let t = trim_chars(input);
    let tilde = str_to_chars("~");
    if crate::text::chars_eq(&t, &tilde) {
        return copy_range(home, 0, home.len());
    }
    if t.len() >= 2 && t[0] == '~' && (t[1] == '/' || t[1] == '\\') {
        let rest = copy_range(&t, 2, t.len());
        return join_path(home, &rest, os);
    }
    t
}

/// A character that may stand in a bare `$NAME` reference.
pub open spec fn is_name_char(c: char) -> bool {
    ('a' <= c && c <= 'z') || ('A' <= c && c <= 'Z') || ('0' <= c && c <= '9') || c == '_'
}

pub fn name_char(c: char) -> (r: bool)
    ensures
        r == is_name_char(c),
{
    let u = c as u32;
    (97 <= u && u <= 122) || (65 <= u && u <= 90) || (48 <= u && u <= 57) || u == 95
}

/// The first index at or after `i` holding no name character: the end of
/// the name run that starts at `i`.
pub open spec fn name_run_end(s: Seq<char>, i: nat) -> nat
    decreases s.len() - i,
    when i <= s.len()
{
    if i >= s.len() {
        i
    } else if !is_name_char(s[i as int]) {
        i
    } else {
        name_run_end(s, i + 1)
    }
}

pub proof fn lemma_name_run_end(s: Seq<char>, i: nat)
    requires
        i <= s.len(),
    ensures
        i <= name_run_end(s, i) <= s.len(),
        forall|k: int| i <= k < name_run_end(s, i) ==> is_name_char(s[k]),
        name_run_end(s, i) < s.len() ==> !is_name_char(s[name_run_end(s, i) as int]),
    decreases s.len() - i,
{
    if i < s.len() && is_name_char(s[i as int]) {
        lemma_name_run_end(s, i + 1);
    }
}

/// `${NAME}` and bare `$NAME` references substituted from the snapshot;
/// an unresolvable reference is left in place, delimiters included.
pub open spec fn expand_dollar_from(s: Seq<char>, env: Seq<(String, String)>, i: nat) -> Seq<char>
    decreases s.len() - i,
    when i <= s.len()
{
    if i >= s.len() {
        Seq::<char>::empty()
    } else if s[i as int] != '$' {
        seq![s[i as int]] + expand_dollar_from(s, env, i + 1)
    } else if i + 1 < s.len() && s[i as int + 1] == '{' {
        match crate::search::find_char_spec(s, i + 2, '}') {
            Option::Some(j) => {
                proof {
                    crate::search::lemma_find_char_props(s, (i + 2) as nat, '}');
                }
                let name = s.subrange(i as int + 2, j);
                let tail = expand_dollar_from(s, env, (j + 1) as nat);
                if name.len() == 0 {
                    seq!['$'] + tail
                } else {
                    match env_lookup(env, name) {
                        Option::Some(v) => v + tail,
                        Option::None => "${"@ + name + "}"@ + tail,
                    }
                }
            },
            Option::None => {
                let name = s.subrange(i as int + 2, s.len() as int);
                if name.len() == 0 {
                    seq!['$']
                } else {
                    match env_lookup(env, name) {
                        Option::Some(v) => v,
                        Option::None => "${"@ + name + "}"@,
                    }
                }
            },
        }
    } else {
        let e = name_run_end(s, (i + 1) as nat);
        proof {
            lemma_name_run_end(s, (i + 1) as nat);
        }
        if e == i + 1 {
            seq!['$'] + expand_dollar_from(s, env, (i + 1) as nat)
        } else {
            let name = s.subrange(i as int + 1, e as int);
            let tail = expand_dollar_from(s, env, e);
            match env_lookup(env, name) {
                Option::Some(v) => v + tail,
                Option::None => seq!['$'] + name + tail,
            }
        }
    }
}

/// `%NAME%` references substituted from the snapshot; an unresolvable
/// reference is left in place, delimiters included, and an unclosed one
/// is left as it stands.
pub open spec fn expand_percent_from(s: Seq<char>, env: Seq<(String, String)>, i: nat) -> Seq<char>
    decreases s.len() - i,
    when i <= s.len()
{
    if i >= s.len() {
        Seq::<char>::empty()
    } else if s[i as int] != '%' {
        seq![s[i as int]] + expand_percent_from(s, env, i + 1)
    } else {
        match crate::search::find_char_spec(s, i + 1, '%') {
            Option::Some(j) => {
                proof {
                    crate::search::lemma_find_char_props(s, (i + 1) as nat, '%');
                }
                let name = s.subrange(i as int + 1, j);
                let tail = expand_percent_from(s, env, (j + 1) as nat);
                if name.len() == 0 {
                    seq!['%'] + tail
                } else {
                    match env_lookup(env, name) {
                        Option::Some(v) => v + tail,
                        Option::None => seq!['%'] + name + seq!['%'] + tail,
                    }
                }
            },
            Option::None => seq!['%'] + s.subrange(i as int + 1, s.len() as int),
        }
    }
}

/// The end of the name run starting at `from`.
pub fn name_run_end_exec(s: &Vec<char>, from: usize) -> (r: usize)
    requires
        from <= s@.len(),
    ensures
        r as nat == name_run_end(s@, from as nat),
        from <= r <= s@.len(),
{
    let n = s.len();
    let mut i: usize = from;
    while i < n && name_char(s[i])
        invariant
            from <= i <= n,
            n == s@.len(),
            name_run_end(s@, from as nat) == name_run_end(s@, i as nat),
        decreases n - i,
    {
        i = i + 1;
    }
    proof {
        lemma_name_run_end(s@, from as nat);
    }
    i
}

/// Substitutes `$NAME` and `${NAME}` references from the snapshot.
pub fn expand_env_vars_dollar(s: &Vec<char>, env: &Vec<(String, String)>) -> (r: Vec<char>)
    ensures
        r@ == expand_dollar_from(s@, env@, 0),
{
    let n = s.len();
    let mut out: Vec<char> = Vec::new();
    let mut i: usize = 0;
    proof {
        assert(Seq::<char>::empty() + expand_dollar_from(s@, env@, 0) =~= expand_dollar_from(
            s@,
            env@,
            0,
        ));
    }
    while i < n
        invariant
            i <= n,
            n == s@.len(),
            expand_dollar_from(s@, env@, 0) =~= out@ + expand_dollar_from(s@, env@, i as nat),
        decreases n - i,
    {
        let ghost prev = out@;
        let ghost at: nat = i as nat;
        let c = s[i];
        if c != '$' {
            out.push(c);
            i = i + 1;
        } else if i + 1 < n && s[i + 1] == '{' {
            match crate::search::find_char_from(s, i + 2, '}') {
                Some(j) => {
                    proof {
                        crate::search::lemma_find_char_props(s@, (i + 2) as nat, '}');
                    }
                    let name = copy_range(s, i + 2, j);
                    if name.len() == 0 {
                        out.push('$');
                    } else {
                        match env_get(env, &name) {
                            Some(v) => {
                                push_chars(&mut out, &v);
                            },
                            None => {
                                push_str_chars(&mut out, "${");
                                push_chars(&mut out, &name);
                                push_str_chars(&mut out, "}");
                            },
                        }
                    }
                    i = j + 1;
                },
                None => {
                    let name = copy_range(s, i + 2, n);
                    if name.len() == 0 {
                        out.push('$');
                    } else {
                        match env_get(env, &name) {
                            Some(v) => {
                                push_chars(&mut out, &v);
                            },
                            None => {
                                push_str_chars(&mut out, "${");
                                push_chars(&mut out, &name);
                                push_str_chars(&mut out, "}");
                            },
                        }
                    }
                    i = n;
                },
            }
        } else {
            let e = name_run_end_exec(s, i + 1);
            if e == i + 1 {
                out.push('$');
                i = i + 1;
            } else {
                let name = copy_range(s, i + 1, e);
                match env_get(env, &name) {
                    Some(v) => {
                        push_chars(&mut out, &v);
                    },
                    None => {
                        out.push('$');
                        push_chars(&mut out, &name);
                    },
                }
                i = e;
            }
        }
        proof {
            assert(expand_dollar_from(s@, env@, at) =~= (out@.subrange(
                prev.len() as int,
                out@.len() as int,
            )) + expand_dollar_from(s@, env@, i as nat));
            assert(out@ =~= prev + out@.subrange(prev.len() as int, out@.len() as int));
            assert(expand_dollar_from(s@, env@, 0) =~= out@ + expand_dollar_from(
                s@,
                env@,
                i as nat,
            ));
        }
    }
    proof {
        assert(out@ + Seq::<char>::empty() =~= out@);
    }
    out
}

/// Substitutes `%NAME%` references from the snapshot.
pub fn expand_env_vars_percent(s: &Vec<char>, env: &Vec<(String, String)>) -> (r: Vec<char>)
    ensures
        r@ == expand_percent_from(s@, env@, 0),
{
    let n = s.len();
    let mut out: Vec<char> = Vec::new();
    let mut i: usize = 0;
    proof {
        assert(Seq::<char>::empty() + expand_percent_from(s@, env@, 0) =~= expand_percent_from(
            s@,
            env@,
            0,
        ));
    }
    while i < n
        invariant
            i <= n,
            n == s@.len(),
            expand_percent_from(s@, env@, 0) =~= out@ + expand_percent_from(s@, env@, i as nat),
        decreases n - i,
    {
        let ghost prev = out@;
        let ghost at: nat = i as nat;
        let c = s[i];
        if c != '%' {
            out.push(c);
            i = i + 1;
        } else {
            match crate::search::find_char_from(s, i + 1, '%') {
                Some(j) => {
                    proof {
                        crate::search::lemma_find_char_props(s@, (i + 1) as nat, '%');
                    }
                    let name = copy_range(s, i + 1, j);
                    if name.len() == 0 {
                        out.push('%');
                    } else {
                        match env_get(env, &name) {
                            Some(v) => {
                                push_chars(&mut out, &v);
                            },
                            None => {
                                out.push('%');
                                push_chars(&mut out, &name);
                                out.push('%');
                            },
                        }
                    }
                    i = j + 1;
                },
                None => {
                    out.push('%');
                    let rest = copy_range(s, i + 1, n);
                    push_chars(&mut out, &rest);
                    i = n;
                },
            }
        }
        proof {
            assert(expand_percent_from(s@, env@, at) =~= (out@.subrange(
                prev.len() as int,
                out@.len() as int,
            )) + expand_percent_from(s@, env@, i as nat));
            assert(out@ =~= prev + out@.subrange(prev.len() as int, out@.len() as int));
            assert(expand_percent_from(s@, env@, 0) =~= out@ + expand_percent_from(
                s@,
                env@,
                i as nat,
            ));
        }
    }
    proof {
        assert(out@ + Seq::<char>::empty() =~= out@);
    }
    out
}

/// The input with `~` resolved and then the OS family's style of
/// environment references substituted.
pub open spec fn expand_path_spec(
    input: Seq<char>,
    home: Seq<char>,
    env: Seq<(String, String)>,
    os: Os,
) -> Seq<char> {
    let t = expand_tilde_spec(input, home, os);
    if os is Windows {
        expand_percent_from(t, env, 0)
    } else {
        expand_dollar_from(t, env, 0)
    }
}

/// Expands `~` and environment references in a path.
pub fn expand_path(input: &str, home: &str, env: &Vec<(String, String)>, os: Os) -> (r: String)
    ensures
        r@ == expand_path_spec(input@, home@, env@, os),
{
    let iv = str_to_chars(input);
    let hv = str_to_chars(home);
    let t = expand_tilde(&iv, &hv, os);
    let expanded = match os {
        Os::Windows => expand_env_vars_percent(&t, env),
        _ => expand_env_vars_dollar(&t, env),
    };
    chars_to_string(&expanded)
}

/// The configuration path to use: a non-blank override is expanded, and
/// anything else falls back to the default path under home.
pub open spec fn resolve_config_path_spec(
    path_override: Option<Seq<char>>,
    home: Seq<char>,
    env: Seq<(String, String)>,
    os: Os,
) -> Seq<char> {
    match path_override {
        Option::Some(p) => if trim_spec(p).len() > 0 {
            expand_path_spec(p, home, env, os)
        } else {
            cargo_config_path_spec(home, os)
        },
        Option::None => cargo_config_path_spec(home, os),
    }
}

/// Resolves the configuration path from an optional override.
pub fn resolve_config_path(
    path_override: Option<&str>,
    home: &str,
    env: &Vec<(String, String)>,
    os: Os,
) -> (r: String)
    ensures
        r@ == resolve_config_path_spec(
            match path_override {
                Some(p) => Some(p@),
                None => None,
            },
            home@,
            env@,
            os,
        ),
{
    match path_override {
        Some(p) => {
            let pv = str_to_chars(p);
            let t = trim_chars(&pv);
            if t.len() > 0 {
                expand_path(p, home, env, os)
            } else {
                get_cargo_config_path(home, os)
            }
        },
        None => get_cargo_config_path(home, os),
    }
}

/// The backup directory beside the resolved configuration path.
pub fn get_backup_dir(
    path_override: Option<&str>,
    home: &str,
    env: &Vec<(String, String)>,
    os: Os,
) -> (r: String)
    ensures
        r@ == backup_dir_spec(
            resolve_config_path_spec(
                match path_override {
                    Some(p) => Some(p@),
                    None => None,
                },
                home@,
                env@,
                os,
            ),
            os,
        ),
{
    let resolved = resolve_config_path(path_override, home, env, os);
    let rv = str_to_chars(resolved.as_str());
    let base = parent_dir(&rv, os);
    let base_or_dot = if base.len() == 0 {
        str_to_chars(".")
    } else {
        base
    };
    let sub = str_to_chars("quickchange-backups");
    let d = join_path(&base_or_dot, &sub, os);
    chars_to_string(&d)
}

/// The target triple the running build reports, from its OS family,
/// architecture and (on the registry-style OS) its toolchain flavor.
#[derive(Clone, Copy, PartialEq, Eq, Structural)]
pub enum Arch {
    X86_64,
    Aarch64,
    OtherArch,
}

#[derive(Clone, Copy, PartialEq, Eq, Structural)]
pub enum Abi {
    Msvc,
    Gnu,
    OtherAbi,
}

pub open spec fn current_target_spec(os: Os, arch: Arch, abi: Abi) -> Seq<char> {
    if os is Windows && arch is X86_64 && abi is Msvc {
        "x86_64-pc-windows-msvc"@
    } else if os is Windows && arch is X86_64 && abi is Gnu {
        "x86_64-pc-windows-gnu"@
    } else if os is Linux && arch is X86_64 {
        "x86_64-unknown-linux-gnu"@
    } else if os is MacOs && arch is X86_64 {
        "x86_64-apple-darwin"@
    } else if os is MacOs && arch is Aarch64 {
        "aarch64-apple-darwin"@
    } else {
        "unknown"@
    }
}

/// The target triple for the given platform description.
pub fn get_current_target(os: Os, arch: Arch, abi: Abi) -> (r: String)
    ensures
        r@ == current_target_spec(os, arch, abi),
{
    let v: Vec<char> = if matches!(os, Os::Windows) && matches!(arch, Arch::X86_64) && matches!(
        abi,
        Abi::Msvc,
    ) {
        str_to_chars("x86_64-pc-windows-msvc")
    } else if matches!(os, Os::Windows) && matches!(arch, Arch::X86_64) && matches!(abi, Abi::Gnu) {
        str_to_chars("x86_64-pc-windows-gnu")
    } else if matches!(os, Os::Linux) && matches!(arch, Arch::X86_64) {
        str_to_chars("x86_64-unknown-linux-gnu")
    } else if matches!(os, Os::MacOs) && matches!(arch, Arch::X86_64) {
        str_to_chars("x86_64-apple-darwin")
    } else if matches!(os, Os::MacOs) && matches!(arch, Arch::Aarch64) {
        str_to_chars("aarch64-apple-darwin")
    } else {
        str_to_chars("unknown")
    };
    chars_to_string(&v)
}

} // verus!
