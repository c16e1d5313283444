//! Elevation status and the instruction shown when the process is not
//! elevated.
use vstd::prelude::*;

verus! {

use crate::paths::Os;
use crate::text::str_to_chars;
use crate::text::chars_to_string;
use crate::text::push_chars;
use crate::text::push_str_chars;

/// Whether the current process holds elevated rights, and — when it does
/// not — an OS-appropriate instruction for re-launching elevated.
#[derive(Clone, Debug)]
pub struct AdminStatus {
    pub is_admin: bool,
    pub hint: String,
}

/// Double quotes escaped, as a path quoted inside a shell command needs.
pub open spec fn escape_path_spec(s: Seq<char>) -> Seq<char>
    decreases s.len(),
{
    if s.len() == 0 {
        Seq::<char>::empty()
    } else {
        let head: Seq<char> = if s[0] == '"' {
            seq!['\\', '"']
        } else {
            seq![s[0]]
        };
        head + escape_path_spec(s.subrange(1, s.len() as int))
    }
}

/// Escapes double quotes in a path for quoting inside a shell command.
pub fn escape_shell_path(v: &Vec<char>) -> (r: Vec<char>)
    ensures
        r@ == escape_path_spec(v@),
{
    let n = v.len();
    let mut out: Vec<char> = Vec::new();
    let mut i: usize = 0;
    proof {
        assert(v@.subrange(0, v@.len() as int) =~= v@);
        assert(Seq::<char>::empty() + escape_path_spec(v@) =~= escape_path_spec(v@));
    }
    while i < n
        invariant
            i <= n,
            n == v@.len(),
            escape_path_spec(v@) =~= out@ + escape_path_spec(
                v@.subrange(i as int, v@.len() as int),
            ),
        decreases n - i,
    {
        proof {
            let rest = v@.subrange(i as int, v@.len() as int);
            assert(rest[0] == v@[i as int]);
            assert(rest.subrange(1, rest.len() as int) =~= v@.subrange(
                i + 1 as int,
                v@.len() as int,
            ));
        }
        let c = v[i];
        if c == '"' {
            out.push('\\');
            out.push('"');
        } else {
            out.push(c);
        }
        i = i + 1;
        proof {
            assert(escape_path_spec(v@) =~= out@ + escape_path_spec(
                v@.subrange(i as int, v@.len() as int),
            ));
        }
    }
    proof {
        assert(v@.subrange(n as int, n as int) =~= Seq::<char>::empty());
        assert(out@ + Seq::<char>::empty() =~= out@);
    }
    out
}

/// The instruction an unelevated user sees: on the registry-style OS a
/// run-as-administrator hint, elsewhere a sudo command line carrying the
/// current executable's path where one is known.
pub open spec fn admin_hint_spec(os: Os, exe_path: Option<Seq<char>>) -> Seq<char> {
    if os is Windows {
        "请右键应用图标并选择“以管理员身份运行”"@
    } else {
        match exe_path {
            Option::Some(p) => "请在终端执行：sudo \""@ + escape_path_spec(p) + "\""@,
            Option::None => "请在终端执行：sudo <应用路径>"@,
        }
    }
}

/// Builds the elevation instruction for the given platform.
pub fn build_admin_hint(os: Os, exe_path: Option<&str>) -> (r: String)
    ensures
        r@ == admin_hint_spec(
            os,
            match exe_path {
                Some(p) => Some(p@),
                None => None,
            },
        ),
{
    match os {
        Os::Windows => chars_to_string(&str_to_chars("请右键应用图标并选择“以管理员身份运行”")),
        _ => {
            match exe_path {
                Some(p) => {
                    let pv = str_to_chars(p);
                    let esc = escape_shell_path(&pv);
                    let mut out: Vec<char> = Vec::new();
                    push_str_chars(&mut out, "请在终端执行：sudo \"");
                    push_chars(&mut out, &esc);
                    push_str_chars(&mut out, "\"");
                    proof {
                        assert(out@ =~= admin_hint_spec(os, Some(p@)));
                    }
                    chars_to_string(&out)
                },
                None => chars_to_string(&str_to_chars("请在终端执行：sudo <应用路径>")),
            }
        },
    }
}

/// The elevation status: the probe's verdict, and an instruction exactly
/// when the process is not elevated.
pub fn get_admin_status(is_admin: bool, os: Os, exe_path: Option<&str>) -> (r: AdminStatus)
    ensures
        r.is_admin == is_admin,
        is_admin ==> r.hint@ == Seq::<char>::empty(),
        !is_admin ==> r.hint@ == admin_hint_spec(
            os,
            match exe_path {
                Some(p) => Some(p@),
                None => None,
            },
        ),
{
    let hint = if is_admin {
        String::new()
    } else {
        build_admin_hint(os, exe_path)
    };
    AdminStatus { is_admin, hint }
}

} // verus!
