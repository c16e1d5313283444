//! The registry-style OS backend's pure parts: sniffing the helper
//! process's output encoding, decoding it defensively, and building the
//! query and write scripts the helper runs.
use vstd::prelude::*;

verus! {

use crate::text::str_to_chars;
use crate::text::chars_to_string;
use crate::text::trim_chars;
use crate::text::trim_spec;
use crate::text::push_chars;
use crate::text::push_str_chars;

/// The zero high bytes among the first 64 bytes' odd offsets, up to `upto`.
pub open spec fn odd_zeros(b: Seq<u8>, upto: int) -> int
    decreases upto,
{
    if upto <= 0 {
        0
    } else {
        odd_zeros(b, upto - 1) + (if (upto - 1) % 2 == 1 && b[upto - 1] == 0 {
            1int
        } else {
            0int
        })
    }
}

/// The wide-encoding heuristic: among the first 64 bytes, a majority of
/// odd offsets hold zero.
pub open spec fn utf16_sniff_spec(b: Seq<u8>) -> bool {
    let m: int = if b.len() > 64 {
        64
    } else {
        b.len() as int
    };
    b.len() >= 4 && m / 2 > 0 && odd_zeros(b, m) * 2 >= m / 2
}

/// Sniffs whether the bytes look like little-endian wide text.
pub fn looks_like_utf16_le(bytes: &Vec<u8>) -> (r: bool)
    ensures
        r == utf16_sniff_spec(bytes@),
{
    if bytes.len() < 4 {
        return false;
    }
    let m: usize = if bytes.len() > 64 {
        64
    } else {
        bytes.len()
    };
    let mut zero: usize = 0;
    let mut sample: usize = 0;
    let mut i: usize = 0;
    while i < m
        invariant
            i <= m <= 64,
            m <= bytes@.len(),
            zero == odd_zeros(bytes@, i as int),
            sample == i / 2,
            zero <= i,
        decreases m - i,
    {
        if i % 2 == 1 {
            sample = sample + 1;
            if bytes[i] == 0 {
                zero = zero + 1;
            }
        }
        i = i + 1;
    }
    sample > 0 && zero * 2 >= sample
}

/// The 16-bit word two adjacent bytes form, low byte first; a missing
/// high byte reads as zero.
pub open spec fn word_at(b: Seq<u8>, i: int) -> u16 {
    (b[2 * i] + 256 * (if 2 * i + 1 < b.len() {
        b[2 * i + 1] as int
    } else {
        0
    })) as u16
}

/// The byte stream read as little-endian 16-bit words.
pub open spec fn words_of(b: Seq<u8>) -> Seq<u16> {
    Seq::new(((b.len() + 1) / 2) as nat, |i: int| word_at(b, i))
}

/// Pairs the bytes into little-endian words.
pub fn bytes_to_words(bytes: &Vec<u8>) -> (r: Vec<u16>)
    ensures
        r@ == words_of(bytes@),
{
    let n = bytes.len();
    let words_count: usize = n / 2 + n % 2;
    let mut out: Vec<u16> = Vec::new();
    let mut j: usize = 0;
    while j < words_count
        invariant
            n == bytes@.len(),
            words_count == (n + 1) / 2,
            j <= words_count,
            out@.len() == j,
            forall|k: int| 0 <= k < j ==> out@[k] == word_at(bytes@, k),
        decreases words_count - j,
    {
        let lo = bytes[2 * j];
        let hi: u8 = if 2 * j + 1 < n {
            bytes[2 * j + 1]
        } else {
            0
        };
        let w: u16 = lo as u16 + (hi as u16) * 256;
        out.push(w);
        j = j + 1;
    }
    proof {
        assert(out@ =~= words_of(bytes@));
    }
    out
}

/// What the lossy wide-text decoding yields for the given words.
pub uninterp spec fn utf16_lossy_of(ws: Seq<u16>) -> Seq<char>;

/// What the lossy narrow-text decoding yields for the given bytes.
pub uninterp spec fn utf8_lossy_of(bs: Seq<u8>) -> Seq<char>;

/// Relies on `String::from_utf16_lossy`: the decoding depends on the
/// words alone, and words below 128 decode to those characters.
#[verifier::external_body]
fn utf16_lossy(ws: &Vec<u16>) -> (r: String)
    ensures
        r@ == utf16_lossy_of(ws@),
        (forall|i: int| 0 <= i < ws@.len() ==> ws@[i] < 128) ==> r@ == ws@.map_values(
            |w: u16| w as char,
        ),
{
    String::from_utf16_lossy(ws)
}

/// Relies on `String::from_utf8_lossy`: the decoding depends on the bytes
/// alone, and bytes below 128 decode to those characters.
#[verifier::external_body]
fn utf8_lossy(bs: &Vec<u8>) -> (r: String)
    ensures
        r@ == utf8_lossy_of(bs@),
        (forall|i: int| 0 <= i < bs@.len() ==> bs@[i] < 128) ==> r@ == bs@.map_values(
            |b: u8| b as char,
        ),
{
    String::from_utf8_lossy(bs).into_owned()
}

/// The helper's output decoded: wide where the sniff says so, narrow
/// otherwise, trimmed either way.
pub open spec fn decode_console_spec(b: Seq<u8>) -> Seq<char> {
    if utf16_sniff_spec(b) {
        trim_spec(utf16_lossy_of(words_of(b)))
    } else {
        trim_spec(utf8_lossy_of(b))
    }
}

/// When every byte is plain ASCII and the sniff rejects wide text, the
/// decoding is the bytes themselves, trimmed.
pub open spec fn ascii_chars_of(b: Seq<u8>) -> Seq<char> {
    b.map_values(|x: u8| x as char)
}

/// Decodes the helper process's output, sniffing for wide text.
pub fn decode_powershell_output(bytes: &Vec<u8>) -> (r: String)
    ensures
        r@ == decode_console_spec(bytes@),
        (!utf16_sniff_spec(bytes@) && (forall|i: int| 0 <= i < bytes@.len() ==> bytes@[i] < 128))
            ==> r@ == trim_spec(ascii_chars_of(bytes@)),
{
    let decoded: String = if looks_like_utf16_le(bytes) {
        let ws = bytes_to_words(bytes);
        utf16_lossy(&ws)
    } else {
        utf8_lossy(bytes)
    };
    let dv = str_to_chars(decoded.as_str());
    let t = trim_chars(&dv);
    chars_to_string(&t)
}

/// Single quotes doubled, as a value inside a single-quoted helper-script
/// string needs.
pub open spec fn escape_pwsh_spec(s: Seq<char>) -> Seq<char>
    decreases s.len(),
{
    if s.len() == 0 {
        Seq::<char>::empty()
    } else {
        let head: Seq<char> = if s[0] == '\'' {
            seq!['\'', '\'']
        } else {
            seq![s[0]]
        };
        head + escape_pwsh_spec(s.subrange(1, s.len() as int))
    }
}

/// Doubles single quotes for a single-quoted helper-script string.
pub fn escape_powershell_single_quotes(v: &Vec<char>) -> (r: Vec<char>)
    ensures
        r@ == escape_pwsh_spec(v@),
{
    let n = v.len();
    let mut out: Vec<char> = Vec::new();
    let mut i: usize = 0;
    proof {
        assert(v@.subrange(0, v@.len() as int) =~= v@);
        assert(Seq::<char>::empty() + escape_pwsh_spec(v@) =~= escape_pwsh_spec(v@));
    }
    while i < n
        invariant
            i <= n,
            n == v@.len(),
            escape_pwsh_spec(v@) =~= out@ + escape_pwsh_spec(v@.subrange(i as int, v@.len() as int)),
        decreases n - i,
    {
        proof {
            let rest = v@.subrange(i as int, v@.len() as int);
            assert(rest[0] == v@[i as int]);
            assert(rest.subrange(1, rest.len() as int) =~= v@.subrange(
                i + 1 as int,
                v@.len() as int,
            ));
        }
        let c = v[i];
        if c == '\'' {
            out.push('\'');
            out.push('\'');
        } else {
            out.push(c);
        }
        i = i + 1;
        proof {
            assert(escape_pwsh_spec(v@) =~= out@ + escape_pwsh_spec(
                v@.subrange(i as int, v@.len() as int),
            ));
        }
    }
    proof {
        assert(v@.subrange(n as int, n as int) =~= Seq::<char>::empty());
        assert(out@ + Seq::<char>::empty() =~= out@);
    }
    out
}

/// The helper-script expression for an optional value: the value escaped
/// inside single quotes, or the null literal.
pub open spec fn ps_value_expr_spec(v: Option<Seq<char>>) -> Seq<char> {
    match v {
        Option::Some(x) => seq!['\''] + escape_pwsh_spec(x) + seq!['\''],
        Option::None => "$null"@,
    }
}

fn ps_value_expr(v: Option<&Vec<char>>) -> (r: Vec<char>)
    ensures
        r@ == ps_value_expr_spec(
            match v {
                Some(x) => Some(x@),
                None => None,
            },
        ),
{
    match v {
        Some(x) => {
            let mut out: Vec<char> = Vec::new();
            out.push('\'');
            let esc = escape_powershell_single_quotes(x);
            push_chars(&mut out, &esc);
            out.push('\'');
            proof {
                assert(out@ =~= seq!['\''] + escape_pwsh_spec(x@) + seq!['\'']);
            }
            out
        },
        None => str_to_chars("$null"),
    }
}

/// The query script that reads both variables at both scopes and reports
/// them as one compact JSON object.
pub open spec fn snapshot_script_spec() -> Seq<char> {
    "$result = [ordered]@{ user_dist = [Environment]::GetEnvironmentVariable('RUSTUP_DIST_SERVER','User'); user_root = [Environment]::GetEnvironmentVariable('RUSTUP_UPDATE_ROOT','User'); system_dist = [Environment]::GetEnvironmentVariable('RUSTUP_DIST_SERVER','Machine'); system_root = [Environment]::GetEnvironmentVariable('RUSTUP_UPDATE_ROOT','Machine') }; $result | ConvertTo-Json -Compress"@
}

/// Builds the query script for the helper process.
pub fn build_snapshot_script() -> (r: String)
    ensures
        r@ == snapshot_script_spec(),
{
    chars_to_string(
        &str_to_chars(
            "$result = [ordered]@{ user_dist = [Environment]::GetEnvironmentVariable('RUSTUP_DIST_SERVER','User'); user_root = [Environment]::GetEnvironmentVariable('RUSTUP_UPDATE_ROOT','User'); system_dist = [Environment]::GetEnvironmentVariable('RUSTUP_DIST_SERVER','Machine'); system_root = [Environment]::GetEnvironmentVariable('RUSTUP_UPDATE_ROOT','Machine') }; $result | ConvertTo-Json -Compress",
        ),
    )
}

/// The elevated write script: sets both variables at both scopes, each
/// scope's success tracked independently, and reports compact JSON.
pub open spec fn write_all_script_spec(dist: Option<Seq<char>>, root: Option<Seq<char>>) -> Seq<
    char,
> {
    "$dist = "@ + ps_value_expr_spec(dist) + "; $root = "@ + ps_value_expr_spec(root)
        + "; $result = [ordered]@{ user_ok = $true; user_error = $null; system_ok = $true; system_error = $null }; try { [Environment]::SetEnvironmentVariable('RUSTUP_DIST_SERVER', $dist, 'User'); [Environment]::SetEnvironmentVariable('RUSTUP_UPDATE_ROOT', $root, 'User') } catch { $result.user_ok = $false; $result.user_error = $_.Exception.Message }; try { [Environment]::SetEnvironmentVariable('RUSTUP_DIST_SERVER', $dist, 'Machine'); [Environment]::SetEnvironmentVariable('RUSTUP_UPDATE_ROOT', $root, 'Machine') } catch { $result.system_ok = $false; $result.system_error = $_.Exception.Message }; $result | ConvertTo-Json -Compress"@
}

/// Builds the elevated write script.
pub fn build_write_all_script(dist: Option<&Vec<char>>, root: Option<&Vec<char>>) -> (r: String)
    ensures
        r@ == write_all_script_spec(
            match dist {
                Some(d) => Some(d@),
                None => None,
            },
            match root {
                Some(t) => Some(t@),
                None => None,
            },
        ),
{
    let mut out: Vec<char> = Vec::new();
    push_str_chars(&mut out, "$dist = ");
    let de = ps_value_expr(dist);
    push_chars(&mut out, &de);
    push_str_chars(&mut out, "; $root = ");
    let re = ps_value_expr(root);
    push_chars(&mut out, &re);
    push_str_chars(
        &mut out,
        "; $result = [ordered]@{ user_ok = $true; user_error = $null; system_ok = $true; system_error = $null }; try { [Environment]::SetEnvironmentVariable('RUSTUP_DIST_SERVER', $dist, 'User'); [Environment]::SetEnvironmentVariable('RUSTUP_UPDATE_ROOT', $root, 'User') } catch { $result.user_ok = $false; $result.user_error = $_.Exception.Message }; try { [Environment]::SetEnvironmentVariable('RUSTUP_DIST_SERVER', $dist, 'Machine'); [Environment]::SetEnvironmentVariable('RUSTUP_UPDATE_ROOT', $root, 'Machine') } catch { $result.system_ok = $false; $result.system_error = $_.Exception.Message }; $result | ConvertTo-Json -Compress",
    );
    proof {
        assert(out@ =~= write_all_script_spec(
            match dist {
                Some(d) => Some(d@),
                None => None,
            },
            match root {
                Some(t) => Some(t@),
                None => None,
            },
        ));
    }
    chars_to_string(&out)
}

/// The unelevated write script: sets both variables at user scope only.
pub open spec fn write_user_script_spec(dist: Option<Seq<char>>, root: Option<Seq<char>>) -> Seq<
    char,
> {
    "$dist = "@ + ps_value_expr_spec(dist) + "; $root = "@ + ps_value_expr_spec(root)
        + "; [Environment]::SetEnvironmentVariable('RUSTUP_DIST_SERVER', $dist, 'User'); [Environment]::SetEnvironmentVariable('RUSTUP_UPDATE_ROOT', $root, 'User')"@
}

/// Builds the user-scope-only write script.
pub fn build_write_user_script(dist: Option<&Vec<char>>, root: Option<&Vec<char>>) -> (r: String)
    ensures
        r@ == write_user_script_spec(
            match dist {
                Some(d) => Some(d@),
                None => None,
            },
            match root {
                Some(t) => Some(t@),
                None => None,
            },
        ),
{
    let mut out: Vec<char> = Vec::new();
    push_str_chars(&mut out, "$dist = ");
    let de = ps_value_expr(dist);
    push_chars(&mut out, &de);
    push_str_chars(&mut out, "; $root = ");
    let re = ps_value_expr(root);
    push_chars(&mut out, &re);
    push_str_chars(
        &mut out,
        "; [Environment]::SetEnvironmentVariable('RUSTUP_DIST_SERVER', $dist, 'User'); [Environment]::SetEnvironmentVariable('RUSTUP_UPDATE_ROOT', $root, 'User')",
    );
    proof {
        assert(out@ =~= write_user_script_spec(
            match dist {
                Some(d) => Some(d@),
                None => None,
            },
            match root {
                Some(t) => Some(t@),
                None => None,
            },
        ));
    }
    chars_to_string(&out)
}

} // verus!
