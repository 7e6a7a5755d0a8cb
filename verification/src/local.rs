//! Local tool execution against a per-session workspace directory on the operator's own
//! machine. A subprocess is process-level separation, not a sandbox. Guest paths map onto the
//! workspace: `/workspace/...` and `/home/agent/...` both resolve into the session's directory,
//! other absolute paths are refused and `..` never escapes. The host performs the file system
//! and process work; the decisions it acts on are made here.

use vstd::prelude::*;
use crate::error::{BrainError, Fault};
use crate::names::push_str_chars;
use crate::text::chars_of;
use vstd::utf8::{encode_utf8, encode_scalar};
use vstd::string::StringSliceAdditionalSpecFns;

verus! {

/// Per-stream capture bound: output beyond it is tail-retained.
pub const MAX_STREAM_BYTES: usize = 1024 * 1024;
/// Default and ceiling for bash's `timeout_ms`.
pub const DEFAULT_TIMEOUT_MS: u64 = 120_000;
pub const MAX_TIMEOUT_MS: u64 = 600_000;

/// Unicode white space, as `char::is_whitespace` decides it (the `White_Space` property).
pub open spec fn is_white_space(c: char) -> bool {
    let v = c as u32;
    ||| 0x9 <= v <= 0xD
    ||| v == 0x20 || v == 0x85 || v == 0xA0 || v == 0x1680
    ||| 0x2000 <= v <= 0x200A
    ||| v == 0x2028 || v == 0x2029 || v == 0x202F || v == 0x205F || v == 0x3000
}

/// How many white-space characters a text starts with.
pub open spec fn leading_ws(s: Seq<char>) -> nat
    decreases s.len(),
{
    if s.len() == 0 || !is_white_space(s[0]) { 0 } else { 1 + leading_ws(s.drop_first()) }
}

/// How many white-space characters a text ends with.
pub open spec fn trailing_ws(s: Seq<char>) -> nat
    decreases s.len(),
{
    if s.len() == 0 || !is_white_space(s.last()) { 0 } else { 1 + trailing_ws(s.drop_last()) }
}

/// The text with leading and trailing white space removed, as `str::trim` gives it.
pub open spec fn trimmed(text: Seq<char>) -> Seq<char> {
    let rest = text.skip(leading_ws(text) as int);
    rest.take(rest.len() - trailing_ws(rest))
}

fn white_space(c: char) -> (r: bool)
    ensures
        r == is_white_space(c),
{
    let v = c as u32;
    (0x9 <= v && v <= 0xD) || v == 0x20 || v == 0x85 || v == 0xA0 || v == 0x1680 || (0x2000 <= v && v <= 0x200A)
        || v == 0x2028 || v == 0x2029 || v == 0x202F || v == 0x205F || v == 0x3000
}

/// The characters of `text` without leading and trailing white space.
fn trim_chars(text: &str) -> (r: Vec<char>)
    ensures
        r@ == trimmed(text@),
{
    let chars = chars_of(text);
    let ghost s = text@;
    let n = chars.len();
    let mut i: usize = 0;
    assert(s.skip(0) =~= s);
    while i < n && white_space(chars[i])
        invariant
            chars@ == s,
            n == s.len(),
            i <= n,
            leading_ws(s) == i + leading_ws(s.skip(i as int)),
        decreases n - i,
    {
        assert(s.skip(i as int).drop_first() =~= s.skip(i as int + 1));
        assert(s.skip(i as int)[0] == s[i as int]);
        i = i + 1;
    }
    proof {
        if i < n {
            assert(s.skip(i as int)[0] == s[i as int]);
        }
    }
    assert(leading_ws(s) == i);
    let ghost rest = s.skip(i as int);
    let mut j: usize = n;
    assert(s.subrange(i as int, n as int) =~= rest);
    while j > i && white_space(chars[j - 1])
        invariant
            chars@ == s,
            n == s.len(),
            i <= j <= n,
            rest == s.skip(i as int),
            trailing_ws(rest) == (n - j) + trailing_ws(s.subrange(i as int, j as int)),
        decreases j - i,
    {
        assert(s.subrange(i as int, j as int).drop_last() =~= s.subrange(i as int, j as int - 1));
        assert(s.subrange(i as int, j as int).last() == s[j as int - 1]);
        j = j - 1;
    }
    proof {
        if j > i {
            assert(s.subrange(i as int, j as int).last() == s[j as int - 1]);
        }
    }
    let mut out: Vec<char> = Vec::new();
    let mut k: usize = i;
    while k < j
        invariant
            chars@ == s,
            i <= k <= j <= n,
            n == s.len(),
            out@ == s.subrange(i as int, k as int),
        decreases j - k,
    {
        out.push(chars[k]);
        assert(s.subrange(i as int, k as int + 1) =~= s.subrange(i as int, k as int).push(s[k as int]));
        k = k + 1;
    }
    assert(rest.take(rest.len() - trailing_ws(rest)) =~= s.subrange(i as int, j as int));
    out
}

/// `text` begins with `prefix`.
pub open spec fn starts_with(text: Seq<char>, prefix: Seq<char>) -> bool {
    prefix.len() <= text.len() && text.take(prefix.len() as int) == prefix
}

fn starts_with_exec(text: &Vec<char>, prefix: &str) -> (r: bool)
    ensures
        r == starts_with(text@, prefix@),
{
    let p = chars_of(prefix);
    if p.len() > text.len() {
        return false;
    }
    let mut i: usize = 0;
    while i < p.len()
        invariant
            p@ == prefix@,
            p@.len() <= text@.len(),
            i <= p@.len(),
            forall|j: int| 0 <= j < i ==> text@[j] == p@[j],
        decreases p.len() - i,
    {
        if text[i] != p[i] {
            return false;
        }
        i = i + 1;
    }
    assert(text@.take(p@.len() as int) =~= p@);
    true
}

/// The `/`-separated parts of `s`, empty ones included.
pub open spec fn path_parts(s: Seq<char>) -> Seq<Seq<char>>
    decreases s.len(),
{
    if s.len() == 0 {
        seq![Seq::empty()]
    } else {
        let parts = path_parts(s.drop_last());
        if s.last() == '/' {
            parts.push(Seq::empty())
        } else {
            parts.update(parts.len() - 1, parts.last().push(s.last()))
        }
    }
}

/// The parts that name a directory entry: neither empty nor `.`.
pub open spec fn kept_parts(parts: Seq<Seq<char>>) -> Seq<Seq<char>>
    decreases parts.len(),
{
    if parts.len() == 0 {
        Seq::empty()
    } else if parts.last().len() == 0 || parts.last() == seq!['.'] {
        kept_parts(parts.drop_last())
    } else {
        kept_parts(parts.drop_last()).push(parts.last())
    }
}

/// Whether some part climbs out with `..`.
pub open spec fn climbs(parts: Seq<Seq<char>>) -> bool {
    exists|i: int| 0 <= i < parts.len() && parts[i] == seq!['.', '.']
}

/// The guest path relative to the workspace, or `None` for another absolute path.
pub open spec fn guest_relative(p: Seq<char>) -> Option<Seq<char>> {
    if starts_with(p, "/workspace"@) {
        Some(p.skip(10))
    } else if starts_with(p, "/home/agent"@) {
        Some(p.skip(11))
    } else if p.len() > 0 && p[0] == '/' {
        None
    } else {
        Some(p)
    }
}

/// The workspace entries a guest path names, or why it is refused.
pub open spec fn resolve_spec(path: Seq<char>) -> Result<Seq<Seq<char>>, BrainError> {
    match guest_relative(trimmed(path)) {
        None => Err(BrainError::Invalid(Fault::PathOutsideWorkspace)),
        Some(rel) => if climbs(path_parts(rel)) {
            Err(BrainError::Invalid(Fault::PathEscapesWorkspace))
        } else {
            Ok(kept_parts(path_parts(rel)))
        },
    }
}

/// `base` with each segment appended, `/`-separated.
pub open spec fn joined(base: Seq<char>, segments: Seq<Seq<char>>) -> Seq<char>
    decreases segments.len(),
{
    if segments.len() == 0 {
        base
    } else {
        joined(base, segments.drop_last()) + seq!['/'] + segments.last()
    }
}

/// The entries a guest path names inside the workspace, in order.
pub fn resolve_relative(path: &str) -> (r: Result<Vec<String>, BrainError>)
    ensures
        match resolve_spec(path@) {
            Ok(segments) => r matches Ok(v) && v@.len() == segments.len() && forall|i: int|
                0 <= i < segments.len() ==> (#[trigger] v@[i])@ == segments[i],
            Err(e) => r == Err::<Vec<String>, BrainError>(e),
        },
{
    proof {
        reveal_strlit("/workspace");
        reveal_strlit("/home/agent");
    }
    let p = trim_chars(path);
    let start: usize = if starts_with_exec(&p, "/workspace") {
        10
    } else if starts_with_exec(&p, "/home/agent") {
        11
    } else if p.len() > 0 && p[0] == '/' {
        return Err(BrainError::Invalid(Fault::PathOutsideWorkspace));
    } else {
        0
    };
    let ghost rel = p@.skip(start as int);
    assert(guest_relative(trimmed(path@)) == Some(rel)) by {
        if start == 0 {
            assert(rel =~= p@);
        }
    }
    let mut out: Vec<String> = Vec::new();
    let mut current: Vec<char> = Vec::new();
    let mut i: usize = start;
    assert(rel.take(0) =~= Seq::<char>::empty());
    assert(path_parts(rel.take(0)) == seq![Seq::<char>::empty()]);
    assert(kept_parts(seq![Seq::<char>::empty()].drop_last()) =~= Seq::<Seq<char>>::empty()) by {
        assert(seq![Seq::<char>::empty()].drop_last() =~= Seq::<Seq<char>>::empty());
    }
    while i < p.len()
        invariant
            start <= i <= p@.len(),
            rel == p@.skip(start as int),
            guest_relative(trimmed(path@)) == Some(rel),
            ({
                let parts = path_parts(rel.take(i - start));
                &&& parts.len() > 0
                &&& current@ == parts.last()
                &&& !climbs(parts.drop_last())
                &&& out@.len() == kept_parts(parts.drop_last()).len()
                &&& forall|k: int| 0 <= k < out@.len() ==> (#[trigger] out@[k])@ == kept_parts(parts.drop_last())[k]
            }),
        decreases p.len() - i,
    {
        let ghost before = path_parts(rel.take(i - start));
        let c = p[i];
        proof {
            assert(rel.take(i - start + 1).drop_last() =~= rel.take(i - start));
            assert(rel.take(i - start + 1).last() == c);
        }
        if c == '/' {
            if current.len() == 2 && current[0] == '.' && current[1] == '.' {
                proof {
                    assert(current@ =~= seq!['.', '.']);
                    let parts = path_parts(rel.take(i - start + 1));
                    assert(parts == before.push(Seq::empty()));
                    assert(parts[before.len() - 1] == before.last());
                    lemma_climb_stays(rel, (i - start + 1) as int, before.len() - 1);
                }
                return Err(BrainError::Invalid(Fault::PathEscapesWorkspace));
            }
            let keep = !(current.len() == 0 || (current.len() == 1 && current[0] == '.'));
            if keep {
                out.push(crate::names::string_from_chars(current.as_slice()));
            }
            proof {
                let parts = path_parts(rel.take(i - start + 1));
                assert(parts == before.push(Seq::empty()));
                assert(parts.drop_last() =~= before);
                assert(before =~= before.drop_last().push(before.last()));
                if !keep {
                    assert(before.last().len() == 0 || before.last() =~= seq!['.']);
                } else {
                    assert(!(before.last().len() == 0 || before.last() == seq!['.']));
                }
                assert(!climbs(before)) by {
                    if climbs(before) {
                        let k = choose|k: int| 0 <= k < before.len() && before[k] == seq!['.', '.'];
                        if k < before.len() - 1 {
                            assert(before.drop_last()[k] == before[k]);
                        } else {
                            assert(before.last() =~= seq!['.', '.']);
                        }
                    }
                }
            }
            current = Vec::new();
        } else {
            current.push(c);
            proof {
                let parts = path_parts(rel.take(i - start + 1));
                assert(parts == before.update(before.len() - 1, before.last().push(c)));
                assert(parts.drop_last() =~= before.drop_last());
            }
        }
        i = i + 1;
    }
    proof {
        assert(rel.take(i - start) =~= rel);
    }
    let parts_done = current.len() == 2 && current[0] == '.' && current[1] == '.';
    if parts_done {
        proof {
            let parts = path_parts(rel);
            assert(current@ =~= seq!['.', '.']);
            assert(parts[parts.len() - 1] == parts.last());
        }
        return Err(BrainError::Invalid(Fault::PathEscapesWorkspace));
    }
    let keep = !(current.len() == 0 || (current.len() == 1 && current[0] == '.'));
    let ghost parts = path_parts(rel);
    if keep {
        out.push(crate::names::string_from_chars(current.as_slice()));
    }
    proof {
        assert(parts =~= parts.drop_last().push(parts.last()));
        if !keep {
            assert(parts.last().len() == 0 || parts.last() =~= seq!['.']);
        } else {
            assert(!(parts.last().len() == 0 || parts.last() == seq!['.']));
        }
        assert(!climbs(parts)) by {
            if climbs(parts) {
                let k = choose|k: int| 0 <= k < parts.len() && parts[k] == seq!['.', '.'];
                if k < parts.len() - 1 {
                    assert(parts.drop_last()[k] == parts[k]);
                } else {
                    assert(parts.last() =~= seq!['.', '.']);
                }
            }
        }
    }
    Ok(out)
}

/// A `..` part seen in a prefix stays in the parts of the whole text.
proof fn lemma_climb_stays(rel: Seq<char>, n: int, k: int)
    requires
        0 <= n <= rel.len(),
        0 <= k < path_parts(rel.take(n)).len() - 1,
        path_parts(rel.take(n))[k] == seq!['.', '.'],
    ensures
        climbs(path_parts(rel)),
    decreases rel.len() - n,
{
    if n == rel.len() {
        assert(rel.take(n) =~= rel);
    } else {
        let next = path_parts(rel.take(n + 1));
        assert(rel.take(n + 1).drop_last() =~= rel.take(n));
        assert(next[k] == path_parts(rel.take(n))[k]);
        lemma_climb_stays(rel, n + 1, k);
    }
}

/// The decimal digits of `n`, without leading zeros.
pub open spec fn decimal(n: nat) -> Seq<char>
    decreases n,
{
    if n < 10 {
        seq![crate::names::digit_char(n as int)]
    } else {
        decimal(n / 10).push(crate::names::digit_char((n % 10) as int))
    }
}

/// The decimal text of `n`.
pub fn decimal_text(n: u64) -> (s: String)
    ensures
        s@ == decimal(n as nat),
{
    let mut digits: Vec<char> = Vec::new();
    let mut rest: u64 = n;
    while rest >= 10
        invariant
            decimal(n as nat) == decimal(rest as nat) + digits@,
        decreases rest,
    {
        let c = (48u8 + (rest % 10) as u8) as char;
        let ghost tail = digits@;
        proof {
            assert(c == crate::names::digit_char((rest % 10) as int));
            assert(decimal(rest as nat) == decimal((rest / 10) as nat).push(c));
            assert(decimal((rest / 10) as nat).push(c) + tail =~= decimal((rest / 10) as nat) + (seq![c] + tail));
        }
        digits.insert(0, c);
        assert(digits@ =~= seq![c] + tail);
        rest = rest / 10;
    }
    let c = (48u8 + rest as u8) as char;
    let ghost tail = digits@;
    assert(c == crate::names::digit_char(rest as int));
    digits.insert(0, c);
    assert(digits@ =~= seq![c] + tail);
    crate::names::string_from_chars(digits.as_slice())
}

/// The path as the guest sees it: `/workspace`, or `/workspace/` and its path below the
/// workspace.
pub open spec fn public_path_spec(rel: Seq<char>) -> Seq<char> {
    if rel.len() == 0 { "/workspace"@ } else { "/workspace/"@ + rel }
}

/// The guest's view of a path below the workspace.
pub fn public_path(rel: &str) -> (r: String)
    ensures
        r@ == public_path_spec(rel@),
{
    proof {
        reveal_strlit("/workspace");
        reveal_strlit("/workspace/");
    }
    let mut r = String::new();
    if rel.as_bytes().len() == 0 {
        push_str_chars(&mut r, "/workspace");
        assert(rel@.len() == 0) by {
            vstd::utf8::encode_utf8_decode_utf8(rel@);
        }
        assert(Seq::<char>::empty() + "/workspace"@ =~= "/workspace"@);
    } else {
        push_str_chars(&mut r, "/workspace/");
        push_str_chars(&mut r, rel);
        assert(rel@.len() > 0) by {
            if rel@.len() == 0 {
                assert(rel@ =~= Seq::<char>::empty());
            }
        }
        assert(Seq::<char>::empty() + "/workspace/"@ + rel@ =~= "/workspace/"@ + rel@);
    }
    r
}

/// An artifact name must be a plain file name: no separator and no `..`.
pub open spec fn plain_name(name: Seq<char>) -> bool {
    &&& forall|i: int| 0 <= i < name.len() ==> name[i] != '/' && name[i] != '\\'
    &&& forall|i: int| 0 <= i < name.len() - 1 ==> !(#[trigger] name[i] == '.' && name[i + 1] == '.')
}

pub fn check_artifact_name(name: &str) -> (r: Result<(), BrainError>)
    ensures
        r is Ok <==> plain_name(name@),
        r matches Err(e) ==> e == BrainError::Invalid(Fault::ArtifactNameNotPlain),
{
    let c = chars_of(name);
    let mut i: usize = 0;
    while i < c.len()
        invariant
            c@ == name@,
            i <= c@.len(),
            forall|k: int| 0 <= k < i ==> c@[k] != '/' && c@[k] != '\\',
            forall|k: int| 0 <= k < i && k + 1 < c@.len() ==> !(#[trigger] c@[k] == '.' && c@[k + 1] == '.'),
        decreases c.len() - i,
    {
        if c[i] == '/' || c[i] == '\\' {
            return Err(BrainError::Invalid(Fault::ArtifactNameNotPlain));
        }
        if i + 1 < c.len() && c[i] == '.' && c[i + 1] == '.' {
            return Err(BrainError::Invalid(Fault::ArtifactNameNotPlain));
        }
        i = i + 1;
    }
    Ok(())
}

/// The outcome of an edit that found `count` occurrences: how many it replaces, or why it is
/// refused.
pub fn edit_replacements(count: usize, replace_all: bool) -> (r: Result<usize, BrainError>)
    ensures
        count == 0 ==> r == Err::<usize, BrainError>(BrainError::Invalid(Fault::OldStringNotFound)),
        count > 1 && !replace_all ==> r == Err::<usize, BrainError>(BrainError::Invalid(Fault::OldStringAmbiguous { count })),
        count == 1 && !replace_all ==> r == Ok::<usize, BrainError>(1),
        count > 0 && replace_all ==> r == Ok::<usize, BrainError>(count),
{
    if count == 0 {
        return Err(BrainError::Invalid(Fault::OldStringNotFound));
    }
    if count > 1 && !replace_all {
        return Err(BrainError::Invalid(Fault::OldStringAmbiguous { count }));
    }
    if replace_all { Ok(count) } else { Ok(1) }
}

/// The 1-based line window a read of `total` lines returns for `offset` and `limit`, as
/// `(start, end)`; it holds text when `total > 0` and `start <= total`.
pub open spec fn read_window_spec(total: int, offset: int, limit: int) -> (int, int) {
    let offset = if offset < 1 { 1 } else { offset };
    let start = if offset <= (if total < 1 { 1 } else { total }) { offset } else { if total < 1 { 1 } else { total } };
    let last = start + limit - 1;
    (start, if last <= total { last } else { total })
}

/// The window of a read, as the tool reports it.
pub fn read_window(total: usize, offset: u64, limit: u64) -> (r: (usize, usize))
    requires
        limit >= 1,
    ensures
        r.0 as int == read_window_spec(total as int, offset as int, limit as int).0,
        r.1 as int == read_window_spec(total as int, offset as int, limit as int).1,
{
    let offset: u64 = if offset < 1 { 1 } else { offset };
    let cap: usize = if total < 1 { 1 } else { total };
    let start: usize = if offset <= cap as u64 { offset as usize } else { cap };
    let last: u128 = start as u128 + limit as u128 - 1;
    let end: usize = if last <= total as u128 { last as usize } else { total };
    (start, end)
}

/// How long a bash call may run: the requested milliseconds, by default two minutes, at most
/// ten.
pub fn bash_timeout_ms(requested: Option<u64>) -> (r: u64)
    ensures
        r == (match requested {
            Some(ms) => if ms <= MAX_TIMEOUT_MS { ms } else { MAX_TIMEOUT_MS },
            None => DEFAULT_TIMEOUT_MS,
        }),
{
    let ms = match requested {
        Some(ms) => ms,
        None => DEFAULT_TIMEOUT_MS,
    };
    if ms <= MAX_TIMEOUT_MS { ms } else { MAX_TIMEOUT_MS }
}

/// The outcome name and error flag of a finished bash call: cancelled, timed out, exited zero,
/// or anything else.
pub fn bash_outcome(cancelled: bool, timed_out: bool, exit_code: Option<i64>) -> (r: (&'static str, bool))
    ensures
        cancelled ==> r.0@ == "cancelled"@ && r.1,
        !cancelled ==> r.0@ == "completed"@ && r.1 == (timed_out || exit_code != Some(0i64)),
{
    if cancelled {
        ("cancelled", true)
    } else if timed_out {
        ("completed", true)
    } else if exit_code == Some(0i64) {
        ("completed", false)
    } else {
        ("completed", true)
    }
}

/// What a bash call reports: its output, a `[stderr]` section when there is error output, and a
/// timeout notice first when it timed out.
pub open spec fn bash_content_spec(stdout: Seq<char>, stderr: Seq<char>, timed_out: bool, timeout_ms: u64) -> Seq<char> {
    let with_err = if stderr.len() == 0 {
        stdout
    } else {
        (if stdout.len() == 0 { stdout } else { stdout.push('\n') }) + "[stderr]\n"@ + stderr
    };
    if timed_out {
        "[command timed out after "@ + decimal(timeout_ms as nat) + " ms]\n"@ + with_err
    } else {
        with_err
    }
}

pub fn bash_content(stdout: &str, stderr: &str, timed_out: bool, timeout_ms: u64) -> (r: String)
    ensures
        r@ == bash_content_spec(stdout@, stderr@, timed_out, timeout_ms),
{
    let mut content = String::new();
    push_str_chars(&mut content, stdout);
    let err = chars_of(stderr);
    if err.len() > 0 {
        let out = chars_of(stdout);
        if out.len() > 0 {
            content.push('\n');
        }
        push_str_chars(&mut content, "[stderr]\n");
        push_str_chars(&mut content, stderr);
    }
    proof {
        assert(Seq::<char>::empty() + stdout@ =~= stdout@);
    }
    if timed_out {
        let mut framed = String::new();
        push_str_chars(&mut framed, "[command timed out after ");
        let digits = decimal_text(timeout_ms);
        push_str_chars(&mut framed, digits.as_str());
        push_str_chars(&mut framed, " ms]\n");
        push_str_chars(&mut framed, content.as_str());
        assert(framed@ =~= "[command timed out after "@ + decimal(timeout_ms as nat) + " ms]\n"@ + content@);
        framed
    } else {
        content
    }
}

/// One session's local workspace, named by the directories the host keeps it in.
pub struct LocalHand {
    pub session_id: String,
    root: String,
    artifacts: String,
    bundles: String,
}

/// `base` and `name` joined by one separator.
pub open spec fn join_spec(base: Seq<char>, name: Seq<char>) -> Seq<char> {
    if base.len() == 0 {
        name
    } else if base.last() == '/' {
        base + name
    } else {
        base + seq!['/'] + name
    }
}

fn join(base: &str, name: &str) -> (r: String)
    ensures
        r@ == join_spec(base@, name@),
{
    let b = chars_of(base);
    let mut r = String::new();
    push_str_chars(&mut r, base);
    if b.len() > 0 && b[b.len() - 1] != '/' {
        r.push('/');
    }
    push_str_chars(&mut r, name);
    assert(Seq::<char>::empty() + base@ =~= base@);
    r
}

impl LocalHand {
    /// The session's directories under `data_dir`: `<session>/workspace`, `<session>/artifacts`
    /// and `<session>/bundles`.
    pub fn new(data_dir: &str, session_id: &str) -> (h: LocalHand)
        ensures
            h.session_view() == session_id@,
            h.workspace_view() == join_spec(join_spec(data_dir@, session_id@), "workspace"@),
            h.artifacts_view() == join_spec(join_spec(data_dir@, session_id@), "artifacts"@),
            h.bundles_view() == join_spec(join_spec(data_dir@, session_id@), "bundles"@),
    {
        let base = join(data_dir, session_id);
        LocalHand {
            session_id: session_id.to_owned(),
            root: join(base.as_str(), "workspace"),
            artifacts: join(base.as_str(), "artifacts"),
            bundles: join(base.as_str(), "bundles"),
        }
    }

    pub closed spec fn session_view(&self) -> Seq<char> {
        self.session_id@
    }

    pub closed spec fn workspace_view(&self) -> Seq<char> {
        self.root@
    }

    pub closed spec fn artifacts_view(&self) -> Seq<char> {
        self.artifacts@
    }

    pub closed spec fn bundles_view(&self) -> Seq<char> {
        self.bundles@
    }

    /// The workspace directory.
    pub fn workspace(&self) -> (r: &str)
        ensures
            r@ == self.workspace_view(),
    {
        self.root.as_str()
    }

    /// The directory persisted artifacts are copied to.
    pub fn artifacts(&self) -> (r: &str)
        ensures
            r@ == self.artifacts_view(),
    {
        self.artifacts.as_str()
    }

    /// The directory tool bundles are kept in.
    pub fn bundles(&self) -> (r: &str)
        ensures
            r@ == self.bundles_view(),
    {
        self.bundles.as_str()
    }

    /// Map a guest path into the workspace.
    pub fn resolve(&self, path: &str) -> (r: Result<String, BrainError>)
        ensures
            match resolve_spec(path@) {
                Ok(segments) => r matches Ok(p) && p@ == joined(self.workspace_view(), segments),
                Err(e) => r == Err::<String, BrainError>(e),
            },
    {
        let segments = match resolve_relative(path) {
            Ok(segments) => segments,
            Err(e) => return Err(e),
        };
        let ghost segs = match resolve_spec(path@) {
            Ok(s) => s,
            Err(_) => Seq::empty(),
        };
        let mut out = String::new();
        push_str_chars(&mut out, self.root.as_str());
        assert(Seq::<char>::empty() + self.root@ =~= self.root@);
        let mut i: usize = 0;
        while i < segments.len()
            invariant
                i <= segments@.len(),
                segments@.len() == segs.len(),
                forall|k: int| 0 <= k < segs.len() ==> (#[trigger] segments@[k])@ == segs[k],
                out@ == joined(self.root@, segs.take(i as int)),
            decreases segments.len() - i,
        {
            out.push('/');
            push_str_chars(&mut out, segments[i].as_str());
            proof {
                assert(segs.take(i as int + 1).drop_last() =~= segs.take(i as int));
                assert(out@ =~= joined(self.root@, segs.take(i as int)) + seq!['/'] + segs[i as int]);
            }
            i = i + 1;
        }
        assert(segs.take(i as int) =~= segs);
        Ok(out)
    }
}

/// Opens local hands under one data directory.
pub struct LocalFactory {
    pub data_dir: String,
}

impl LocalFactory {
    pub fn new(data_dir: &str) -> (f: LocalFactory)
        ensures
            f.data_dir@ == data_dir@,
    {
        LocalFactory { data_dir: data_dir.to_owned() }
    }

    /// The hand of one session under this factory's directory.
    pub fn hand(&self, session_id: &str) -> (h: LocalHand)
        ensures
            h.session_view() == session_id@,
            h.workspace_view() == join_spec(join_spec(self.data_dir@, session_id@), "workspace"@),
    {
        LocalHand::new(self.data_dir.as_str(), session_id)
    }
}

/// Whether `pattern` builds as a regular expression (case-insensitive when asked).
pub uninterp spec fn regex_compiles(pattern: Seq<char>, case_insensitive: bool) -> bool;

/// Whether that regular expression matches somewhere in `line`.
pub uninterp spec fn regex_finds(pattern: Seq<char>, case_insensitive: bool, line: Seq<char>) -> bool;

/// `regex::Error`, why a pattern does not build.
#[verifier::external_type_specification]
#[verifier::external_body]
pub struct ExRegexError(regex::Error);

/// `regex::RegexBuilder::build` and `regex::Regex::is_match`: builds the pattern once and
/// reports, line by line, whether it matches; the build either fails for the pattern or
/// succeeds, and each answer is a function of the pattern, the flag and the line alone.
#[verifier::external_body]
fn regex_line_hits(pattern: &str, case_insensitive: bool, lines: &[String]) -> (r: Result<Vec<bool>, regex::Error>)
    ensures
        match r {
            Ok(hits) => regex_compiles(pattern@, case_insensitive) && hits@.len() == lines@.len() && forall|i: int|
                0 <= i < lines@.len() ==> hits@[i] == regex_finds(pattern@, case_insensitive, (#[trigger] lines@[i])@),
            Err(_) => !regex_compiles(pattern@, case_insensitive),
        },
{
    let re = regex::RegexBuilder::new(pattern).case_insensitive(case_insensitive).build()?;
    Ok(lines.iter().map(|line| re.is_match(line)).collect())
}

/// Which lines of a file match a grep pattern.
pub fn grep_hits(pattern: &str, case_insensitive: bool, lines: &[String]) -> (r: Result<Vec<bool>, BrainError>)
    ensures
        match r {
            Ok(hits) => regex_compiles(pattern@, case_insensitive) && hits@.len() == lines@.len() && forall|i: int|
                0 <= i < lines@.len() ==> hits@[i] == regex_finds(pattern@, case_insensitive, (#[trigger] lines@[i])@),
            Err(e) => !regex_compiles(pattern@, case_insensitive) && e == BrainError::Invalid(Fault::GrepPatternInvalid),
        },
{
    match regex_line_hits(pattern, case_insensitive, lines) {
        Ok(hits) => Ok(hits),
        Err(_) => Err(BrainError::Invalid(Fault::GrepPatternInvalid)),
    }
}

/// What grep reports per file.
#[derive(Debug, Clone, Copy, PartialEq, Eq)]
pub enum GrepMode {
    /// The names of files with a match.
    Files,
    /// Each matching line with its context, `path:line: text`.
    Content,
    /// The number of matching lines per file.
    Count,
}

pub fn grep_mode(mode: &str) -> (r: GrepMode)
    ensures
        r == (if mode@ == "content"@ { GrepMode::Content } else if mode@ == "count"@ { GrepMode::Count } else { GrepMode::Files }),
{
    if crate::text::str_eq(mode, "content") {
        GrepMode::Content
    } else if crate::text::str_eq(mode, "count") {
        GrepMode::Count
    } else {
        GrepMode::Files
    }
}

/// The texts of some lines.
pub open spec fn views(lines: Seq<String>) -> Seq<Seq<char>> {
    Seq::new(lines.len(), |i: int| lines[i]@)
}

/// One reported line: `path:number: text`, numbered from one.
pub open spec fn content_line(rel: Seq<char>, j: int, line: Seq<char>) -> Seq<char> {
    rel + ":"@ + decimal((j + 1) as nat) + ": "@ + line
}

/// The lines reported for a match at line `i`: `context` lines either side, within the file.
pub open spec fn window(rel: Seq<char>, lines: Seq<Seq<char>>, i: int, context: int) -> Seq<Seq<char>> {
    let lo = if i >= context { i - context } else { 0 };
    let hi = if i + context < lines.len() - 1 { i + context } else { lines.len() - 1 };
    Seq::new((hi - lo + 1) as nat, |k: int| content_line(rel, lo + k, lines[lo + k]))
}

/// Scanning a file's lines from `i` in content mode with `results` matches already reported:
/// the lines reported, the new count, and whether the result ceiling stopped the scan.
pub open spec fn content_scan(rel: Seq<char>, lines: Seq<Seq<char>>, hits: Seq<bool>, context: int, max: int, i: int, results: int) -> (Seq<Seq<char>>, int, bool)
    decreases lines.len() - i,
{
    if i < 0 || i >= lines.len() {
        (Seq::empty(), results, false)
    } else if !hits[i] {
        content_scan(rel, lines, hits, context, max, i + 1, results)
    } else if results >= max {
        (Seq::empty(), results, true)
    } else {
        let rest = content_scan(rel, lines, hits, context, max, i + 1, results + 1);
        (window(rel, lines, i, context) + rest.0, rest.1, rest.2)
    }
}

/// The number of matching lines.
pub open spec fn hit_count(hits: Seq<bool>) -> int
    decreases hits.len(),
{
    if hits.len() == 0 { 0 } else { hit_count(hits.drop_last()) + if hits.last() { 1int } else { 0 } }
}

/// Format `path:number: text`.
fn format_content_line(rel: &str, j: usize, line: &str) -> (r: String)
    requires
        j < usize::MAX,
    ensures
        r@ == content_line(rel@, j as int, line@),
{
    let mut r = String::new();
    push_str_chars(&mut r, rel);
    push_str_chars(&mut r, ":");
    let number = decimal_text(j as u64 + 1);
    push_str_chars(&mut r, number.as_str());
    push_str_chars(&mut r, ": ");
    push_str_chars(&mut r, line);
    assert(r@ =~= content_line(rel@, j as int, line@));
    r
}

/// Report one file's matches. Returns whether the result ceiling stopped the search.
pub fn grep_file(
    out: &mut Vec<String>,
    results: &mut usize,
    rel: &str,
    lines: &[String],
    hits: &[bool],
    mode: GrepMode,
    context: usize,
    max: usize,
) -> (stop: bool)
    requires
        hits@.len() == lines@.len(),
        lines@.len() + context <= usize::MAX,
    ensures
        mode == GrepMode::Content ==> ({
            let scan = content_scan(rel@, views(lines@), hits@, context as int, max as int, 0, *old(results) as int);
            &&& views(final(out)@) == views(old(out)@) + scan.0
            &&& *final(results) as int == scan.1
            &&& stop == scan.2
        }),
        mode != GrepMode::Content ==> ({
            let n = hit_count(hits@);
            if n == 0 {
                views(final(out)@) == views(old(out)@) && *final(results) == *old(results) && !stop
            } else if *old(results) >= max {
                views(final(out)@) == views(old(out)@) && *final(results) == *old(results) && stop
            } else {
                &&& *final(results) == *old(results) + 1
                &&& !stop
                &&& views(final(out)@) == views(old(out)@).push(
                    if mode == GrepMode::Count { rel@ + ": "@ + decimal(n as nat) } else { rel@ },
                )
            }
        }),
{
    let ghost l = views(lines@);
    let ghost start = views(out@);
    let ghost r0 = *results as int;
    let ghost c = context as int;
    let ghost m = max as int;
    let content = match mode {
        GrepMode::Content => true,
        _ => false,
    };
    if content {
        let ghost mut acc: Seq<Seq<char>> = Seq::empty();
        let mut i: usize = 0;
        assert(start + acc =~= start);
        while i < lines.len()
            invariant
                i <= lines@.len(),
                hits@.len() == lines@.len(),
                lines@.len() + context <= usize::MAX,
                mode == GrepMode::Content,
                start == views(old(out)@),
                r0 == *old(results) as int,
                l == views(lines@),
                c == context as int,
                m == max as int,
                r0 <= *results as int <= r0 + i,
                views(out@) == start + acc,
                content_scan(rel@, l, hits@, c, m, 0, r0).0 == acc + content_scan(rel@, l, hits@, c, m, i as int, *results as int).0,
                content_scan(rel@, l, hits@, c, m, 0, r0).1 == content_scan(rel@, l, hits@, c, m, i as int, *results as int).1,
                content_scan(rel@, l, hits@, c, m, 0, r0).2 == content_scan(rel@, l, hits@, c, m, i as int, *results as int).2,
            decreases lines.len() - i,
        {
            if hits[i] {
                if *results >= max {
                    assert(acc + Seq::<Seq<char>>::empty() =~= acc);
                    return true;
                }
                let lo: usize = if i >= context { i - context } else { 0 };
                let hi: usize = if i + context < lines.len() - 1 { i + context } else { lines.len() - 1 };
                let ghost w = window(rel@, l, i as int, c);
                let ghost rest = content_scan(rel@, l, hits@, c, m, i as int + 1, *results as int + 1);
                assert(content_scan(rel@, l, hits@, c, m, i as int, *results as int) == (w + rest.0, rest.1, rest.2));
                let mut j: usize = lo;
                while j <= hi
                    invariant
                        lo <= j <= hi + 1,
                        hi < lines@.len(),
                        i < lines@.len(),
                        lines@.len() + context <= usize::MAX,
                        c == context as int,
                        hi as int == (if i + context < lines@.len() - 1 { i + context } else { lines@.len() - 1 }),
                        hi - lo + 1 == w.len(),
                        l == views(lines@),
                        w == window(rel@, l, i as int, c),
                        lo as int == (if i >= context { i - context } else { 0 }),
                        views(out@) == start + acc + w.take(j - lo),
                    decreases hi + 1 - j,
                {
                    let ghost before = views(out@);
                    out.push(format_content_line(rel, j, lines[j].as_str()));
                    proof {
                        assert(w[j - lo] == content_line(rel@, j as int, l[j as int]));
                        assert(views(out@) =~= before.push(w[j - lo]));
                        assert(w.take(j - lo + 1) =~= w.take(j - lo).push(w[j - lo]));
                        assert(start + acc + w.take(j - lo + 1) =~= (start + acc + w.take(j - lo)).push(w[j - lo]));
                    }
                    j = j + 1;
                }
                proof {
                    assert(w.take(j - lo) =~= w);
                    assert(acc + (w + rest.0) =~= (acc + w) + rest.0);
                    acc = acc + w;
                }
                *results = *results + 1;
            }
            i = i + 1;
        }
        assert(acc + Seq::<Seq<char>>::empty() =~= acc);
        return false;
    }
    let mut n: usize = 0;
    let mut i: usize = 0;
    while i < hits.len()
        invariant
            i <= hits@.len(),
            hits@.len() <= usize::MAX,
            n as int == hit_count(hits@.take(i as int)),
            n <= i,
        decreases hits.len() - i,
    {
        proof {
            assert(hits@.take(i as int + 1).drop_last() =~= hits@.take(i as int));
        }
        if hits[i] {
            n = n + 1;
        }
        i = i + 1;
    }
    assert(hits@.take(i as int) =~= hits@);
    if n == 0 {
        return false;
    }
    if *results >= max {
        return true;
    }
    *results = *results + 1;
    let ghost before = views(out@);
    let count = match mode {
        GrepMode::Count => true,
        _ => false,
    };
    if count {
        let mut line = String::new();
        push_str_chars(&mut line, rel);
        push_str_chars(&mut line, ": ");
        let digits = decimal_text(n as u64);
        push_str_chars(&mut line, digits.as_str());
        assert(line@ =~= rel@ + ": "@ + decimal(n as nat));
        out.push(line);
    } else {
        out.push(rel.to_owned());
    }
    assert(views(out@) =~= before.push(views(out@).last()));
    false
}

/// Whether `pattern` builds as a glob (with `*` free to cross separators).
pub uninterp spec fn glob_compiles(pattern: Seq<char>) -> bool;

/// Whether that glob matches `path`.
pub uninterp spec fn glob_accepts(pattern: Seq<char>, path: Seq<char>) -> bool;

/// `globset::Error`, why a glob does not build.
#[verifier::external_type_specification]
#[verifier::external_body]
pub struct ExGlobError(globset::Error);

/// `globset::GlobBuilder::build` and `globset::GlobMatcher::is_match`: builds the glob once
/// (separators not literal) and reports, path by path, whether it matches; each answer is a
/// function of the pattern and the path alone.
#[verifier::external_body]
fn glob_path_hits(pattern: &str, paths: &[String]) -> (r: Result<Vec<bool>, globset::Error>)
    ensures
        match r {
            Ok(hits) => glob_compiles(pattern@) && hits@.len() == paths@.len() && forall|i: int|
                0 <= i < paths@.len() ==> hits@[i] == glob_accepts(pattern@, (#[trigger] paths@[i])@),
            Err(_) => !glob_compiles(pattern@),
        },
{
    let matcher = globset::GlobBuilder::new(pattern).literal_separator(false).build()?.compile_matcher();
    Ok(paths.iter().map(|path| matcher.is_match(path.as_str())).collect())
}

/// Which paths a glob matches.
pub fn glob_hits(pattern: &str, paths: &[String]) -> (r: Result<Vec<bool>, BrainError>)
    ensures
        match r {
            Ok(hits) => glob_compiles(pattern@) && hits@.len() == paths@.len() && forall|i: int|
                0 <= i < paths@.len() ==> hits@[i] == glob_accepts(pattern@, (#[trigger] paths@[i])@),
            Err(e) => !glob_compiles(pattern@) && e == BrainError::Invalid(Fault::GlobPatternInvalid),
        },
{
    match glob_path_hits(pattern, paths) {
        Ok(hits) => Ok(hits),
        Err(_) => Err(BrainError::Invalid(Fault::GlobPatternInvalid)),
    }
}

/// The names whose hit flag is set, in order.
pub open spec fn matched(names: Seq<Seq<char>>, hits: Seq<bool>) -> Seq<Seq<char>>
    decreases names.len(),
{
    if names.len() == 0 || hits.len() < names.len() {
        Seq::empty()
    } else {
        let before = matched(names.drop_last(), hits.take(names.len() - 1));
        if hits[names.len() - 1] { before.push(names.last()) } else { before }
    }
}

/// The first `max` matched names, and whether more matched than that.
pub fn select_matches(names: &[String], hits: &[bool], max: usize) -> (r: (Vec<String>, bool))
    requires
        hits@.len() == names@.len(),
    ensures
        ({
            let all = matched(views(names@), hits@);
            &&& views(r.0@) == all.take(if all.len() <= max { all.len() as int } else { max as int })
            &&& r.1 == (all.len() > max)
        }),
{
    let mut out: Vec<String> = Vec::new();
    let mut i: usize = 0;
    let ghost n = views(names@);
    while i < names.len()
        invariant
            i <= names@.len(),
            hits@.len() == names@.len(),
            n == views(names@),
            out@.len() <= max,
            views(out@) == matched(n.take(i as int), hits@.take(i as int)),
        decreases names.len() - i,
    {
        proof {
            assert(n.take(i as int + 1).drop_last() =~= n.take(i as int));
            assert(hits@.take(i as int + 1).take(i as int) =~= hits@.take(i as int));
        }
        if hits[i] {
            if out.len() >= max {
                proof {
                    let all = matched(n, hits@);
                    lemma_matched_grows(n, hits@, i as int + 1);
                    assert(matched(n.take(i as int + 1), hits@.take(i as int + 1)) == views(out@).push(n[i as int]));
                    assert(all.take(max as int) =~= views(out@));
                }
                return (out, true);
            }
            let ghost before = views(out@);
            out.push(names[i].clone());
            assert(views(out@) =~= before.push(n[i as int]));
        }
        i = i + 1;
    }
    proof {
        assert(n.take(i as int) =~= n);
        assert(hits@.take(i as int) =~= hits@);
        assert(views(out@).take(views(out@).len() as int) =~= views(out@));
    }
    (out, false)
}

/// A prefix's matched names are a prefix of the whole's.
proof fn lemma_matched_grows(names: Seq<Seq<char>>, hits: Seq<bool>, k: int)
    requires
        0 <= k <= names.len(),
        hits.len() == names.len(),
    ensures
        matched(names, hits).len() >= matched(names.take(k), hits.take(k)).len(),
        matched(names, hits).take(matched(names.take(k), hits.take(k)).len() as int) == matched(names.take(k), hits.take(k)),
    decreases names.len() - k,
{
    if k == names.len() {
        assert(names.take(k) =~= names);
        assert(hits.take(k) =~= hits);
        assert(matched(names, hits).take(matched(names, hits).len() as int) =~= matched(names, hits));
    } else {
        lemma_matched_grows(names, hits, k + 1);
        let small = matched(names.take(k), hits.take(k));
        let big = matched(names.take(k + 1), hits.take(k + 1));
        assert(names.take(k + 1).drop_last() =~= names.take(k));
        assert(hits.take(k + 1).take(k) =~= hits.take(k));
        assert(big.take(small.len() as int) =~= small);
        assert(matched(names, hits).take(small.len() as int) =~= big.take(small.len() as int));
    }
}

/// One entry a directory walk found: its path below the workspace, its file name, and whether
/// it is a directory.
pub struct WalkEntry {
    pub rel: String,
    pub name: String,
    pub is_dir: bool,
}

/// Whether `ls` shows an entry: hidden names (a leading `.`) only when asked.
pub open spec fn shown(e: WalkEntry, hidden: bool) -> bool {
    hidden || !(e.name@.len() > 0 && e.name@[0] == '.')
}

/// How `ls` lists a shown entry: directories end with `/`.
pub open spec fn listed(e: WalkEntry) -> Seq<char> {
    if e.is_dir { e.rel@.push('/') } else { e.rel@ }
}

/// The listing of the shown entries, in walk order.
pub open spec fn ls_listing(entries: Seq<WalkEntry>, hidden: bool) -> Seq<Seq<char>>
    decreases entries.len(),
{
    if entries.len() == 0 {
        Seq::empty()
    } else {
        let before = ls_listing(entries.drop_last(), hidden);
        if shown(entries.last(), hidden) { before.push(listed(entries.last())) } else { before }
    }
}

/// The first `max` listed entries, and whether more were shown than that.
pub fn ls_entries(entries: &[WalkEntry], hidden: bool, max: usize) -> (r: (Vec<String>, bool))
    ensures
        ({
            let all = ls_listing(entries@, hidden);
            &&& views(r.0@) == all.take(if all.len() <= max { all.len() as int } else { max as int })
            &&& r.1 == (all.len() > max)
        }),
        !hidden ==> forall|k: int| 0 <= k < r.0@.len() ==> #[trigger] from_visible_entry(entries@, r.0@[k]@),
{
    let mut out: Vec<String> = Vec::new();
    let mut i: usize = 0;
    while i < entries.len()
        invariant
            i <= entries@.len(),
            out@.len() <= max,
            views(out@) == ls_listing(entries@.take(i as int), hidden),
        decreases entries.len() - i,
    {
        proof {
            assert(entries@.take(i as int + 1).drop_last() =~= entries@.take(i as int));
        }
        let e = &entries[i];
        let name = chars_of(e.name.as_str());
        let visible = hidden || !(name.len() > 0 && name[0] == '.');
        if visible {
            if out.len() >= max {
                proof {
                    lemma_listing_grows(entries@, hidden, i as int + 1);
                    assert(ls_listing(entries@, hidden).take(max as int) =~= views(out@));
                    if !hidden {
                        lemma_lines_visible(entries@, out@, max as int);
                    }
                }
                return (out, true);
            }
            let mut line = e.rel.clone();
            if e.is_dir {
                line.push('/');
            }
            let ghost before = views(out@);
            out.push(line);
            assert(views(out@) =~= before.push(listed(entries@[i as int])));
        }
        i = i + 1;
    }
    proof {
        assert(entries@.take(i as int) =~= entries@);
        assert(views(out@).take(views(out@).len() as int) =~= views(out@));
        if !hidden {
            lemma_lines_visible(entries@, out@, out@.len() as int);
        }
    }
    (out, false)
}

/// A prefix's listing is a prefix of the whole listing.
proof fn lemma_listing_grows(entries: Seq<WalkEntry>, hidden: bool, k: int)
    requires
        0 <= k <= entries.len(),
    ensures
        ls_listing(entries, hidden).len() >= ls_listing(entries.take(k), hidden).len(),
        ls_listing(entries, hidden).take(ls_listing(entries.take(k), hidden).len() as int) == ls_listing(entries.take(k), hidden),
    decreases entries.len() - k,
{
    if k == entries.len() {
        assert(entries.take(k) =~= entries);
        assert(ls_listing(entries, hidden).take(ls_listing(entries, hidden).len() as int) =~= ls_listing(entries, hidden));
    } else {
        lemma_listing_grows(entries, hidden, k + 1);
        let small = ls_listing(entries.take(k), hidden);
        let big = ls_listing(entries.take(k + 1), hidden);
        assert(entries.take(k + 1).drop_last() =~= entries.take(k));
        assert(big.take(small.len() as int) =~= small);
        assert(ls_listing(entries, hidden).take(small.len() as int) =~= big.take(small.len() as int));
    }
}

/// The UTF-8 length of some characters.
pub open spec fn utf8_len(chars: Seq<char>) -> int {
    encode_utf8(chars).len() as int
}

/// The encoding of two texts is the encoding of the first followed by that of the second.
proof fn lemma_encode_concat(a: Seq<char>, b: Seq<char>)
    ensures
        encode_utf8(a + b) == encode_utf8(a) + encode_utf8(b),
    decreases a.len(),
{
    if a.len() == 0 {
        assert(a + b =~= b);
        assert(encode_utf8(a) =~= Seq::<u8>::empty());
        assert(encode_utf8(a) + encode_utf8(b) =~= encode_utf8(b));
    } else {
        lemma_encode_concat(a.drop_first(), b);
        assert((a + b).drop_first() =~= a.drop_first() + b);
        assert((a + b)[0] == a[0]);
        assert(encode_utf8(a + b) =~= encode_utf8(a) + encode_utf8(b));
    }
}

/// The number of bytes a character takes in UTF-8.
fn char_width(c: char) -> (w: usize)
    ensures
        w == encode_scalar(c as u32).len(),
{
    proof {
        vstd::utf8::char_is_scalar(c);
    }
    let v = c as u32;
    if v <= 0x7F {
        1
    } else if v <= 0x7FF {
        2
    } else if v <= 0xFFFF {
        3
    } else {
        4
    }
}

/// Dropping the first `k` characters is the fewest that leaves at most `MAX_STREAM_BYTES`.
pub open spec fn fewest_dropped(all: Seq<char>, k: int) -> bool {
    &&& 0 <= k <= all.len()
    &&& utf8_len(all) - utf8_len(all.take(k)) <= MAX_STREAM_BYTES
    &&& forall|j: int| 0 <= j < k ==> utf8_len(all) - utf8_len(#[trigger] all.take(j)) > MAX_STREAM_BYTES
}

/// A bounded, tail-retained capture of one output stream: the end of the output is where
/// compilers and tests put the verdict. `elided` counts the bytes dropped from the front.
pub struct StreamBuf {
    pub tail: String,
    pub elided: usize,
}

impl StreamBuf {
    /// An empty capture.
    pub fn new() -> (r: StreamBuf)
        ensures
            r.tail@ == Seq::<char>::empty(),
            r.elided == 0,
    {
        StreamBuf { tail: String::new(), elided: 0 }
    }

    /// Append `text`; past `MAX_STREAM_BYTES`, drop the fewest leading characters that bring
    /// the tail back within the bound, and count their bytes.
    pub fn push(&mut self, text: &str)
        requires
            old(self).elided + utf8_len(old(self).tail@ + text@) <= usize::MAX,
        ensures
            utf8_len(final(self).tail@) <= MAX_STREAM_BYTES,
            final(self).elided + utf8_len(final(self).tail@) == old(self).elided + utf8_len(old(self).tail@ + text@),
            utf8_len(old(self).tail@ + text@) <= MAX_STREAM_BYTES ==> final(self).tail@ == old(self).tail@ + text@
                && final(self).elided == old(self).elided,
            utf8_len(old(self).tail@ + text@) > MAX_STREAM_BYTES ==> exists|k: int| {
                &&& #[trigger] fewest_dropped(old(self).tail@ + text@, k)
                &&& final(self).tail@ == (old(self).tail@ + text@).skip(k)
                &&& final(self).elided == old(self).elided + utf8_len((old(self).tail@ + text@).take(k))
                &&& utf8_len(final(self).tail@) <= MAX_STREAM_BYTES
            },
    {
        let ghost all = self.tail@ + text@;
        proof {
            lemma_encode_concat(self.tail@, text@);
        }
        let total = self.tail.as_str().len() + text.len();
        push_str_chars(&mut self.tail, text);
        if total <= MAX_STREAM_BYTES {
            return;
        }
        let chars = chars_of(self.tail.as_str());
        let cut = total - MAX_STREAM_BYTES;
        let mut k: usize = 0;
        let mut acc: usize = 0;
        while acc < cut
            invariant
                chars@ == all,
                total == utf8_len(all),
                cut == total - MAX_STREAM_BYTES,
                k <= chars@.len(),
                acc == utf8_len(all.take(k as int)),
                forall|j: int| 0 <= j < k ==> utf8_len(#[trigger] all.take(j)) < cut,
            decreases total - acc,
        {
            if k == chars.len() {
                assert(all.take(k as int) =~= all);
            }
            proof {
                lemma_encode_concat(all.take(k as int), seq![all[k as int]]);
                assert(all.take(k as int + 1) =~= all.take(k as int) + seq![all[k as int]]);
                assert(encode_utf8(seq![all[k as int]]) =~= encode_scalar(all[k as int] as u32) + encode_utf8(
                    seq![all[k as int]].drop_first(),
                ));
                assert(seq![all[k as int]].drop_first() =~= Seq::<char>::empty());
                lemma_encode_concat(all.take(k as int + 1), all.skip(k as int + 1));
                assert(all.take(k as int + 1) + all.skip(k as int + 1) =~= all);
            }
            acc = acc + char_width(chars[k]);
            k = k + 1;
        }
        let mut rest = String::new();
        let mut i: usize = k;
        while i < chars.len()
            invariant
                k <= i <= chars@.len(),
                rest@ == chars@.subrange(k as int, i as int),
            decreases chars.len() - i,
        {
            rest.push(chars[i]);
            proof {
                assert(chars@.subrange(k as int, i as int + 1) =~= chars@.subrange(k as int, i as int).push(chars@[i as int]));
            }
            i = i + 1;
        }
        proof {
            assert(rest@ =~= all.skip(k as int));
            lemma_encode_concat(all.take(k as int), all.skip(k as int));
            assert(all.take(k as int) + all.skip(k as int) =~= all);
            assert(fewest_dropped(all, k as int));
        }
        self.tail = rest;
        self.elided = self.elided + acc;
    }

    /// The capture as shown: the tail, after a note of how many bytes were dropped, if any were.
    pub fn render(&self) -> (r: String)
        ensures
            self.elided == 0 ==> r@ == self.tail@,
            self.elided > 0 ==> r@ == "[first "@ + decimal(self.elided as nat) + " bytes elided]\n"@ + self.tail@,
    {
        if self.elided > 0 {
            let mut s = String::new();
            push_str_chars(&mut s, "[first ");
            let n = decimal_text(self.elided as u64);
            push_str_chars(&mut s, n.as_str());
            push_str_chars(&mut s, " bytes elided]\n");
            push_str_chars(&mut s, self.tail.as_str());
            proof {
                assert(s@ =~= "[first "@ + decimal(self.elided as nat) + " bytes elided]\n"@ + self.tail@);
            }
            s
        } else {
            let mut s = String::new();
            push_str_chars(&mut s, self.tail.as_str());
            assert(s@ =~= self.tail@);
            s
        }
    }
}


/// Files larger than this are not searched.
pub const MAX_GREP_FILE_BYTES: u64 = 2 * 1024 * 1024;

/// Whether a file of `len` bytes is small enough to search.
pub fn grep_size_ok(len: u64) -> (r: bool)
    ensures
        r == (len <= MAX_GREP_FILE_BYTES),
{
    len <= MAX_GREP_FILE_BYTES
}

/// Whether file contents are text to search: no NUL byte anywhere.
pub fn grep_is_text(bytes: &[u8]) -> (r: bool)
    ensures
        r == !bytes@.contains(0u8),
{
    let mut i: usize = 0;
    while i < bytes.len()
        invariant
            i <= bytes@.len(),
            forall|k: int| 0 <= k < i ==> bytes@[k] != 0u8,
        decreases bytes.len() - i,
    {
        if bytes[i] == 0 {
            assert(bytes@[i as int] == 0u8);
            return false;
        }
        i = i + 1;
    }
    true
}


/// Whether a listing line is the path of a walked entry whose own file name does not start with
/// `.` (a directory's path with `/` after it).
pub open spec fn from_visible_entry(entries: Seq<WalkEntry>, line: Seq<char>) -> bool {
    exists|j: int|
        0 <= j < entries.len() && !(entries[j].name@.len() > 0 && entries[j].name@[0] == '.') && (line
            == entries[j].rel@ || line == entries[j].rel@.push('/'))
}

proof fn lemma_lines_visible(entries: Seq<WalkEntry>, out: Seq<String>, m: int)
    requires
        0 <= m <= ls_listing(entries, false).len(),
        views(out) == ls_listing(entries, false).take(m),
    ensures
        forall|k: int| 0 <= k < out.len() ==> #[trigger] from_visible_entry(entries, out[k]@),
{
    listings_skip_dot_files_unless_asked(entries);
    assert(views(out).len() == out.len());
    assert(ls_listing(entries, false).take(m).len() == m);
    assert forall|k: int| 0 <= k < out.len() implies #[trigger] from_visible_entry(entries, out[k]@) by {
        assert(views(out)[k] == out[k]@);
        assert(ls_listing(entries, false).take(m)[k] == ls_listing(entries, false)[k]);
    }
}

/// Hidden-file law: without `hidden`, every line of a listing is the path of a walked entry
/// whose own file name does not start with `.`; with `hidden`, every walked entry is listed, in
/// walk order, a directory with `/` after its path.
pub proof fn listings_skip_dot_files_unless_asked(entries: Seq<WalkEntry>)
    ensures
        forall|k: int| 0 <= k < ls_listing(entries, false).len() ==> #[trigger] from_visible_entry(
            entries,
            ls_listing(entries, false)[k],
        ),
        ls_listing(entries, true).len() == entries.len(),
        forall|j: int| 0 <= j < entries.len() ==> (#[trigger] ls_listing(entries, true)[j]) == (if entries[j].is_dir {
            entries[j].rel@.push('/')
        } else {
            entries[j].rel@
        }),
    decreases entries.len(),
{
    if entries.len() > 0 {
        let rest = entries.drop_last();
        listings_skip_dot_files_unless_asked(rest);
        let before = ls_listing(rest, false);
        assert forall|k: int| 0 <= k < ls_listing(entries, false).len() implies #[trigger] from_visible_entry(
            entries,
            ls_listing(entries, false)[k],
        ) by {
            if k < before.len() {
                assert(ls_listing(entries, false)[k] == before[k]);
                assert(from_visible_entry(rest, before[k]));
                let j = choose|j: int|
                    0 <= j < rest.len() && !(rest[j].name@.len() > 0 && rest[j].name@[0] == '.') && (before[k]
                        == rest[j].rel@ || before[k] == rest[j].rel@.push('/'));
                assert(rest[j] == entries[j]);
            } else {
                let j = entries.len() - 1;
                assert(entries[j] == entries.last());
            }
        }
        assert forall|j: int| 0 <= j < entries.len() implies (#[trigger] ls_listing(entries, true)[j]) == (if entries[j].is_dir {
            entries[j].rel@.push('/')
        } else {
            entries[j].rel@
        }) by {
            if j < rest.len() {
                assert(ls_listing(entries, true)[j] == ls_listing(rest, true)[j]);
                assert(rest[j] == entries[j]);
            }
        }
    }
}

} // verus!
