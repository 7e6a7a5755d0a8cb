//! Textual keys the stores sort and page by: zero-padded decimals so that lexicographic order is
//! numeric order, and the cursors built from them.

use vstd::prelude::*;
use crate::digest::{sha256, sha256_of};
use crate::error::{BrainError, Fault};
use crate::text::chars_of;
use vstd::string::StringSliceAdditionalSpecFns;

verus! {

/// The decimal digit character for `d`.
pub open spec fn digit_char(d: int) -> char {
    (48 + d) as char
}

/// `n` in decimal, zero-padded (or cut) to `width` digits.
pub open spec fn padded_decimal(n: nat, width: nat) -> Seq<char>
    decreases width,
{
    if width == 0 {
        Seq::empty()
    } else {
        padded_decimal(n / 10, (width - 1) as nat).push(digit_char((n % 10) as int))
    }
}

/// A string holding exactly the given characters.
pub fn string_from_chars(chars: &[char]) -> (s: String)
    ensures
        s@ == chars@,
{
    let mut s = String::new();
    let mut i: usize = 0;
    while i < chars.len()
        invariant
            i <= chars@.len(),
            s@ == chars@.subrange(0, i as int),
        decreases chars.len() - i,
    {
        s.push(chars[i]);
        i = i + 1;
        assert(s@ =~= chars@.subrange(0, i as int));
    }
    assert(chars@.subrange(0, chars@.len() as int) =~= chars@);
    s
}

/// Append the characters of `t` to `s`.
pub fn push_str_chars(s: &mut String, t: &str)
    ensures
        final(s)@ == old(s)@ + t@,
{
    let chars = chars_of(t);
    let ghost start = s@;
    let mut i: usize = 0;
    while i < chars.len()
        invariant
            i <= chars@.len(),
            chars@ == t@,
            s@ == start + chars@.subrange(0, i as int),
        decreases chars.len() - i,
    {
        s.push(chars[i]);
        i = i + 1;
        assert(s@ =~= start + chars@.subrange(0, i as int));
    }
    assert(chars@.subrange(0, chars@.len() as int) =~= chars@);
}

/// The twenty-digit zero-padded decimal of `n`; every `u64` fits.
pub fn decimal20(n: u64) -> (s: String)
    ensures
        s@ == padded_decimal(n as nat, 20),
{
    let mut digits: Vec<char> = Vec::new();
    let mut rest: u64 = n;
    let mut i: usize = 0;
    while i < 20
        invariant
            i <= 20,
            digits@.len() == i,
            padded_decimal(n as nat, 20) == padded_decimal(rest as nat, (20 - i) as nat) + digits@,
        decreases 20 - i,
    {
        let d = (rest % 10) as u8;
        let c = (48u8 + d) as char;
        proof {
            let w = (20 - i) as nat;
            assert(padded_decimal(rest as nat, w) == padded_decimal((rest / 10) as nat, (w - 1) as nat).push(
                digit_char((rest % 10) as int),
            ));
            assert(c == digit_char((rest % 10) as int));
        }
        digits.insert(0, c);
        proof {
            let w = (20 - i) as nat;
            assert(padded_decimal((rest / 10) as nat, (w - 1) as nat).push(c) + digits@.drop_first()
                =~= padded_decimal((rest / 10) as nat, (w - 1) as nat) + digits@);
        }
        rest = rest / 10;
        i = i + 1;
    }
    assert(padded_decimal(rest as nat, 0) =~= Seq::<char>::empty());
    assert(Seq::<char>::empty() + digits@ =~= digits@);
    string_from_chars(digits.as_slice())
}

/// Key shape shared by every backend that keys records textually: zero-padded so that
/// lexicographic order is numeric order (`E#10` must not sort before `E#9`).
pub fn record_sk(seq: u64) -> (s: String)
    ensures
        s@ == seq!['E', '#'] + padded_decimal(seq as nat, 20),
{
    let mut s = String::new();
    s.push('E');
    s.push('#');
    let digits = decimal20(seq);
    push_str_chars(&mut s, digits.as_str());
    assert(s@ =~= seq!['E', '#'] + padded_decimal(seq as nat, 20));
    s
}

pub fn session_pk(session_id: &str) -> (s: String)
    ensures
        s@ == seq!['S', '#'] + session_id@,
{
    let mut s = String::new();
    s.push('S');
    s.push('#');
    push_str_chars(&mut s, session_id);
    assert(s@ =~= seq!['S', '#'] + session_id@);
    s
}

/// The recovery-index key: due time first, so that key order is due order.
pub fn recovery_due_key(due_ms: u64, session_id: &str) -> (s: String)
    ensures
        s@ == padded_decimal(due_ms as nat, 20) + seq!['#'] + session_id@,
{
    let mut s = decimal20(due_ms);
    s.push('#');
    push_str_chars(&mut s, session_id);
    s
}

/// Sort key shared by production stores. Reversing the millisecond timestamp makes the normal
/// ascending index traversal return newest sessions first without an in-memory sort.
pub fn tenant_session_sort_key(updated_ms: u64, session_id: &str) -> (s: String)
    ensures
        s@ == padded_decimal((u64::MAX - updated_ms) as nat, 20) + seq!['#'] + session_id@,
{
    let mut s = decimal20(u64::MAX - updated_ms);
    s.push('#');
    push_str_chars(&mut s, session_id);
    s
}

pub open spec fn is_digit(c: char) -> bool {
    '0' <= c <= '9'
}

/// What a session-list cursor names: the session id after the first `#`, provided the stamp
/// before it is twenty ASCII digits and the id is not empty.
pub open spec fn cursor_session_id(cursor: Seq<char>) -> Option<Seq<char>> {
    if exists|i: int| 0 <= i < cursor.len() && cursor[i] == '#' {
        let i = choose|i: int|
            0 <= i < cursor.len() && cursor[i] == '#' && forall|j: int| 0 <= j < i ==> cursor[j] != '#';
        let stamp = cursor.subrange(0, i);
        let id = cursor.subrange(i + 1, cursor.len() as int);
        if stamp.len() == 20 && (forall|j: int| 0 <= j < 20 ==> is_digit(#[trigger] stamp[j]))
            && id.len() > 0 {
            Some(id)
        } else {
            None
        }
    } else {
        None
    }
}

/// The first `#` of a sequence that has one.
proof fn lemma_first_hash(cursor: Seq<char>, i: int)
    requires
        0 <= i < cursor.len(),
        cursor[i] == '#',
        forall|j: int| 0 <= j < i ==> cursor[j] != '#',
    ensures
        (choose|k: int|
            0 <= k < cursor.len() && cursor[k] == '#' && forall|j: int| 0 <= j < k ==> cursor[j]
                != '#') == i,
{
    let k = choose|k: int|
        0 <= k < cursor.len() && cursor[k] == '#' && forall|j: int| 0 <= j < k ==> cursor[j] != '#';
    assert(0 <= k < cursor.len() && cursor[k] == '#' && forall|j: int| 0 <= j < k ==> cursor[j]
        != '#');
    if k < i {
        assert(cursor[k] != '#');
    } else if k > i {
        assert(cursor[i] != '#');
    }
}

/// The session id a list cursor resumes after.
pub fn session_id_from_list_cursor(cursor: &str) -> (r: Result<String, BrainError>)
    ensures
        match r {
            Ok(id) => cursor_session_id(cursor@) == Some(id@),
            Err(e) => cursor_session_id(cursor@) is None && e == BrainError::Invalid(
                Fault::SessionListCursorMalformed,
            ),
        },
{
    let chars = chars_of(cursor);
    let mut i: usize = 0;
    while i < chars.len()
        invariant
            chars@ == cursor@,
            i <= chars@.len(),
            forall|j: int| 0 <= j < i ==> chars@[j] != '#',
        ensures
            i <= chars@.len(),
            forall|j: int| 0 <= j < i ==> chars@[j] != '#',
            i == chars@.len() || chars@[i as int] == '#',
        decreases chars.len() - i,
    {
        if chars[i] == '#' {
            break;
        }
        i = i + 1;
    }
    if i == chars.len() {
        proof {
            assert(!exists|k: int| 0 <= k < cursor@.len() && cursor@[k] == '#');
        }
        return Err(BrainError::Invalid(Fault::SessionListCursorMalformed));
    }
    proof {
        lemma_first_hash(cursor@, i as int);
    }
    if i != 20 || i + 1 == chars.len() {
        return Err(BrainError::Invalid(Fault::SessionListCursorMalformed));
    }
    let mut k: usize = 0;
    while k < 20
        invariant
            chars@ == cursor@,
            i == 20,
            20 < chars@.len(),
            k <= 20,
            forall|j: int| 0 <= j < k ==> is_digit(chars@[j]),
            cursor@[20] == '#',
            forall|j: int| 0 <= j < 20 ==> cursor@[j] != '#',
        decreases 20 - k,
    {
        if !('0' <= chars[k] && chars[k] <= '9') {
            proof {
                lemma_first_hash(cursor@, 20);
                assert(!is_digit(cursor@.subrange(0, 20)[k as int]));
            }
            return Err(BrainError::Invalid(Fault::SessionListCursorMalformed));
        }
        k = k + 1;
    }
    let id = string_from_chars(vstd::slice::slice_subrange(chars.as_slice(), 21, chars.len()));
    proof {
        assert forall|j: int| 0 <= j < 20 implies is_digit(#[trigger] cursor@.subrange(0, 20)[j]) by {
            assert(cursor@.subrange(0, 20)[j] == chars@[j]);
        }
    }
    Ok(id)
}

/// The recovery shard a session's due-time row lives in.
pub open spec fn shard_of(session_id: Seq<u8>) -> Seq<char> {
    let low = (sha256_of(session_id)[0] % 16) as int;
    seq!['r', '0', if low < 10 { digit_char(low) } else { (87 + low) as char }]
}

pub const RECOVERY_SHARDS: usize = 16;

/// `r` followed by the first digest byte modulo the shard count, as two lowercase hex digits.
pub fn recovery_shard(session_id: &str) -> (s: String)
    ensures
        s@ == shard_of(session_id.spec_bytes()),
{
    let digest = sha256(session_id.as_bytes());
    let low = digest[0] % 16;
    let c = if low < 10 { (48u8 + low) as char } else { (87u8 + low) as char };
    let mut s = String::new();
    s.push('r');
    s.push('0');
    s.push(c);
    assert(s@ =~= shard_of(session_id.spec_bytes()));
    s
}

/// Lexicographic order on character sequences, as `String` comparison orders ASCII keys.
pub open spec fn lex_lt(a: Seq<char>, b: Seq<char>) -> bool {
    ||| exists|i: int|
        0 <= i < a.len() && i < b.len() && a.subrange(0, i) == b.subrange(0, i) && (a[i] as u32) < (
        b[i] as u32)
    ||| (a.len() < b.len() && a == b.subrange(0, a.len() as int))
}

pub open spec fn pow10(w: nat) -> nat
    decreases w,
{
    if w == 0 {
        1
    } else {
        10 * pow10((w - 1) as nat)
    }
}

pub proof fn lemma_padded_len(n: nat, w: nat)
    ensures
        padded_decimal(n, w).len() == w,
    decreases w,
{
    if w > 0 {
        lemma_padded_len(n / 10, (w - 1) as nat);
    }
}

proof fn lemma_padded_order(a: nat, b: nat, w: nat)
    requires
        a < b < pow10(w),
    ensures
        exists|i: int|
            0 <= i < w && padded_decimal(a, w).subrange(0, i) == padded_decimal(b, w).subrange(0, i)
                && (padded_decimal(a, w)[i] as u32) < (padded_decimal(b, w)[i] as u32),
    decreases w,
{
    lemma_padded_len(a, w);
    lemma_padded_len(b, w);
    let pa = padded_decimal(a, w);
    let pb = padded_decimal(b, w);
    if w == 0 {
        assert(false);
    } else {
        let w1 = (w - 1) as nat;
        let qa = padded_decimal(a / 10, w1);
        let qb = padded_decimal(b / 10, w1);
        lemma_padded_len(a / 10, w1);
        lemma_padded_len(b / 10, w1);
        assert(pa == qa.push(digit_char((a % 10) as int)));
        assert(pb == qb.push(digit_char((b % 10) as int)));
        if a / 10 < b / 10 {
            lemma_padded_order(a / 10, b / 10, w1);
            let i = choose|i: int|
                0 <= i < w1 && qa.subrange(0, i) == qb.subrange(0, i) && (qa[i] as u32) < (
                qb[i] as u32);
            assert(pa.subrange(0, i) =~= qa.subrange(0, i));
            assert(pb.subrange(0, i) =~= qb.subrange(0, i));
            assert(pa[i] == qa[i] && pb[i] == qb[i]);
        } else {
            assert(a / 10 == b / 10);
            assert(a % 10 < b % 10);
            assert(pa.subrange(0, w1 as int) =~= qa);
            assert(pb.subrange(0, w1 as int) =~= qb);
            assert((digit_char((a % 10) as int) as u32) < (digit_char((b % 10) as int) as u32));
            assert(pa[w1 as int] == digit_char((a % 10) as int));
        }
    }
}

/// Record keys sort numerically: a smaller sequence number always has the smaller key.
pub proof fn record_keys_sort_numerically(a: u64, b: u64)
    requires
        a < b,
    ensures
        lex_lt(
            seq!['E', '#'] + padded_decimal(a as nat, 20),
            seq!['E', '#'] + padded_decimal(b as nat, 20),
        ),
{
    reveal_with_fuel(pow10, 21);
    assert(pow10(20) == 100000000000000000000nat);
    lemma_padded_order(a as nat, b as nat, 20);
    lemma_padded_len(a as nat, 20);
    lemma_padded_len(b as nat, 20);
    let pa = padded_decimal(a as nat, 20);
    let pb = padded_decimal(b as nat, 20);
    let i = choose|i: int|
        0 <= i < 20 && pa.subrange(0, i) == pb.subrange(0, i) && (pa[i] as u32) < (pb[i] as u32);
    let ka = seq!['E', '#'] + pa;
    let kb = seq!['E', '#'] + pb;
    assert(ka.subrange(0, i + 2) =~= seq!['E', '#'] + pa.subrange(0, i));
    assert(kb.subrange(0, i + 2) =~= seq!['E', '#'] + pb.subrange(0, i));
    assert(ka[i + 2] == pa[i] && kb[i + 2] == pb[i]);
}

/// Session-list cursor round trip: the cursor a listing hands out for a session names that
/// session again, whatever its id holds.
pub proof fn list_cursor_names_its_session(updated_ms: u64, session_id: Seq<char>)
    requires
        session_id.len() > 0,
    ensures
        cursor_session_id(padded_decimal((u64::MAX - updated_ms) as nat, 20) + seq!['#'] + session_id)
            == Some(session_id),
{
    let stamp = padded_decimal((u64::MAX - updated_ms) as nat, 20);
    let cursor = stamp + seq!['#'] + session_id;
    lemma_padded_len((u64::MAX - updated_ms) as nat, 20);
    lemma_padded_digits((u64::MAX - updated_ms) as nat, 20);
    assert(cursor[20] == '#');
    assert forall|j: int| 0 <= j < 20 implies cursor[j] != '#' by {
        assert(cursor[j] == stamp[j]);
        assert(is_digit(stamp[j]));
    }
    lemma_first_hash(cursor, 20);
    assert(cursor.subrange(0, 20) =~= stamp);
    assert(cursor.subrange(21, cursor.len() as int) =~= session_id);
}

proof fn lemma_padded_digits(n: nat, w: nat)
    ensures
        forall|j: int| 0 <= j < w ==> is_digit(#[trigger] padded_decimal(n, w)[j]),
    decreases w,
{
    lemma_padded_len(n, w);
    if w > 0 {
        lemma_padded_digits(n / 10, (w - 1) as nat);
        lemma_padded_len(n / 10, (w - 1) as nat);
        assert forall|j: int| 0 <= j < w implies is_digit(#[trigger] padded_decimal(n, w)[j]) by {
            if j < w - 1 {
                assert(padded_decimal(n, w)[j] == padded_decimal(n / 10, (w - 1) as nat)[j]);
            }
        }
    }
}

/// The extension of segment files.
pub const SEGMENT_EXTENSION: &'static str = "segment";

/// A segment's file name: its id as twenty digits, then `.segment`.
pub fn segment_file_name(id: u64) -> (s: String)
    ensures
        s@ == padded_decimal(id as nat, 20) + seq!['.'] + "segment"@,
{
    let mut s = decimal20(id);
    s.push('.');
    push_str_chars(&mut s, SEGMENT_EXTENSION);
    s
}

/// The value of a run of decimal digits.
pub open spec fn decimal_value(s: Seq<char>) -> nat
    decreases s.len(),
{
    if s.len() == 0 {
        0
    } else {
        decimal_value(s.drop_last()) * 10 + ((s.last() as u32) - 48) as nat
    }
}

/// What `u64::from_str` accepts: an optional `+`, then at least one ASCII digit, with a value
/// that fits.
pub open spec fn unsigned_digits(s: Seq<char>) -> Seq<char> {
    if s.len() > 0 && s[0] == '+' { s.drop_first() } else { s }
}

pub open spec fn parse_u64_spec(s: Seq<char>) -> Option<u64> {
    let digits = unsigned_digits(s);
    if digits.len() > 0 && (forall|j: int| 0 <= j < digits.len() ==> is_digit(#[trigger] digits[j]))
        && decimal_value(digits) <= u64::MAX {
        Some(decimal_value(digits) as u64)
    } else {
        None
    }
}

proof fn lemma_decimal_value_prefix(s: Seq<char>, i: int)
    requires
        0 < i <= s.len(),
    ensures
        decimal_value(s.subrange(0, i)) == decimal_value(s.subrange(0, i - 1)) * 10 + ((s[i - 1] as u32) - 48) as nat,
{
    assert(s.subrange(0, i).drop_last() =~= s.subrange(0, i - 1));
}

proof fn lemma_decimal_value_monotone(s: Seq<char>, i: int, j: int)
    requires
        0 <= i <= j <= s.len(),
        forall|k: int| 0 <= k < s.len() ==> is_digit(#[trigger] s[k]),
    ensures
        decimal_value(s.subrange(0, i)) <= decimal_value(s.subrange(0, j)),
    decreases j - i,
{
    if i < j {
        lemma_decimal_value_monotone(s, i, j - 1);
        lemma_decimal_value_prefix(s, j);
    }
}

/// Parse a `u64` exactly as `u64::from_str` does.
pub fn parse_u64(text: &str) -> (r: Option<u64>)
    ensures
        r == parse_u64_spec(text@),
{
    let chars = chars_of(text);
    let start: usize = if chars.len() > 0 && chars[0] == '+' { 1 } else { 0 };
    let ghost digits = unsigned_digits(text@);
    assert(digits =~= chars@.subrange(start as int, chars@.len() as int));
    if start == chars.len() {
        return None;
    }
    let mut value: u64 = 0;
    let mut i: usize = start;
    while i < chars.len()
        invariant
            chars@ == text@,
            start <= i <= chars@.len(),
            digits == chars@.subrange(start as int, chars@.len() as int),
            digits == unsigned_digits(text@),
            forall|k: int| start <= k < i ==> is_digit(#[trigger] chars@[k]),
            value == decimal_value(chars@.subrange(start as int, i as int)),
        decreases chars.len() - i,
    {
        let c = chars[i];
        if !('0' <= c && c <= '9') {
            proof {
                assert(digits[i - start] == chars@[i as int]);
                assert(!is_digit(digits[i - start]));
                assert(!(forall|j: int| 0 <= j < digits.len() ==> is_digit(#[trigger] digits[j])));
                assert(parse_u64_spec(text@) is None);
            }
            return None;
        }
        let d = (c as u32 - 48) as u64;
        proof {
            lemma_decimal_value_prefix(chars@.subrange(start as int, chars@.len() as int), i - start + 1);
            assert(chars@.subrange(start as int, chars@.len() as int).subrange(0, i - start + 1)
                =~= chars@.subrange(start as int, i + 1));
            assert(chars@.subrange(start as int, chars@.len() as int).subrange(0, i - start)
                =~= chars@.subrange(start as int, i as int));
        }
        if value > (u64::MAX - d) / 10 {
            proof {
                let rest = chars@.subrange(start as int, chars@.len() as int);
                assert(decimal_value(chars@.subrange(start as int, i + 1)) > u64::MAX) by (nonlinear_arith)
                    requires
                        value > (u64::MAX - d) / 10,
                        decimal_value(chars@.subrange(start as int, i + 1)) == value * 10 + d,
                        d <= 9,
                ;
                if forall|j: int| 0 <= j < digits.len() ==> is_digit(#[trigger] digits[j]) {
                    assert forall|q: int| 0 <= q < rest.len() implies is_digit(#[trigger] rest[q]) by {
                        assert(rest[q] == digits[q]);
                    }
                    lemma_decimal_value_monotone(rest, i - start + 1, rest.len() as int);
                    assert(rest.subrange(0, i - start + 1) =~= chars@.subrange(start as int, i + 1));
                    assert(rest.subrange(0, rest.len() as int) =~= rest);
                }
            }
            return None;
        }
        value = value * 10 + d;
        i = i + 1;
    }
    proof {
        assert(chars@.subrange(start as int, chars@.len() as int) == digits);
        assert forall|j: int| 0 <= j < digits.len() implies is_digit(#[trigger] digits[j]) by {
            assert(digits[j] == chars@[j + start]);
        }
    }
    Some(value)
}

/// The index of the last `.` in `s`, or `-1`.
pub open spec fn last_dot(s: Seq<char>) -> int
    decreases s.len(),
{
    if s.len() == 0 {
        -1
    } else if s.last() == '.' {
        s.len() - 1
    } else {
        last_dot(s.drop_last())
    }
}

/// The segment id a file name carries: a name with an extension (a last `.` that is not its
/// first character) equal to `segment`, and a stem that parses as a `u64`.
pub open spec fn segment_id_spec(name: Seq<char>) -> Option<u64> {
    let k = last_dot(name);
    if k <= 0 {
        None
    } else if name.subrange(k + 1, name.len() as int) != "segment"@ {
        None
    } else {
        parse_u64_spec(name.subrange(0, k))
    }
}

/// The segment id of a directory entry named `file_name`, if it is a segment file.
pub fn segment_id(file_name: &str) -> (r: Option<u64>)
    ensures
        r == segment_id_spec(file_name@),
{
    let chars = chars_of(file_name);
    let mut k: usize = chars.len();
    proof {
        assert(chars@.subrange(0, chars@.len() as int) =~= chars@);
    }
    while k > 0
        invariant
            chars@ == file_name@,
            k <= chars@.len(),
            last_dot(file_name@) == last_dot(chars@.subrange(0, k as int)),
        ensures
            chars@ == file_name@,
            k <= chars@.len(),
            last_dot(file_name@) == last_dot(chars@.subrange(0, k as int)),
            k == 0 || chars@[k - 1] == '.',
        decreases k,
    {
        if chars[k - 1] == '.' {
            break;
        }
        proof {
            assert(chars@.subrange(0, k as int).drop_last() =~= chars@.subrange(0, k - 1));
        }
        k = k - 1;
    }
    proof {
        if k > 0 {
            assert(chars@.subrange(0, k as int).last() == '.');
        }
    }
    if k <= 1 {
        return None;
    }
    let dot = k - 1;
    let extension = string_from_chars(vstd::slice::slice_subrange(chars.as_slice(), dot + 1, chars.len()));
    if !crate::text::str_eq(extension.as_str(), SEGMENT_EXTENSION) {
        return None;
    }
    let stem = string_from_chars(vstd::slice::slice_subrange(chars.as_slice(), 0, dot));
    proof {
        reveal_strlit("segment");
    }
    parse_u64(stem.as_str())
}


/// A shared prefix does not change the order of two texts.
proof fn lemma_common_prefix(p: Seq<char>, x: Seq<char>, y: Seq<char>)
    ensures
        lex_lt(p + x, p + y) == lex_lt(x, y),
{
    let n = p.len() as int;
    let a = p + x;
    let b = p + y;
    if lex_lt(x, y) {
        if exists|i: int| 0 <= i < x.len() && i < y.len() && x.subrange(0, i) == y.subrange(0, i) && (x[i] as u32) < (y[i] as u32) {
            let i = choose|i: int| 0 <= i < x.len() && i < y.len() && x.subrange(0, i) == y.subrange(0, i) && (x[i] as u32) < (y[i] as u32);
            assert(a.subrange(0, n + i) =~= p + x.subrange(0, i));
            assert(b.subrange(0, n + i) =~= p + y.subrange(0, i));
            assert(a[n + i] == x[i] && b[n + i] == y[i]);
        } else {
            assert(a =~= b.subrange(0, a.len() as int)) by {
                assert forall|k: int| 0 <= k < a.len() implies a[k] == b.subrange(0, a.len() as int)[k] by {
                    if k >= n {
                        assert(x[k - n] == y.subrange(0, x.len() as int)[k - n]);
                    }
                }
            }
        }
    }
    if lex_lt(a, b) {
        if exists|j: int| 0 <= j < a.len() && j < b.len() && a.subrange(0, j) == b.subrange(0, j) && (a[j] as u32) < (b[j] as u32) {
            let j = choose|j: int| 0 <= j < a.len() && j < b.len() && a.subrange(0, j) == b.subrange(0, j) && (a[j] as u32) < (b[j] as u32);
            assert(j >= n) by {
                if j < n {
                    assert(a[j] == p[j] && b[j] == p[j]);
                }
            }
            let i = j - n;
            assert(x.subrange(0, i) =~= y.subrange(0, i)) by {
                assert forall|k: int| 0 <= k < i implies x.subrange(0, i)[k] == y.subrange(0, i)[k] by {
                    assert(a.subrange(0, j)[n + k] == a[n + k]);
                    assert(b.subrange(0, j)[n + k] == b[n + k]);
                }
            }
            assert(a[j] == x[i] && b[j] == y[i]);
        } else {
            assert(x =~= y.subrange(0, x.len() as int)) by {
                assert forall|k: int| 0 <= k < x.len() implies x[k] == y.subrange(0, x.len() as int)[k] by {
                    assert(a[n + k] == b.subrange(0, a.len() as int)[n + k]);
                }
            }
        }
    }
}

/// Keys of the form `stamp#id` with a smaller twenty-digit stamp sort first.
proof fn lemma_stamped_order(a: nat, s1: Seq<char>, b: nat, s2: Seq<char>)
    requires
        a < b < pow10(20),
    ensures
        lex_lt(padded_decimal(a, 20) + seq!['#'] + s1, padded_decimal(b, 20) + seq!['#'] + s2),
{
    lemma_padded_order(a, b, 20);
    lemma_padded_len(a, 20);
    lemma_padded_len(b, 20);
    let pa = padded_decimal(a, 20);
    let pb = padded_decimal(b, 20);
    let i = choose|i: int|
        0 <= i < 20 && pa.subrange(0, i) == pb.subrange(0, i) && (pa[i] as u32) < (pb[i] as u32);
    let ka = pa + seq!['#'] + s1;
    let kb = pb + seq!['#'] + s2;
    assert(ka.subrange(0, i) =~= pa.subrange(0, i));
    assert(kb.subrange(0, i) =~= pb.subrange(0, i));
    assert(ka[i] == pa[i] && kb[i] == pb[i]);
}

/// Recovery-index keys sort by due time, then by session id: key order is due order.
pub proof fn recovery_keys_sort_by_due_then_id(d1: u64, s1: Seq<char>, d2: u64, s2: Seq<char>)
    ensures
        d1 < d2 ==> lex_lt(padded_decimal(d1 as nat, 20) + seq!['#'] + s1, padded_decimal(d2 as nat, 20) + seq!['#'] + s2),
        d1 == d2 ==> (lex_lt(padded_decimal(d1 as nat, 20) + seq!['#'] + s1, padded_decimal(d2 as nat, 20) + seq!['#'] + s2)
            <==> lex_lt(s1, s2)),
{
    reveal_with_fuel(pow10, 21);
    assert(pow10(20) == 100000000000000000000nat);
    if d1 < d2 {
        lemma_stamped_order(d1 as nat, s1, d2 as nat, s2);
    }
    if d1 == d2 {
        let p = padded_decimal(d1 as nat, 20) + seq!['#'];
        lemma_common_prefix(p, s1, s2);
        assert(p + s1 =~= padded_decimal(d1 as nat, 20) + seq!['#'] + s1);
        assert(p + s2 =~= padded_decimal(d2 as nat, 20) + seq!['#'] + s2);
    }
}

/// Tenant listing keys sort newest first: a later update time has the smaller key, and equal
/// times sort by session id.
pub proof fn tenant_keys_sort_newest_first(u1: u64, s1: Seq<char>, u2: u64, s2: Seq<char>)
    ensures
        u1 > u2 ==> lex_lt(
            padded_decimal((u64::MAX - u1) as nat, 20) + seq!['#'] + s1,
            padded_decimal((u64::MAX - u2) as nat, 20) + seq!['#'] + s2,
        ),
        u1 == u2 ==> (lex_lt(
            padded_decimal((u64::MAX - u1) as nat, 20) + seq!['#'] + s1,
            padded_decimal((u64::MAX - u2) as nat, 20) + seq!['#'] + s2,
        ) <==> lex_lt(s1, s2)),
{
    recovery_keys_sort_by_due_then_id((u64::MAX - u1) as u64, s1, (u64::MAX - u2) as u64, s2);
}

} // verus!
