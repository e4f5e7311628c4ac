//! Java class names: derived from a display name, and validated.
use vstd::prelude::*;
use crate::text::{from_chars, is_whitespace, to_chars, white_space};

verus! {

/// Whether `c` is alphabetic or numeric in Unicode's sense.
pub uninterp spec fn alphanumeric(c: char) -> bool;

/// Relies on `char::is_alphanumeric`: the answer depends on the character
/// alone.
#[verifier::external_body]
fn is_alphanumeric(c: char) -> (r: bool)
    ensures
        r == alphanumeric(c),
{
    c.is_alphanumeric()
}

/// Whether `c` is an ASCII letter.
pub open spec fn ascii_alpha(c: char) -> bool {
    ('a' <= c && c <= 'z') || ('A' <= c && c <= 'Z')
}

/// Whether `c` may stand in a Java class name.
pub open spec fn in_class_name(c: char) -> bool {
    ascii_alpha(c) || ('0' <= c && c <= '9') || c == '_'
}

/// `c` in ASCII upper case; other characters are unchanged.
pub open spec fn ascii_upper(c: char) -> char {
    if 'a' <= c && c <= 'z' {
        ((c as u8) - 32) as char
    } else {
        c
    }
}

fn is_ascii_letter(c: char) -> (r: bool)
    ensures
        r == ascii_alpha(c),
{
    ('a' <= c && c <= 'z') || ('A' <= c && c <= 'Z')
}

fn is_class_char(c: char) -> (r: bool)
    ensures
        r == in_class_name(c),
{
    ('a' <= c && c <= 'z') || ('A' <= c && c <= 'Z') || ('0' <= c && c <= '9') || c == '_'
}

fn to_ascii_upper(c: char) -> (r: char)
    ensures
        r == ascii_upper(c),
{
    if 'a' <= c && c <= 'z' {
        ((c as u8) - 32) as char
    } else {
        c
    }
}


/// `s` without leading white space.
pub open spec fn trim_start(s: Seq<char>) -> Seq<char>
    decreases s.len(),
{
    if s.len() > 0 && white_space(s[0]) {
        trim_start(s.drop_first())
    } else {
        s
    }
}

/// `s` without trailing white space.
pub open spec fn trim_end(s: Seq<char>) -> Seq<char>
    decreases s.len(),
{
    if s.len() > 0 && white_space(s.last()) {
        trim_end(s.drop_last())
    } else {
        s
    }
}

/// `s` without leading and trailing white space, as `str::trim` gives it.
pub open spec fn trimmed(s: Seq<char>) -> Seq<char> {
    trim_end(trim_start(s))
}

fn trim_chars(v: &Vec<char>) -> (r: Vec<char>)
    ensures
        r@ == trimmed(v@),
{
    let n = v.len();
    let mut a: usize = 0;
    assert(v@.subrange(0, n as int) =~= v@);
    while a < n && is_whitespace(v[a])
        invariant
            n == v@.len(),
            a <= n,
            trim_start(v@.subrange(a as int, n as int)) == trim_start(v@),
        decreases n - a,
    {
        assert(v@.subrange(a as int, n as int).drop_first() =~= v@.subrange(a + 1, n as int));
        a = a + 1;
    }
    let ghost start = v@.subrange(a as int, n as int);
    assert(trim_start(start) == start);
    let mut b: usize = n;
    assert(v@.subrange(a as int, b as int) =~= start);
    while b > a && is_whitespace(v[b - 1])
        invariant
            n == v@.len(),
            a <= b <= n,
            start == v@.subrange(a as int, n as int),
            trim_end(v@.subrange(a as int, b as int)) == trim_end(start),
        decreases b,
    {
        assert(v@.subrange(a as int, b as int).drop_last() =~= v@.subrange(a as int, b - 1));
        b = b - 1;
    }
    let mut out: Vec<char> = Vec::new();
    let mut i: usize = a;
    while i < b
        invariant
            a <= i <= b <= n,
            n == v@.len(),
            out@ == v@.subrange(a as int, i as int),
        decreases b - i,
    {
        out.push(v[i]);
        assert(v@.subrange(a as int, i + 1) =~= v@.subrange(a as int, i as int).push(v@[i as int]));
        i = i + 1;
    }
    out
}

/// The state of the class-name sanitizer: the output so far, whether the
/// previous character was kept, and whether the output has started.
pub struct SanitizeState {
    pub out: Seq<char>,
    pub prev_allowed: bool,
    pub started: bool,
}

/// The effect of one character on the sanitizer.
pub open spec fn sanitize_step(st: SanitizeState, c: char) -> SanitizeState {
    if !(alphanumeric(c) || c == '_') {
        SanitizeState { prev_allowed: false, ..st }
    } else if !st.started {
        if ascii_alpha(c) {
            SanitizeState { out: st.out.push(ascii_upper(c)), prev_allowed: true, started: true }
        } else {
            st
        }
    } else {
        let d = if !st.prev_allowed && ascii_alpha(c) {
            ascii_upper(c)
        } else {
            c
        };
        SanitizeState { out: st.out.push(d), prev_allowed: true, started: true }
    }
}

/// The sanitizer's state after a sequence of characters.
pub open spec fn sanitize_fold(cs: Seq<char>) -> SanitizeState
    decreases cs.len(),
{
    if cs.len() == 0 {
        SanitizeState { out: seq![], prev_allowed: false, started: false }
    } else {
        sanitize_step(sanitize_fold(cs.drop_last()), cs.last())
    }
}

/// The class name derived from a display name.
pub open spec fn class_name_of(s: Seq<char>) -> Seq<char> {
    sanitize_fold(trimmed(s)).out
}

/// Derives a Java class name from a display name: the name is trimmed,
/// characters that are neither alphanumeric nor `_` are dropped, the output
/// starts at the first ASCII letter, and a letter that follows dropped
/// characters is upper-cased ("my mod name" gives "MyModName").
pub fn sanitize_class_name(s: &str) -> (r: String)
    ensures
        r@ == class_name_of(s@),
{
    let chars = to_chars(s);
    let cs = trim_chars(&chars);
    let mut result: Vec<char> = Vec::new();
    let mut prev_allowed = false;
    let mut started = false;
    let mut i: usize = 0;
    assert(cs@.subrange(0, 0) =~= Seq::<char>::empty());
    while i < cs.len()
        invariant
            i <= cs@.len(),
            sanitize_fold(cs@.subrange(0, i as int)) == (SanitizeState {
                out: result@,
                prev_allowed,
                started,
            }),
        decreases cs@.len() - i,
    {
        let c = cs[i];
        assert(cs@.subrange(0, i + 1).drop_last() =~= cs@.subrange(0, i as int));
        i = i + 1;
        if !(is_alphanumeric(c) || c == '_') {
            prev_allowed = false;
            continue;
        }
        if !started {
            if is_ascii_letter(c) {
                result.push(to_ascii_upper(c));
                started = true;
                prev_allowed = true;
            }
            continue;
        }
        let d = if !prev_allowed && is_ascii_letter(c) {
            to_ascii_upper(c)
        } else {
            c
        };
        result.push(d);
        prev_allowed = true;
    }
    assert(cs@.subrange(0, cs@.len() as int) =~= cs@);
    from_chars(&result)
}

/// Why a string is not a valid Java class name.
#[derive(PartialEq, Eq, Debug, Clone, Copy, Structural)]
pub enum ClassNameError {
    /// The name is empty.
    Empty,
    /// The first character is not an ASCII letter.
    InvalidStart(char),
    /// The first character, after the first, outside `[A-Za-z0-9_]`.
    InvalidCharacter(char),
}

/// Number of leading characters of `s` allowed in a class name.
pub open spec fn class_prefix_len(s: Seq<char>) -> int
    decreases s.len(),
{
    if s.len() == 0 || !in_class_name(s[0]) {
        0
    } else {
        1 + class_prefix_len(s.drop_first())
    }
}

/// The outcome of validating `name` as a Java class name.
pub open spec fn class_name_check(name: Seq<char>) -> Result<(), ClassNameError> {
    let k = class_prefix_len(name.drop_first());
    if name.len() == 0 {
        Err(ClassNameError::Empty)
    } else if !ascii_alpha(name[0]) {
        Err(ClassNameError::InvalidStart(name[0]))
    } else if 0 <= k < name.len() - 1 {
        Err(ClassNameError::InvalidCharacter(name[k + 1]))
    } else {
        Ok(())
    }
}

proof fn lemma_class_prefix_len(s: Seq<char>, m: int)
    requires
        0 <= m <= s.len(),
        forall|k: int| 0 <= k < m ==> in_class_name(#[trigger] s[k]),
        m == s.len() || !in_class_name(s[m]),
    ensures
        class_prefix_len(s) == m,
    decreases m,
{
    if m > 0 {
        assert forall|k: int| 0 <= k < m - 1 implies in_class_name(#[trigger] s.drop_first()[k]) by {
            assert(s.drop_first()[k] == s[k + 1]);
        }
        lemma_class_prefix_len(s.drop_first(), m - 1);
    }
}

/// Checks that `name` is a valid Java class name.
pub fn validate_name(name: &str) -> (r: Result<(), ClassNameError>)
    ensures
        r == class_name_check(name@),
{
    let chars = to_chars(name);
    let n = chars.len();
    if n == 0 {
        return Err(ClassNameError::Empty);
    }
    if !is_ascii_letter(chars[0]) {
        return Err(ClassNameError::InvalidStart(chars[0]));
    }
    let ghost tail = name@.drop_first();
    let mut i: usize = 1;
    while i < n
        invariant
            n == chars@.len(),
            n >= 1,
            chars@ == name@,
            tail == name@.drop_first(),
            ascii_alpha(name@[0]),
            1 <= i <= n,
            forall|k: int| 1 <= k < i ==> in_class_name(#[trigger] chars@[k]),
        decreases n - i,
    {
        let c = chars[i];
        if !is_class_char(c) {
            proof {
                assert forall|k: int| 0 <= k < i - 1 implies in_class_name(#[trigger] tail[k]) by {
                    assert(tail[k] == chars@[k + 1]);
                }
                assert(tail[i - 1] == chars@[i as int]);
                lemma_class_prefix_len(tail, i - 1);
            }
            return Err(ClassNameError::InvalidCharacter(c));
        }
        i = i + 1;
    }
    proof {
        assert forall|k: int| 0 <= k < n - 1 implies in_class_name(#[trigger] tail[k]) by {
            assert(tail[k] == chars@[k + 1]);
        }
        lemma_class_prefix_len(tail, n - 1);
    }
    Ok(())
}

/// Whether `name` is a valid Java class name.
pub fn is_valid_main_class_name(name: &str) -> (r: bool)
    ensures
        r == (class_name_check(name@) is Ok),
{
    validate_name(name).is_ok()
}

} // verus!
