//! Mod identifiers: lowercase ASCII letters, digits, `-` and `_`, starting
//! with a letter, 2 to 64 characters long.
use vstd::prelude::*;
use vstd::string::*;
use vstd::utf8::{encode_utf8, has_width_1_encoding};
use crate::text::{from_chars, to_chars};

verus! {

pub const MIN_LENGTH: usize = 2;

pub const MAX_LENGTH: usize = 64;

/// Whether `c` may open an identifier.
pub open spec fn id_start(c: char) -> bool {
    'a' <= c && c <= 'z'
}

/// Whether `c` may stand in an identifier.
pub open spec fn in_id(c: char) -> bool {
    id_start(c) || ('0' <= c && c <= '9') || c == '-' || c == '_'
}

fn is_valid_id_start(c: char) -> (r: bool)
    ensures
        r == id_start(c),
{
    'a' <= c && c <= 'z'
}

fn is_valid_in_id(c: char) -> (r: bool)
    ensures
        r == in_id(c),
{
    ('a' <= c && c <= 'z') || ('0' <= c && c <= '9') || c == '-' || c == '_'
}

/// Why a string is not a valid mod identifier.
#[derive(PartialEq, Eq, Debug, Clone, Copy, Structural)]
pub enum ModIdError {
    /// Fewer than 2 or more than 64 bytes in UTF-8.
    InvalidLength,
    /// The first character is not a lowercase ASCII letter.
    InvalidStart(char),
    /// The first character, after the first, that is not allowed.
    InvalidCharacter(char),
}

/// Number of leading characters of `s` that may stand in an identifier.
pub open spec fn valid_prefix_len(s: Seq<char>) -> int
    decreases s.len(),
{
    if s.len() == 0 || !in_id(s[0]) {
        0
    } else {
        1 + valid_prefix_len(s.drop_first())
    }
}

/// The length of `s` in UTF-8 bytes, as `str::len` gives it.
pub open spec fn byte_len(s: Seq<char>) -> nat {
    encode_utf8(s).len()
}

/// The outcome of validating `id`; its length is counted in UTF-8 bytes.
pub open spec fn mod_id_check(id: Seq<char>) -> Result<(), ModIdError> {
    let k = valid_prefix_len(id.drop_first());
    if byte_len(id) < MIN_LENGTH || byte_len(id) > MAX_LENGTH {
        Err(ModIdError::InvalidLength)
    } else if !id_start(id[0]) {
        Err(ModIdError::InvalidStart(id[0]))
    } else if 0 <= k < id.len() - 1 {
        Err(ModIdError::InvalidCharacter(id[k + 1]))
    } else {
        Ok(())
    }
}

proof fn lemma_valid_prefix_len(s: Seq<char>, m: int)
    requires
        0 <= m <= s.len(),
        forall|k: int| 0 <= k < m ==> in_id(#[trigger] s[k]),
        m == s.len() || !in_id(s[m]),
    ensures
        valid_prefix_len(s) == m,
    decreases m,
{
    if m > 0 {
        assert forall|k: int| 0 <= k < m - 1 implies in_id(#[trigger] s.drop_first()[k]) by {
            assert(s.drop_first()[k] == s[k + 1]);
        }
        lemma_valid_prefix_len(s.drop_first(), m - 1);
    }
}

/// Checks that `id` is a valid mod identifier.
pub fn validate_mod_id(id: &str) -> (r: Result<(), ModIdError>)
    ensures
        r == mod_id_check(id@),
{
    let bytes = id.as_bytes().len();
    if bytes < MIN_LENGTH || bytes > MAX_LENGTH {
        return Err(ModIdError::InvalidLength);
    }
    let chars = to_chars(id);
    let n = chars.len();
    if n == 0 {
        assert(encode_utf8(id@) =~= Seq::<u8>::empty());
    }
    let head = chars[0];
    if !is_valid_id_start(head) {
        return Err(ModIdError::InvalidStart(head));
    }
    let ghost tail = id@.drop_first();
    let mut i: usize = 1;
    while i < n
        invariant
            n == chars@.len(),
            chars@ == id@,
            tail == id@.drop_first(),
            id_start(id@[0]),
            MIN_LENGTH <= byte_len(id@) <= MAX_LENGTH,
            1 <= i <= n,
            forall|k: int| 1 <= k < i ==> in_id(#[trigger] chars@[k]),
        decreases n - i,
    {
        if !is_valid_in_id(chars[i]) {
            proof {
                assert forall|k: int| 0 <= k < i - 1 implies in_id(#[trigger] tail[k]) by {
                    assert(tail[k] == chars@[k + 1]);
                }
                assert(tail[i - 1] == chars@[i as int]);
                lemma_valid_prefix_len(tail, i - 1);
            }
            return Err(ModIdError::InvalidCharacter(chars[i]));
        }
        i = i + 1;
    }
    proof {
        assert forall|k: int| 0 <= k < n - 1 implies in_id(#[trigger] tail[k]) by {
            assert(tail[k] == chars@[k + 1]);
        }
        lemma_valid_prefix_len(tail, n - 1);
    }
    Ok(())
}

/// Whether `id` is a valid mod identifier.
pub fn is_valid_mod_id(id: &str) -> (r: bool)
    ensures
        r == (mod_id_check(id@) is Ok),
{
    validate_mod_id(id).is_ok()
}

/// What `c` becomes in lower case: one or more characters.
pub uninterp spec fn lower_of(c: char) -> Seq<char>;

/// `c` in ASCII lower case; other characters are unchanged.
pub open spec fn ascii_lower(c: char) -> char {
    if 'A' <= c && c <= 'Z' {
        ((c as u8) + 32) as char
    } else {
        c
    }
}

/// What `c` becomes in lower case: the ASCII lower case of an ASCII
/// character, the Unicode mapping of any other.
pub open spec fn lower_char(c: char) -> Seq<char> {
    if (c as u32) < 0x80 {
        seq![ascii_lower(c)]
    } else {
        lower_of(c)
    }
}

/// Relies on `char::to_lowercase`: the lowercase mapping of a character
/// depends on the character alone, and an ASCII character maps to its ASCII
/// lower case, one character.
#[verifier::external_body]
fn lowercase_char(c: char) -> (r: String)
    ensures
        (c as u32) < 0x80 ==> r@ == seq![ascii_lower(c)],
        (c as u32) >= 0x80 ==> r@ == lower_of(c),
{
    c.to_lowercase().collect()
}

/// The characters of `s`, each mapped to lower case.
pub open spec fn lowered(s: Seq<char>) -> Seq<char>
    decreases s.len(),
{
    if s.len() == 0 {
        seq![]
    } else {
        lowered(s.drop_last()) + lower_char(s.last())
    }
}

/// The effect of one (lowercased) input character on the identifier built
/// so far.
pub open spec fn id_step(out: Seq<char>, c: char) -> Seq<char> {
    if out.len() >= MAX_LENGTH {
        out
    } else if out.len() == 0 {
        if id_start(c) {
            out.push(c)
        } else {
            out
        }
    } else if in_id(c) {
        out.push(c)
    } else if c == ' ' {
        out.push('_')
    } else {
        out
    }
}

/// The identifier built from a sequence of lowercased characters.
pub open spec fn id_fold(cs: Seq<char>) -> Seq<char>
    decreases cs.len(),
{
    if cs.len() == 0 {
        seq![]
    } else {
        id_step(id_fold(cs.drop_last()), cs.last())
    }
}

/// The identifier derived from a display name.
pub open spec fn mod_id_of(name: Seq<char>) -> Seq<char> {
    id_fold(lowered(name))
}

/// Derives a mod identifier from a display name: lowercased, spaces become
/// `_`, other characters outside the identifier alphabet are dropped, and
/// everything before the first lowercase letter is dropped; at most 64
/// characters are kept. The result may be empty.
pub fn to_mod_id(name: &str) -> (r: String)
    ensures
        r@ == mod_id_of(name@),
{
    let chars = to_chars(name);
    let mut out: Vec<char> = Vec::new();
    let mut i: usize = 0;
    assert(chars@.subrange(0, 0) =~= Seq::<char>::empty());
    while i < chars.len()
        invariant
            chars@ == name@,
            i <= chars@.len(),
            out@ == id_fold(lowered(chars@.subrange(0, i as int))),
        decreases chars@.len() - i,
    {
        let ghost done = lowered(chars@.subrange(0, i as int));
        assert(chars@.subrange(0, i + 1).drop_last() =~= chars@.subrange(0, i as int));
        let lower = lowercase_char(chars[i]);
        let lc = to_chars(lower.as_str());
        let mut j: usize = 0;
        assert(done + lc@.subrange(0, 0) =~= done);
        while j < lc.len()
            invariant
                j <= lc@.len(),
                out@ == id_fold(done + lc@.subrange(0, j as int)),
            decreases lc@.len() - j,
        {
            let c = lc[j];
            let ghost next = done + lc@.subrange(0, j + 1);
            assert(next.drop_last() =~= done + lc@.subrange(0, j as int));
            if out.len() < MAX_LENGTH {
                if out.len() == 0 {
                    if is_valid_id_start(c) {
                        out.push(c);
                    }
                } else if is_valid_in_id(c) {
                    out.push(c);
                } else if c == ' ' {
                    out.push('_');
                }
            }
            j = j + 1;
        }
        assert(lc@.subrange(0, lc@.len() as int) =~= lc@);
        i = i + 1;
    }
    assert(chars@.subrange(0, chars@.len() as int) =~= name@);
    from_chars(&out)
}

/// Every identifier built by `id_fold` is at most 64 characters long, made of
/// the identifier alphabet, and starts with a lowercase letter.
pub proof fn lemma_id_fold_shape(cs: Seq<char>)
    ensures
        id_fold(cs).len() <= MAX_LENGTH,
        forall|i: int| 0 <= i < id_fold(cs).len() ==> in_id(#[trigger] id_fold(cs)[i]),
        id_fold(cs).len() > 0 ==> id_start(id_fold(cs)[0]),
    decreases cs.len(),
{
    if cs.len() > 0 {
        lemma_id_fold_shape(cs.drop_last());
        let prev = id_fold(cs.drop_last());
        let next = id_fold(cs);
        assert forall|i: int| 0 <= i < next.len() implies in_id(#[trigger] next[i]) by {
            if i < prev.len() {
                assert(next[i] == prev[i]);
            }
        }
    }
}

/// A derived identifier is never longer than 64 characters and holds only
/// `a`-`z`, `0`-`9`, `-` and `_`.
pub proof fn lemma_mod_id_alphabet(name: Seq<char>)
    ensures
        mod_id_of(name).len() <= MAX_LENGTH,
        forall|i: int|
            0 <= i < mod_id_of(name).len() ==> in_id(#[trigger] mod_id_of(name)[i]),
{
    lemma_id_fold_shape(lowered(name));
}

/// Whether `c` is an ASCII letter, an ASCII digit or a space.
pub open spec fn plain_name_char(c: char) -> bool {
    ('a' <= c && c <= 'z') || ('A' <= c && c <= 'Z') || ('0' <= c && c <= '9') || c == ' '
}

/// Whether `c` is a lowercase ASCII letter, an ASCII digit or a space.
pub open spec fn lowered_plain_char(c: char) -> bool {
    ('a' <= c && c <= 'z') || ('0' <= c && c <= '9') || c == ' '
}

proof fn lemma_lowered_plain(name: Seq<char>)
    requires
        forall|i: int| 0 <= i < name.len() ==> plain_name_char(#[trigger] name[i]),
    ensures
        forall|i: int| 0 <= i < lowered(name).len() ==> lowered_plain_char(#[trigger] lowered(name)[i]),
    decreases name.len(),
{
    if name.len() > 0 {
        let prev = name.drop_last();
        assert forall|i: int| 0 <= i < prev.len() implies plain_name_char(#[trigger] prev[i]) by {
            assert(prev[i] == name[i]);
        }
        lemma_lowered_plain(prev);
        let c = name.last();
        assert(plain_name_char(name[name.len() - 1]));
        assert(lowered_plain_char(ascii_lower(c)));
        let l = lowered(name);
        assert forall|i: int| 0 <= i < l.len() implies lowered_plain_char(#[trigger] l[i]) by {
            if i < lowered(prev).len() {
                assert(l[i] == lowered(prev)[i]);
            } else {
                assert(l[i] == lower_char(c)[i - lowered(prev).len()]);
            }
        }
    }
}

proof fn lemma_id_fold_no_dash(cs: Seq<char>)
    requires
        forall|i: int| 0 <= i < cs.len() ==> #[trigger] cs[i] != '-',
    ensures
        forall|i: int| 0 <= i < id_fold(cs).len() ==> #[trigger] id_fold(cs)[i] != '-',
    decreases cs.len(),
{
    if cs.len() > 0 {
        let prev = cs.drop_last();
        assert forall|i: int| 0 <= i < prev.len() implies #[trigger] prev[i] != '-' by {
            assert(prev[i] == cs[i]);
        }
        lemma_id_fold_no_dash(prev);
        assert(cs[cs.len() - 1] != '-');
        let next = id_fold(cs);
        assert forall|i: int| 0 <= i < next.len() implies #[trigger] next[i] != '-' by {
            if i < id_fold(prev).len() {
                assert(next[i] == id_fold(prev)[i]);
            }
        }
    }
}

proof fn lemma_ascii_byte_len(s: Seq<char>)
    requires
        forall|i: int| 0 <= i < s.len() ==> (#[trigger] s[i] as u32) < 0x80,
    ensures
        byte_len(s) == s.len(),
    decreases s.len(),
{
    if s.len() > 0 {
        let rest = s.drop_first();
        assert forall|i: int| 0 <= i < rest.len() implies (#[trigger] rest[i] as u32) < 0x80 by {
            assert(rest[i] == s[i + 1]);
        }
        lemma_ascii_byte_len(rest);
        assert((s[0] as u32) < 0x80);
        assert(has_width_1_encoding(s[0] as u32));
    }
}

/// A derived identifier of at least two characters passes validation.
pub proof fn lemma_mod_id_validates(name: Seq<char>)
    requires
        mod_id_of(name).len() >= MIN_LENGTH,
    ensures
        mod_id_check(mod_id_of(name)) == Ok::<(), ModIdError>(()),
{
    let id = mod_id_of(name);
    lemma_id_fold_shape(lowered(name));
    assert forall|i: int| 0 <= i < id.len() implies (#[trigger] id[i] as u32) < 0x80 by {
        assert(in_id(id[i]));
    }
    lemma_ascii_byte_len(id);
    let tail = id.drop_first();
    assert forall|k: int| 0 <= k < tail.len() implies in_id(#[trigger] tail[k]) by {
        assert(tail[k] == id[k + 1]);
    }
    lemma_valid_prefix_len(tail, tail.len() as int);
}

/// The identifier derived from a name of ASCII letters, digits and spaces
/// holds only `a`-`z`, `0`-`9` and `_`, and passes validation when it has at
/// least two characters.
pub proof fn lemma_plain_name_mod_id(name: Seq<char>)
    requires
        forall|i: int| 0 <= i < name.len() ==> plain_name_char(#[trigger] name[i]),
    ensures
        forall|i: int|
            0 <= i < mod_id_of(name).len() ==> (#[trigger] mod_id_of(name)[i] != '-' && in_id(
                mod_id_of(name)[i],
            )),
        mod_id_of(name).len() >= MIN_LENGTH ==> mod_id_check(mod_id_of(name)) == Ok::<(), ModIdError>(()),
{
    lemma_lowered_plain(name);
    let l = lowered(name);
    assert forall|i: int| 0 <= i < l.len() implies #[trigger] l[i] != '-' by {
        assert(lowered_plain_char(l[i]));
    }
    lemma_id_fold_no_dash(l);
    lemma_id_fold_shape(l);
    if mod_id_of(name).len() >= MIN_LENGTH {
        lemma_mod_id_validates(name);
    }
}

} // verus!
