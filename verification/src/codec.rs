//! Message codec: the grammar of inbound client frames.
//!
//! An inbound frame is a JSON object with the members `"op"` (the integer 0,
//! 1 or 2), `"allowed_mentions"` (a boolean), `"message"` (a string) and an
//! optional `"message_uuid"` (a string or `null`), in any order, each known
//! member at most once. Members under any other key are read and ignored, as
//! a tolerant reader does, provided their values are well-formed JSON. The
//! spec functions in this module define that grammar over `Seq<char>`; the
//! executable scanner mirrors them and is proved equal.

use vstd::prelude::*;

use vstd::string::StringExecFns;

use crate::text::push_char;
use crate::text::str_to_chars;

verus! {

/// The structured content of a well-formed inbound frame, before the
/// operation-specific identifier rule is applied.
pub struct FrameModel {
    /// 0 for a new message, 1 for an edit, 2 for a delete.
    pub op: u8,
    pub allowed_mentions: bool,
    pub message_uuid: Option<Seq<char>>,
    pub message: Seq<char>,
}

/// Fields seen so far while reading the members of the frame object.
pub struct PartialFrame {
    pub op: Option<u8>,
    pub allowed_mentions: Option<bool>,
    /// `None`: absent so far; `Some(None)`: given as `null`;
    /// `Some(Some(u))`: given as the string `u`.
    pub message_uuid: Option<Option<Seq<char>>>,
    pub message: Option<Seq<char>>,
}

pub open spec fn empty_partial() -> PartialFrame {
    PartialFrame { op: None, allowed_mentions: None, message_uuid: None, message: None }
}

/// JSON whitespace.
pub open spec fn is_ws(c: char) -> bool {
    c == ' ' || c == '\t' || c == '\n' || c == '\r'
}

/// Index of the first non-whitespace character at or after `i`.
pub open spec fn ws_to(s: Seq<char>, i: int) -> int
    decreases s.len() - i when 0 <= i <= s.len()
{
    if i < s.len() && is_ws(s[i]) {
        ws_to(s, i + 1)
    } else {
        i
    }
}

/// Value of a hexadecimal digit, or `None`.
pub open spec fn hex_val(c: char) -> Option<u32> {
    if 48 <= c as u32 && c as u32 <= 57 {
        Some((c as u32 - 48) as u32)
    } else if 97 <= c as u32 && c as u32 <= 102 {
        Some((c as u32 - 87) as u32)
    } else if 65 <= c as u32 && c as u32 <= 70 {
        Some((c as u32 - 55) as u32)
    } else {
        None
    }
}

/// Value of the four hexadecimal digits at `i`, or `None`.
pub open spec fn hex4_val(s: Seq<char>, i: int) -> Option<u32> {
    if i + 4 <= s.len() && hex_val(s[i]) is Some && hex_val(s[i + 1]) is Some && hex_val(
        s[i + 2],
    ) is Some && hex_val(s[i + 3]) is Some {
        Some(
            (hex_val(s[i])->0 * 0x1000 + hex_val(s[i + 1])->0 * 0x100 + hex_val(s[i + 2])->0 * 0x10
                + hex_val(s[i + 3])->0) as u32,
        )
    } else {
        None
    }
}

/// The character named by a single-character escape, or `None`.
pub open spec fn simple_escape(c: char) -> Option<char> {
    if c == '"' {
        Some('"')
    } else if c == '\\' {
        Some('\\')
    } else if c == '/' {
        Some('/')
    } else if c == 'b' {
        Some('\u{0008}')
    } else if c == 'f' {
        Some('\u{000C}')
    } else if c == 'n' {
        Some('\n')
    } else if c == 'r' {
        Some('\r')
    } else if c == 't' {
        Some('\t')
    } else {
        None
    }
}

pub open spec fn is_high_surrogate(v: u32) -> bool {
    0xD800 <= v && v <= 0xDBFF
}

pub open spec fn is_low_surrogate(v: u32) -> bool {
    0xDC00 <= v && v <= 0xDFFF
}

/// The scalar value of a surrogate pair.
pub open spec fn combine_surrogates(hi: u32, lo: u32) -> u32 {
    (0x10000 + (hi - 0xD800) * 0x400 + (lo - 0xDC00)) as u32
}

/// Decoded body of a JSON string whose opening quote stands just before `i`,
/// together with the index just past the closing quote.
pub open spec fn str_body(s: Seq<char>, i: int) -> Option<(Seq<char>, int)>
    decreases s.len() - i when 0 <= i <= s.len()
{
    if i >= s.len() {
        None
    } else if s[i] == '"' {
        Some((Seq::empty(), i + 1))
    } else if s[i] == '\\' {
        if i + 1 >= s.len() {
            None
        } else if s[i + 1] == 'u' {
            match hex4_val(s, i + 2) {
                None => None,
                Some(v) => if is_low_surrogate(v) {
                    None
                } else if is_high_surrogate(v) {
                    if i + 8 <= s.len() && s[i + 6] == '\\' && s[i + 7] == 'u' {
                        match hex4_val(s, i + 8) {
                            None => None,
                            Some(lo) => if is_low_surrogate(lo) {
                                match str_body(s, i + 12) {
                                    None => None,
                                    Some((t, j)) => Some(
                                        (seq![combine_surrogates(v, lo) as char] + t, j),
                                    ),
                                }
                            } else {
                                None
                            },
                        }
                    } else {
                        None
                    }
                } else {
                    match str_body(s, i + 6) {
                        None => None,
                        Some((t, j)) => Some((seq![v as char] + t, j)),
                    }
                },
            }
        } else {
            match simple_escape(s[i + 1]) {
                None => None,
                Some(c) => match str_body(s, i + 2) {
                    None => None,
                    Some((t, j)) => Some((seq![c] + t, j)),
                },
            }
        }
    } else if (s[i] as u32) < 0x20 {
        None
    } else {
        match str_body(s, i + 1) {
            None => None,
            Some((t, j)) => Some((seq![s[i]] + t, j)),
        }
    }
}

pub proof fn lemma_str_body_bounds(s: Seq<char>, i: int)
    requires
        0 <= i <= s.len(),
    ensures
        str_body(s, i) matches Some((t, j)) ==> i < j <= s.len(),
    decreases s.len() - i,
{
    if i < s.len() {
        if s[i] == '\\' && i + 1 < s.len() {
            if s[i + 1] == 'u' {
                if 0 <= i + 6 <= s.len() {
                    lemma_str_body_bounds(s, i + 6);
                }
                if 0 <= i + 12 <= s.len() {
                    lemma_str_body_bounds(s, i + 12);
                }
            } else {
                if i + 2 <= s.len() {
                    lemma_str_body_bounds(s, i + 2);
                }
            }
        } else {
            lemma_str_body_bounds(s, i + 1);
        }
    }
}

/// A decimal digit standing for a valid operation: 0, 1 or 2, not followed
/// by another digit.
pub open spec fn op_digit(s: Seq<char>, i: int) -> Option<(u8, int)> {
    if i < s.len() && 48 <= s[i] as u32 && s[i] as u32 <= 50 && !(i + 1 < s.len() && 48 <= s[i
        + 1] as u32 && s[i + 1] as u32 <= 57) {
        Some(((s[i] as u32 - 48) as u8, i + 1))
    } else {
        None
    }
}

/// The exact characters of `lit` standing at `i`.
pub open spec fn lit_at(s: Seq<char>, i: int, lit: Seq<char>) -> bool {
    i + lit.len() <= s.len() && s.subrange(i, i + lit.len() as int) == lit
}

/// A decimal digit.
pub open spec fn is_digit(c: char) -> bool {
    48 <= c as u32 && c as u32 <= 57
}

/// Index just past the run of decimal digits starting at `i`.
pub open spec fn digits_end(s: Seq<char>, i: int) -> int
    decreases s.len() - i when 0 <= i <= s.len()
{
    if i < s.len() && is_digit(s[i]) {
        digits_end(s, i + 1)
    } else {
        i
    }
}

/// Index just past the fraction part at `i`, if one starts there.
pub open spec fn skip_frac(s: Seq<char>, i: int) -> Option<int> {
    if 0 <= i && i < s.len() && s[i] == '.' {
        if digits_end(s, i + 1) > i + 1 {
            Some(digits_end(s, i + 1))
        } else {
            None
        }
    } else {
        Some(i)
    }
}

/// Index just past the exponent part at `i`, if one starts there.
pub open spec fn skip_exp(s: Seq<char>, i: int) -> Option<int> {
    if 0 <= i && i < s.len() && (s[i] == 'e' || s[i] == 'E') {
        let x = if i + 1 < s.len() && (s[i + 1] == '+' || s[i + 1] == '-') {
            i + 2
        } else {
            i + 1
        };
        if digits_end(s, x) > x {
            Some(digits_end(s, x))
        } else {
            None
        }
    } else {
        Some(i)
    }
}

/// Index just past the JSON number at `i`, or `None`: an optional minus, an
/// integer part, an optional fraction, an optional exponent. A leading zero
/// ends the integer part at once, so a number like `01` leaves its second
/// digit behind and fails at the surrounding grammar, as JSON demands.
pub open spec fn skip_number(s: Seq<char>, i: int) -> Option<int> {
    let a = if 0 <= i && i < s.len() && s[i] == '-' {
        i + 1
    } else {
        i
    };
    if !(0 <= a && a < s.len() && is_digit(s[a])) {
        None
    } else {
        let e = if s[a] == '0' {
            a + 1
        } else {
            digits_end(s, a)
        };
        match skip_frac(s, e) {
            None => None,
            Some(e2) => skip_exp(s, e2),
        }
    }
}

/// Index just past the JSON value at `i`, or `None`. The value of an
/// unknown member is skipped without being interpreted, exactly as far as
/// the value grammar reaches. The bounds tests before the recursive calls
/// only serve termination; the scanners never produce an index out of
/// bounds.
pub open spec fn skip_value(s: Seq<char>, i: int) -> Option<int>
    decreases s.len() - i, 0int,
{
    if !(0 <= i && i < s.len()) {
        None
    } else if s[i] == '"' {
        match str_body(s, i + 1) {
            None => None,
            Some((t, j)) => Some(j),
        }
    } else if s[i] == 't' {
        if lit_at(s, i, "true"@) {
            Some(i + 4)
        } else {
            None
        }
    } else if s[i] == 'f' {
        if lit_at(s, i, "false"@) {
            Some(i + 5)
        } else {
            None
        }
    } else if s[i] == 'n' {
        if lit_at(s, i, "null"@) {
            Some(i + 4)
        } else {
            None
        }
    } else if s[i] == '-' || is_digit(s[i]) {
        skip_number(s, i)
    } else if s[i] == '[' {
        let k = ws_to(s, i + 1);
        if k < s.len() && s[k] == ']' {
            Some(k + 1)
        } else if i < k && k <= s.len() {
            skip_items(s, k)
        } else {
            None
        }
    } else if s[i] == '{' {
        let k = ws_to(s, i + 1);
        if k < s.len() && s[k] == '}' {
            Some(k + 1)
        } else if i < k && k <= s.len() {
            skip_members(s, k)
        } else {
            None
        }
    } else {
        None
    }
}

/// The rest of an array from the start of one item: the item, then either
/// the closing bracket or a comma and the next item.
pub open spec fn skip_items(s: Seq<char>, i: int) -> Option<int>
    decreases s.len() - i, 1int,
{
    if !(0 <= i && i <= s.len()) {
        None
    } else {
        match skip_value(s, i) {
            None => None,
            Some(j) => {
                let j2 = ws_to(s, j);
                if j2 < s.len() && s[j2] == ']' {
                    Some(j2 + 1)
                } else if j2 < s.len() && s[j2] == ',' {
                    let k = ws_to(s, j2 + 1);
                    if i < k && k <= s.len() {
                        skip_items(s, k)
                    } else {
                        None
                    }
                } else {
                    None
                }
            },
        }
    }
}

/// The rest of an object from the opening quote of one key: the key, a
/// colon, the value, then either the closing brace or a comma and the next
/// member.
pub open spec fn skip_members(s: Seq<char>, i: int) -> Option<int>
    decreases s.len() - i, 1int,
{
    if !(0 <= i && i < s.len() && s[i] == '"') {
        None
    } else {
        match str_body(s, i + 1) {
            None => None,
            Some((key, j)) => {
                let j2 = ws_to(s, j);
                if !(j2 < s.len() && s[j2] == ':') {
                    None
                } else {
                    let j3 = ws_to(s, j2 + 1);
                    if !(i < j3 && j3 <= s.len()) {
                        None
                    } else {
                        match skip_value(s, j3) {
                            None => None,
                            Some(j4) => {
                                let j5 = ws_to(s, j4);
                                if j5 < s.len() && s[j5] == '}' {
                                    Some(j5 + 1)
                                } else if j5 < s.len() && s[j5] == ',' {
                                    let k = ws_to(s, j5 + 1);
                                    if i < k && k <= s.len() {
                                        skip_members(s, k)
                                    } else {
                                        None
                                    }
                                } else {
                                    None
                                }
                            },
                        }
                    }
                }
            },
        }
    }
}

/// One member value, dispatched on the key. A repeated known key is
/// rejected; an unknown key's value is skipped without being interpreted.
pub open spec fn member_value(s: Seq<char>, i: int, key: Seq<char>, p: PartialFrame) -> Option<
    (PartialFrame, int),
> {
    if key == "op"@ {
        if p.op is Some {
            None
        } else {
            match op_digit(s, i) {
                None => None,
                Some((d, j)) => Some((PartialFrame { op: Some(d), ..p }, j)),
            }
        }
    } else if key == "allowed_mentions"@ {
        if p.allowed_mentions is Some {
            None
        } else if lit_at(s, i, "true"@) {
            Some((PartialFrame { allowed_mentions: Some(true), ..p }, i + 4))
        } else if lit_at(s, i, "false"@) {
            Some((PartialFrame { allowed_mentions: Some(false), ..p }, i + 5))
        } else {
            None
        }
    } else if key == "message_uuid"@ {
        if p.message_uuid is Some {
            None
        } else if lit_at(s, i, "null"@) {
            Some((PartialFrame { message_uuid: Some(None), ..p }, i + 4))
        } else if i < s.len() && s[i] == '"' {
            match str_body(s, i + 1) {
                None => None,
                Some((u, j)) => Some((PartialFrame { message_uuid: Some(Some(u)), ..p }, j)),
            }
        } else {
            None
        }
    } else if key == "message"@ {
        if p.message is Some {
            None
        } else if i < s.len() && s[i] == '"' {
            match str_body(s, i + 1) {
                None => None,
                Some((m, j)) => Some((PartialFrame { message: Some(m), ..p }, j)),
            }
        } else {
            None
        }
    } else {
        match skip_value(s, i) {
            None => None,
            Some(j) => Some((p, j)),
        }
    }
}

/// The members of the frame object, starting at the opening quote of a key;
/// returns the index just past the closing brace. The bounds test before
/// the recursive call only serves termination; the scanners never produce
/// an index out of bounds.
pub open spec fn members(s: Seq<char>, i: int, p: PartialFrame) -> Option<(PartialFrame, int)>
    decreases s.len() - i,
{
    if !(0 <= i && i < s.len() && s[i] == '"') {
        None
    } else {
        match str_body(s, i + 1) {
            None => None,
            Some((key, j)) => {
                let j2 = ws_to(s, j);
                if !(j2 < s.len() && s[j2] == ':') {
                    None
                } else {
                    match member_value(s, ws_to(s, j2 + 1), key, p) {
                        None => None,
                        Some((p2, j4)) => {
                            let j5 = ws_to(s, j4);
                            if j5 < s.len() && s[j5] == ',' {
                                let k = ws_to(s, j5 + 1);
                                if i < k && k <= s.len() {
                                    members(s, k, p2)
                                } else {
                                    None
                                }
                            } else if j5 < s.len() && s[j5] == '}' {
                                Some((p2, j5 + 1))
                            } else {
                                None
                            }
                        },
                    }
                }
            },
        }
    }
}

/// The whole frame object with nothing but whitespace around it.
pub open spec fn frame_object(s: Seq<char>) -> Option<PartialFrame> {
    let i0 = ws_to(s, 0);
    if !(i0 < s.len() && s[i0] == '{') {
        None
    } else {
        let i1 = ws_to(s, i0 + 1);
        if i1 < s.len() && s[i1] == '}' {
            if ws_to(s, i1 + 1) == s.len() {
                Some(empty_partial())
            } else {
                None
            }
        } else {
            match members(s, i1, empty_partial()) {
                None => None,
                Some((p, j)) => if ws_to(s, j) == s.len() {
                    Some(p)
                } else {
                    None
                },
            }
        }
    }
}

/// The identifier rule of the decoder: a new message discards any supplied
/// identifier; an edit or a delete keeps its identifier truncated to the
/// first sixteen characters and is invalid when fewer remain.
pub open spec fn apply_uuid_rule(op: u8, u: Option<Seq<char>>) -> Option<Option<Seq<char>>> {
    if op == 0 {
        Some(None)
    } else {
        match u {
            None => None,
            Some(raw) => if raw.len() >= 16 {
                Some(Some(raw.take(16)))
            } else {
                None
            },
        }
    }
}

/// A fully decoded inbound frame: the object grammar, the three required
/// members, and the identifier rule.
pub open spec fn frame(s: Seq<char>) -> Option<FrameModel> {
    match frame_object(s) {
        None => None,
        Some(p) => if p.op is Some && p.allowed_mentions is Some && p.message is Some {
            let raw_uuid = match p.message_uuid {
                None => None,
                Some(o) => o,
            };
            match apply_uuid_rule(p.op->0, raw_uuid) {
                None => None,
                Some(u) => Some(
                    FrameModel {
                        op: p.op->0,
                        allowed_mentions: p.allowed_mentions->0,
                        message_uuid: u,
                        message: p.message->0,
                    },
                ),
            }
        } else {
            None
        },
    }
}

/// `r` with `p` prepended to the decoded text on success.
pub open spec fn prefixed(p: Seq<char>, r: Option<(Seq<char>, int)>) -> Option<(Seq<char>, int)> {
    match r {
        None => None,
        Some((t, j)) => Some((p + t, j)),
    }
}

/// `r` with one decoded character prepended on success.
pub open spec fn prepend(c: char, r: Option<(Seq<char>, int)>) -> Option<(Seq<char>, int)> {
    match r {
        None => None,
        Some((t, j)) => Some((seq![c] + t, j)),
    }
}

proof fn lemma_prefix_step(p: Seq<char>, c: char, r: Option<(Seq<char>, int)>)
    ensures
        prefixed(p, prepend(c, r)) == prefixed(p.push(c), r),
{
    match r {
        None => {},
        Some((t, j)) => {
            assert(p + (seq![c] + t) =~= p.push(c) + t);
        },
    }
}

/// Index of the first non-whitespace character at or after `start`.
fn scan_ws(v: &Vec<char>, start: usize) -> (r: usize)
    requires
        start <= v.len(),
    ensures
        r as int == ws_to(v@, start as int),
        start <= r <= v.len(),
{
    let mut i: usize = start;
    while i < v.len() && (v[i] == ' ' || v[i] == '\t' || v[i] == '\n' || v[i] == '\r')
        invariant
            start <= i <= v.len(),
            ws_to(v@, start as int) == ws_to(v@, i as int),
        decreases v.len() - i,
    {
        i += 1;
    }
    i
}

/// Value of one hexadecimal digit character.
fn scan_hex_digit(c: char) -> (r: Option<u32>)
    ensures
        r == hex_val(c),
{
    let u = c as u32;
    if 48 <= u && u <= 57 {
        Some(u - 48)
    } else if 97 <= u && u <= 102 {
        Some(u - 87)
    } else if 65 <= u && u <= 70 {
        Some(u - 55)
    } else {
        None
    }
}

/// Value of the four hexadecimal digits at `i`.
fn scan_hex4(v: &Vec<char>, i: usize) -> (r: Option<u32>)
    requires
        i <= v.len(),
    ensures
        r == hex4_val(v@, i as int),
        r is Some ==> i + 4 <= v.len(),
{
    if v.len() - i < 4 {
        return None;
    }
    let h0 = scan_hex_digit(v[i]);
    let h1 = scan_hex_digit(v[i + 1]);
    let h2 = scan_hex_digit(v[i + 2]);
    let h3 = scan_hex_digit(v[i + 3]);
    match (h0, h1, h2, h3) {
        (Some(a), Some(b), Some(c), Some(d)) => Some(a * 0x1000 + b * 0x100 + c * 0x10 + d),
        _ => None,
    }
}

/// The replacement character of a single-character escape.
fn scan_escape(c: char) -> (r: Option<char>)
    ensures
        r == simple_escape(c),
{
    if c == '"' {
        Some('"')
    } else if c == '\\' {
        Some('\\')
    } else if c == '/' {
        Some('/')
    } else if c == 'b' {
        Some('\u{0008}')
    } else if c == 'f' {
        Some('\u{000C}')
    } else if c == 'n' {
        Some('\n')
    } else if c == 'r' {
        Some('\r')
    } else if c == 't' {
        Some('\t')
    } else {
        None
    }
}

/// Whether the exact characters of `lit` stand at `i`.
fn scan_lit(v: &Vec<char>, i: usize, lit: &str) -> (r: bool)
    requires
        i <= v.len(),
    ensures
        r == lit_at(v@, i as int, lit@),
{
    let lv = str_to_chars(lit);
    if v.len() - i < lv.len() {
        return false;
    }
    let mut k: usize = 0;
    while k < lv.len()
        invariant
            lv@ == lit@,
            i + lv.len() <= v.len(),
            0 <= k <= lv.len(),
            forall|j: int| 0 <= j < k ==> v@[i + j] == lit@[j],
        decreases lv.len() - k,
    {
        if v[i + k] != lv[k] {
            proof {
                let sub = v@.subrange(i as int, i + lit@.len() as int);
                assert(sub[k as int] == v@[i + k]);
                assert(sub != lit@);
            }
            return false;
        }
        k += 1;
    }
    proof {
        assert(v@.subrange(i as int, i + lit@.len() as int) =~= lit@);
    }
    true
}

/// Decodes a JSON string body whose opening quote stands just before
/// `start`; returns the text and the index just past the closing quote.
fn scan_string(v: &Vec<char>, start: usize) -> (r: Option<(String, usize)>)
    requires
        start <= v.len(),
    ensures
        r is None ==> str_body(v@, start as int) is None,
        r matches Some((t, j)) ==> str_body(v@, start as int) == Some((t@, j as int)) && start < j
            <= v.len(),
{
    let mut out = String::new();
    let mut i: usize = start;
    loop
        invariant
            start <= i <= v.len(),
            prefixed(out@, str_body(v@, i as int)) == str_body(v@, start as int),
        decreases v.len() - i,
    {
        if i >= v.len() {
            return None;
        }
        let c = v[i];
        if c == '"' {
            proof {
                assert(out@ + Seq::<char>::empty() =~= out@);
                lemma_str_body_bounds(v@, start as int);
            }
            return Some((out, i + 1));
        } else if c == '\\' {
            if i + 1 >= v.len() {
                return None;
            }
            let e = v[i + 1];
            if e == 'u' {
                match scan_hex4(v, i + 2) {
                    None => {
                        return None;
                    },
                    Some(hv) => {
                        if 0xDC00 <= hv && hv <= 0xDFFF {
                            return None;
                        } else if 0xD800 <= hv && hv <= 0xDBFF {
                            if v.len() - i < 8 || v[i + 6] != '\\' || v[i + 7] != 'u' {
                                return None;
                            }
                            match scan_hex4(v, i + 8) {
                                None => {
                                    return None;
                                },
                                Some(lo) => {
                                    if !(0xDC00 <= lo && lo <= 0xDFFF) {
                                        return None;
                                    }
                                    let combined = 0x10000 + (hv - 0xD800) * 0x400 + (lo - 0xDC00);
                                    let c2 = match crate::text::char_from_u32(combined) {
                                        Some(c2) => c2,
                                        None => {
                                            proof {
                                                assert(false);
                                            }
                                            return None;
                                        },
                                    };
                                    proof {
                                        assert(str_body(v@, i as int) == prepend(
                                            c2,
                                            str_body(v@, i + 12),
                                        ));
                                        lemma_prefix_step(out@, c2, str_body(v@, i + 12));
                                    }
                                    push_char(&mut out, c2);
                                    i += 12;
                                },
                            }
                        } else {
                            let c2 = match crate::text::char_from_u32(hv) {
                                Some(c2) => c2,
                                None => {
                                    proof {
                                        assert(false);
                                    }
                                    return None;
                                },
                            };
                            proof {
                                assert(str_body(v@, i as int) == prepend(
                                    c2,
                                    str_body(v@, i + 6),
                                ));
                                lemma_prefix_step(out@, c2, str_body(v@, i + 6));
                            }
                            push_char(&mut out, c2);
                            i += 6;
                        }
                    },
                }
            } else {
                match scan_escape(e) {
                    None => {
                        return None;
                    },
                    Some(c2) => {
                        proof {
                            assert(str_body(v@, i as int) == prepend(c2, str_body(v@, i + 2)));
                            lemma_prefix_step(out@, c2, str_body(v@, i + 2));
                        }
                        push_char(&mut out, c2);
                        i += 2;
                    },
                }
            }
        } else if (c as u32) < 0x20 {
            return None;
        } else {
            proof {
                assert(str_body(v@, i as int) == prepend(c, str_body(v@, i + 1)));
                lemma_prefix_step(out@, c, str_body(v@, i + 1));
            }
            push_char(&mut out, c);
            i += 1;
        }
    }
}

/// Fields seen so far by the executable scanner.
struct PartialExec {
    op: Option<u8>,
    allowed_mentions: Option<bool>,
    message_uuid: Option<Option<String>>,
    message: Option<String>,
}

impl PartialExec {
    /// The spec-level content of the scanned fields.
    spec fn model(&self) -> PartialFrame {
        PartialFrame {
            op: self.op,
            allowed_mentions: self.allowed_mentions,
            message_uuid: self.message_uuid.deep_view(),
            message: self.message.deep_view(),
        }
    }
}

/// Index just past the run of decimal digits starting at `start`.
fn scan_digits_end(v: &Vec<char>, start: usize) -> (r: usize)
    requires
        start <= v.len(),
    ensures
        r as int == digits_end(v@, start as int),
        start <= r <= v.len(),
{
    let mut i: usize = start;
    while i < v.len() && 48 <= v[i] as u32 && v[i] as u32 <= 57
        invariant
            start <= i <= v.len(),
            digits_end(v@, start as int) == digits_end(v@, i as int),
        decreases v.len() - i,
    {
        i += 1;
    }
    i
}

/// Index just past the JSON number at `i`.
fn scan_number(v: &Vec<char>, i: usize) -> (r: Option<usize>)
    requires
        i <= v.len(),
    ensures
        r is Some <==> skip_number(v@, i as int) is Some,
        r matches Some(j) ==> skip_number(v@, i as int) == Some(j as int) && i < j <= v.len(),
{
    let a = if i < v.len() && v[i] == '-' {
        i + 1
    } else {
        i
    };
    if !(a < v.len() && 48 <= v[a] as u32 && v[a] as u32 <= 57) {
        return None;
    }
    let e = if v[a] == '0' {
        a + 1
    } else {
        let d = scan_digits_end(v, a + 1);
        proof {
            assert(digits_end(v@, a as int) == digits_end(v@, a + 1));
        }
        d
    };
    let frac_end = if e < v.len() && v[e] == '.' {
        let f = scan_digits_end(v, e + 1);
        if f > e + 1 {
            f
        } else {
            return None;
        }
    } else {
        e
    };
    let exp_end = if frac_end < v.len() && (v[frac_end] == 'e' || v[frac_end] == 'E') {
        let x = if frac_end + 1 < v.len() && (v[frac_end + 1] == '+' || v[frac_end + 1] == '-') {
            frac_end + 2
        } else {
            frac_end + 1
        };
        let d = scan_digits_end(v, x);
        if d > x {
            d
        } else {
            return None;
        }
    } else {
        frac_end
    };
    Some(exp_end)
}

/// Index just past the JSON value at `i`.
fn scan_skip_value(v: &Vec<char>, i: usize) -> (r: Option<usize>)
    requires
        i <= v.len(),
    ensures
        r is Some <==> skip_value(v@, i as int) is Some,
        r matches Some(j) ==> skip_value(v@, i as int) == Some(j as int) && i < j <= v.len(),
    decreases v.len() - i, 0int,
{
    if i >= v.len() {
        return None;
    }
    let c = v[i];
    if c == '"' {
        proof {
            lemma_str_body_bounds(v@, i + 1);
        }
        match scan_string(v, i + 1) {
            None => None,
            Some((_t, j)) => Some(j),
        }
    } else if c == 't' {
        if scan_lit(v, i, "true") {
            proof {
                reveal_strlit("true");
            }
            Some(i + 4)
        } else {
            None
        }
    } else if c == 'f' {
        if scan_lit(v, i, "false") {
            proof {
                reveal_strlit("false");
            }
            Some(i + 5)
        } else {
            None
        }
    } else if c == 'n' {
        if scan_lit(v, i, "null") {
            proof {
                reveal_strlit("null");
            }
            Some(i + 4)
        } else {
            None
        }
    } else if c == '-' || (48 <= c as u32 && c as u32 <= 57) {
        scan_number(v, i)
    } else if c == '[' {
        let k = scan_ws(v, i + 1);
        if k < v.len() && v[k] == ']' {
            Some(k + 1)
        } else {
            scan_skip_items(v, k)
        }
    } else if c == '{' {
        let k = scan_ws(v, i + 1);
        if k < v.len() && v[k] == '}' {
            Some(k + 1)
        } else {
            scan_skip_members(v, k)
        }
    } else {
        None
    }
}

/// The rest of an array from the start of one item.
fn scan_skip_items(v: &Vec<char>, i: usize) -> (r: Option<usize>)
    requires
        i <= v.len(),
    ensures
        r is Some <==> skip_items(v@, i as int) is Some,
        r matches Some(j) ==> skip_items(v@, i as int) == Some(j as int) && i < j <= v.len(),
    decreases v.len() - i, 1int,
{
    match scan_skip_value(v, i) {
        None => None,
        Some(j) => {
            let j2 = scan_ws(v, j);
            if j2 < v.len() && v[j2] == ']' {
                Some(j2 + 1)
            } else if j2 < v.len() && v[j2] == ',' {
                let k = scan_ws(v, j2 + 1);
                scan_skip_items(v, k)
            } else {
                None
            }
        },
    }
}

/// The rest of an object from the opening quote of one key.
fn scan_skip_members(v: &Vec<char>, i: usize) -> (r: Option<usize>)
    requires
        i <= v.len(),
    ensures
        r is Some <==> skip_members(v@, i as int) is Some,
        r matches Some(j) ==> skip_members(v@, i as int) == Some(j as int) && i < j <= v.len(),
    decreases v.len() - i, 1int,
{
    if !(i < v.len() && v[i] == '"') {
        return None;
    }
    match scan_string(v, i + 1) {
        None => None,
        Some((_key, j)) => {
            let j2 = scan_ws(v, j);
            if !(j2 < v.len() && v[j2] == ':') {
                return None;
            }
            let j3 = scan_ws(v, j2 + 1);
            match scan_skip_value(v, j3) {
                None => None,
                Some(j4) => {
                    let j5 = scan_ws(v, j4);
                    if j5 < v.len() && v[j5] == '}' {
                        Some(j5 + 1)
                    } else if j5 < v.len() && v[j5] == ',' {
                        let k = scan_ws(v, j5 + 1);
                        scan_skip_members(v, k)
                    } else {
                        None
                    }
                },
            }
        },
    }
}

/// The operation digit at `i`.
fn scan_op(v: &Vec<char>, i: usize) -> (r: Option<(u8, usize)>)
    requires
        i <= v.len(),
    ensures
        r is None ==> op_digit(v@, i as int) is None,
        r matches Some((d, j)) ==> op_digit(v@, i as int) == Some((d, j as int)) && j <= v.len(),
{
    if i < v.len() && 48 <= v[i] as u32 && v[i] as u32 <= 50 && !(i + 1 < v.len() && 48 <= v[i
        + 1] as u32 && v[i + 1] as u32 <= 57) {
        Some(((v[i] as u32 - 48) as u8, i + 1))
    } else {
        None
    }
}

/// One member value, dispatched on the key.
fn scan_member_value(v: &Vec<char>, i: usize, key: &String, p: PartialExec) -> (r: Option<
    (PartialExec, usize),
>)
    requires
        i <= v.len(),
    ensures
        r is None ==> member_value(v@, i as int, key@, p.model()) is None,
        r matches Some((p2, j)) ==> member_value(v@, i as int, key@, p.model()) == Some(
            (p2.model(), j as int),
        ) && i < j <= v.len(),
{
    if crate::text::str_eq(key.as_str(), "op") {
        if p.op.is_some() {
            return None;
        }
        match scan_op(v, i) {
            None => None,
            Some((d, j)) => Some((PartialExec { op: Some(d), ..p }, j)),
        }
    } else if crate::text::str_eq(key.as_str(), "allowed_mentions") {
        if p.allowed_mentions.is_some() {
            return None;
        }
        if scan_lit(v, i, "true") {
            proof {
                reveal_strlit("true");
            }
            Some((PartialExec { allowed_mentions: Some(true), ..p }, i + 4))
        } else if scan_lit(v, i, "false") {
            proof {
                reveal_strlit("false");
            }
            Some((PartialExec { allowed_mentions: Some(false), ..p }, i + 5))
        } else {
            None
        }
    } else if crate::text::str_eq(key.as_str(), "message_uuid") {
        if p.message_uuid.is_some() {
            return None;
        }
        if scan_lit(v, i, "null") {
            proof {
                reveal_strlit("null");
            }
            Some((PartialExec { message_uuid: Some(None), ..p }, i + 4))
        } else if i < v.len() && v[i] == '"' {
            match scan_string(v, i + 1) {
                None => None,
                Some((u, j)) => Some((PartialExec { message_uuid: Some(Some(u)), ..p }, j)),
            }
        } else {
            None
        }
    } else if crate::text::str_eq(key.as_str(), "message") {
        if p.message.is_some() {
            return None;
        }
        if i < v.len() && v[i] == '"' {
            match scan_string(v, i + 1) {
                None => None,
                Some((m, j)) => Some((PartialExec { message: Some(m), ..p }, j)),
            }
        } else {
            None
        }
    } else {
        match scan_skip_value(v, i) {
            None => None,
            Some(j) => Some((p, j)),
        }
    }
}

/// The members of the frame object, mirroring `members`.
fn scan_members(v: &Vec<char>, i: usize, p: PartialExec) -> (r: Option<(PartialExec, usize)>)
    requires
        i <= v.len(),
    ensures
        r is None ==> members(v@, i as int, p.model()) is None,
        r matches Some((p2, j)) ==> members(v@, i as int, p.model()) == Some(
            (p2.model(), j as int),
        ) && j <= v.len(),
    decreases v.len() - i,
{
    if !(i < v.len() && v[i] == '"') {
        return None;
    }
    match scan_string(v, i + 1) {
        None => None,
        Some((key, j)) => {
            let j2 = scan_ws(v, j);
            if !(j2 < v.len() && v[j2] == ':') {
                return None;
            }
            let j3 = scan_ws(v, j2 + 1);
            match scan_member_value(v, j3, &key, p) {
                None => None,
                Some((p2, j4)) => {
                    let j5 = scan_ws(v, j4);
                    if j5 < v.len() && v[j5] == ',' {
                        let j6 = scan_ws(v, j5 + 1);
                        scan_members(v, j6, p2)
                    } else if j5 < v.len() && v[j5] == '}' {
                        Some((p2, j5 + 1))
                    } else {
                        None
                    }
                },
            }
        },
    }
}

/// A decoded inbound frame.
pub struct DecodedFrame {
    /// 0 for a new message, 1 for an edit, 2 for a delete.
    pub op: u8,
    pub allowed_mentions: bool,
    pub message_uuid: Option<String>,
    pub message: String,
}

/// The first `n` characters of `u`.
pub fn take_prefix(u: &String, n: usize) -> (r: String)
    requires
        n <= u@.len(),
    ensures
        r@ == u@.take(n as int),
{
    let uc = str_to_chars(u.as_str());
    let mut out = String::new();
    let mut k: usize = 0;
    while k < n
        invariant
            uc@ == u@,
            n <= uc.len(),
            0 <= k <= n,
            out@ == u@.take(k as int),
        decreases n - k,
    {
        proof {
            assert(u@.take(k + 1) =~= u@.take(k as int).push(u@[k as int]));
        }
        push_char(&mut out, uc[k]);
        k += 1;
    }
    out
}

/// Decodes one inbound frame. Returns `None` exactly when the text is not a
/// well-formed frame: not the JSON object of the frame grammar, a missing or
/// repeated member, an unknown operation, or an edit or delete whose
/// identifier is shorter than sixteen characters after truncation.
pub fn decode_frame(s: &str) -> (r: Option<DecodedFrame>)
    ensures
        r is None ==> frame(s@) is None,
        r matches Some(d) ==> frame(s@) matches Some(f) && d.op == f.op && d.allowed_mentions
            == f.allowed_mentions && d.message_uuid.deep_view() == f.message_uuid && d.message@
            == f.message,
{
    let v = str_to_chars(s);
    let i0 = scan_ws(&v, 0);
    if !(i0 < v.len() && v[i0] == '{') {
        return None;
    }
    let i1 = scan_ws(&v, i0 + 1);
    let scanned: Option<PartialExec> = if i1 < v.len() && v[i1] == '}' {
        if scan_ws(&v, i1 + 1) == v.len() {
            Some(
                PartialExec {
                    op: None,
                    allowed_mentions: None,
                    message_uuid: None,
                    message: None,
                },
            )
        } else {
            None
        }
    } else {
        match scan_members(&v, i1, PartialExec {
            op: None,
            allowed_mentions: None,
            message_uuid: None,
            message: None,
        }) {
            None => None,
            Some((p, j)) => {
                if scan_ws(&v, j) == v.len() {
                    Some(p)
                } else {
                    None
                }
            },
        }
    };
    let p = match scanned {
        None => {
            return None;
        },
        Some(p) => p,
    };
    proof {
        assert(frame_object(s@) == Some(p.model()));
    }
    let (op, allowed_mentions) = match (p.op, p.allowed_mentions) {
        (Some(op), Some(am)) => (op, am),
        _ => {
            return None;
        },
    };
    let message = match p.message {
        Some(m) => m,
        None => {
            return None;
        },
    };
    let raw_uuid: Option<String> = match p.message_uuid {
        None => None,
        Some(o) => o,
    };
    let message_uuid: Option<String> = if op == 0 {
        None
    } else {
        match raw_uuid {
            None => {
                return None;
            },
            Some(u) => {
                let uc = str_to_chars(u.as_str());
                if uc.len() < 16 {
                    return None;
                }
                Some(take_prefix(&u, 16))
            },
        }
    };
    Some(DecodedFrame { op, allowed_mentions, message_uuid, message })
}

/// One hexadecimal digit, lower case.
pub open spec fn hex_digit(n: int) -> char {
    if n < 10 {
        (48 + n) as char
    } else {
        (87 + n) as char
    }
}

/// The encoding of one character inside a JSON string: quotes, backslashes
/// and control characters are escaped, everything else stands as it is.
pub open spec fn escape_char(c: char) -> Seq<char> {
    if c == '"' {
        seq!['\\', '"']
    } else if c == '\\' {
        seq!['\\', '\\']
    } else if c == '\u{0008}' {
        seq!['\\', 'b']
    } else if c == '\t' {
        seq!['\\', 't']
    } else if c == '\n' {
        seq!['\\', 'n']
    } else if c == '\u{000C}' {
        seq!['\\', 'f']
    } else if c == '\r' {
        seq!['\\', 'r']
    } else if (c as u32) < 0x20 {
        seq!['\\', 'u', '0', '0', hex_digit((c as u32 / 16) as int), hex_digit((c as u32 % 16) as int)]
    } else {
        seq![c]
    }
}

/// The encoding of a text inside a JSON string.
pub open spec fn escape(s: Seq<char>) -> Seq<char>
    decreases s.len(),
{
    if s.len() == 0 {
        Seq::empty()
    } else {
        escape_char(s[0]) + escape(s.drop_first())
    }
}

pub proof fn lemma_escape_snoc(s: Seq<char>, c: char)
    ensures
        escape(s.push(c)) == escape(s) + escape_char(c),
    decreases s.len(),
{
    if s.len() == 0 {
        assert(s.push(c).drop_first() =~= Seq::<char>::empty());
        assert(s.push(c)[0] == c);
        assert(escape(Seq::<char>::empty()) =~= Seq::<char>::empty());
        assert(escape(s.push(c)) == escape_char(c) + escape(s.push(c).drop_first()));
        assert(escape(s.push(c)) =~= escape(s) + escape_char(c));
    } else {
        let t = s.push(c);
        assert(t[0] == s[0]);
        assert(t.drop_first() =~= s.drop_first().push(c));
        lemma_escape_snoc(s.drop_first(), c);
        assert(escape(t) == escape_char(s[0]) + escape(s.drop_first().push(c)));
        assert(escape(s) == escape_char(s[0]) + escape(s.drop_first()));
        assert(escape(s.push(c)) =~= escape(s) + escape_char(c));
    }
}

/// `true` or `false`.
pub open spec fn bool_lit(b: bool) -> Seq<char> {
    if b {
        "true"@
    } else {
        "false"@
    }
}

/// The outbound JSON encoding of a server message: an object carrying the
/// message identifier, the author, the body, the edited flag and the
/// per-recipient mention flag, in that order, with no added whitespace.
pub open spec fn encode_fields(
    message_uuid: Seq<char>,
    author_uuid: Seq<char>,
    data: Seq<char>,
    edited: bool,
    is_mentioned: bool,
) -> Seq<char> {
    "{\"message_uuid\":\""@ + escape(message_uuid) + "\",\"author_uuid\":\""@ + escape(author_uuid)
        + "\",\"data\":\""@ + escape(data) + "\",\"edited\":"@ + bool_lit(edited)
        + ",\"is_mentioned\":"@ + bool_lit(is_mentioned) + "}"@
}

/// Appends the escaped form of `s` to `out`.
pub fn append_escaped(out: &mut String, s: &str)
    ensures
        final(out)@ == old(out)@ + escape(s@),
{
    let v = str_to_chars(s);
    let mut i: usize = 0;
    proof {
        assert(escape(s@.take(0)) =~= Seq::<char>::empty());
        assert(old(out)@ + escape(s@.take(0)) =~= old(out)@);
    }
    while i < v.len()
        invariant
            v@ == s@,
            0 <= i <= v.len(),
            out@ == old(out)@ + escape(s@.take(i as int)),
        decreases v.len() - i,
    {
        let c = v[i];
        proof {
            assert(s@.take(i + 1) =~= s@.take(i as int).push(c));
            lemma_escape_snoc(s@.take(i as int), c);
        }
        if c == '"' {
            push_char(out, '\\');
            push_char(out, '"');
        } else if c == '\\' {
            push_char(out, '\\');
            push_char(out, '\\');
        } else if c == '\u{0008}' {
            push_char(out, '\\');
            push_char(out, 'b');
        } else if c == '\t' {
            push_char(out, '\\');
            push_char(out, 't');
        } else if c == '\n' {
            push_char(out, '\\');
            push_char(out, 'n');
        } else if c == '\u{000C}' {
            push_char(out, '\\');
            push_char(out, 'f');
        } else if c == '\r' {
            push_char(out, '\\');
            push_char(out, 'r');
        } else if (c as u32) < 0x20 {
            push_char(out, '\\');
            push_char(out, 'u');
            push_char(out, '0');
            push_char(out, '0');
            let hi = (c as u32) / 16;
            let lo = (c as u32) % 16;
            let hic = ((48 + hi) as u8) as char;
            let loc = if lo < 10 {
                ((48 + lo) as u8) as char
            } else {
                ((87 + lo) as u8) as char
            };
            proof {
                assert(hic == hex_digit((c as u32 / 16) as int));
                assert(loc == hex_digit((c as u32 % 16) as int));
            }
            push_char(out, hic);
            push_char(out, loc);
        } else {
            push_char(out, c);
        }
        proof {
            assert(out@ =~= old(out)@ + escape(s@.take(i + 1)));
        }
        i += 1;
    }
    proof {
        assert(s@.take(v@.len() as int) =~= s@);
    }
}

/// Builds the outbound JSON encoding of a server message.
pub fn encode_message_fields(
    message_uuid: &str,
    author_uuid: &str,
    data: &str,
    edited: bool,
    is_mentioned: bool,
) -> (r: String)
    ensures
        r@ == encode_fields(message_uuid@, author_uuid@, data@, edited, is_mentioned),
{
    let mut out = String::new();
    out.append("{\"message_uuid\":\"");
    append_escaped(&mut out, message_uuid);
    out.append("\",\"author_uuid\":\"");
    append_escaped(&mut out, author_uuid);
    out.append("\",\"data\":\"");
    append_escaped(&mut out, data);
    out.append("\",\"edited\":");
    if edited {
        out.append("true");
    } else {
        out.append("false");
    }
    out.append(",\"is_mentioned\":");
    if is_mentioned {
        out.append("true");
    } else {
        out.append("false");
    }
    out.append("}");
    proof {
        assert(out@ =~= encode_fields(message_uuid@, author_uuid@, data@, edited, is_mentioned));
    }
    out
}

/// A mention tag stands at `i`: the characters `<<!`, then sixteen
/// characters none of which is a newline, then `>>`.
pub open spec fn mention_at(s: Seq<char>, i: int) -> bool {
    &&& i + 21 <= s.len()
    &&& s[i] == '<'
    &&& s[i + 1] == '<'
    &&& s[i + 2] == '!'
    &&& (forall|j: int| i + 3 <= j < i + 19 ==> s[j] != '\n')
    &&& s[i + 19] == '>'
    &&& s[i + 20] == '>'
}

/// The identifiers mentioned at or after `i`, leftmost first, matches not
/// overlapping.
pub open spec fn mentions_from(s: Seq<char>, i: int) -> Seq<Seq<char>>
    decreases s.len() - i when 0 <= i
{
    if i + 21 > s.len() {
        Seq::empty()
    } else if mention_at(s, i) {
        seq![s.subrange(i + 3, i + 19)] + mentions_from(s, i + 21)
    } else {
        mentions_from(s, i + 1)
    }
}

/// All identifiers mentioned in a message body, in order of appearance,
/// duplicates preserved.
pub open spec fn mention_seq(s: Seq<char>) -> Seq<Seq<char>> {
    mentions_from(s, 0)
}

/// The characters of `v` between `a` and `b`, as a string.
pub fn chars_range_string(v: &Vec<char>, a: usize, b: usize) -> (r: String)
    requires
        a <= b <= v.len(),
    ensures
        r@ == v@.subrange(a as int, b as int),
{
    let mut out = String::new();
    let mut k: usize = a;
    while k < b
        invariant
            a <= k <= b <= v.len(),
            out@ == v@.subrange(a as int, k as int),
        decreases b - k,
    {
        proof {
            assert(v@.subrange(a as int, k + 1) =~= v@.subrange(a as int, k as int).push(
                v@[k as int],
            ));
        }
        push_char(&mut out, v[k]);
        k += 1;
    }
    out
}

/// Whether a mention tag stands at `i`.
fn mention_window(v: &Vec<char>, i: usize) -> (r: bool)
    requires
        i + 21 <= v.len(),
    ensures
        r == mention_at(v@, i as int),
{
    if !(v[i] == '<' && v[i + 1] == '<' && v[i + 2] == '!' && v[i + 19] == '>' && v[i + 20] == '>')
    {
        return false;
    }
    let mut j: usize = i + 3;
    while j < i + 19
        invariant
            i + 21 <= v.len(),
            i + 3 <= j <= i + 19,
            forall|k: int| i + 3 <= k < j ==> v@[k] != '\n',
            v@[i as int] == '<' && v@[i + 1] == '<' && v@[i + 2] == '!' && v@[i + 19] == '>'
                && v@[i + 20] == '>',
        decreases i + 19 - j,
    {
        if v[j] == '\n' {
            return false;
        }
        j += 1;
    }
    true
}

/// Scans a message body for the identifiers of the mention tags it carries,
/// in order of appearance, duplicates preserved.
pub fn scan_mentions(data: &str) -> (r: Vec<String>)
    ensures
        r.deep_view() == mention_seq(data@),
{
    let v = str_to_chars(data);
    let mut out: Vec<String> = Vec::new();
    let mut i: usize = 0;
    while v.len() - i >= 21
        invariant
            v@ == data@,
            0 <= i <= v.len(),
            mention_seq(data@) == out.deep_view() + mentions_from(data@, i as int),
        decreases v.len() - i,
    {
        if mention_window(&v, i) {
            let m = chars_range_string(&v, i + 3, i + 19);
            let ghost before = out.deep_view();
            out.push(m);
            proof {
                assert(out.deep_view() =~= before.push(m@));
                assert(out.deep_view() + mentions_from(data@, i + 21) =~= before + (seq![m@]
                    + mentions_from(data@, i + 21)));
            }
            i += 21;
        } else {
            i += 1;
        }
    }
    proof {
        assert(mentions_from(data@, i as int) =~= Seq::<Seq<char>>::empty());
        assert(out.deep_view() + mentions_from(data@, i as int) =~= out.deep_view());
    }
    out
}

/// Whether `uuid` is among the scanned mentions.
pub fn mentions_contain(m: &Vec<String>, uuid: &str) -> (r: bool)
    ensures
        r == m.deep_view().contains(uuid@),
{
    let mut k: usize = 0;
    while k < m.len()
        invariant
            0 <= k <= m.len(),
            forall|j: int| 0 <= j < k ==> m.deep_view()[j] != uuid@,
        decreases m.len() - k,
    {
        if crate::text::str_eq(m[k].as_str(), uuid) {
            proof {
                assert(m.deep_view()[k as int] == uuid@);
            }
            return true;
        }
        k += 1;
    }
    proof {
        assert(!m.deep_view().contains(uuid@));
    }
    false
}

} // verus!
