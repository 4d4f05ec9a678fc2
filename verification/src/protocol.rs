//! The action protocol: a closed grammar of six model actions carried as
//! single-line JSON, decoded strictly and encoded canonically.
//!
//! The grammar accepts exactly: `{"Command": <string>}`,
//! `{"LLMSee": <string>}`, `{"MaskContent": <non-negative integer>}`, and
//! the bare strings `"UserControl"`, `"AgentControl"`, `"Exit"`, with
//! JSON whitespace between tokens. A string may use the usual escapes and
//! basic-plane `\uXXXX` scalars; surrogate halves are not accepted.

use vstd::prelude::*;
use vstd::string::StringExecFns;
use crate::text::{
    all_digits, char_from_u32, chars_is, chars_string, decimal_value, dec_str, digit, digits_val,
    digit_val, is_digit, str_chars, u64_string,
};

verus! {

/// One decoded model action.
#[derive(Debug)]
pub enum LLMResponse {
    Command(String),
    LLMSee(String),
    MaskContent(usize),
    UserControl,
    AgentControl,
    Exit,
}

/// Mathematical value of an [`LLMResponse`].
pub ghost enum ActionV {
    Command(Seq<char>),
    LLMSee(Seq<char>),
    MaskContent(nat),
    UserControl,
    AgentControl,
    Exit,
}

impl View for LLMResponse {
    type V = ActionV;

    open spec fn view(&self) -> ActionV {
        match self {
            LLMResponse::Command(s) => ActionV::Command(s@),
            LLMResponse::LLMSee(s) => ActionV::LLMSee(s@),
            LLMResponse::MaskContent(n) => ActionV::MaskContent(*n as nat),
            LLMResponse::UserControl => ActionV::UserControl,
            LLMResponse::AgentControl => ActionV::AgentControl,
            LLMResponse::Exit => ActionV::Exit,
        }
    }
}

impl Clone for LLMResponse {
    fn clone(&self) -> (r: Self)
        ensures
            r@ == self@,
    {
        match self {
            LLMResponse::Command(s) => LLMResponse::Command(s.clone()),
            LLMResponse::LLMSee(s) => LLMResponse::LLMSee(s.clone()),
            LLMResponse::MaskContent(n) => LLMResponse::MaskContent(*n),
            LLMResponse::UserControl => LLMResponse::UserControl,
            LLMResponse::AgentControl => LLMResponse::AgentControl,
            LLMResponse::Exit => LLMResponse::Exit,
        }
    }
}

/// Marker for text that does not match the protocol grammar. Such text is
/// never fatal: the agent loop answers it with a corrective turn.
#[derive(Debug, Clone, Copy, PartialEq, Eq, Structural)]
pub struct DecodeError;

/// JSON whitespace.
pub open spec fn is_ws(c: char) -> bool {
    c == ' ' || c == '\t' || c == '\n' || c == '\r'
}

/// First position at or after `i` holding a non-whitespace character, or
/// the length when none is left.
pub open spec fn skip_ws(s: Seq<char>, i: int) -> int
    decreases s.len() - i,
{
    if 0 <= i < s.len() && is_ws(s[i]) {
        skip_ws(s, i + 1)
    } else {
        i
    }
}

/// The value of a hexadecimal digit, or `-1`.
pub open spec fn hex_val(c: char) -> int {
    if is_digit(c) {
        digit_val(c)
    } else if 'a' <= c && c <= 'f' {
        c as u32 as int - 87
    } else if 'A' <= c && c <= 'F' {
        c as u32 as int - 55
    } else {
        -1
    }
}

/// The value of the four hexadecimal digits `s[i..i+4]`, or `-1` when
/// they are missing or malformed.
pub open spec fn hex4(s: Seq<char>, i: int) -> int {
    if 0 <= i && i + 4 <= s.len() && hex_val(s[i]) >= 0 && hex_val(s[i + 1]) >= 0 && hex_val(
        s[i + 2],
    ) >= 0 && hex_val(s[i + 3]) >= 0 {
        ((hex_val(s[i]) * 16 + hex_val(s[i + 1])) * 16 + hex_val(s[i + 2])) * 16 + hex_val(
            s[i + 3],
        )
    } else {
        -1
    }
}

/// The character a single-letter escape denotes, if any.
pub open spec fn simple_escape(c: char) -> Option<char> {
    if c == '"' {
        Some('"')
    } else if c == '\\' {
        Some('\\')
    } else if c == '/' {
        Some('/')
    } else if c == 'b' {
        Some('\u{8}')
    } else if c == 'f' {
        Some('\u{c}')
    } else if c == 'n' {
        Some('\n')
    } else if c == 'r' {
        Some('\r')
    } else if c == 't' {
        Some('\t')
    } else {
        None
    }
}

/// Scan a JSON string body beginning at `i` (just past the opening
/// quote): the decoded text and the position just past the closing quote,
/// or `None` when malformed. Raw control characters are malformed; a
/// high surrogate escape combines with the following low surrogate
/// escape, and a lone surrogate half is malformed.
pub open spec fn scan_string(s: Seq<char>, i: int) -> Option<(Seq<char>, int)>
    decreases s.len() - i,
{
    if i < 0 || i >= s.len() {
        None
    } else if s[i] == '"' {
        Some((Seq::empty(), i + 1))
    } else if s[i] == '\\' {
        if i + 1 >= s.len() {
            None
        } else if s[i + 1] == 'u' {
            let v = hex4(s, i + 2);
            if v < 0 {
                None
            } else if 0xD800 <= v && v < 0xDC00 {
                if i + 12 <= s.len() && s[i + 6] == '\\' && s[i + 7] == 'u' {
                    let w = hex4(s, i + 8);
                    if 0xDC00 <= w && w < 0xE000 {
                        match scan_string(s, i + 12) {
                            Some((t, e)) => Some(
                                (seq![((0x10000 + (v - 0xD800) * 0x400 + (w - 0xDC00)) as u32) as char]
                                    + t, e),
                            ),
                            None => None,
                        }
                    } else {
                        None
                    }
                } else {
                    None
                }
            } else if 0xDC00 <= v && v < 0xE000 {
                None
            } else {
                match scan_string(s, i + 6) {
                    Some((t, e)) => Some((seq![(v as u32) as char] + t, e)),
                    None => None,
                }
            }
        } else {
            match simple_escape(s[i + 1]) {
                Some(c) => match scan_string(s, i + 2) {
                    Some((t, e)) => Some((seq![c] + t, e)),
                    None => None,
                },
                None => None,
            }
        }
    } else if (s[i] as u32) < 0x20 {
        None
    } else {
        match scan_string(s, i + 1) {
            Some((t, e)) => Some((seq![s[i]] + t, e)),
            None => None,
        }
    }
}

/// End of the digit run beginning at `i`.
pub open spec fn scan_number_end(s: Seq<char>, i: int) -> int
    decreases s.len() - i,
{
    if 0 <= i < s.len() && is_digit(s[i]) {
        scan_number_end(s, i + 1)
    } else {
        i
    }
}

/// Whether, from position `e` on, the input holds exactly a closing brace
/// and then only whitespace.
pub open spec fn object_end(s: Seq<char>, e: int) -> bool {
    let b = skip_ws(s, e);
    b < s.len() && s[b] == '}' && skip_ws(s, b + 1) == s.len()
}

/// The action a bare protocol string denotes, if any.
pub open spec fn bare_action(t: Seq<char>) -> Option<ActionV> {
    if t == "UserControl"@ {
        Some(ActionV::UserControl)
    } else if t == "AgentControl"@ {
        Some(ActionV::AgentControl)
    } else if t == "Exit"@ {
        Some(ActionV::Exit)
    } else {
        None
    }
}

/// Decode a single-key protocol object whose key starts (with its opening
/// quote) at position `k`.
pub open spec fn spec_decode_object(s: Seq<char>, k: int) -> Option<ActionV> {
    if k < s.len() && s[k] == '"' {
        match scan_string(s, k + 1) {
            Some((key, e)) => {
                let c = skip_ws(s, e);
                if c < s.len() && s[c] == ':' {
                    let p = skip_ws(s, c + 1);
                    if key == "Command"@ || key == "LLMSee"@ {
                        if p < s.len() && s[p] == '"' {
                            match scan_string(s, p + 1) {
                                Some((val, e2)) => if object_end(s, e2) {
                                    if key == "Command"@ {
                                        Some(ActionV::Command(val))
                                    } else {
                                        Some(ActionV::LLMSee(val))
                                    }
                                } else {
                                    None
                                },
                                None => None,
                            }
                        } else {
                            None
                        }
                    } else if key == "MaskContent"@ {
                        let e2 = scan_number_end(s, p);
                        if p < e2 && (s[p] != '0' || e2 == p + 1) && digits_val(
                            s.subrange(p, e2),
                        ) <= usize::MAX && object_end(s, e2) {
                            Some(ActionV::MaskContent(digits_val(s.subrange(p, e2)) as nat))
                        } else {
                            None
                        }
                    } else {
                        None
                    }
                } else {
                    None
                }
            },
            None => None,
        }
    } else {
        None
    }
}

/// The decode verdict as the agent loop consumes it: the action, or the
/// anonymous decode failure.
pub open spec fn decode_outcome(s: Seq<char>) -> Result<ActionV, ()> {
    match spec_decode(s) {
        Some(a) => Ok(a),
        None => Err(()),
    }
}

/// What a protocol text decodes to: one of the six actions, or nothing
/// when the text does not match the closed grammar.
pub open spec fn spec_decode(s: Seq<char>) -> Option<ActionV> {
    let i = skip_ws(s, 0);
    if i < s.len() && s[i] == '"' {
        match scan_string(s, i + 1) {
            Some((t, e)) => if skip_ws(s, e) == s.len() {
                bare_action(t)
            } else {
                None
            },
            None => None,
        }
    } else if i < s.len() && s[i] == '{' {
        spec_decode_object(s, skip_ws(s, i + 1))
    } else {
        None
    }
}

fn skip_ws_exec(cs: &Vec<char>, i: usize) -> (r: usize)
    requires
        i <= cs@.len(),
    ensures
        r == skip_ws(cs@, i as int),
        i <= r <= cs@.len(),
        r < cs@.len() ==> !is_ws(cs@[r as int]),
    decreases cs@.len() - i,
{
    let mut j = i;
    loop
        invariant
            i <= j <= cs@.len(),
            skip_ws(cs@, i as int) == skip_ws(cs@, j as int),
        ensures
            i <= j <= cs@.len(),
            skip_ws(cs@, i as int) == j as int,
            j < cs@.len() ==> !is_ws(cs@[j as int]),
        decreases cs@.len() - j,
    {
        if j >= cs.len() {
            break;
        }
        let c = cs[j];
        if !(c == ' ' || c == '\t' || c == '\n' || c == '\r') {
            break;
        }
        j = j + 1;
    }
    j
}

fn hex_digit_val(c: char) -> (r: Option<u32>)
    ensures
        match r {
            Some(v) => hex_val(c) == v as int && v < 16,
            None => hex_val(c) < 0,
        },
{
    if digit(c) {
        Some(c as u32 - 48)
    } else if 'a' <= c && c <= 'f' {
        Some(c as u32 - 87)
    } else if 'A' <= c && c <= 'F' {
        Some(c as u32 - 55)
    } else {
        None
    }
}

fn hex4_exec(cs: &Vec<char>, i: usize) -> (r: Option<u32>)
    ensures
        match r {
            Some(v) => hex4(cs@, i as int) == v as int && v < 0x10000,
            None => hex4(cs@, i as int) < 0,
        },
{
    if i >= cs.len() || cs.len() - i < 4 {
        return None;
    }
    let a = match hex_digit_val(cs[i]) {
        Some(v) => v,
        None => {
            return None;
        },
    };
    let b = match hex_digit_val(cs[i + 1]) {
        Some(v) => v,
        None => {
            return None;
        },
    };
    let c = match hex_digit_val(cs[i + 2]) {
        Some(v) => v,
        None => {
            return None;
        },
    };
    let d = match hex_digit_val(cs[i + 3]) {
        Some(v) => v,
        None => {
            return None;
        },
    };
    Some(((a * 16 + b) * 16 + c) * 16 + d)
}

fn simple_escape_exec(c: char) -> (r: Option<char>)
    ensures
        r == simple_escape(c),
{
    if c == '"' {
        Some('"')
    } else if c == '\\' {
        Some('\\')
    } else if c == '/' {
        Some('/')
    } else if c == 'b' {
        Some('\u{8}')
    } else if c == 'f' {
        Some('\u{c}')
    } else if c == 'n' {
        Some('\n')
    } else if c == 'r' {
        Some('\r')
    } else if c == 't' {
        Some('\t')
    } else {
        None
    }
}

fn scan_string_exec(cs: &Vec<char>, start: usize) -> (r: Option<(Vec<char>, usize)>)
    requires
        start <= cs@.len(),
    ensures
        match r {
            Some(p) => scan_string(cs@, start as int) == Some((p.0@, p.1 as int)) && p.1
                <= cs@.len(),
            None => scan_string(cs@, start as int) is None,
        },
{
    let n = cs.len();
    let mut acc: Vec<char> = Vec::new();
    let mut j = start;
    loop
        invariant
            start <= j <= n,
            n == cs@.len(),
            forall|t: Seq<char>, e: int|
                scan_string(cs@, j as int) == Some::<(Seq<char>, int)>((t, e)) ==> scan_string(
                    cs@,
                    start as int,
                ) == Some::<(Seq<char>, int)>((acc@ + t, e)),
            scan_string(cs@, j as int) is None ==> scan_string(cs@, start as int) is None,
        decreases n - j,
    {
        if j >= n {
            return None;
        }
        let c = cs[j];
        if c == '"' {
            proof {
                assert(scan_string(cs@, j as int) == Some::<(Seq<char>, int)>((
                    Seq::empty(),
                    j + 1,
                )));
                assert(acc@ + Seq::<char>::empty() =~= acc@);
            }
            return Some((acc, j + 1));
        } else if c == '\\' {
            if j + 1 >= n {
                return None;
            }
            let e = cs[j + 1];
            if e == 'u' {
                let v = match hex4_exec(cs, j + 2) {
                    Some(v) => v,
                    None => {
                        return None;
                    },
                };
                if 0xD800 <= v && v < 0xDC00 {
                    // a high surrogate: combine with the following low one
                    if !(n >= 12 && j <= n - 12 && cs[j + 6] == '\\' && cs[j + 7] == 'u') {
                        return None;
                    }
                    let w = match hex4_exec(cs, j + 8) {
                        Some(w) => w,
                        None => {
                            return None;
                        },
                    };
                    if !(0xDC00 <= w && w < 0xE000) {
                        return None;
                    }
                    let cp = 0x10000 + (v - 0xD800) * 0x400 + (w - 0xDC00);
                    let uc = match char_from_u32(cp) {
                        Some(uc) => uc,
                        None => {
                            // unreachable: a combined pair is a scalar value
                            proof {
                                assert(false);
                            }
                            return None;
                        },
                    };
                    proof {
                        vstd::utf8::char_u32_cast(uc, cp);
                        assert(uc == (cp as u32) as char);
                    }
                    let ghost acc0 = acc@;
                    acc.push(uc);
                    proof {
                        lemma_scan_prefix_step(cs@, start as int, j as int, acc0, uc, j + 12);
                    }
                    j = j + 12;
                    continue;
                }
                if 0xDC00 <= v && v < 0xE000 {
                    return None;
                }
                let uc = match char_from_u32(v) {
                    Some(uc) => uc,
                    None => {
                        proof {
                            assert(false);
                        }
                        return None;
                    },
                };
                proof {
                    vstd::utf8::char_u32_cast(uc, v);
                    assert(uc == (v as u32) as char);
                }
                let ghost acc0 = acc@;
                acc.push(uc);
                proof {
                    lemma_scan_prefix_step(cs@, start as int, j as int, acc0, uc, j + 6);
                }
                j = j + 6;
            } else {
                let sc = match simple_escape_exec(e) {
                    Some(sc) => sc,
                    None => {
                        return None;
                    },
                };
                let ghost acc0 = acc@;
                acc.push(sc);
                proof {
                    lemma_scan_prefix_step(cs@, start as int, j as int, acc0, sc, j + 2);
                }
                j = j + 2;
            }
        } else if (c as u32) < 0x20 {
            return None;
        } else {
            let ghost acc0 = acc@;
            acc.push(c);
            proof {
                lemma_scan_prefix_step(cs@, start as int, j as int, acc0, c, j + 1);
            }
            j = j + 1;
        }
    }
}

/// One scanning step: when position `j` decodes one character `c` and
/// continues at `k`, the accumulated prefix extends by `c`.
proof fn lemma_scan_prefix_step(s: Seq<char>, start: int, j: int, acc: Seq<char>, c: char, k: int)
    requires
        forall|t: Seq<char>, e: int|
            scan_string(s, j) == Some::<(Seq<char>, int)>((t, e)) ==> scan_string(s, start)
                == Some::<(Seq<char>, int)>((acc + t, e)),
        scan_string(s, j) is None ==> scan_string(s, start) is None,
        forall|t: Seq<char>, e: int|
            scan_string(s, k) == Some::<(Seq<char>, int)>((t, e)) ==> scan_string(s, j)
                == Some::<(Seq<char>, int)>((seq![c] + t, e)),
        scan_string(s, k) is None ==> scan_string(s, j) is None,
    ensures
        forall|t: Seq<char>, e: int|
            scan_string(s, k) == Some::<(Seq<char>, int)>((t, e)) ==> scan_string(s, start)
                == Some::<(Seq<char>, int)>((acc.push(c) + t, e)),
        scan_string(s, k) is None ==> scan_string(s, start) is None,
{
    assert forall|t: Seq<char>, e: int|
        scan_string(s, k) == Some::<(Seq<char>, int)>((t, e)) implies scan_string(s, start)
        == Some::<(Seq<char>, int)>((acc.push(c) + t, e)) by {
        assert(scan_string(s, j) == Some::<(Seq<char>, int)>((seq![c] + t, e)));
        assert(acc + (seq![c] + t) =~= acc.push(c) + t);
    }
}

/// Decode raw model text into a protocol action. Text outside the closed
/// grammar yields `Err(DecodeError)`, never a panic.
pub fn decode_action(input: &str) -> (r: Result<LLMResponse, DecodeError>)
    ensures
        match r {
            Ok(a) => spec_decode(input@) == Some(a@),
            Err(_) => spec_decode(input@) is None,
        },
{
    let cs = str_chars(input);
    let n = cs.len();
    let i = skip_ws_exec(&cs, 0);
    if i < n && cs[i] == '"' {
        // a bare protocol string
        let (t, e) = match scan_string_exec(&cs, i + 1) {
            Some(p) => p,
            None => {
                return Err(DecodeError);
            },
        };
        if skip_ws_exec(&cs, e) != n {
            return Err(DecodeError);
        }
        if chars_is(&t, "UserControl") {
            Ok(LLMResponse::UserControl)
        } else if chars_is(&t, "AgentControl") {
            Ok(LLMResponse::AgentControl)
        } else if chars_is(&t, "Exit") {
            Ok(LLMResponse::Exit)
        } else {
            Err(DecodeError)
        }
    } else if i < n && cs[i] == '{' {
        let k = skip_ws_exec(&cs, i + 1);
        if !(k < n && cs[k] == '"') {
            return Err(DecodeError);
        }
        let (key, e) = match scan_string_exec(&cs, k + 1) {
            Some(p) => p,
            None => {
                return Err(DecodeError);
            },
        };
        let c = skip_ws_exec(&cs, e);
        if !(c < n && cs[c] == ':') {
            return Err(DecodeError);
        }
        let p = skip_ws_exec(&cs, c + 1);
        let is_command = chars_is(&key, "Command");
        let is_see = chars_is(&key, "LLMSee");
        if is_command || is_see {
            if !(p < n && cs[p] == '"') {
                return Err(DecodeError);
            }
            let (val, e2) = match scan_string_exec(&cs, p + 1) {
                Some(q) => q,
                None => {
                    return Err(DecodeError);
                },
            };
            if !object_end_exec(&cs, e2) {
                return Err(DecodeError);
            }
            let text = chars_string(&val);
            if is_command {
                Ok(LLMResponse::Command(text))
            } else {
                Ok(LLMResponse::LLMSee(text))
            }
        } else if chars_is(&key, "MaskContent") {
            // a digit run, without leading zeros, fitting in usize
            let mut e2 = p;
            loop
                invariant
                    p <= e2 <= n,
                    n == cs@.len(),
                    scan_number_end(cs@, p as int) == scan_number_end(cs@, e2 as int),
                    forall|q: int| p <= q < e2 ==> is_digit(#[trigger] cs@[q]),
                ensures
                    p <= e2 <= n,
                    n == cs@.len(),
                    scan_number_end(cs@, p as int) == e2 as int,
                    forall|q: int| p <= q < e2 ==> is_digit(#[trigger] cs@[q]),
                decreases n - e2,
            {
                if e2 >= n {
                    break;
                }
                let c0 = cs[e2];
                if !('0' <= c0 && c0 <= '9') {
                    break;
                }
                e2 = e2 + 1;
            }
            proof {
                assert(all_digits(cs@.subrange(p as int, e2 as int)));
            }
            if e2 == p {
                return Err(DecodeError);
            }
            if cs[p] == '0' && e2 != p + 1 {
                return Err(DecodeError);
            }
            let v = match decimal_value(&cs, p, e2) {
                Some(v) => v,
                None => {
                    proof {
                        assert(digits_val(cs@.subrange(p as int, e2 as int)) > usize::MAX);
                    }
                    return Err(DecodeError);
                },
            };
            if v > usize::MAX as u64 {
                return Err(DecodeError);
            }
            if !object_end_exec(&cs, e2) {
                return Err(DecodeError);
            }
            Ok(LLMResponse::MaskContent(v as usize))
        } else {
            Err(DecodeError)
        }
    } else {
        Err(DecodeError)
    }
}

/// The lowercase hexadecimal digit character for a value below 16.
pub open spec fn hex_digit_char(d: int) -> char {
    if d < 10 {
        crate::text::dec_digit(d as nat)
    } else if d == 10 {
        'a'
    } else if d == 11 {
        'b'
    } else if d == 12 {
        'c'
    } else if d == 13 {
        'd'
    } else if d == 14 {
        'e'
    } else {
        'f'
    }
}

/// The canonical escaping of one character inside an encoded protocol
/// string: quote and backslash escaped, control characters by their
/// short escape or `\u00xx`, everything else kept as itself.
pub open spec fn esc_char(c: char) -> Seq<char> {
    if c == '"' {
        seq!['\\', '"']
    } else if c == '\\' {
        seq!['\\', '\\']
    } else if c == '\u{8}' {
        seq!['\\', 'b']
    } else if c == '\u{c}' {
        seq!['\\', 'f']
    } else if c == '\n' {
        seq!['\\', 'n']
    } else if c == '\r' {
        seq!['\\', 'r']
    } else if c == '\t' {
        seq!['\\', 't']
    } else if (c as u32) < 0x20 {
        seq!['\\', 'u', '0', '0', hex_digit_char(c as u32 as int / 16), hex_digit_char(
            c as u32 as int % 16,
        )]
    } else {
        seq![c]
    }
}

/// The escaped form of the text from index `i` on.
pub open spec fn escape_from(t: Seq<char>, i: int) -> Seq<char>
    decreases t.len() - i,
{
    if i < 0 || i >= t.len() {
        Seq::empty()
    } else {
        esc_char(t[i]) + escape_from(t, i + 1)
    }
}

/// The canonical escaping of a whole text.
pub open spec fn json_escape(t: Seq<char>) -> Seq<char> {
    escape_from(t, 0)
}

/// The canonical single-line encoding of an action, as the system prompt
/// shows it to the model.
pub open spec fn spec_encode(a: ActionV) -> Seq<char> {
    match a {
        ActionV::Command(t) => "{\"Command\":\""@ + json_escape(t) + "\"}"@,
        ActionV::LLMSee(t) => "{\"LLMSee\":\""@ + json_escape(t) + "\"}"@,
        ActionV::MaskContent(n) => "{\"MaskContent\":"@ + dec_str(n) + "}"@,
        ActionV::UserControl => "\"UserControl\""@,
        ActionV::AgentControl => "\"AgentControl\""@,
        ActionV::Exit => "\"Exit\""@,
    }
}

fn hex_digit_exec(d: u32) -> (r: char)
    requires
        d < 16,
    ensures
        r == hex_digit_char(d as int),
{
    if d == 0 {
        '0'
    } else if d == 1 {
        '1'
    } else if d == 2 {
        '2'
    } else if d == 3 {
        '3'
    } else if d == 4 {
        '4'
    } else if d == 5 {
        '5'
    } else if d == 6 {
        '6'
    } else if d == 7 {
        '7'
    } else if d == 8 {
        '8'
    } else if d == 9 {
        '9'
    } else if d == 10 {
        'a'
    } else if d == 11 {
        'b'
    } else if d == 12 {
        'c'
    } else if d == 13 {
        'd'
    } else if d == 14 {
        'e'
    } else {
        'f'
    }
}

fn escape_text(s: &str) -> (r: String)
    ensures
        r@ == json_escape(s@),
{
    let cs = str_chars(s);
    let n = cs.len();
    let mut out: Vec<char> = Vec::new();
    let mut i: usize = 0;
    while i < n
        invariant
            0 <= i <= n,
            n == cs@.len(),
            cs@ == s@,
            out@ + escape_from(s@, i as int) =~= json_escape(s@),
        decreases n - i,
    {
        let ghost out0 = out@;
        let c = cs[i];
        if c == '"' {
            out.push('\\');
            out.push('"');
        } else if c == '\\' {
            out.push('\\');
            out.push('\\');
        } else if c == '\u{8}' {
            out.push('\\');
            out.push('b');
        } else if c == '\u{c}' {
            out.push('\\');
            out.push('f');
        } else if c == '\n' {
            out.push('\\');
            out.push('n');
        } else if c == '\r' {
            out.push('\\');
            out.push('r');
        } else if c == '\t' {
            out.push('\\');
            out.push('t');
        } else if (c as u32) < 0x20 {
            out.push('\\');
            out.push('u');
            out.push('0');
            out.push('0');
            out.push(hex_digit_exec((c as u32) / 16));
            out.push(hex_digit_exec((c as u32) % 16));
        } else {
            out.push(c);
        }
        proof {
            assert(out@ =~= out0 + esc_char(s@[i as int]));
            assert(escape_from(s@, i as int) == esc_char(s@[i as int]) + escape_from(
                s@,
                i as int + 1,
            ));
            assert(out@ + escape_from(s@, i as int + 1) =~= json_escape(s@));
        }
        i = i + 1;
    }
    proof {
        assert(escape_from(s@, n as int) =~= Seq::empty());
        assert(out@ =~= json_escape(s@));
    }
    chars_string(&out)
}

/// Encode an action in the canonical single-line form.
pub fn encode_action(a: &LLMResponse) -> (r: String)
    ensures
        r@ == spec_encode(a@),
{
    match a {
        LLMResponse::Command(t) => {
            let mut s = String::from_str("{\"Command\":\"");
            let esc = escape_text(t.as_str());
            s.append(esc.as_str());
            s.append("\"}");
            s
        },
        LLMResponse::LLMSee(t) => {
            let mut s = String::from_str("{\"LLMSee\":\"");
            let esc = escape_text(t.as_str());
            s.append(esc.as_str());
            s.append("\"}");
            s
        },
        LLMResponse::MaskContent(n) => {
            let mut s = String::from_str("{\"MaskContent\":");
            let num = u64_string(*n as u64);
            s.append(num.as_str());
            s.append("}");
            s
        },
        LLMResponse::UserControl => String::from_str("\"UserControl\""),
        LLMResponse::AgentControl => String::from_str("\"AgentControl\""),
        LLMResponse::Exit => String::from_str("\"Exit\""),
    }
}

/// Whether a character cannot stand for itself inside an encoded string.
pub open spec fn needs_escape(c: char) -> bool {
    c == '"' || c == '\\' || (c as u32) < 0x20
}

/// A text without characters that need escaping encodes as itself.
proof fn lemma_escape_plain(t: Seq<char>, j: int)
    requires
        0 <= j <= t.len(),
        forall|k: int| j <= k < t.len() ==> !needs_escape(#[trigger] t[k]),
    ensures
        escape_from(t, j) =~= t.skip(j),
    decreases t.len() - j,
{
    if j < t.len() {
        assert(esc_char(t[j]) =~= seq![t[j]]);
        lemma_escape_plain(t, j + 1);
        assert(t.skip(j) =~= seq![t[j]] + t.skip(j + 1));
    }
}

/// Each hexadecimal digit character reads back as its value.
proof fn lemma_hex_digit_roundtrip(d: int)
    requires
        0 <= d < 16,
    ensures
        hex_val(hex_digit_char(d)) == d,
{
}

/// Scanning a string body that spells the escaped form of `t` (from
/// index `j`) followed by a closing quote yields exactly `t.skip(j)`.
proof fn lemma_scan_escaped(s: Seq<char>, i: int, t: Seq<char>, j: int)
    requires
        0 <= j <= t.len(),
        0 <= i,
        i + escape_from(t, j).len() + 1 <= s.len(),
        s.subrange(i, i + escape_from(t, j).len() + 1) =~= escape_from(t, j) + seq!['"'],
    ensures
        scan_string(s, i) == Some((t.skip(j), i + escape_from(t, j).len() + 1)),
    decreases t.len() - j,
{
    let esc = escape_from(t, j);
    let window = s.subrange(i, i + esc.len() + 1);
    assert(window =~= escape_from(t, j) + seq!['"']);
    assert forall|q: int| 0 <= q < window.len() implies #[trigger] window[q] == s[i + q] by {}
    if j == t.len() {
        assert(esc =~= Seq::<char>::empty());
        assert(window[0] == '"');
        assert(s[i] == '"');
        assert(t.skip(j) =~= Seq::<char>::empty());
    } else {
        let c = t[j];
        let head = esc_char(c);
        let rest = escape_from(t, j + 1);
        assert(esc == head + rest);
        let i2 = i + head.len();
        // the window past this character's escape is the next window
        assert(s.subrange(i2, i2 + rest.len() + 1) =~= rest + seq!['"']) by {
            assert(forall|q: int| 0 <= q < rest.len() + 1 ==> #[trigger] s.subrange(
                i2,
                i2 + rest.len() + 1,
            )[q] == window[q + head.len()]);
        }
        lemma_scan_escaped(s, i2, t, j + 1);
        assert(t.skip(j) =~= seq![c] + t.skip(j + 1));
        if c == '"' || c == '\\' {
            assert(window[0] == '\\' && window[1] == c);
            assert(s[i] == '\\' && s[i + 1] == c);
            assert(simple_escape(s[i + 1]) == Some(c));
        } else if c == '\u{8}' || c == '\u{c}' || c == '\n' || c == '\r' || c == '\t' {
            assert(window[0] == head[0] && window[1] == head[1]);
            assert(s[i] == '\\');
            assert(s[i + 1] == head[1]);
            assert(simple_escape(head[1]) == Some(c));
        } else if (c as u32) < 0x20 {
            assert(window[0] == head[0] && window[1] == head[1] && window[2] == head[2]
                && window[3] == head[3] && window[4] == head[4] && window[5] == head[5]);
            assert(s[i] == '\\' && s[i + 1] == 'u');
            assert(s[i + 2] == '0' && s[i + 3] == '0');
            assert(s[i + 4] == hex_digit_char(c as u32 as int / 16));
            assert(s[i + 5] == hex_digit_char(c as u32 as int % 16));
            lemma_hex_digit_roundtrip(c as u32 as int / 16);
            lemma_hex_digit_roundtrip(c as u32 as int % 16);
            assert(hex_val('0') == 0);
            assert(hex4(s, i + 2) == c as u32 as int);
            vstd::utf8::char_u32_cast(c, c as u32);
            assert(seq![((c as u32 as int) as u32) as char] =~= seq![c]);
        } else {
            assert(window[0] == c);
            assert(s[i] == c);
            assert(!needs_escape(c));
        }
    }
}

/// The decimal rendering of a number consists of digits, has no leading
/// zero unless it is the single digit zero, and reads back as the
/// number.
proof fn lemma_dec_str_facts(n: nat)
    ensures
        dec_str(n).len() >= 1,
        all_digits(dec_str(n)),
        digits_val(dec_str(n)) == n,
        n >= 1 ==> dec_str(n)[0] != '0',
        n == 0 ==> dec_str(n).len() == 1,
    decreases n,
{
    if n < 10 {
        let w = dec_str(n);
        assert(w =~= seq![crate::text::dec_digit(n)]);
        assert(w.drop_last() =~= Seq::<char>::empty());
        assert(digits_val(w.drop_last()) == 0);
        assert(digits_val(w) == digit_val(crate::text::dec_digit(n)));
    } else {
        lemma_dec_str_facts(n / 10);
        let w = dec_str(n);
        assert(w == dec_str(n / 10).push(crate::text::dec_digit(n % 10)));
        assert(w.drop_last() =~= dec_str(n / 10));
        assert(w.last() == crate::text::dec_digit(n % 10));
        assert(digits_val(w) == (n / 10) * 10 + digit_val(crate::text::dec_digit(n % 10)));
        assert(forall|k: int| 0 <= k < w.len() ==> is_digit(#[trigger] w[k])) by {
            assert(forall|k: int| 0 <= k < w.len() - 1 ==> w[k] == dec_str(n / 10)[k]);
        }
        assert(w[0] == dec_str(n / 10)[0]);
    }
}

/// A run of digits followed by a non-digit scans to the run's end.
proof fn lemma_scan_digits(s: Seq<char>, i: int, e: int)
    requires
        0 <= i <= e <= s.len(),
        forall|k: int| i <= k < e ==> is_digit(#[trigger] s[k]),
        e == s.len() || !is_digit(s[e]),
    ensures
        scan_number_end(s, i) == e,
    decreases e - i,
{
    if i < e {
        lemma_scan_digits(s, i + 1, e);
    }
}

/// Whitespace skipping stands still on anything but whitespace.
proof fn lemma_skip_ws_still(s: Seq<char>, i: int)
    requires
        i >= s.len() || i < 0 || !is_ws(s[i]),
    ensures
        skip_ws(s, i) == i,
{
}

/// The encoded masking request decodes back to the same id.
#[verifier::rlimit(60)]
proof fn lemma_decode_mask(n: nat)
    requires
        n <= usize::MAX,
    ensures
        spec_decode(spec_encode(ActionV::MaskContent(n))) == Some(ActionV::MaskContent(n)),
{
    reveal_strlit("{\"MaskContent\":");
    reveal_strlit("}");
    reveal_strlit("MaskContent");
    reveal_strlit("Command");
    reveal_strlit("LLMSee");
    let s = spec_encode(ActionV::MaskContent(n));
    let pre = "{\"MaskContent\":"@;
    let digits = dec_str(n);
    assert(s == pre + digits + "}"@);
    lemma_dec_str_facts(n);
    lemma_skip_ws_still(s, 0);
    assert(s[0] == '{');
    lemma_skip_ws_still(s, 1);
    assert(s[1] == '"');
    // the key reads back
    assert(escape_from("MaskContent"@, 0) =~= "MaskContent"@) by {
        lemma_escape_plain("MaskContent"@, 0);
    }
    assert(s.subrange(2, 14) =~= "MaskContent"@ + seq!['"']);
    lemma_scan_escaped(s, 2, "MaskContent"@, 0);
    assert(scan_string(s, 2) == Some(("MaskContent"@.skip(0), 14int)));
    assert("MaskContent"@.skip(0) =~= "MaskContent"@);
    assert("MaskContent"@ != "Command"@ && "MaskContent"@ != "LLMSee"@);
    lemma_skip_ws_still(s, 14);
    assert(s[14] == ':');
    let p = 15int;
    assert(is_digit(digits[0]));
    assert(s[p] == digits[0]);
    lemma_skip_ws_still(s, p);
    let e2 = p + digits.len();
    assert(forall|k: int| p <= k < e2 ==> is_digit(#[trigger] s[k])) by {
        assert(forall|k: int| p <= k < e2 ==> #[trigger] s[k] == digits[k - p]);
    }
    assert(s[e2] == '}');
    lemma_scan_digits(s, p, e2);
    assert(s.subrange(p, e2) =~= digits);
    assert(digits_val(s.subrange(p, e2)) == n);
    assert(s[p] != '0' || e2 == p + 1);
    lemma_skip_ws_still(s, e2);
    lemma_skip_ws_still(s, e2 + 1);
    assert(object_end(s, e2));
    assert(spec_decode_object(s, 1) == Some(ActionV::MaskContent(n)));
}

/// The encoded command action decodes back to the same text.
#[verifier::rlimit(60)]
proof fn lemma_decode_command(t: Seq<char>)
    ensures
        spec_decode(spec_encode(ActionV::Command(t))) == Some(ActionV::Command(t)),
{
    reveal_strlit("{\"Command\":\"");
    reveal_strlit("Command");
    reveal_strlit("LLMSee");
    lemma_decode_object_with_text(t, "{\"Command\":\""@, "Command"@);
    assert(spec_decode(spec_encode(ActionV::Command(t))) == Some(ActionV::Command(t)));
}

/// The encoded image request decodes back to the same path.
#[verifier::rlimit(60)]
proof fn lemma_decode_llmsee(t: Seq<char>)
    ensures
        spec_decode(spec_encode(ActionV::LLMSee(t))) == Some(ActionV::LLMSee(t)),
{
    reveal_strlit("{\"LLMSee\":\"");
    reveal_strlit("Command");
    reveal_strlit("LLMSee");
    lemma_decode_object_with_text(t, "{\"LLMSee\":\""@, "LLMSee"@);
    assert(spec_decode(spec_encode(ActionV::LLMSee(t))) == Some(ActionV::LLMSee(t)));
}

/// Each encoded bare-word action decodes back to itself.
#[verifier::rlimit(60)]
proof fn lemma_decode_words()
    ensures
        spec_decode(spec_encode(ActionV::UserControl)) == Some(ActionV::UserControl),
        spec_decode(spec_encode(ActionV::AgentControl)) == Some(ActionV::AgentControl),
        spec_decode(spec_encode(ActionV::Exit)) == Some(ActionV::Exit),
{
    reveal_strlit("\"UserControl\"");
    reveal_strlit("\"AgentControl\"");
    reveal_strlit("\"Exit\"");
    reveal_strlit("UserControl");
    reveal_strlit("AgentControl");
    reveal_strlit("Exit");
    lemma_decode_bare("\"UserControl\""@, "UserControl"@);
    assert(bare_action("UserControl"@) == Some(ActionV::UserControl));
    lemma_decode_bare("\"AgentControl\""@, "AgentControl"@);
    assert("AgentControl"@ != "UserControl"@);
    assert(bare_action("AgentControl"@) == Some(ActionV::AgentControl));
    lemma_decode_bare("\"Exit\""@, "Exit"@);
    assert("Exit"@ != "UserControl"@ && "Exit"@ != "AgentControl"@);
    assert(bare_action("Exit"@) == Some(ActionV::Exit));
}

/// Law: encoding an action and decoding the result yields the action
/// back, for every action whose masking id a conversation can hold.
pub proof fn lemma_encode_decode(a: ActionV)
    requires
        a matches ActionV::MaskContent(n) ==> n <= usize::MAX,
    ensures
        spec_decode(spec_encode(a)) == Some(a),
{
    match a {
        ActionV::Command(t) => {
            lemma_decode_command(t);
        },
        ActionV::LLMSee(t) => {
            lemma_decode_llmsee(t);
        },
        ActionV::MaskContent(n) => {
            lemma_decode_mask(n);
        },
        ActionV::UserControl => {
            lemma_decode_words();
        },
        ActionV::AgentControl => {
            lemma_decode_words();
        },
        ActionV::Exit => {
            lemma_decode_words();
        },
    }
}

/// A quoted plain word decodes to a bare string: the whole input is the
/// word in quotes, and scanning returns the word and the end.
proof fn lemma_decode_bare(s: Seq<char>, word: Seq<char>)
    requires
        s =~= seq!['"'] + word + seq!['"'],
        word.len() >= 1,
        forall|k: int| 0 <= k < word.len() ==> !needs_escape(#[trigger] word[k]) && !is_ws(
            #[trigger] word[k],
        ) && word[k] != '"',
    ensures
        skip_ws(s, 0) == 0,
        s[0] == '"',
        scan_string(s, 1) == Some((word, s.len() as int)),
        skip_ws(s, s.len() as int) == s.len(),
    decreases 0int,
{
    lemma_skip_ws_still(s, 0);
    lemma_escape_plain(word, 0);
    assert(s.subrange(1, 1 + word.len() as int + 1) =~= escape_from(word, 0) + seq!['"']) by {
        assert(escape_from(word, 0) =~= word.skip(0));
        assert(word.skip(0) =~= word);
    }
    lemma_scan_escaped(s, 1, word, 0);
    assert(word.skip(0) =~= word);
    assert(1 + escape_from(word, 0).len() + 1 == s.len());
    lemma_skip_ws_still(s, s.len() as int);
}

/// A one-key object whose value is a string decodes to that key's
/// action payload: the object is `{"key":"<escaped text>"}`.
proof fn lemma_decode_object_with_text(t: Seq<char>, prefix: Seq<char>, key: Seq<char>)
    requires
        prefix =~= seq!['{', '"'] + key + seq!['"', ':', '"'],
        key.len() >= 1,
        forall|k: int| 0 <= k < key.len() ==> !needs_escape(#[trigger] key[k]) && !is_ws(
            #[trigger] key[k],
        ),
        !is_ws('{') && !is_ws('"'),
    ensures
        ({
            let s = prefix + json_escape(t) + "\"}"@;
            &&& skip_ws(s, 0) == 0
            &&& s[0] == '{'
            &&& skip_ws(s, 1) == 1
            &&& s[1] == '"'
            &&& scan_string(s, 2) == Some((key, key.len() as int + 3))
            &&& skip_ws(s, key.len() as int + 3) == key.len() as int + 3
            &&& s[key.len() as int + 3] == ':'
            &&& skip_ws(s, key.len() as int + 4) == key.len() as int + 4
            &&& s[key.len() as int + 4] == '"'
            &&& scan_string(s, key.len() as int + 5) == Some((t, s.len() - 1))
            &&& object_end(s, s.len() - 1)
        }),
{
    reveal_strlit("\"}");
    let s = prefix + json_escape(t) + "\"}"@;
    lemma_skip_ws_still(s, 0);
    lemma_skip_ws_still(s, 1);
    // the key scans back as itself
    lemma_escape_plain(key, 0);
    assert(s.subrange(2, 2 + key.len() as int + 1) =~= escape_from(key, 0) + seq!['"']) by {
        assert(escape_from(key, 0) =~= key);
    }
    lemma_scan_escaped(s, 2, key, 0);
    assert(key.skip(0) =~= key);
    assert(escape_from(key, 0).len() == key.len());
    lemma_skip_ws_still(s, key.len() as int + 3);
    lemma_skip_ws_still(s, key.len() as int + 4);
    // the payload scans back as the original text
    let v = key.len() as int + 5;
    assert(s.subrange(v, v + escape_from(t, 0).len() + 1) =~= escape_from(t, 0) + seq!['"']) by {
        assert(forall|q: int| 0 <= q < escape_from(t, 0).len() ==> #[trigger] s.subrange(
            v,
            v + escape_from(t, 0).len() + 1,
        )[q] == json_escape(t)[q]);
        assert(s.subrange(v, v + escape_from(t, 0).len() + 1)[escape_from(t, 0).len() as int] == '"');
    }
    lemma_scan_escaped(s, v, t, 0);
    assert(t.skip(0) =~= t);
    assert(v + escape_from(t, 0).len() + 1 == s.len() - 1);
    // the brace and nothing after it
    assert(s[s.len() - 1] == '}');
    lemma_skip_ws_still(s, s.len() - 1);
    lemma_skip_ws_still(s, s.len() as int);
}

fn object_end_exec(cs: &Vec<char>, e: usize) -> (r: bool)
    requires
        e <= cs@.len(),
    ensures
        r == object_end(cs@, e as int),
{
    let n = cs.len();
    let b = skip_ws_exec(cs, e);
    if b < n && cs[b] == '}' {
        skip_ws_exec(cs, b + 1) == n
    } else {
        false
    }
}

} // verus!
