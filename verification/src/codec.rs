//! The persisted roster format: a single JSON array of strings.
//!
//! The encoder below produces the one canonical encoding of a roster; the
//! decoder accepts exactly the canonical encodings and inverts the encoder.
//! Both directions are proved: decoding an encoding gives the roster back
//! (`lemma_round_trip`), and a text that decodes at all is the decoded
//! roster's encoding (`lemma_parse_sound`). Inside a string, `"` and `\` are
//! escaped with a backslash and control characters are written as a
//! lowercase `\u00..` escape; every other character stands for itself.

use vstd::prelude::*;

use crate::errors::IoError;

verus! {

// ---------------------------------------------------------------------------
// The canonical encoding, as spec functions.
// ---------------------------------------------------------------------------

/// The lowercase hexadecimal digit for a value below 16.
pub open spec fn hex_digit(n: u32) -> char
    recommends
        n < 16,
{
    if n == 0 {
        '0'
    } else if n == 1 {
        '1'
    } else if n == 2 {
        '2'
    } else if n == 3 {
        '3'
    } else if n == 4 {
        '4'
    } else if n == 5 {
        '5'
    } else if n == 6 {
        '6'
    } else if n == 7 {
        '7'
    } else if n == 8 {
        '8'
    } else if n == 9 {
        '9'
    } else if n == 10 {
        'a'
    } else if n == 11 {
        'b'
    } else if n == 12 {
        'c'
    } else if n == 13 {
        'd'
    } else if n == 14 {
        'e'
    } else {
        'f'
    }
}

/// How one character of a player name is written inside a quoted string.
pub open spec fn escape_char(c: char) -> Seq<char> {
    if c == '"' {
        seq!['\\', '"']
    } else if c == '\\' {
        seq!['\\', '\\']
    } else if (c as u32) < 32 {
        seq!['\\', 'u', '0', '0', hex_digit((c as u32) / 16), hex_digit((c as u32) % 16)]
    } else {
        seq![c]
    }
}

/// A whole player name, escaped character by character.
pub open spec fn escape_string(s: Seq<char>) -> Seq<char>
    decreases s.len(),
{
    if s.len() == 0 {
        Seq::empty()
    } else {
        escape_char(s[0]) + escape_string(s.drop_first())
    }
}

/// A player name as a quoted JSON string.
pub open spec fn quoted(s: Seq<char>) -> Seq<char> {
    seq!['"'] + escape_string(s) + seq!['"']
}

/// The comma-separated items between the brackets.
pub open spec fn json_items(players: Seq<Seq<char>>) -> Seq<char>
    decreases players.len(),
{
    if players.len() == 0 {
        Seq::empty()
    } else if players.len() == 1 {
        quoted(players[0])
    } else {
        quoted(players[0]) + seq![','] + json_items(players.drop_first())
    }
}

/// The canonical encoding of a roster: a JSON array of strings.
pub open spec fn json_of(players: Seq<Seq<char>>) -> Seq<char> {
    seq!['['] + json_items(players) + seq![']']
}

// ---------------------------------------------------------------------------
// Lemmas about the encoding.
// ---------------------------------------------------------------------------

/// Appending one more player extends the item list with a comma (except for
/// the first player).
proof fn lemma_json_items_push(players: Seq<Seq<char>>, p: Seq<char>)
    ensures
        json_items(players.push(p)) == if players.len() == 0 {
            quoted(p)
        } else {
            json_items(players) + seq![','] + quoted(p)
        },
    decreases players.len(),
{
    if players.len() == 0 {
        assert(players.push(p) =~= seq![p]);
        assert(json_items(seq![p]) == quoted(p));
    } else if players.len() == 1 {
        assert(players.push(p) =~= seq![players[0], p]);
        assert(json_items(players.push(p)) == quoted(players[0]) + seq![','] + json_items(
            players.push(p).drop_first(),
        ));
        assert(players.push(p).drop_first() =~= seq![p]);
    } else {
        lemma_json_items_push(players.drop_first(), p);
        assert(players.push(p).drop_first() =~= players.drop_first().push(p));
        assert(json_items(players) + seq![','] + quoted(p) =~= quoted(players[0]) + seq![','] + (
        json_items(players.drop_first()) + seq![','] + quoted(p)));
    }
}

/// Appending one more character extends the escaped text by that character's
/// escape.
proof fn lemma_escape_string_push(s: Seq<char>, c: char)
    ensures
        escape_string(s.push(c)) == escape_string(s) + escape_char(c),
    decreases s.len(),
{
    if s.len() == 0 {
        assert(s.push(c) =~= seq![c]);
        assert(seq![c].drop_first() =~= Seq::<char>::empty());
        assert(escape_string(seq![c]) == escape_char(c) + escape_string(Seq::<char>::empty()));
        assert(escape_char(c) + Seq::<char>::empty() =~= escape_char(c));
        assert(escape_string(s) + escape_char(c) =~= escape_char(c));
    } else {
        lemma_escape_string_push(s.drop_first(), c);
        assert(s.push(c).drop_first() =~= s.drop_first().push(c));
        assert(escape_string(s) + escape_char(c) =~= escape_char(s[0]) + (escape_string(
            s.drop_first(),
        ) + escape_char(c)));
    }
}

// ---------------------------------------------------------------------------
// The executable encoder.
// ---------------------------------------------------------------------------

/// Relies on `String::push` of std: appends exactly one character.
#[verifier::external_body]
pub(crate) fn push_char(out: &mut String, c: char)
    ensures
        final(out)@ == old(out)@ + seq![c],
{
    out.push(c);
}

/// The lowercase hexadecimal digit for a value below 16.
fn hex_digit_exec(n: u32) -> (c: char)
    requires
        n < 16,
    ensures
        c == hex_digit(n),
{
    match n {
        0 => '0',
        1 => '1',
        2 => '2',
        3 => '3',
        4 => '4',
        5 => '5',
        6 => '6',
        7 => '7',
        8 => '8',
        9 => '9',
        10 => 'a',
        11 => 'b',
        12 => 'c',
        13 => 'd',
        14 => 'e',
        _ => 'f',
    }
}

/// Appends the escape of one character.
fn push_escaped_char(out: &mut String, c: char)
    ensures
        final(out)@ == old(out)@ + escape_char(c),
{
    if c == '"' {
        push_char(out, '\\');
        push_char(out, '"');
    } else if c == '\\' {
        push_char(out, '\\');
        push_char(out, '\\');
    } else if (c as u32) < 32 {
        let code: u32 = c as u32;
        push_char(out, '\\');
        push_char(out, 'u');
        push_char(out, '0');
        push_char(out, '0');
        push_char(out, hex_digit_exec(code / 16));
        push_char(out, hex_digit_exec(code % 16));
        assert(out@ =~= old(out)@ + escape_char(c));
    } else {
        push_char(out, c);
    }
}

/// Appends the escaped text of a whole player name.
fn push_escaped(out: &mut String, s: &String)
    ensures
        final(out)@ == old(out)@ + escape_string(s@),
{
    let n = s.as_str().unicode_len();
    let mut j: usize = 0;
    while j < n
        invariant
            n == s@.len(),
            j <= n,
            out@ == old(out)@ + escape_string(s@.take(j as int)),
        decreases n - j,
    {
        let c = s.as_str().get_char(j);
        push_escaped_char(out, c);
        proof {
            lemma_escape_string_push(s@.take(j as int), s@[j as int]);
            assert(s@.take(j as int).push(s@[j as int]) =~= s@.take(j as int + 1));
        }
        j = j + 1;
    }
    proof {
        assert(s@.take(n as int) =~= s@);
    }
}

/// Encodes a roster into the canonical persisted form.
pub fn encode_roster(players: &Vec<String>) -> (r: String)
    ensures
        r@ == json_of(players.deep_view()),
{
    let mut out = String::new();
    push_char(&mut out, '[');
    let mut i: usize = 0;
    while i < players.len()
        invariant
            i <= players.len(),
            players.deep_view().len() == players.len(),
            out@ == seq!['['] + json_items(players.deep_view().take(i as int)),
        decreases players.len() - i,
    {
        if i > 0 {
            push_char(&mut out, ',');
        }
        push_char(&mut out, '"');
        push_escaped(&mut out, &players[i]);
        push_char(&mut out, '"');
        proof {
            let ghost pv = players.deep_view();
            assert(pv[i as int] == players[i as int]@);
            lemma_json_items_push(pv.take(i as int), pv[i as int]);
            assert(pv.take(i as int).push(pv[i as int]) =~= pv.take(i as int + 1));
            assert(out@ =~= seq!['['] + json_items(pv.take(i as int + 1)));
        }
        i = i + 1;
    }
    push_char(&mut out, ']');
    proof {
        assert(players.deep_view().take(players.len() as int) =~= players.deep_view());
        assert(out@ =~= json_of(players.deep_view()));
    }
    out
}

// ---------------------------------------------------------------------------
// The decoder's state machine, as spec functions.
// ---------------------------------------------------------------------------

/// Whether `c` is a digit the decoder accepts inside a `\u00..` escape:
/// `0`-`9` or lowercase `a`-`f`.
pub open spec fn is_hex_lower(c: char) -> bool {
    (48 <= (c as u32) && (c as u32) <= 57) || (97 <= (c as u32) && (c as u32) <= 102)
}

/// The value of a hexadecimal digit.
pub open spec fn hex_val(c: char) -> u32
    recommends
        is_hex_lower(c),
{
    if (c as u32) <= 57 {
        ((c as u32) - 48) as u32
    } else {
        ((c as u32) - 87) as u32
    }
}

/// The control character with the given code point.
pub open spec fn char_of_code(n: u32) -> char
    recommends
        n < 32,
{
    if n == 0 {
        '\x00'
    } else if n == 1 {
        '\x01'
    } else if n == 2 {
        '\x02'
    } else if n == 3 {
        '\x03'
    } else if n == 4 {
        '\x04'
    } else if n == 5 {
        '\x05'
    } else if n == 6 {
        '\x06'
    } else if n == 7 {
        '\x07'
    } else if n == 8 {
        '\x08'
    } else if n == 9 {
        '\x09'
    } else if n == 10 {
        '\x0a'
    } else if n == 11 {
        '\x0b'
    } else if n == 12 {
        '\x0c'
    } else if n == 13 {
        '\x0d'
    } else if n == 14 {
        '\x0e'
    } else if n == 15 {
        '\x0f'
    } else if n == 16 {
        '\x10'
    } else if n == 17 {
        '\x11'
    } else if n == 18 {
        '\x12'
    } else if n == 19 {
        '\x13'
    } else if n == 20 {
        '\x14'
    } else if n == 21 {
        '\x15'
    } else if n == 22 {
        '\x16'
    } else if n == 23 {
        '\x17'
    } else if n == 24 {
        '\x18'
    } else if n == 25 {
        '\x19'
    } else if n == 26 {
        '\x1a'
    } else if n == 27 {
        '\x1b'
    } else if n == 28 {
        '\x1c'
    } else if n == 29 {
        '\x1d'
    } else if n == 30 {
        '\x1e'
    } else {
        '\x1f'
    }
}

/// The decoder's state between two characters of input.
pub enum ParseState {
    /// Nothing read yet; the opening bracket is expected.
    Start,
    /// The opening bracket was read; a first string or the closing bracket
    /// is expected.
    AfterOpen,
    /// Inside a quoted string.
    InString { names: Seq<Seq<char>>, cur: Seq<char> },
    /// A backslash was read inside a string.
    Escape { names: Seq<Seq<char>>, cur: Seq<char> },
    /// Inside a `\u00..` escape; `seen` hex positions were read and `hi`
    /// holds the value of the third one.
    EscU { names: Seq<Seq<char>>, cur: Seq<char>, seen: int, hi: u32 },
    /// A string just closed; a comma or the closing bracket is expected.
    AfterString { names: Seq<Seq<char>> },
    /// A comma was read; another string is expected.
    ExpectString { names: Seq<Seq<char>> },
    /// The closing bracket was read; no character may follow.
    Done { names: Seq<Seq<char>> },
    /// The input cannot be a canonical roster encoding.
    Fail,
}

/// One step of the decoder on one character.
pub open spec fn pstep(st: ParseState, c: char) -> ParseState {
    match st {
        ParseState::Start => if c == '[' {
            ParseState::AfterOpen
        } else {
            ParseState::Fail
        },
        ParseState::AfterOpen => if c == ']' {
            ParseState::Done { names: Seq::empty() }
        } else if c == '"' {
            ParseState::InString { names: Seq::empty(), cur: Seq::empty() }
        } else {
            ParseState::Fail
        },
        ParseState::InString { names, cur } => if c == '"' {
            ParseState::AfterString { names: names.push(cur) }
        } else if c == '\\' {
            ParseState::Escape { names, cur }
        } else if (c as u32) < 32 {
            ParseState::Fail
        } else {
            ParseState::InString { names, cur: cur.push(c) }
        },
        ParseState::Escape { names, cur } => if c == '"' {
            ParseState::InString { names, cur: cur.push('"') }
        } else if c == '\\' {
            ParseState::InString { names, cur: cur.push('\\') }
        } else if c == 'u' {
            ParseState::EscU { names, cur, seen: 0, hi: 0 }
        } else {
            ParseState::Fail
        },
        ParseState::EscU { names, cur, seen, hi } => if seen == 0 || seen == 1 {
            if c == '0' {
                ParseState::EscU { names, cur, seen: seen + 1, hi: 0 }
            } else {
                ParseState::Fail
            }
        } else if seen == 2 {
            if c == '0' {
                ParseState::EscU { names, cur, seen: 3, hi: 0 }
            } else if c == '1' {
                ParseState::EscU { names, cur, seen: 3, hi: 1 }
            } else {
                ParseState::Fail
            }
        } else {
            if is_hex_lower(c) && hi < 2 {
                ParseState::InString {
                    names,
                    cur: cur.push(char_of_code((hi * 16 + hex_val(c)) as u32)),
                }
            } else {
                ParseState::Fail
            }
        },
        ParseState::AfterString { names } => if c == ',' {
            ParseState::ExpectString { names }
        } else if c == ']' {
            ParseState::Done { names }
        } else {
            ParseState::Fail
        },
        ParseState::ExpectString { names } => if c == '"' {
            ParseState::InString { names, cur: Seq::empty() }
        } else {
            ParseState::Fail
        },
        ParseState::Done { .. } => ParseState::Fail,
        ParseState::Fail => ParseState::Fail,
    }
}

/// The decoder's state after reading all of `s`, starting from `st`.
pub open spec fn prun_from(st: ParseState, s: Seq<char>) -> ParseState
    decreases s.len(),
{
    if s.len() == 0 {
        st
    } else {
        prun_from(pstep(st, s[0]), s.drop_first())
    }
}

/// What a persisted text means: the roster it canonically encodes, or
/// nothing.
pub open spec fn spec_parse(s: Seq<char>) -> Option<Seq<Seq<char>>> {
    match prun_from(ParseState::Start, s) {
        ParseState::Done { names } => Some(names),
        _ => None,
    }
}

/// Running over a concatenation runs over both parts in turn.
proof fn lemma_prun_concat(st: ParseState, a: Seq<char>, b: Seq<char>)
    ensures
        prun_from(st, a + b) == prun_from(prun_from(st, a), b),
    decreases a.len(),
{
    if a.len() == 0 {
        assert(a + b =~= b);
    } else {
        assert((a + b)[0] == a[0]);
        assert((a + b).drop_first() =~= a.drop_first() + b);
        lemma_prun_concat(pstep(st, a[0]), a.drop_first(), b);
    }
}

/// Reading one more character makes one more step.
proof fn lemma_prun_push(st: ParseState, s: Seq<char>, c: char)
    ensures
        prun_from(st, s.push(c)) == pstep(prun_from(st, s), c),
{
    assert(s.push(c) =~= s + seq![c]);
    lemma_prun_concat(st, s, seq![c]);
    assert(seq![c].drop_first() =~= Seq::<char>::empty());
    assert(prun_from(pstep(prun_from(st, s), c), Seq::<char>::empty()) == pstep(
        prun_from(st, s),
        c,
    ));
    assert(prun_from(prun_from(st, s), seq![c]) == pstep(prun_from(st, s), c));
}

// ---------------------------------------------------------------------------
// The executable decoder.
// ---------------------------------------------------------------------------

/// The decoder's mode, without the accumulated data.
enum Mode {
    Start,
    AfterOpen,
    InString,
    Escape,
    EscU,
    AfterString,
    ExpectString,
    Done,
    Fail,
}

/// The spec state that a mode and the accumulated data stand for.
spec fn abs(m: Mode, names: Seq<Seq<char>>, cur: Seq<char>, seen: int, hi: u32) -> ParseState {
    match m {
        Mode::Start => ParseState::Start,
        Mode::AfterOpen => ParseState::AfterOpen,
        Mode::InString => ParseState::InString { names, cur },
        Mode::Escape => ParseState::Escape { names, cur },
        Mode::EscU => ParseState::EscU { names, cur, seen, hi },
        Mode::AfterString => ParseState::AfterString { names },
        Mode::ExpectString => ParseState::ExpectString { names },
        Mode::Done => ParseState::Done { names },
        Mode::Fail => ParseState::Fail,
    }
}

/// The control character with the given code point.
fn control_char(code: u32) -> (c: char)
    requires
        code < 32,
    ensures
        c as u32 == code,
{
    match code {
        0 => '\x00',
        1 => '\x01',
        2 => '\x02',
        3 => '\x03',
        4 => '\x04',
        5 => '\x05',
        6 => '\x06',
        7 => '\x07',
        8 => '\x08',
        9 => '\x09',
        10 => '\x0a',
        11 => '\x0b',
        12 => '\x0c',
        13 => '\x0d',
        14 => '\x0e',
        15 => '\x0f',
        16 => '\x10',
        17 => '\x11',
        18 => '\x12',
        19 => '\x13',
        20 => '\x14',
        21 => '\x15',
        22 => '\x16',
        23 => '\x17',
        24 => '\x18',
        25 => '\x19',
        26 => '\x1a',
        27 => '\x1b',
        28 => '\x1c',
        29 => '\x1d',
        30 => '\x1e',
        _ => '\x1f',
    }
}

/// Decodes a persisted text back into a roster. Succeeds exactly on the
/// canonical encodings; anything else is a corrupt store.
pub fn decode_roster(s: &str) -> (r: Result<Vec<String>, IoError>)
    ensures
        match r {
            Ok(v) => spec_parse(s@) == Some(v.deep_view()),
            Err(e) => spec_parse(s@) is None && e == IoError::Corrupt,
        },
{
    let n = s.unicode_len();
    let mut mode = Mode::Start;
    let mut names: Vec<String> = Vec::new();
    let mut cur = String::new();
    let mut seen: u8 = 0;
    let mut hi: u32 = 0;
    let mut i: usize = 0;
    while i < n
        invariant
            n == s@.len(),
            i <= n,
            hi < 2,
            mode is Start || mode is AfterOpen ==> names@.len() == 0 && cur@.len() == 0,
            abs(mode, names.deep_view(), cur@, seen as int, hi) == prun_from(
                ParseState::Start,
                s@.take(i as int),
            ),
        decreases n - i,
    {
        let c = s.get_char(i);
        proof {
            lemma_prun_push(ParseState::Start, s@.take(i as int), c);
            assert(s@.take(i as int).push(s@[i as int]) =~= s@.take(i as int + 1));
        }
        let ghost old_names = names.deep_view();
        let ghost old_cur = cur@;
        match mode {
            Mode::Start => {
                if c == '[' {
                    mode = Mode::AfterOpen;
                } else {
                    mode = Mode::Fail;
                }
            },
            Mode::AfterOpen => {
                if c == ']' {
                    mode = Mode::Done;
                    proof {
                        assert(names.deep_view() =~= Seq::<Seq<char>>::empty());
                    }
                } else if c == '"' {
                    mode = Mode::InString;
                    proof {
                        assert(names.deep_view() =~= Seq::<Seq<char>>::empty());
                        assert(cur@ =~= Seq::<char>::empty());
                    }
                } else {
                    mode = Mode::Fail;
                }
            },
            Mode::InString => {
                if c == '"' {
                    names.push(cur);
                    cur = String::new();
                    mode = Mode::AfterString;
                    proof {
                        assert(names.deep_view() =~= old_names.push(old_cur));
                    }
                } else if c == '\\' {
                    mode = Mode::Escape;
                } else if (c as u32) < 32 {
                    mode = Mode::Fail;
                } else {
                    push_char(&mut cur, c);
                    proof {
                        assert(cur@ =~= old_cur.push(c));
                    }
                }
            },
            Mode::Escape => {
                if c == '"' {
                    push_char(&mut cur, '"');
                    mode = Mode::InString;
                    proof {
                        assert(cur@ =~= old_cur.push('"'));
                    }
                } else if c == '\\' {
                    push_char(&mut cur, '\\');
                    mode = Mode::InString;
                    proof {
                        assert(cur@ =~= old_cur.push('\\'));
                    }
                } else if c == 'u' {
                    mode = Mode::EscU;
                    seen = 0;
                    hi = 0;
                } else {
                    mode = Mode::Fail;
                }
            },
            Mode::EscU => {
                if seen == 0 || seen == 1 {
                    if c == '0' {
                        seen = seen + 1;
                        hi = 0;
                    } else {
                        mode = Mode::Fail;
                    }
                } else if seen == 2 {
                    if c == '0' {
                        hi = 0;
                        seen = 3;
                    } else if c == '1' {
                        hi = 1;
                        seen = 3;
                    } else {
                        mode = Mode::Fail;
                    }
                } else {
                    let u = c as u32;
                    if (48 <= u && u <= 57) || (97 <= u && u <= 102) {
                        let val = if u <= 57 {
                            u - 48
                        } else {
                            u - 87
                        };
                        let code = hi * 16 + val;
                        let ch = control_char(code);
                        proof {
                            assert(char_of_code(code) as u32 == code);
                            vstd::utf8::char_u32_cast(ch, code);
                            vstd::utf8::char_u32_cast(char_of_code(code), code);
                            assert(ch == char_of_code(code));
                            assert(val == hex_val(c));
                        }
                        push_char(&mut cur, ch);
                        mode = Mode::InString;
                        proof {
                            assert(cur@ =~= old_cur.push(ch));
                        }
                    } else {
                        mode = Mode::Fail;
                    }
                }
            },
            Mode::AfterString => {
                if c == ',' {
                    mode = Mode::ExpectString;
                } else if c == ']' {
                    mode = Mode::Done;
                } else {
                    mode = Mode::Fail;
                }
            },
            Mode::ExpectString => {
                if c == '"' {
                    cur = String::new();
                    mode = Mode::InString;
                    proof {
                        assert(cur@ =~= Seq::<char>::empty());
                    }
                } else {
                    mode = Mode::Fail;
                }
            },
            Mode::Done => {
                mode = Mode::Fail;
            },
            Mode::Fail => {
            },
        }
        i = i + 1;
    }
    proof {
        assert(s@.take(n as int) =~= s@);
    }
    match mode {
        Mode::Done => Ok(names),
        _ => Err(IoError::Corrupt),
    }
}

// ---------------------------------------------------------------------------
// The round-trip law: decoding a canonical encoding gives the roster back.
// ---------------------------------------------------------------------------

/// A single character makes a single step.
proof fn lemma_prun_one(st: ParseState, c: char)
    ensures
        prun_from(st, seq![c]) == pstep(st, c),
{
    assert(seq![c].drop_first() =~= Seq::<char>::empty());
    assert(seq![c][0] == c);
    assert(prun_from(pstep(st, c), Seq::<char>::empty()) == pstep(st, c));
}

/// Reading the escape of `c` while inside a string appends exactly `c` to the
/// current name.
proof fn lemma_escape_char_steps(names: Seq<Seq<char>>, cur: Seq<char>, c: char)
    ensures
        prun_from(ParseState::InString { names, cur }, escape_char(c)) == (ParseState::InString {
            names,
            cur: cur.push(c),
        }),
{
    let st = ParseState::InString { names, cur };
    let e = escape_char(c);
    if c == '"' {
        assert(e.drop_first() =~= seq!['"']);
        lemma_prun_one(pstep(st, '\\'), '"');
        assert(prun_from(st, e) == prun_from(pstep(st, '\\'), seq!['"']));
    } else if c == '\\' {
        assert(e.drop_first() =~= seq!['\\']);
        lemma_prun_one(pstep(st, '\\'), '\\');
        assert(prun_from(st, e) == prun_from(pstep(st, '\\'), seq!['\\']));
    } else if (c as u32) < 32 {
        let u = c as u32;
        let h1 = hex_digit(u / 16);
        let h2 = hex_digit(u % 16);
        let s1 = pstep(st, '\\');
        let s2 = pstep(s1, 'u');
        let s3 = pstep(s2, '0');
        let s4 = pstep(s3, '0');
        let s5 = pstep(s4, h1);
        let s6 = pstep(s5, h2);
        assert(u / 16 == 0 || u / 16 == 1);
        assert(h1 == '0' || h1 == '1');
        assert(s1 == ParseState::Escape { names, cur });
        assert(s2 == ParseState::EscU { names, cur, seen: 0, hi: 0 });
        assert(s3 == ParseState::EscU { names, cur, seen: 1, hi: 0 });
        assert(s4 == ParseState::EscU { names, cur, seen: 2, hi: 0 });
        assert(s5 == ParseState::EscU { names, cur, seen: 3, hi: u / 16 });
        assert(is_hex_lower(h2));
        assert(hex_val(h2) == u % 16);
        assert((u / 16) * 16 + u % 16 == u);
        assert(char_of_code(u) as u32 == u);
        vstd::utf8::char_u32_cast(c, u);
        vstd::utf8::char_u32_cast(char_of_code(u), u);
        assert(char_of_code(((u / 16) * 16 + hex_val(h2)) as u32) == c);
        assert(s6 == ParseState::InString { names, cur: cur.push(c) });
        let e1 = seq!['u', '0', '0', h1, h2];
        let e2 = seq!['0', '0', h1, h2];
        let e3 = seq!['0', h1, h2];
        let e4 = seq![h1, h2];
        assert(e.drop_first() =~= e1);
        assert(e1.drop_first() =~= e2);
        assert(e2.drop_first() =~= e3);
        assert(e3.drop_first() =~= e4);
        assert(e4.drop_first() =~= seq![h2]);
        assert(prun_from(st, e) == prun_from(s1, e1));
        assert(prun_from(s1, e1) == prun_from(s2, e2));
        assert(prun_from(s2, e2) == prun_from(s3, e3));
        assert(prun_from(s3, e3) == prun_from(s4, e4));
        assert(prun_from(s4, e4) == prun_from(s5, seq![h2]));
        lemma_prun_one(s5, h2);
    } else {
        assert(e =~= seq![c]);
        lemma_prun_one(st, c);
    }
}

/// Reading the escaped text of a name while inside a string appends exactly
/// that name to the current one.
proof fn lemma_escape_string_steps(names: Seq<Seq<char>>, cur: Seq<char>, s: Seq<char>)
    ensures
        prun_from(ParseState::InString { names, cur }, escape_string(s)) == (ParseState::InString {
            names,
            cur: cur + s,
        }),
    decreases s.len(),
{
    if s.len() == 0 {
        assert(cur + s =~= cur);
    } else {
        lemma_prun_concat(
            ParseState::InString { names, cur },
            escape_char(s[0]),
            escape_string(s.drop_first()),
        );
        lemma_escape_char_steps(names, cur, s[0]);
        lemma_escape_string_steps(names, cur.push(s[0]), s.drop_first());
        assert(cur.push(s[0]) + s.drop_first() =~= cur + s);
    }
}

/// Reading one quoted name from a state that expects a string closes it with
/// the name appended to the list.
proof fn lemma_quoted_steps(st: ParseState, names: Seq<Seq<char>>, p: Seq<char>)
    requires
        pstep(st, '"') == (ParseState::InString { names, cur: Seq::<char>::empty() }),
    ensures
        prun_from(st, quoted(p)) == (ParseState::AfterString { names: names.push(p) }),
{
    let empty = Seq::<char>::empty();
    assert(quoted(p) =~= seq!['"'] + (escape_string(p) + seq!['"']));
    lemma_prun_concat(st, seq!['"'], escape_string(p) + seq!['"']);
    lemma_prun_one(st, '"');
    lemma_prun_concat(ParseState::InString { names, cur: empty }, escape_string(p), seq!['"']);
    lemma_escape_string_steps(names, empty, p);
    assert(empty + p =~= p);
    lemma_prun_one(ParseState::InString { names, cur: p }, '"');
}

/// Reading the whole item list from a state that expects a string appends
/// every name, in order.
proof fn lemma_items_steps(st: ParseState, names: Seq<Seq<char>>, players: Seq<Seq<char>>)
    requires
        players.len() >= 1,
        pstep(st, '"') == (ParseState::InString { names, cur: Seq::<char>::empty() }),
    ensures
        prun_from(st, json_items(players)) == (ParseState::AfterString { names: names + players }),
    decreases players.len(),
{
    if players.len() == 1 {
        lemma_quoted_steps(st, names, players[0]);
        assert(names.push(players[0]) =~= names + players);
    } else {
        let rest = players.drop_first();
        assert(json_items(players) =~= quoted(players[0]) + (seq![','] + json_items(rest)));
        lemma_prun_concat(st, quoted(players[0]), seq![','] + json_items(rest));
        lemma_quoted_steps(st, names, players[0]);
        let n2 = names.push(players[0]);
        lemma_prun_concat(ParseState::AfterString { names: n2 }, seq![','], json_items(rest));
        lemma_prun_one(ParseState::AfterString { names: n2 }, ',');
        lemma_items_steps(ParseState::ExpectString { names: n2 }, n2, rest);
        assert(n2 + rest =~= names + players);
    }
}

// ---------------------------------------------------------------------------
// The soundness law: the decoder accepts nothing but canonical encodings.
// ---------------------------------------------------------------------------

/// The names of a string list, each quoted and followed by a comma: the text
/// consumed by the time the decoder stands before a further string.
spec fn led(names: Seq<Seq<char>>) -> Seq<char>
    decreases names.len(),
{
    if names.len() == 0 {
        Seq::empty()
    } else {
        quoted(names[0]) + seq![','] + led(names.drop_first())
    }
}

/// A nonempty comma-led list is the item list with one trailing comma.
proof fn lemma_led_items(names: Seq<Seq<char>>)
    requires
        names.len() >= 1,
    ensures
        led(names) == json_items(names) + seq![','],
    decreases names.len(),
{
    if names.len() == 1 {
        assert(led(names.drop_first()) =~= Seq::<char>::empty());
        assert(led(names) =~= quoted(names[0]) + seq![',']);
    } else {
        lemma_led_items(names.drop_first());
        assert(led(names) =~= quoted(names[0]) + seq![','] + (json_items(names.drop_first())
            + seq![',']));
        assert(json_items(names) + seq![','] =~= quoted(names[0]) + seq![','] + (json_items(
            names.drop_first(),
        ) + seq![',']));
    }
}

/// Closing one more name extends the item list past the led prefix.
proof fn lemma_items_after_led(names: Seq<Seq<char>>, p: Seq<char>)
    ensures
        json_items(names.push(p)) == led(names) + quoted(p),
{
    lemma_json_items_push(names, p);
    if names.len() == 0 {
        assert(led(names) + quoted(p) =~= quoted(p));
    } else {
        lemma_led_items(names);
        assert(json_items(names) + seq![','] + quoted(p) =~= (json_items(names) + seq![','])
            + quoted(p));
    }
}

/// The canonical hexadecimal digit of a digit's value is that digit again.
proof fn lemma_hex_digit_of_val(c: char)
    requires
        is_hex_lower(c),
    ensures
        hex_digit(hex_val(c)) == c,
{
    assert(hex_digit(hex_val(c)) as u32 == c as u32);
    vstd::utf8::char_u32_cast(c, c as u32);
    vstd::utf8::char_u32_cast(hex_digit(hex_val(c)), c as u32);
}

/// The states the decoder can actually reach: a comma or a closed string
/// presupposes at least one name, and a `\u00..` escape in progress holds
/// only what its two meaningful digits allow.
spec fn pwf(st: ParseState) -> bool {
    match st {
        ParseState::AfterString { names } => names.len() >= 1,
        ParseState::ExpectString { names } => names.len() >= 1,
        ParseState::EscU { seen, hi, .. } => 0 <= seen <= 3 && hi < 2 && (seen < 3 ==> hi == 0),
        _ => true,
    }
}

/// The part of a `\u00..` escape read so far.
spec fn esc_u_part(seen: int, hi: u32) -> Seq<char> {
    if seen <= 0 {
        Seq::empty()
    } else if seen == 1 {
        seq!['0']
    } else if seen == 2 {
        seq!['0', '0']
    } else {
        seq!['0', '0', hex_digit(hi)]
    }
}

/// The one input text that brings the decoder from its start to this state.
spec fn repr(st: ParseState) -> Seq<char> {
    match st {
        ParseState::Start => Seq::empty(),
        ParseState::AfterOpen => seq!['['],
        ParseState::InString { names, cur } => seq!['['] + led(names) + seq!['"'] + escape_string(
            cur,
        ),
        ParseState::Escape { names, cur } => seq!['['] + led(names) + seq!['"'] + escape_string(cur)
            + seq!['\\'],
        ParseState::EscU { names, cur, seen, hi } => seq!['['] + led(names) + seq!['"']
            + escape_string(cur) + seq!['\\', 'u'] + esc_u_part(seen, hi),
        ParseState::AfterString { names } => seq!['['] + json_items(names),
        ParseState::ExpectString { names } => seq!['['] + json_items(names) + seq![','],
        ParseState::Done { names } => json_of(names),
        ParseState::Fail => Seq::empty(),
    }
}

/// Every step the decoder survives appends exactly its character to the one
/// text that reaches the state.
proof fn lemma_pstep_repr(st: ParseState, c: char)
    requires
        pwf(st),
        !(pstep(st, c) is Fail),
    ensures
        pwf(pstep(st, c)),
        repr(pstep(st, c)) == repr(st) + seq![c],
{
    let next = pstep(st, c);
    match st {
        ParseState::Start => {
            assert(repr(next) =~= repr(st) + seq![c]);
        },
        ParseState::AfterOpen => {
            if c == ']' {
                assert(json_items(Seq::<Seq<char>>::empty()) =~= Seq::<char>::empty());
                assert(repr(next) =~= repr(st) + seq![c]);
            } else {
                assert(led(Seq::<Seq<char>>::empty()) =~= Seq::<char>::empty());
                assert(escape_string(Seq::<char>::empty()) =~= Seq::<char>::empty());
                assert(repr(next) =~= repr(st) + seq![c]);
            }
        },
        ParseState::InString { names, cur } => {
            if c == '"' {
                lemma_items_after_led(names, cur);
                assert(repr(next) =~= repr(st) + seq![c]);
            } else if c == '\\' {
                assert(repr(next) =~= repr(st) + seq![c]);
            } else {
                lemma_escape_string_push(cur, c);
                assert(escape_char(c) =~= seq![c]);
                assert(repr(next) =~= repr(st) + seq![c]);
            }
        },
        ParseState::Escape { names, cur } => {
            if c == '"' {
                lemma_escape_string_push(cur, '"');
                assert(escape_char('"') =~= seq!['\\', '"']);
                assert(repr(next) =~= repr(st) + seq![c]);
            } else if c == '\\' {
                lemma_escape_string_push(cur, '\\');
                assert(escape_char('\\') =~= seq!['\\', '\\']);
                assert(repr(next) =~= repr(st) + seq![c]);
            } else {
                assert(esc_u_part(0, 0) =~= Seq::<char>::empty());
                assert(repr(next) =~= repr(st) + seq![c]);
            }
        },
        ParseState::EscU { names, cur, seen, hi } => {
            if seen == 0 || seen == 1 || seen == 2 {
                assert(repr(next) =~= repr(st) + seq![c]);
            } else {
                let code = (hi * 16 + hex_val(c)) as u32;
                let ch = char_of_code(code);
                assert(char_of_code(code) as u32 == code);
                assert((ch as u32) < 32);
                assert(ch != '"' && ch != '\\');
                assert((ch as u32) / 16 == hi && (ch as u32) % 16 == hex_val(c));
                lemma_hex_digit_of_val(c);
                assert(escape_char(ch) =~= seq!['\\', 'u', '0', '0', hex_digit(hi), c]);
                lemma_escape_string_push(cur, ch);
                assert(repr(next) =~= repr(st) + seq![c]);
            }
        },
        ParseState::AfterString { names } => {
            assert(repr(next) =~= repr(st) + seq![c]);
        },
        ParseState::ExpectString { names } => {
            lemma_led_items(names);
            assert(repr(next) =~= repr(st) + seq![c]);
        },
        ParseState::Done { .. } => {
            assert(false);
        },
        ParseState::Fail => {
            assert(false);
        },
    }
}

/// A run the decoder survives has consumed exactly the one text that reaches
/// its final state.
proof fn lemma_prun_repr(s: Seq<char>)
    requires
        !(prun_from(ParseState::Start, s) is Fail),
    ensures
        pwf(prun_from(ParseState::Start, s)),
        repr(prun_from(ParseState::Start, s)) == s,
    decreases s.len(),
{
    if s.len() == 0 {
        assert(repr(ParseState::Start) =~= s);
    } else {
        let prefix = s.drop_last();
        lemma_prun_push(ParseState::Start, prefix, s.last());
        assert(prefix.push(s.last()) =~= s);
        let mid = prun_from(ParseState::Start, prefix);
        assert(!(mid is Fail));
        lemma_prun_repr(prefix);
        lemma_pstep_repr(mid, s.last());
        assert(repr(prun_from(ParseState::Start, s)) =~= s);
    }
}

/// The soundness law of the persisted roster store: a text the decoder reads
/// as a roster is exactly that roster's canonical encoding — the store
/// accepts nothing the encoder would not write.
pub proof fn lemma_parse_sound(s: Seq<char>, players: Seq<Seq<char>>)
    requires
        spec_parse(s) == Some(players),
    ensures
        s == json_of(players),
{
    lemma_prun_repr(s);
}

/// The round-trip law of the persisted roster store: decoding the canonical
/// encoding of any roster, the empty one included, yields that roster again,
/// same elements in the same order.
pub proof fn lemma_round_trip(players: Seq<Seq<char>>)
    ensures
        spec_parse(json_of(players)) == Some(players),
{
    let s = json_of(players);
    let no_names = Seq::<Seq<char>>::empty();
    if players.len() == 0 {
        assert(s =~= seq!['[', ']']);
        assert(s.drop_first() =~= seq![']']);
        lemma_prun_one(ParseState::AfterOpen, ']');
        assert(prun_from(ParseState::Start, s) == prun_from(ParseState::AfterOpen, seq![']']));
        assert(prun_from(ParseState::Start, s) == (ParseState::Done { names: no_names }));
        assert(no_names =~= players);
    } else {
        assert(s =~= seq!['['] + (json_items(players) + seq![']']));
        lemma_prun_concat(ParseState::Start, seq!['['], json_items(players) + seq![']']);
        lemma_prun_one(ParseState::Start, '[');
        lemma_prun_concat(ParseState::AfterOpen, json_items(players), seq![']']);
        lemma_items_steps(ParseState::AfterOpen, no_names, players);
        assert(no_names + players =~= players);
        lemma_prun_one(ParseState::AfterString { names: players }, ']');
    }
}

} // verus!
