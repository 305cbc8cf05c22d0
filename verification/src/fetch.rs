//! Decoding the due-executions response.
//!
//! A successful fetch returns a JSON array of execution records,
//! `{"id": ..., "task": {"id": ..., "name": ..., "payload": ...},
//! "startTime": ...}`. The reader accepts what a standard JSON decoder
//! accepts for these records: arbitrary whitespace, object members in
//! any order, unknown members (ignored), the full string escape set
//! (`\"`, `\\`, `\/`, `\b`, `\f`, `\n`, `\r`, `\t` and `\uXXXX`,
//! including surrogate pairs), and timestamps over the whole 64-bit
//! signed range. A duplicated known member is rejected, as record
//! decoders reject it. The value of an unknown member is skipped by
//! bracket matching under a fixed nesting bound (mainstream decoders
//! bound their recursion the same way) rather than fully validated.
//! The reader is proved equal to a spec-level parser of exactly this
//! grammar.

use vstd::prelude::*;
use vstd::utf8::is_scalar;
use crate::lifecycle::Execution;
use crate::lifecycle::Task;
use crate::wire::has_lit_at;
use crate::wire::lit_at;
use crate::wire::is_json_ws;
use crate::wire::skip_ws;
use crate::wire::skip_ws_spec;

verus! {

/// How deep the bracket scanner follows nesting inside an unknown,
/// skipped member before giving up on the body.
pub const SKIP_NESTING_LIMIT: u64 = 128;

/// The mathematical content of a [`Task`].
pub ghost struct TaskModel {
    pub id: Seq<char>,
    pub name: Seq<char>,
    pub payload: Seq<char>,
}

/// The mathematical content of an [`Execution`].
pub ghost struct ExecutionModel {
    pub id: Seq<char>,
    pub task: TaskModel,
    pub start_time: int,
}

impl View for Task {
    type V = TaskModel;

    open spec fn view(&self) -> TaskModel {
        TaskModel { id: self.id@, name: self.name@, payload: self.payload@ }
    }
}

impl View for Execution {
    type V = ExecutionModel;

    open spec fn view(&self) -> ExecutionModel {
        ExecutionModel {
            id: self.id@,
            task: self.task@,
            start_time: self.start_time as int,
        }
    }
}

/// The models of a sequence of executions, element by element.
pub open spec fn models_of(v: Seq<Execution>) -> Seq<ExecutionModel> {
    Seq::new(v.len(), |k: int| v[k]@)
}

/// The views of optionally-collected string members.
pub open spec fn str_opt_view(o: Option<String>) -> Option<Seq<char>> {
    match o {
        Option::Some(x) => Option::Some(x@),
        Option::None => Option::None,
    }
}

// ---------------------------------------------------------------------
// Strings
// ---------------------------------------------------------------------

/// What a single-character backslash escape stands for; `None` for a
/// character that is no such escape (`u` begins a numeric escape and is
/// handled separately).
pub open spec fn unescape_char(c: char) -> Option<char> {
    if c == '"' {
        Option::Some('"')
    } else if c == '\\' {
        Option::Some('\\')
    } else if c == '/' {
        Option::Some('/')
    } else if c == 'b' {
        Option::Some('\u{8}')
    } else if c == 'f' {
        Option::Some('\u{c}')
    } else if c == 'n' {
        Option::Some('\n')
    } else if c == 'r' {
        Option::Some('\r')
    } else if c == 't' {
        Option::Some('\t')
    } else {
        Option::None
    }
}

/// An ASCII hex digit.
pub open spec fn is_hex_digit(c: char) -> bool {
    48 <= c as int <= 57 || 97 <= c as int <= 102 || 65 <= c as int <= 70
}

/// The numeric value of an ASCII hex digit.
pub open spec fn hex_val(c: char) -> int {
    if 48 <= c as int <= 57 {
        c as int - 48
    } else if 97 <= c as int <= 102 {
        c as int - 87
    } else {
        c as int - 55
    }
}

/// The value of four hex digits starting at `i`.
pub open spec fn hex4_at(s: Seq<char>, i: int) -> Option<int> {
    if 0 <= i && i + 4 <= s.len() && is_hex_digit(s[i]) && is_hex_digit(s[i + 1]) && is_hex_digit(
        s[i + 2],
    ) && is_hex_digit(s[i + 3]) {
        Option::Some(
            ((hex_val(s[i]) * 16 + hex_val(s[i + 1])) * 16 + hex_val(s[i + 2])) * 16 + hex_val(
                s[i + 3],
            ),
        )
    } else {
        Option::None
    }
}

/// A `\uXXXX` escape whose four hex digits start at `i`: the character
/// it denotes and the position just past it. A high surrogate must be
/// followed by a low surrogate (the pair combines into one character);
/// a lone surrogate is rejected.
pub open spec fn unicode_escape_at(s: Seq<char>, i: int) -> Option<(char, int)> {
    match hex4_at(s, i) {
        Option::Some(h) => {
            if 0xD800 <= h <= 0xDBFF {
                if i + 6 <= s.len() && s[i + 4] == '\\' && s[i + 5] == 'u' {
                    match hex4_at(s, i + 6) {
                        Option::Some(l) => {
                            if 0xDC00 <= l <= 0xDFFF {
                                let cp = 0x10000 + (h - 0xD800) * 0x400 + (l - 0xDC00);
                                Option::Some(((cp as u32) as char, i + 10))
                            } else {
                                Option::None
                            }
                        },
                        Option::None => Option::None,
                    }
                } else {
                    Option::None
                }
            } else if 0xDC00 <= h <= 0xDFFF {
                Option::None
            } else {
                Option::Some(((h as u32) as char, i + 4))
            }
        },
        Option::None => Option::None,
    }
}

/// The body of a JSON string starting just after its opening quote:
/// the decoded value and the position just past the closing quote.
pub open spec fn string_body_spec(s: Seq<char>, i: int) -> Option<(Seq<char>, int)>
    decreases s.len() - i,
    via string_body_decreases
{
    if 0 <= i < s.len() {
        if s[i] == '"' {
            Option::Some((Seq::empty(), i + 1))
        } else if s[i] == '\\' {
            if i + 1 < s.len() {
                if s[i + 1] == 'u' {
                    match unicode_escape_at(s, i + 2) {
                        Option::Some(u) => match string_body_spec(s, u.1) {
                            Option::Some(p) => Option::Some((seq![u.0] + p.0, p.1)),
                            Option::None => Option::None,
                        },
                        Option::None => Option::None,
                    }
                } else {
                    match unescape_char(s[i + 1]) {
                        Option::Some(c) => match string_body_spec(s, i + 2) {
                            Option::Some(p) => Option::Some((seq![c] + p.0, p.1)),
                            Option::None => Option::None,
                        },
                        Option::None => Option::None,
                    }
                }
            } else {
                Option::None
            }
        } else {
            match string_body_spec(s, i + 1) {
                Option::Some(p) => Option::Some((seq![s[i]] + p.0, p.1)),
                Option::None => Option::None,
            }
        }
    } else {
        Option::None
    }
}

#[via_fn]
proof fn string_body_decreases(s: Seq<char>, i: int) {
}

/// A JSON string at position `i`: its decoded value and the position
/// just past it.
pub open spec fn parse_string_at(s: Seq<char>, i: int) -> Option<(Seq<char>, int)> {
    if 0 <= i < s.len() && s[i] == '"' {
        string_body_spec(s, i + 1)
    } else {
        Option::None
    }
}

// ---------------------------------------------------------------------
// Integers
// ---------------------------------------------------------------------

/// An ASCII decimal digit.
pub open spec fn is_digit_char(c: char) -> bool {
    48 <= c as int <= 57
}

/// The numeric value of an ASCII decimal digit.
pub open spec fn digit_val(c: char) -> int {
    c as int - 48
}

/// A run of digits starting at `i`, folded left onto `acc`; rejects a
/// magnitude beyond what a 64-bit signed integer can carry (after the
/// sign is applied).
pub open spec fn int_body_spec(s: Seq<char>, i: int, acc: int) -> Option<(int, int)>
    decreases s.len() - i,
{
    if 0 <= i < s.len() && is_digit_char(s[i]) {
        if acc * 10 + digit_val(s[i]) > 9223372036854775808 {
            Option::None
        } else {
            let acc2 = acc * 10 + digit_val(s[i]);
            if i + 1 < s.len() && is_digit_char(s[i + 1]) {
                int_body_spec(s, i + 1, acc2)
            } else {
                Option::Some((acc2, i + 1))
            }
        }
    } else {
        Option::None
    }
}

/// A JSON integer at position `i` (an optional minus sign and at least
/// one digit): its value and the position just past it. Exactly the
/// 64-bit signed range is accepted.
pub open spec fn parse_int_at(s: Seq<char>, i: int) -> Option<(int, int)> {
    if 0 <= i < s.len() && s[i] == '-' {
        match int_body_spec(s, i + 1, 0) {
            Option::Some(p) => Option::Some((-p.0, p.1)),
            Option::None => Option::None,
        }
    } else {
        match int_body_spec(s, i, 0) {
            Option::Some(p) => {
                if p.0 <= 9223372036854775807 {
                    Option::Some((p.0, p.1))
                } else {
                    Option::None
                }
            },
            Option::None => Option::None,
        }
    }
}

// ---------------------------------------------------------------------
// Skipping unknown members
// ---------------------------------------------------------------------

/// The extent of a string scanned for skipping only: the position just
/// past the closing quote. Escapes are stepped over, not decoded.
pub open spec fn scan_string_spec(s: Seq<char>, i: int) -> Option<int>
    decreases s.len() - i,
{
    if 0 <= i < s.len() {
        if s[i] == '\\' {
            if i + 1 < s.len() {
                scan_string_spec(s, i + 2)
            } else {
                Option::None
            }
        } else if s[i] == '"' {
            Option::Some(i + 1)
        } else {
            scan_string_spec(s, i + 1)
        }
    } else {
        Option::None
    }
}

/// The extent of a bracketed value scanned for skipping: from just
/// after its opening bracket, with `depth` brackets open, to just past
/// the bracket that closes the first one. Strings are stepped over;
/// bracket kinds are not distinguished; nesting beyond the limit is
/// rejected.
pub open spec fn scan_nested_spec(
    s: Seq<char>,
    i: int,
    depth: int,
    in_str: bool,
    esc: bool,
) -> Option<int>
    decreases s.len() - i,
{
    if 0 <= i < s.len() {
        if in_str {
            if esc {
                scan_nested_spec(s, i + 1, depth, true, false)
            } else if s[i] == '\\' {
                scan_nested_spec(s, i + 1, depth, true, true)
            } else if s[i] == '"' {
                scan_nested_spec(s, i + 1, depth, false, false)
            } else {
                scan_nested_spec(s, i + 1, depth, true, false)
            }
        } else {
            if s[i] == '"' {
                scan_nested_spec(s, i + 1, depth, true, false)
            } else if s[i] == '{' || s[i] == '[' {
                if depth >= SKIP_NESTING_LIMIT {
                    Option::None
                } else {
                    scan_nested_spec(s, i + 1, depth + 1, false, false)
                }
            } else if s[i] == '}' || s[i] == ']' {
                if depth == 1 {
                    Option::Some(i + 1)
                } else {
                    scan_nested_spec(s, i + 1, depth - 1, false, false)
                }
            } else {
                scan_nested_spec(s, i + 1, depth, false, false)
            }
        }
    } else {
        Option::None
    }
}

/// The extent of a primitive (number or keyword) scanned for skipping:
/// up to the first delimiter, whitespace or end of input.
pub open spec fn scan_primitive_spec(s: Seq<char>, i: int) -> int
    decreases s.len() - i,
{
    if 0 <= i < s.len() && !(is_json_ws(s[i]) || s[i] == ',' || s[i] == '}' || s[i] == ']') {
        scan_primitive_spec(s, i + 1)
    } else {
        i
    }
}

/// The extent of one skipped JSON value at (non-whitespace) position
/// `i`: the position just past it, or `None` where no value starts.
pub open spec fn skip_value_spec(s: Seq<char>, i: int) -> Option<int> {
    if 0 <= i < s.len() {
        if s[i] == '"' {
            scan_string_spec(s, i + 1)
        } else if s[i] == '{' || s[i] == '[' {
            scan_nested_spec(s, i + 1, 1, false, false)
        } else if s[i] == '-' || is_digit_char(s[i]) || s[i] == 't' || s[i] == 'f' || s[i] == 'n' {
            Option::Some(scan_primitive_spec(s, i + 1))
        } else {
            Option::None
        }
    } else {
        Option::None
    }
}

// ---------------------------------------------------------------------
// Progress lemmas (what each parser consumes)
// ---------------------------------------------------------------------

proof fn lemma_skip_ws_lb(s: Seq<char>, i: int)
    ensures
        skip_ws_spec(s, i) >= i,
    decreases s.len() - i,
{
    if i < s.len() && is_json_ws(s[i]) {
        lemma_skip_ws_lb(s, i + 1);
    }
}

proof fn lemma_string_body_lb(s: Seq<char>, i: int)
    ensures
        string_body_spec(s, i) is Some ==> i < (string_body_spec(s, i)->Some_0).1,
    decreases s.len() - i,
{
    if 0 <= i < s.len() {
        if s[i] == '"' {
        } else if s[i] == '\\' {
            if i + 1 < s.len() {
                if s[i + 1] == 'u' {
                    match unicode_escape_at(s, i + 2) {
                        Option::Some(u) => {
                            lemma_string_body_lb(s, u.1);
                        },
                        Option::None => {},
                    }
                } else if unescape_char(s[i + 1]) is Some {
                    lemma_string_body_lb(s, i + 2);
                }
            }
        } else {
            lemma_string_body_lb(s, i + 1);
        }
    }
}

proof fn lemma_parse_string_lb(s: Seq<char>, i: int)
    ensures
        parse_string_at(s, i) is Some ==> i < (parse_string_at(s, i)->Some_0).1,
{
    if 0 <= i < s.len() && s[i] == '"' {
        lemma_string_body_lb(s, i + 1);
    }
}

proof fn lemma_int_body_lb(s: Seq<char>, i: int, acc: int)
    ensures
        int_body_spec(s, i, acc) is Some ==> i < (int_body_spec(s, i, acc)->Some_0).1,
    decreases s.len() - i,
{
    if 0 <= i < s.len() && is_digit_char(s[i]) {
        if acc * 10 + digit_val(s[i]) > 9223372036854775808 {
        } else {
            let acc2 = acc * 10 + digit_val(s[i]);
            if i + 1 < s.len() && is_digit_char(s[i + 1]) {
                lemma_int_body_lb(s, i + 1, acc2);
            }
        }
    }
}

proof fn lemma_parse_int_lb(s: Seq<char>, i: int)
    ensures
        parse_int_at(s, i) is Some ==> i < (parse_int_at(s, i)->Some_0).1,
{
    if 0 <= i < s.len() && s[i] == '-' {
        lemma_int_body_lb(s, i + 1, 0);
    } else {
        lemma_int_body_lb(s, i, 0);
    }
}

proof fn lemma_scan_string_lb(s: Seq<char>, i: int)
    ensures
        scan_string_spec(s, i) is Some ==> i < scan_string_spec(s, i)->Some_0,
    decreases s.len() - i,
{
    if 0 <= i < s.len() {
        if s[i] == '\\' {
            if i + 1 < s.len() {
                lemma_scan_string_lb(s, i + 2);
            }
        } else if s[i] == '"' {
        } else {
            lemma_scan_string_lb(s, i + 1);
        }
    }
}

proof fn lemma_scan_nested_lb(s: Seq<char>, i: int, depth: int, in_str: bool, esc: bool)
    ensures
        scan_nested_spec(s, i, depth, in_str, esc) is Some ==> i < scan_nested_spec(
            s,
            i,
            depth,
            in_str,
            esc,
        )->Some_0,
    decreases s.len() - i,
{
    if 0 <= i < s.len() {
        if in_str {
            if esc {
                lemma_scan_nested_lb(s, i + 1, depth, true, false);
            } else if s[i] == '\\' {
                lemma_scan_nested_lb(s, i + 1, depth, true, true);
            } else if s[i] == '"' {
                lemma_scan_nested_lb(s, i + 1, depth, false, false);
            } else {
                lemma_scan_nested_lb(s, i + 1, depth, true, false);
            }
        } else {
            if s[i] == '"' {
                lemma_scan_nested_lb(s, i + 1, depth, true, false);
            } else if s[i] == '{' || s[i] == '[' {
                if depth < SKIP_NESTING_LIMIT {
                    lemma_scan_nested_lb(s, i + 1, depth + 1, false, false);
                }
            } else if s[i] == '}' || s[i] == ']' {
                if depth != 1 {
                    lemma_scan_nested_lb(s, i + 1, depth - 1, false, false);
                }
            } else {
                lemma_scan_nested_lb(s, i + 1, depth, false, false);
            }
        }
    }
}

proof fn lemma_scan_primitive_lb(s: Seq<char>, i: int)
    ensures
        scan_primitive_spec(s, i) >= i,
    decreases s.len() - i,
{
    if 0 <= i < s.len() && !(is_json_ws(s[i]) || s[i] == ',' || s[i] == '}' || s[i] == ']') {
        lemma_scan_primitive_lb(s, i + 1);
    }
}

proof fn lemma_skip_value_lb(s: Seq<char>, i: int)
    ensures
        skip_value_spec(s, i) is Some ==> i < skip_value_spec(s, i)->Some_0,
{
    if 0 <= i < s.len() {
        lemma_scan_string_lb(s, i + 1);
        lemma_scan_nested_lb(s, i + 1, 1, false, false);
        lemma_scan_primitive_lb(s, i + 1);
    }
}

// ---------------------------------------------------------------------
// The record objects
// ---------------------------------------------------------------------

/// The members of a task object from position `i` (just after `{` or
/// after a `,`): fields may come in any order, an unknown member is
/// skipped, a duplicated or missing known member rejects the object.
/// Yields the model and the position just past the closing `}`.
pub open spec fn task_members_spec(
    s: Seq<char>,
    i: int,
    id: Option<Seq<char>>,
    name: Option<Seq<char>>,
    payload: Option<Seq<char>>,
) -> Option<(TaskModel, int)>
    decreases s.len() - i,
    via task_members_decreases
{
    let k = skip_ws_spec(s, i);
    match parse_string_at(s, k) {
        Option::Some(keyp) => {
            let c = skip_ws_spec(s, keyp.1);
            if c < s.len() && s[c] == ':' {
                let v = skip_ws_spec(s, c + 1);
                let stepped: Option<(Option<Seq<char>>, Option<Seq<char>>, Option<Seq<char>>, int)> =
                    if keyp.0 == "id"@ {
                    if id is Some {
                        Option::None
                    } else {
                        match parse_string_at(s, v) {
                            Option::Some(p) => Option::Some(
                                (Option::Some(p.0), name, payload, p.1),
                            ),
                            Option::None => Option::None,
                        }
                    }
                } else if keyp.0 == "name"@ {
                    if name is Some {
                        Option::None
                    } else {
                        match parse_string_at(s, v) {
                            Option::Some(p) => Option::Some((id, Option::Some(p.0), payload, p.1)),
                            Option::None => Option::None,
                        }
                    }
                } else if keyp.0 == "payload"@ {
                    if payload is Some {
                        Option::None
                    } else {
                        match parse_string_at(s, v) {
                            Option::Some(p) => Option::Some((id, name, Option::Some(p.0), p.1)),
                            Option::None => Option::None,
                        }
                    }
                } else {
                    match skip_value_spec(s, v) {
                        Option::Some(j) => Option::Some((id, name, payload, j)),
                        Option::None => Option::None,
                    }
                };
                match stepped {
                    Option::Some(st) => {
                        let c2 = skip_ws_spec(s, st.3);
                        if c2 < s.len() && s[c2] == ',' {
                            task_members_spec(s, c2 + 1, st.0, st.1, st.2)
                        } else if c2 < s.len() && s[c2] == '}' {
                            match (st.0, st.1, st.2) {
                                (
                                    Option::Some(a),
                                    Option::Some(b),
                                    Option::Some(p),
                                ) => Option::Some((TaskModel { id: a, name: b, payload: p }, c2 + 1)),
                                _ => Option::None,
                            }
                        } else {
                            Option::None
                        }
                    },
                    Option::None => Option::None,
                }
            } else {
                Option::None
            }
        },
        Option::None => Option::None,
    }
}

#[via_fn]
proof fn task_members_decreases(
    s: Seq<char>,
    i: int,
    id: Option<Seq<char>>,
    name: Option<Seq<char>>,
    payload: Option<Seq<char>>,
) {
    lemma_skip_ws_lb(s, i);
    let k = skip_ws_spec(s, i);
    lemma_parse_string_lb(s, k);
    match parse_string_at(s, k) {
        Option::Some(keyp) => {
            lemma_skip_ws_lb(s, keyp.1);
            let c = skip_ws_spec(s, keyp.1);
            if c < s.len() && s[c] == ':' {
                lemma_skip_ws_lb(s, c + 1);
                let v = skip_ws_spec(s, c + 1);
                lemma_parse_string_lb(s, v);
                lemma_skip_value_lb(s, v);
                match parse_string_at(s, v) {
                    Option::Some(p) => {
                        lemma_skip_ws_lb(s, p.1);
                    },
                    Option::None => {},
                }
                match skip_value_spec(s, v) {
                    Option::Some(j) => {
                        lemma_skip_ws_lb(s, j);
                    },
                    Option::None => {},
                }
            }
        },
        Option::None => {},
    }
}

/// A task object at position `i` (after optional whitespace).
pub open spec fn parse_task_at(s: Seq<char>, i: int) -> Option<(TaskModel, int)> {
    let i0 = skip_ws_spec(s, i);
    if i0 < s.len() && s[i0] == '{' {
        task_members_spec(s, i0 + 1, Option::None, Option::None, Option::None)
    } else {
        Option::None
    }
}

proof fn lemma_task_members_lb(
    s: Seq<char>,
    i: int,
    id: Option<Seq<char>>,
    name: Option<Seq<char>>,
    payload: Option<Seq<char>>,
)
    ensures
        task_members_spec(s, i, id, name, payload) is Some ==> i < (task_members_spec(
            s,
            i,
            id,
            name,
            payload,
        )->Some_0).1,
    decreases s.len() - i,
{
    lemma_skip_ws_lb(s, i);
    let k = skip_ws_spec(s, i);
    lemma_parse_string_lb(s, k);
    match parse_string_at(s, k) {
        Option::Some(keyp) => {
            lemma_skip_ws_lb(s, keyp.1);
            let c = skip_ws_spec(s, keyp.1);
            if c < s.len() && s[c] == ':' {
                lemma_skip_ws_lb(s, c + 1);
                let v = skip_ws_spec(s, c + 1);
                lemma_parse_string_lb(s, v);
                lemma_skip_value_lb(s, v);
                match parse_string_at(s, v) {
                    Option::Some(p) => {
                        lemma_skip_ws_lb(s, p.1);
                        let c2 = skip_ws_spec(s, p.1);
                        if c2 < s.len() && s[c2] == ',' {
                            lemma_task_members_lb(s, c2 + 1, Option::Some(p.0), name, payload);
                            lemma_task_members_lb(s, c2 + 1, id, Option::Some(p.0), payload);
                            lemma_task_members_lb(s, c2 + 1, id, name, Option::Some(p.0));
                        }
                    },
                    Option::None => {},
                }
                match skip_value_spec(s, v) {
                    Option::Some(j) => {
                        lemma_skip_ws_lb(s, j);
                        let c2 = skip_ws_spec(s, j);
                        if c2 < s.len() && s[c2] == ',' {
                            lemma_task_members_lb(s, c2 + 1, id, name, payload);
                        }
                    },
                    Option::None => {},
                }
            }
        },
        Option::None => {},
    }
}

proof fn lemma_parse_task_lb(s: Seq<char>, i: int)
    ensures
        parse_task_at(s, i) is Some ==> i < (parse_task_at(s, i)->Some_0).1,
{
    lemma_skip_ws_lb(s, i);
    let i0 = skip_ws_spec(s, i);
    if i0 < s.len() && s[i0] == '{' {
        lemma_task_members_lb(s, i0 + 1, Option::None, Option::None, Option::None);
    }
}

/// The members of an execution object from position `i`, in any order
/// and with unknown members skipped, as for tasks. The `task` member is
/// itself an order-independent object; `startTime` is an integer of
/// seconds.
pub open spec fn exec_members_spec(
    s: Seq<char>,
    i: int,
    id: Option<Seq<char>>,
    task: Option<TaskModel>,
    start_time: Option<int>,
) -> Option<(ExecutionModel, int)>
    decreases s.len() - i,
    via exec_members_decreases
{
    let k = skip_ws_spec(s, i);
    match parse_string_at(s, k) {
        Option::Some(keyp) => {
            let c = skip_ws_spec(s, keyp.1);
            if c < s.len() && s[c] == ':' {
                let v = skip_ws_spec(s, c + 1);
                let stepped: Option<(Option<Seq<char>>, Option<TaskModel>, Option<int>, int)> =
                    if keyp.0 == "id"@ {
                    if id is Some {
                        Option::None
                    } else {
                        match parse_string_at(s, v) {
                            Option::Some(p) => Option::Some(
                                (Option::Some(p.0), task, start_time, p.1),
                            ),
                            Option::None => Option::None,
                        }
                    }
                } else if keyp.0 == "task"@ {
                    if task is Some {
                        Option::None
                    } else {
                        match parse_task_at(s, v) {
                            Option::Some(p) => Option::Some(
                                (id, Option::Some(p.0), start_time, p.1),
                            ),
                            Option::None => Option::None,
                        }
                    }
                } else if keyp.0 == "startTime"@ {
                    if start_time is Some {
                        Option::None
                    } else {
                        match parse_int_at(s, v) {
                            Option::Some(p) => Option::Some((id, task, Option::Some(p.0), p.1)),
                            Option::None => Option::None,
                        }
                    }
                } else {
                    match skip_value_spec(s, v) {
                        Option::Some(j) => Option::Some((id, task, start_time, j)),
                        Option::None => Option::None,
                    }
                };
                match stepped {
                    Option::Some(st) => {
                        let c2 = skip_ws_spec(s, st.3);
                        if c2 < s.len() && s[c2] == ',' {
                            exec_members_spec(s, c2 + 1, st.0, st.1, st.2)
                        } else if c2 < s.len() && s[c2] == '}' {
                            match (st.0, st.1, st.2) {
                                (
                                    Option::Some(a),
                                    Option::Some(t),
                                    Option::Some(ts),
                                ) => Option::Some(
                                    (ExecutionModel { id: a, task: t, start_time: ts }, c2 + 1),
                                ),
                                _ => Option::None,
                            }
                        } else {
                            Option::None
                        }
                    },
                    Option::None => Option::None,
                }
            } else {
                Option::None
            }
        },
        Option::None => Option::None,
    }
}

#[via_fn]
proof fn exec_members_decreases(
    s: Seq<char>,
    i: int,
    id: Option<Seq<char>>,
    task: Option<TaskModel>,
    start_time: Option<int>,
) {
    lemma_skip_ws_lb(s, i);
    let k = skip_ws_spec(s, i);
    lemma_parse_string_lb(s, k);
    match parse_string_at(s, k) {
        Option::Some(keyp) => {
            lemma_skip_ws_lb(s, keyp.1);
            let c = skip_ws_spec(s, keyp.1);
            if c < s.len() && s[c] == ':' {
                lemma_skip_ws_lb(s, c + 1);
                let v = skip_ws_spec(s, c + 1);
                lemma_parse_string_lb(s, v);
                lemma_parse_task_lb(s, v);
                lemma_parse_int_lb(s, v);
                lemma_skip_value_lb(s, v);
                match parse_string_at(s, v) {
                    Option::Some(p) => {
                        lemma_skip_ws_lb(s, p.1);
                    },
                    Option::None => {},
                }
                match parse_task_at(s, v) {
                    Option::Some(p) => {
                        lemma_skip_ws_lb(s, p.1);
                    },
                    Option::None => {},
                }
                match parse_int_at(s, v) {
                    Option::Some(p) => {
                        lemma_skip_ws_lb(s, p.1);
                    },
                    Option::None => {},
                }
                match skip_value_spec(s, v) {
                    Option::Some(j) => {
                        lemma_skip_ws_lb(s, j);
                    },
                    Option::None => {},
                }
            }
        },
        Option::None => {},
    }
}

/// An execution object at position `i` (after optional whitespace).
pub open spec fn parse_exec_at(s: Seq<char>, i: int) -> Option<(ExecutionModel, int)> {
    let i0 = skip_ws_spec(s, i);
    if i0 < s.len() && s[i0] == '{' {
        exec_members_spec(s, i0 + 1, Option::None, Option::None, Option::None)
    } else {
        Option::None
    }
}

proof fn lemma_exec_members_lb(
    s: Seq<char>,
    i: int,
    id: Option<Seq<char>>,
    task: Option<TaskModel>,
    start_time: Option<int>,
)
    ensures
        exec_members_spec(s, i, id, task, start_time) is Some ==> i < (exec_members_spec(
            s,
            i,
            id,
            task,
            start_time,
        )->Some_0).1,
    decreases s.len() - i,
{
    lemma_skip_ws_lb(s, i);
    let k = skip_ws_spec(s, i);
    lemma_parse_string_lb(s, k);
    match parse_string_at(s, k) {
        Option::Some(keyp) => {
            lemma_skip_ws_lb(s, keyp.1);
            let c = skip_ws_spec(s, keyp.1);
            if c < s.len() && s[c] == ':' {
                lemma_skip_ws_lb(s, c + 1);
                let v = skip_ws_spec(s, c + 1);
                lemma_parse_string_lb(s, v);
                lemma_parse_task_lb(s, v);
                lemma_parse_int_lb(s, v);
                lemma_skip_value_lb(s, v);
                match parse_string_at(s, v) {
                    Option::Some(p) => {
                        lemma_skip_ws_lb(s, p.1);
                        let c2 = skip_ws_spec(s, p.1);
                        if c2 < s.len() && s[c2] == ',' {
                            lemma_exec_members_lb(s, c2 + 1, Option::Some(p.0), task, start_time);
                        }
                    },
                    Option::None => {},
                }
                match parse_task_at(s, v) {
                    Option::Some(p) => {
                        lemma_skip_ws_lb(s, p.1);
                        let c2 = skip_ws_spec(s, p.1);
                        if c2 < s.len() && s[c2] == ',' {
                            lemma_exec_members_lb(s, c2 + 1, id, Option::Some(p.0), start_time);
                        }
                    },
                    Option::None => {},
                }
                match parse_int_at(s, v) {
                    Option::Some(p) => {
                        lemma_skip_ws_lb(s, p.1);
                        let c2 = skip_ws_spec(s, p.1);
                        if c2 < s.len() && s[c2] == ',' {
                            lemma_exec_members_lb(s, c2 + 1, id, task, Option::Some(p.0));
                        }
                    },
                    Option::None => {},
                }
                match skip_value_spec(s, v) {
                    Option::Some(j) => {
                        lemma_skip_ws_lb(s, j);
                        let c2 = skip_ws_spec(s, j);
                        if c2 < s.len() && s[c2] == ',' {
                            lemma_exec_members_lb(s, c2 + 1, id, task, start_time);
                        }
                    },
                    Option::None => {},
                }
            }
        },
        Option::None => {},
    }
}

proof fn lemma_parse_exec_lb(s: Seq<char>, i: int)
    ensures
        parse_exec_at(s, i) is Some ==> i < (parse_exec_at(s, i)->Some_0).1,
{
    lemma_skip_ws_lb(s, i);
    let i0 = skip_ws_spec(s, i);
    if i0 < s.len() && s[i0] == '{' {
        lemma_exec_members_lb(s, i0 + 1, Option::None, Option::None, Option::None);
    }
}

// ---------------------------------------------------------------------
// The array
// ---------------------------------------------------------------------

/// The elements of a non-empty execution array, from the position just
/// after `[` (or after a `,`) up to and including the closing `]`.
pub open spec fn execs_items_spec(s: Seq<char>, i: int) -> Option<(Seq<ExecutionModel>, int)>
    decreases s.len() - i,
    via execs_items_decreases
{
    match parse_exec_at(s, i) {
        Option::Some(ep) => {
            let c = skip_ws_spec(s, ep.1);
            if c < s.len() && s[c] == ',' {
                match execs_items_spec(s, c + 1) {
                    Option::Some(rest) => Option::Some((seq![ep.0] + rest.0, rest.1)),
                    Option::None => Option::None,
                }
            } else if c < s.len() && s[c] == ']' {
                Option::Some((seq![ep.0], c + 1))
            } else {
                Option::None
            }
        },
        Option::None => Option::None,
    }
}

#[via_fn]
proof fn execs_items_decreases(s: Seq<char>, i: int) {
    lemma_parse_exec_lb(s, i);
    if parse_exec_at(s, i) is Some {
        lemma_skip_ws_lb(s, (parse_exec_at(s, i)->Some_0).1);
    }
}

/// The whole due-executions response body: whitespace, a JSON array of
/// execution records, whitespace, end of input.
pub open spec fn parse_executions_spec(s: Seq<char>) -> Option<Seq<ExecutionModel>> {
    let i0 = skip_ws_spec(s, 0);
    if i0 < s.len() && s[i0] == '[' {
        let i1 = skip_ws_spec(s, i0 + 1);
        if i1 < s.len() && s[i1] == ']' {
            if skip_ws_spec(s, i1 + 1) == s.len() {
                Option::Some(Seq::empty())
            } else {
                Option::None
            }
        } else {
            match execs_items_spec(s, i0 + 1) {
                Option::Some(p) => {
                    if skip_ws_spec(s, p.1) == s.len() {
                        Option::Some(p.0)
                    } else {
                        Option::None
                    }
                },
                Option::None => Option::None,
            }
        }
    } else {
        Option::None
    }
}

/// `o` with the sequence `p` prepended to a successful result.
pub open spec fn with_chars(p: Seq<char>, o: Option<(Seq<char>, int)>) -> Option<(Seq<char>, int)> {
    match o {
        Option::Some(q) => Option::Some((p + q.0, q.1)),
        Option::None => Option::None,
    }
}

/// `o` with the models `p` prepended to a successful result.
pub open spec fn with_models(p: Seq<ExecutionModel>, o: Option<(Seq<ExecutionModel>, int)>) -> Option<
    (Seq<ExecutionModel>, int),
> {
    match o {
        Option::Some(q) => Option::Some((p + q.0, q.1)),
        Option::None => Option::None,
    }
}

// ---------------------------------------------------------------------
// Executable readers
// ---------------------------------------------------------------------

/// Relies on `String::push`: appends exactly one character.
#[verifier::external_body]
fn push_char(r: &mut String, c: char)
    ensures
        final(r)@ == old(r)@ + seq![c],
{
    r.push(c);
}

/// Relies on `char::from_u32`: `Some` exactly for Unicode scalar
/// values, and the character is the one with that value.
#[verifier::external_body]
fn char_from_u32(u: u32) -> (r: Option<char>)
    ensures
        r == (if is_scalar(u) {
            Option::Some(u as char)
        } else {
            Option::<char>::None
        }),
{
    char::from_u32(u)
}

/// The value of one hex digit.
fn hexv(c: char) -> (r: Option<u32>)
    ensures
        match r {
            Option::Some(v) => is_hex_digit(c) && v as int == hex_val(c) && v <= 15,
            Option::None => !is_hex_digit(c),
        },
{
    let x = c as u32;
    if 48 <= x && x <= 57 {
        Option::Some(x - 48)
    } else if 97 <= x && x <= 102 {
        Option::Some(x - 87)
    } else if 65 <= x && x <= 70 {
        Option::Some(x - 55)
    } else {
        Option::None
    }
}

/// Read four hex digits at `i`.
fn hex4_exec(s: &str, i: usize) -> (r: Option<u32>)
    requires
        i <= s@.len(),
    ensures
        match r {
            Option::Some(h) => hex4_at(s@, i as int) == Option::Some(h as int) && h <= 0xFFFF && i
                + 4 <= s@.len(),
            Option::None => hex4_at(s@, i as int) is None,
        },
{
    let n = s.unicode_len();
    if n - i < 4 {
        return Option::None;
    }
    let d0 = match hexv(s.get_char(i)) {
        Option::Some(v) => v,
        Option::None => {
            return Option::None;
        },
    };
    let d1 = match hexv(s.get_char(i + 1)) {
        Option::Some(v) => v,
        Option::None => {
            return Option::None;
        },
    };
    let d2 = match hexv(s.get_char(i + 2)) {
        Option::Some(v) => v,
        Option::None => {
            return Option::None;
        },
    };
    let d3 = match hexv(s.get_char(i + 3)) {
        Option::Some(v) => v,
        Option::None => {
            return Option::None;
        },
    };
    Option::Some(((d0 * 16 + d1) * 16 + d2) * 16 + d3)
}

/// Read a JSON string at position `i`.
#[verifier::rlimit(100)]
fn parse_string_exec(s: &str, i: usize) -> (r: Option<(String, usize)>)
    requires
        i <= s@.len(),
    ensures
        match r {
            Option::Some(p) => parse_string_at(s@, i as int) == Option::Some(
                (p.0@, p.1 as int),
            ) && i < p.1 <= s@.len(),
            Option::None => parse_string_at(s@, i as int) is None,
        },
{
    let n = s.unicode_len();
    if i == n {
        return Option::None;
    }
    if s.get_char(i) != '"' {
        return Option::None;
    }
    let mut acc = String::new();
    let mut cur: usize = i + 1;
    loop
        invariant
            i + 1 <= cur <= n,
            n == s@.len(),
            i < n,
            s@[i as int] == '"',
            parse_string_at(s@, i as int) == with_chars(acc@, string_body_spec(s@, cur as int)),
        decreases n - cur,
    {
        if cur == n {
            return Option::None;
        }
        let c = s.get_char(cur);
        if c == '"' {
            proof {
                assert(acc@ + Seq::<char>::empty() =~= acc@);
            }
            return Option::Some((acc, cur + 1));
        } else if c == '\\' {
            if cur + 1 == n {
                return Option::None;
            }
            let e = s.get_char(cur + 1);
            if e == 'u' {
                let ghost prev = acc@;
                let h = match hex4_exec(s, cur + 2) {
                    Option::Some(h) => h,
                    Option::None => {
                        return Option::None;
                    },
                };
                let cch: char;
                let newcur: usize;
                if 0xD800 <= h && h <= 0xDBFF {
                    if n - (cur + 6) < 2 {
                        return Option::None;
                    }
                    if s.get_char(cur + 6) != '\\' {
                        return Option::None;
                    }
                    if s.get_char(cur + 7) != 'u' {
                        return Option::None;
                    }
                    let l = match hex4_exec(s, cur + 8) {
                        Option::Some(l) => l,
                        Option::None => {
                            return Option::None;
                        },
                    };
                    if !(0xDC00 <= l && l <= 0xDFFF) {
                        return Option::None;
                    }
                    let cp: u32 = 0x10000 + (h - 0xD800) * 0x400 + (l - 0xDC00);
                    cch = match char_from_u32(cp) {
                        Option::Some(cc) => cc,
                        Option::None => {
                            proof {
                                assert(is_scalar(cp));
                                assert(false);
                            }
                            ' '
                        },
                    };
                    newcur = cur + 12;
                } else if 0xDC00 <= h && h <= 0xDFFF {
                    return Option::None;
                } else {
                    cch = match char_from_u32(h) {
                        Option::Some(cc) => cc,
                        Option::None => {
                            proof {
                                assert(is_scalar(h));
                                assert(false);
                            }
                            ' '
                        },
                    };
                    newcur = cur + 6;
                }
                push_char(&mut acc, cch);
                proof {
                    assert(unicode_escape_at(s@, cur as int + 2) == Option::Some(
                        (cch, newcur as int),
                    ));
                    assert(acc@ =~= prev + seq![cch]);
                    let sb2 = string_body_spec(s@, newcur as int);
                    if sb2 is Some {
                        assert(prev + (seq![cch] + (sb2->Some_0).0) =~= acc@ + (sb2->Some_0).0);
                    }
                }
                cur = newcur;
            } else {
                let ghost prev = acc@;
                if e == '"' {
                    acc.append("\"");
                } else if e == '\\' {
                    acc.append("\\");
                } else if e == '/' {
                    acc.append("/");
                } else if e == 'b' {
                    acc.append("\u{8}");
                } else if e == 'f' {
                    acc.append("\u{c}");
                } else if e == 'n' {
                    acc.append("\n");
                } else if e == 'r' {
                    acc.append("\r");
                } else if e == 't' {
                    acc.append("\t");
                } else {
                    return Option::None;
                }
                proof {
                    reveal_strlit("\"");
                    reveal_strlit("\\");
                    reveal_strlit("/");
                    reveal_strlit("\u{8}");
                    reveal_strlit("\u{c}");
                    reveal_strlit("\n");
                    reveal_strlit("\r");
                    reveal_strlit("\t");
                    let c2 = unescape_char(e)->Some_0;
                    assert(unescape_char(e) is Some);
                    assert(acc@ =~= prev + seq![c2]);
                    let sb2 = string_body_spec(s@, cur as int + 2);
                    if sb2 is Some {
                        assert(prev + (seq![c2] + (sb2->Some_0).0) =~= acc@ + (sb2->Some_0).0);
                    }
                }
                cur = cur + 2;
            }
        } else {
            let ghost prev = acc@;
            let one = s.substring_char(cur, cur + 1);
            acc.append(one);
            proof {
                assert(s@.subrange(cur as int, cur as int + 1) =~= seq![s@[cur as int]]);
                assert(acc@ =~= prev + seq![s@[cur as int]]);
                let sb2 = string_body_spec(s@, cur as int + 1);
                if sb2 is Some {
                    assert(prev + (seq![s@[cur as int]] + (sb2->Some_0).0) =~= acc@ + (
                    sb2->Some_0).0);
                }
            }
            cur = cur + 1;
        }
    }
}

/// Are two strings equal, character by character?
fn str_eq(a: &str, b: &str) -> (r: bool)
    ensures
        r == (a@ == b@),
{
    let n = a.unicode_len();
    let m = b.unicode_len();
    if n != m {
        return false;
    }
    let r = has_lit_at(a, 0, b);
    proof {
        assert(a@.subrange(0, n as int) =~= a@);
    }
    r
}

/// Read a JSON integer at position `i`.
fn parse_int_exec(s: &str, i: usize) -> (r: Option<(i64, usize)>)
    requires
        i <= s@.len(),
    ensures
        match r {
            Option::Some(p) => parse_int_at(s@, i as int) == Option::Some(
                (p.0 as int, p.1 as int),
            ) && i < p.1 <= s@.len(),
            Option::None => parse_int_at(s@, i as int) is None,
        },
{
    let n = s.unicode_len();
    let neg: bool;
    let d0: usize;
    if i < n && s.get_char(i) == '-' {
        neg = true;
        d0 = i + 1;
    } else {
        neg = false;
        d0 = i;
    }
    if d0 == n {
        return Option::None;
    }
    let c0 = s.get_char(d0);
    let x0 = c0 as u32;
    if !(48 <= x0 && x0 <= 57) {
        return Option::None;
    }
    let mut cur: usize = d0;
    let mut acc: u64 = 0;
    loop
        invariant
            d0 <= cur < n,
            n == s@.len(),
            i <= d0,
            acc <= 9223372036854775808u64,
            is_digit_char(s@[cur as int]),
            int_body_spec(s@, d0 as int, 0) == int_body_spec(s@, cur as int, acc as int),
            neg ==> (i as int) < s@.len() && s@[i as int] == '-' && d0 == i + 1,
            !neg ==> !(0 <= (i as int) < s@.len() && s@[i as int] == '-') && d0 == i,
        decreases n - cur,
    {
        let c = s.get_char(cur);
        let d: u64 = (c as u32 - 48) as u64;
        proof {
            assert(d as int == digit_val(s@[cur as int]));
        }
        if acc > 922337203685477580u64 || (acc == 922337203685477580u64 && d > 8) {
            proof {
                assert(acc as int * 10 + d as int > 9223372036854775808);
            }
            return Option::None;
        }
        proof {
            assert(acc as int * 10 + d as int <= 9223372036854775808);
        }
        acc = acc * 10 + d;
        let mut more = false;
        if cur + 1 < n {
            let c2 = s.get_char(cur + 1);
            let x2 = c2 as u32;
            if 48 <= x2 && x2 <= 57 {
                more = true;
            }
        }
        if more {
            cur = cur + 1;
        } else {
            if neg {
                let v: i64 = if acc == 9223372036854775808u64 {
                    i64::MIN
                } else {
                    -(acc as i64)
                };
                return Option::Some((v, cur + 1));
            } else {
                if acc > 9223372036854775807u64 {
                    return Option::None;
                }
                return Option::Some((acc as i64, cur + 1));
            }
        }
    }
}

/// Scan past a string that is being skipped.
fn scan_string(s: &str, i: usize) -> (r: Option<usize>)
    requires
        i <= s@.len(),
    ensures
        match r {
            Option::Some(j) => scan_string_spec(s@, i as int) == Option::Some(j as int) && i < j
                <= s@.len(),
            Option::None => scan_string_spec(s@, i as int) is None,
        },
{
    let n = s.unicode_len();
    let mut cur: usize = i;
    loop
        invariant
            i <= cur <= n,
            n == s@.len(),
            scan_string_spec(s@, i as int) == scan_string_spec(s@, cur as int),
        decreases n - cur,
    {
        if cur == n {
            return Option::None;
        }
        let c = s.get_char(cur);
        if c == '\\' {
            if cur + 1 == n {
                return Option::None;
            }
            cur = cur + 2;
        } else if c == '"' {
            return Option::Some(cur + 1);
        } else {
            cur = cur + 1;
        }
    }
}

/// Scan past a bracketed value that is being skipped.
fn scan_nested(s: &str, i: usize) -> (r: Option<usize>)
    requires
        i <= s@.len(),
    ensures
        match r {
            Option::Some(j) => scan_nested_spec(s@, i as int, 1, false, false) == Option::Some(
                j as int,
            ) && i < j <= s@.len(),
            Option::None => scan_nested_spec(s@, i as int, 1, false, false) is None,
        },
{
    let n = s.unicode_len();
    let mut cur: usize = i;
    let mut depth: u64 = 1;
    let mut in_str: bool = false;
    let mut esc: bool = false;
    loop
        invariant
            i <= cur <= n,
            n == s@.len(),
            1 <= depth <= SKIP_NESTING_LIMIT,
            !in_str ==> !esc,
            scan_nested_spec(s@, i as int, 1, false, false) == scan_nested_spec(
                s@,
                cur as int,
                depth as int,
                in_str,
                esc,
            ),
        decreases n - cur,
    {
        if cur == n {
            return Option::None;
        }
        let c = s.get_char(cur);
        if in_str {
            if esc {
                esc = false;
            } else if c == '\\' {
                esc = true;
            } else if c == '"' {
                in_str = false;
            }
            cur = cur + 1;
        } else {
            if c == '"' {
                in_str = true;
                cur = cur + 1;
            } else if c == '{' || c == '[' {
                if depth >= SKIP_NESTING_LIMIT {
                    return Option::None;
                }
                depth = depth + 1;
                cur = cur + 1;
            } else if c == '}' || c == ']' {
                if depth == 1 {
                    return Option::Some(cur + 1);
                }
                depth = depth - 1;
                cur = cur + 1;
            } else {
                cur = cur + 1;
            }
        }
    }
}

/// Scan past a primitive that is being skipped.
fn scan_primitive(s: &str, i: usize) -> (r: usize)
    requires
        i <= s@.len(),
    ensures
        r as int == scan_primitive_spec(s@, i as int),
        i <= r <= s@.len(),
{
    let n = s.unicode_len();
    let mut cur: usize = i;
    loop
        invariant_except_break
            i <= cur <= n,
            n == s@.len(),
            scan_primitive_spec(s@, i as int) == scan_primitive_spec(s@, cur as int),
        ensures
            i <= cur <= n,
            cur as int == scan_primitive_spec(s@, i as int),
        decreases n - cur,
    {
        if cur == n {
            break;
        }
        let c = s.get_char(cur);
        if c == ' ' || c == '\t' || c == '\n' || c == '\r' || c == ',' || c == '}' || c == ']' {
            break;
        }
        cur = cur + 1;
    }
    cur
}

/// Skip one JSON value at (non-whitespace) position `i`.
fn skip_value(s: &str, i: usize) -> (r: Option<usize>)
    requires
        i <= s@.len(),
    ensures
        match r {
            Option::Some(j) => skip_value_spec(s@, i as int) == Option::Some(j as int) && i < j
                <= s@.len(),
            Option::None => skip_value_spec(s@, i as int) is None,
        },
{
    let n = s.unicode_len();
    if i == n {
        return Option::None;
    }
    let c = s.get_char(i);
    if c == '"' {
        scan_string(s, i + 1)
    } else if c == '{' || c == '[' {
        scan_nested(s, i + 1)
    } else {
        let x = c as u32;
        if c == '-' || (48 <= x && x <= 57) || c == 't' || c == 'f' || c == 'n' {
            Option::Some(scan_primitive(s, i + 1))
        } else {
            Option::None
        }
    }
}

/// Read a task object.
fn parse_task_exec(s: &str, i: usize) -> (r: Option<(Task, usize)>)
    requires
        i <= s@.len(),
    ensures
        match r {
            Option::Some(p) => parse_task_at(s@, i as int) == Option::Some(
                (p.0@, p.1 as int),
            ) && i < p.1 <= s@.len(),
            Option::None => parse_task_at(s@, i as int) is None,
        },
{
    let n = s.unicode_len();
    let i0 = skip_ws(s, i);
    if i0 == n {
        return Option::None;
    }
    if s.get_char(i0) != '{' {
        return Option::None;
    }
    let mut id: Option<String> = Option::None;
    let mut name: Option<String> = Option::None;
    let mut payload: Option<String> = Option::None;
    let mut cur: usize = i0 + 1;
    loop
        invariant
            i0 < n,
            n == s@.len(),
            s@[i0 as int] == '{',
            i <= i0,
            i0 == skip_ws_spec(s@, i as int),
            i0 + 1 <= cur <= n,
            parse_task_at(s@, i as int) == task_members_spec(
                s@,
                cur as int,
                str_opt_view(id),
                str_opt_view(name),
                str_opt_view(payload),
            ),
        decreases n - cur,
    {
        let k = skip_ws(s, cur);
        let keyp = match parse_string_exec(s, k) {
            Option::Some(p) => p,
            Option::None => {
                return Option::None;
            },
        };
        let c = skip_ws(s, keyp.1);
        if c == n {
            return Option::None;
        }
        if s.get_char(c) != ':' {
            return Option::None;
        }
        let v = skip_ws(s, c + 1);
        let vend: usize;
        if str_eq(keyp.0.as_str(), "id") {
            if id.is_some() {
                return Option::None;
            }
            match parse_string_exec(s, v) {
                Option::Some(p) => {
                    id = Option::Some(p.0);
                    vend = p.1;
                },
                Option::None => {
                    return Option::None;
                },
            }
        } else if str_eq(keyp.0.as_str(), "name") {
            if name.is_some() {
                return Option::None;
            }
            match parse_string_exec(s, v) {
                Option::Some(p) => {
                    name = Option::Some(p.0);
                    vend = p.1;
                },
                Option::None => {
                    return Option::None;
                },
            }
        } else if str_eq(keyp.0.as_str(), "payload") {
            if payload.is_some() {
                return Option::None;
            }
            match parse_string_exec(s, v) {
                Option::Some(p) => {
                    payload = Option::Some(p.0);
                    vend = p.1;
                },
                Option::None => {
                    return Option::None;
                },
            }
        } else {
            match skip_value(s, v) {
                Option::Some(j) => {
                    vend = j;
                },
                Option::None => {
                    return Option::None;
                },
            }
        }
        let c2 = skip_ws(s, vend);
        if c2 == n {
            return Option::None;
        }
        let ch = s.get_char(c2);
        if ch == ',' {
            cur = c2 + 1;
        } else if ch == '}' {
            let idv = match id {
                Option::Some(x) => x,
                Option::None => {
                    return Option::None;
                },
            };
            let namev = match name {
                Option::Some(x) => x,
                Option::None => {
                    return Option::None;
                },
            };
            let payv = match payload {
                Option::Some(x) => x,
                Option::None => {
                    return Option::None;
                },
            };
            return Option::Some((Task { id: idv, name: namev, payload: payv }, c2 + 1));
        } else {
            return Option::None;
        }
    }
}

/// Read an execution object.
fn parse_exec_exec(s: &str, i: usize) -> (r: Option<(Execution, usize)>)
    requires
        i <= s@.len(),
    ensures
        match r {
            Option::Some(p) => parse_exec_at(s@, i as int) == Option::Some(
                (p.0@, p.1 as int),
            ) && i < p.1 <= s@.len(),
            Option::None => parse_exec_at(s@, i as int) is None,
        },
{
    let n = s.unicode_len();
    let i0 = skip_ws(s, i);
    if i0 == n {
        return Option::None;
    }
    if s.get_char(i0) != '{' {
        return Option::None;
    }
    let mut id: Option<String> = Option::None;
    let mut task: Option<Task> = Option::None;
    let mut start_time: Option<i64> = Option::None;
    let mut cur: usize = i0 + 1;
    loop
        invariant
            i0 < n,
            n == s@.len(),
            s@[i0 as int] == '{',
            i <= i0,
            i0 == skip_ws_spec(s@, i as int),
            i0 + 1 <= cur <= n,
            parse_exec_at(s@, i as int) == exec_members_spec(
                s@,
                cur as int,
                str_opt_view(id),
                (match task {
                    Option::Some(t) => Option::Some(t@),
                    Option::None => Option::None,
                }),
                (match start_time {
                    Option::Some(t) => Option::Some(t as int),
                    Option::None => Option::None,
                }),
            ),
        decreases n - cur,
    {
        let k = skip_ws(s, cur);
        let keyp = match parse_string_exec(s, k) {
            Option::Some(p) => p,
            Option::None => {
                return Option::None;
            },
        };
        let c = skip_ws(s, keyp.1);
        if c == n {
            return Option::None;
        }
        if s.get_char(c) != ':' {
            return Option::None;
        }
        let v = skip_ws(s, c + 1);
        let vend: usize;
        if str_eq(keyp.0.as_str(), "id") {
            if id.is_some() {
                return Option::None;
            }
            match parse_string_exec(s, v) {
                Option::Some(p) => {
                    id = Option::Some(p.0);
                    vend = p.1;
                },
                Option::None => {
                    return Option::None;
                },
            }
        } else if str_eq(keyp.0.as_str(), "task") {
            if task.is_some() {
                return Option::None;
            }
            match parse_task_exec(s, v) {
                Option::Some(p) => {
                    task = Option::Some(p.0);
                    vend = p.1;
                },
                Option::None => {
                    return Option::None;
                },
            }
        } else if str_eq(keyp.0.as_str(), "startTime") {
            if start_time.is_some() {
                return Option::None;
            }
            match parse_int_exec(s, v) {
                Option::Some(p) => {
                    start_time = Option::Some(p.0);
                    vend = p.1;
                },
                Option::None => {
                    return Option::None;
                },
            }
        } else {
            match skip_value(s, v) {
                Option::Some(j) => {
                    vend = j;
                },
                Option::None => {
                    return Option::None;
                },
            }
        }
        let c2 = skip_ws(s, vend);
        if c2 == n {
            return Option::None;
        }
        let ch = s.get_char(c2);
        if ch == ',' {
            cur = c2 + 1;
        } else if ch == '}' {
            let idv = match id {
                Option::Some(x) => x,
                Option::None => {
                    return Option::None;
                },
            };
            let taskv = match task {
                Option::Some(x) => x,
                Option::None => {
                    return Option::None;
                },
            };
            let tsv = match start_time {
                Option::Some(x) => x,
                Option::None => {
                    return Option::None;
                },
            };
            return Option::Some((Execution { id: idv, task: taskv, start_time: tsv }, c2 + 1));
        } else {
            return Option::None;
        }
    }
}

/// Read a whole due-executions response body. Returns the executions in
/// order when the body is a JSON array of the wire contract's execution
/// records, and nothing otherwise.
pub fn parse_executions(s: &str) -> (r: Option<Vec<Execution>>)
    ensures
        match r {
            Option::Some(v) => parse_executions_spec(s@) == Option::Some(models_of(v@)),
            Option::None => parse_executions_spec(s@) is None,
        },
{
    let n = s.unicode_len();
    let i0 = skip_ws(s, 0);
    if i0 == n {
        return Option::None;
    }
    if s.get_char(i0) != '[' {
        return Option::None;
    }
    let i1 = skip_ws(s, i0 + 1);
    if i1 < n {
        if s.get_char(i1) == ']' {
            if skip_ws(s, i1 + 1) == n {
                let empty_v: Vec<Execution> = Vec::new();
                proof {
                    assert(models_of(empty_v@) =~= Seq::<ExecutionModel>::empty());
                }
                return Option::Some(empty_v);
            } else {
                return Option::None;
            }
        }
    }
    let mut acc_v: Vec<Execution> = Vec::new();
    let mut cur: usize = i0 + 1;
    proof {
        assert(models_of(acc_v@) =~= Seq::<ExecutionModel>::empty());
        let it = execs_items_spec(s@, cur as int);
        if it is Some {
            assert(Seq::<ExecutionModel>::empty() + (it->Some_0).0 =~= (it->Some_0).0);
        }
    }
    loop
        invariant
            cur <= n,
            n == s@.len(),
            i0 < n,
            s@[i0 as int] == '[',
            i0 == skip_ws_spec(s@, 0),
            cur > i0,
            !(skip_ws_spec(s@, i0 as int + 1) < n && s@[skip_ws_spec(s@, i0 as int + 1)] == ']'),
            execs_items_spec(s@, i0 as int + 1) == with_models(
                models_of(acc_v@),
                execs_items_spec(s@, cur as int),
            ),
        decreases n - cur,
    {
        let ep = match parse_exec_exec(s, cur) {
            Option::Some(p) => p,
            Option::None => {
                return Option::None;
            },
        };
        let c = skip_ws(s, ep.1);
        if c == n {
            return Option::None;
        }
        let ch = s.get_char(c);
        if ch == ',' {
            let ghost prev = acc_v@;
            acc_v.push(ep.0);
            proof {
                assert(models_of(acc_v@) =~= models_of(prev) + seq![ep.0@]);
                let it2 = execs_items_spec(s@, c as int + 1);
                if it2 is Some {
                    assert(models_of(prev) + (seq![ep.0@] + (it2->Some_0).0) =~= models_of(acc_v@)
                        + (it2->Some_0).0);
                }
            }
            cur = c + 1;
        } else if ch == ']' {
            let ghost prev = acc_v@;
            acc_v.push(ep.0);
            proof {
                assert(models_of(acc_v@) =~= models_of(prev) + seq![ep.0@]);
            }
            if skip_ws(s, c + 1) == n {
                return Option::Some(acc_v);
            } else {
                return Option::None;
            }
        } else {
            return Option::None;
        }
    }
}


// ---------------------------------------------------------------------
// The status-update response body
// ---------------------------------------------------------------------

/// A JSON boolean at position `i`.
pub open spec fn parse_bool_at(s: Seq<char>, i: int) -> Option<(bool, int)> {
    if lit_at(s, i, "true"@) {
        Option::Some((true, i + "true"@.len() as int))
    } else if lit_at(s, i, "false"@) {
        Option::Some((false, i + "false"@.len() as int))
    } else {
        Option::None
    }
}

proof fn lemma_parse_bool_lb(s: Seq<char>, i: int)
    ensures
        parse_bool_at(s, i) is Some ==> i < (parse_bool_at(s, i)->Some_0).1,
{
    reveal_strlit("true");
    reveal_strlit("false");
}

/// The members of a status-update response object from position `i`
/// (just after `{` or a `,`): the `result` member holds a boolean;
/// members may come in any order and unknown members are skipped; a
/// duplicated or missing `result` rejects the object.
pub open spec fn result_members_spec(s: Seq<char>, i: int, result: Option<bool>) -> Option<
    (bool, int),
>
    decreases s.len() - i,
    via result_members_decreases
{
    let k = skip_ws_spec(s, i);
    match parse_string_at(s, k) {
        Option::Some(keyp) => {
            let c = skip_ws_spec(s, keyp.1);
            if c < s.len() && s[c] == ':' {
                let v = skip_ws_spec(s, c + 1);
                let stepped: Option<(Option<bool>, int)> = if keyp.0 == "result"@ {
                    if result is Some {
                        Option::None
                    } else {
                        match parse_bool_at(s, v) {
                            Option::Some(p) => Option::Some((Option::Some(p.0), p.1)),
                            Option::None => Option::None,
                        }
                    }
                } else {
                    match skip_value_spec(s, v) {
                        Option::Some(j) => Option::Some((result, j)),
                        Option::None => Option::None,
                    }
                };
                match stepped {
                    Option::Some(st) => {
                        let c2 = skip_ws_spec(s, st.1);
                        if c2 < s.len() && s[c2] == ',' {
                            result_members_spec(s, c2 + 1, st.0)
                        } else if c2 < s.len() && s[c2] == '}' {
                            match st.0 {
                                Option::Some(b) => Option::Some((b, c2 + 1)),
                                Option::None => Option::None,
                            }
                        } else {
                            Option::None
                        }
                    },
                    Option::None => Option::None,
                }
            } else {
                Option::None
            }
        },
        Option::None => Option::None,
    }
}

#[via_fn]
proof fn result_members_decreases(s: Seq<char>, i: int, result: Option<bool>) {
    lemma_skip_ws_lb(s, i);
    let k = skip_ws_spec(s, i);
    lemma_parse_string_lb(s, k);
    match parse_string_at(s, k) {
        Option::Some(keyp) => {
            lemma_skip_ws_lb(s, keyp.1);
            let c = skip_ws_spec(s, keyp.1);
            if c < s.len() && s[c] == ':' {
                lemma_skip_ws_lb(s, c + 1);
                let v = skip_ws_spec(s, c + 1);
                lemma_parse_bool_lb(s, v);
                lemma_skip_value_lb(s, v);
                match parse_bool_at(s, v) {
                    Option::Some(p) => {
                        lemma_skip_ws_lb(s, p.1);
                    },
                    Option::None => {},
                }
                match skip_value_spec(s, v) {
                    Option::Some(j) => {
                        lemma_skip_ws_lb(s, j);
                    },
                    Option::None => {},
                }
            }
        },
        Option::None => {},
    }
}

/// The meaning of a status-update response body: `Some(v)` when the
/// body is a JSON object whose `result` member holds the boolean `v`
/// (members in any order, unknown members ignored, arbitrary
/// surrounding whitespace), `None` otherwise.
pub open spec fn parse_update_result_spec(s: Seq<char>) -> Option<bool> {
    let i0 = skip_ws_spec(s, 0);
    if i0 < s.len() && s[i0] == '{' {
        match result_members_spec(s, i0 + 1, Option::None) {
            Option::Some(p) => {
                if skip_ws_spec(s, p.1) == s.len() {
                    Option::Some(p.0)
                } else {
                    Option::None
                }
            },
            Option::None => Option::None,
        }
    } else {
        Option::None
    }
}

/// Read a JSON boolean at position `i`.
fn parse_bool_exec(s: &str, i: usize) -> (r: Option<(bool, usize)>)
    requires
        i <= s@.len(),
    ensures
        match r {
            Option::Some(p) => parse_bool_at(s@, i as int) == Option::Some(
                (p.0, p.1 as int),
            ) && i < p.1 <= s@.len(),
            Option::None => parse_bool_at(s@, i as int) is None,
        },
{
    let _n = s.unicode_len();
    proof {
        reveal_strlit("true");
        reveal_strlit("false");
    }
    if has_lit_at(s, i, "true") {
        let j = i + "true".unicode_len();
        Option::Some((true, j))
    } else if has_lit_at(s, i, "false") {
        let j = i + "false".unicode_len();
        Option::Some((false, j))
    } else {
        Option::None
    }
}

/// Read a status-update response body.
pub fn parse_update_result(s: &str) -> (r: Option<bool>)
    ensures
        r == parse_update_result_spec(s@),
{
    let n = s.unicode_len();
    let i0 = skip_ws(s, 0);
    if i0 == n {
        return Option::None;
    }
    if s.get_char(i0) != '{' {
        return Option::None;
    }
    let mut result: Option<bool> = Option::None;
    let mut cur: usize = i0 + 1;
    loop
        invariant
            i0 < n,
            n == s@.len(),
            s@[i0 as int] == '{',
            i0 == skip_ws_spec(s@, 0),
            i0 + 1 <= cur <= n,
            parse_update_result_spec(s@) == (match result_members_spec(s@, cur as int, result) {
                Option::Some(p) => {
                    if skip_ws_spec(s@, p.1) == s@.len() {
                        Option::Some(p.0)
                    } else {
                        Option::<bool>::None
                    }
                },
                Option::None => Option::<bool>::None,
            }),
        decreases n - cur,
    {
        let k = skip_ws(s, cur);
        let keyp = match parse_string_exec(s, k) {
            Option::Some(p) => p,
            Option::None => {
                return Option::None;
            },
        };
        let c = skip_ws(s, keyp.1);
        if c == n {
            return Option::None;
        }
        if s.get_char(c) != ':' {
            return Option::None;
        }
        let v = skip_ws(s, c + 1);
        let vend: usize;
        if str_eq(keyp.0.as_str(), "result") {
            if result.is_some() {
                return Option::None;
            }
            match parse_bool_exec(s, v) {
                Option::Some(p) => {
                    result = Option::Some(p.0);
                    vend = p.1;
                },
                Option::None => {
                    return Option::None;
                },
            }
        } else {
            match skip_value(s, v) {
                Option::Some(j) => {
                    vend = j;
                },
                Option::None => {
                    return Option::None;
                },
            }
        }
        let c2 = skip_ws(s, vend);
        if c2 == n {
            return Option::None;
        }
        let ch = s.get_char(c2);
        if ch == ',' {
            cur = c2 + 1;
        } else if ch == '}' {
            let b = match result {
                Option::Some(b) => b,
                Option::None => {
                    return Option::None;
                },
            };
            if skip_ws(s, c2 + 1) == n {
                return Option::Some(b);
            } else {
                return Option::None;
            }
        } else {
            return Option::None;
        }
    }
}

} // verus!
