//! Building the JSON the agent sends.
//!
//! The status-update request body,
//! `{"status":{"value":...,"idempotentKey":...}}`, is specified character
//! by character: the builder's output is pinned to a spec-level sequence,
//! escaping included. The tokenizing helpers here (whitespace, literal
//! matching) are shared with the response readers in the decoding module.

use vstd::prelude::*;

verus! {

/// How one character appears inside a JSON string literal: quote,
/// backslash and control characters are escaped, everything else stands
/// for itself.
pub open spec fn escape_char(c: char) -> Seq<char> {
    if c == '"' {
        "\\\""@
    } else if c == '\\' {
        "\\\\"@
    } else if c == '\n' {
        "\\n"@
    } else if c == '\r' {
        "\\r"@
    } else if c == '\t' {
        "\\t"@
    } else if c == '\u{0}' {
        "\\u0000"@
    } else if c == '\u{1}' {
        "\\u0001"@
    } else if c == '\u{2}' {
        "\\u0002"@
    } else if c == '\u{3}' {
        "\\u0003"@
    } else if c == '\u{4}' {
        "\\u0004"@
    } else if c == '\u{5}' {
        "\\u0005"@
    } else if c == '\u{6}' {
        "\\u0006"@
    } else if c == '\u{7}' {
        "\\u0007"@
    } else if c == '\u{8}' {
        "\\u0008"@
    } else if c == '\u{b}' {
        "\\u000b"@
    } else if c == '\u{c}' {
        "\\u000c"@
    } else if c == '\u{e}' {
        "\\u000e"@
    } else if c == '\u{f}' {
        "\\u000f"@
    } else if c == '\u{10}' {
        "\\u0010"@
    } else if c == '\u{11}' {
        "\\u0011"@
    } else if c == '\u{12}' {
        "\\u0012"@
    } else if c == '\u{13}' {
        "\\u0013"@
    } else if c == '\u{14}' {
        "\\u0014"@
    } else if c == '\u{15}' {
        "\\u0015"@
    } else if c == '\u{16}' {
        "\\u0016"@
    } else if c == '\u{17}' {
        "\\u0017"@
    } else if c == '\u{18}' {
        "\\u0018"@
    } else if c == '\u{19}' {
        "\\u0019"@
    } else if c == '\u{1a}' {
        "\\u001a"@
    } else if c == '\u{1b}' {
        "\\u001b"@
    } else if c == '\u{1c}' {
        "\\u001c"@
    } else if c == '\u{1d}' {
        "\\u001d"@
    } else if c == '\u{1e}' {
        "\\u001e"@
    } else if c == '\u{1f}' {
        "\\u001f"@
    } else {
        seq![c]
    }
}

/// A whole string escaped for use inside a JSON string literal.
pub open spec fn escape_string(s: Seq<char>) -> Seq<char>
    decreases s.len(),
{
    if s.len() == 0 {
        Seq::empty()
    } else {
        escape_char(s[0]) + escape_string(s.drop_first())
    }
}

/// Escaping distributes over concatenation.
pub proof fn lemma_escape_concat(a: Seq<char>, b: Seq<char>)
    ensures
        escape_string(a + b) == escape_string(a) + escape_string(b),
    decreases a.len(),
{
    if a.len() == 0 {
        assert(a + b =~= b);
        assert(escape_string(a) + escape_string(b) =~= escape_string(b));
    } else {
        assert((a + b).drop_first() =~= a.drop_first() + b);
        lemma_escape_concat(a.drop_first(), b);
        assert((a + b)[0] == a[0]);
        assert(escape_string(a + b) =~= escape_string(a) + escape_string(b));
    }
}

proof fn lemma_escape_snoc(s: Seq<char>, i: int)
    requires
        0 <= i < s.len(),
    ensures
        escape_string(s.subrange(0, i + 1)) == escape_string(s.subrange(0, i)) + escape_char(
            s[i],
        ),
{
    let a = s.subrange(0, i);
    let b = s.subrange(i, i + 1);
    assert(s.subrange(0, i + 1) =~= a + b);
    lemma_escape_concat(a, b);
    assert(b.drop_first() =~= Seq::<char>::empty());
    assert(escape_string(Seq::<char>::empty()) == Seq::<char>::empty());
    assert(escape_string(b) == escape_char(b[0]) + escape_string(b.drop_first()));
    assert(escape_string(b) =~= escape_char(s[i]));
}

/// Escape a string for inclusion in a JSON string literal.
pub fn escape_json(s: &str) -> (r: String)
    ensures
        r@ == escape_string(s@),
{
    let n = s.unicode_len();
    let mut r = String::new();
    let mut i: usize = 0;
    while i < n
        invariant
            n == s@.len(),
            i <= n,
            r@ == escape_string(s@.subrange(0, i as int)),
        decreases n - i,
    {
        let c = s.get_char(i);
        if c == '"' {
            r.append("\\\"");
        } else if c == '\\' {
            r.append("\\\\");
        } else if c == '\n' {
            r.append("\\n");
        } else if c == '\r' {
            r.append("\\r");
        } else if c == '\t' {
            r.append("\\t");
        } else if c == '\u{0}' {
            r.append("\\u0000");
        } else if c == '\u{1}' {
            r.append("\\u0001");
        } else if c == '\u{2}' {
            r.append("\\u0002");
        } else if c == '\u{3}' {
            r.append("\\u0003");
        } else if c == '\u{4}' {
            r.append("\\u0004");
        } else if c == '\u{5}' {
            r.append("\\u0005");
        } else if c == '\u{6}' {
            r.append("\\u0006");
        } else if c == '\u{7}' {
            r.append("\\u0007");
        } else if c == '\u{8}' {
            r.append("\\u0008");
        } else if c == '\u{b}' {
            r.append("\\u000b");
        } else if c == '\u{c}' {
            r.append("\\u000c");
        } else if c == '\u{e}' {
            r.append("\\u000e");
        } else if c == '\u{f}' {
            r.append("\\u000f");
        } else if c == '\u{10}' {
            r.append("\\u0010");
        } else if c == '\u{11}' {
            r.append("\\u0011");
        } else if c == '\u{12}' {
            r.append("\\u0012");
        } else if c == '\u{13}' {
            r.append("\\u0013");
        } else if c == '\u{14}' {
            r.append("\\u0014");
        } else if c == '\u{15}' {
            r.append("\\u0015");
        } else if c == '\u{16}' {
            r.append("\\u0016");
        } else if c == '\u{17}' {
            r.append("\\u0017");
        } else if c == '\u{18}' {
            r.append("\\u0018");
        } else if c == '\u{19}' {
            r.append("\\u0019");
        } else if c == '\u{1a}' {
            r.append("\\u001a");
        } else if c == '\u{1b}' {
            r.append("\\u001b");
        } else if c == '\u{1c}' {
            r.append("\\u001c");
        } else if c == '\u{1d}' {
            r.append("\\u001d");
        } else if c == '\u{1e}' {
            r.append("\\u001e");
        } else if c == '\u{1f}' {
            r.append("\\u001f");
        } else {
            let one = s.substring_char(i, i + 1);
            r.append(one);
            proof {
                assert(s@.subrange(i as int, i as int + 1) =~= seq![s@[i as int]]);
            }
        }
        proof {
            lemma_escape_snoc(s@, i as int);
        }
        i = i + 1;
    }
    proof {
        assert(s@.subrange(0, n as int) =~= s@);
    }
    r
}

/// The idempotency key that accompanies a status update: derived
/// deterministically from the execution id and the target status value,
/// so repeated delivery of the same logical transition carries the same
/// key and the server can deduplicate it.
pub open spec fn idempotency_key_spec(exec_id: Seq<char>, value: Seq<char>) -> Seq<char> {
    exec_id + ":"@ + value
}

/// Build the idempotency key for one logical status transition.
pub fn idempotency_key(exec_id: &str, value: &str) -> (r: String)
    ensures
        r@ == idempotency_key_spec(exec_id@, value@),
{
    let mut r: String = exec_id.to_owned();
    r.append(":");
    r.append(value);
    proof {
        assert(r@ =~= idempotency_key_spec(exec_id@, value@));
    }
    r
}

/// The request body of a status update.
pub open spec fn status_body_spec(value: Seq<char>, key: Seq<char>) -> Seq<char> {
    "{\"status\":{\"value\":\""@ + escape_string(value) + "\",\"idempotentKey\":\""@
        + escape_string(key) + "\"}}"@
}

/// Serialize a status update to its JSON request body.
pub fn status_body(value: &str, key: &str) -> (r: String)
    ensures
        r@ == status_body_spec(value@, key@),
{
    let mut r: String = "{\"status\":{\"value\":\"".to_owned();
    let ev = escape_json(value);
    r.append(ev.as_str());
    r.append("\",\"idempotentKey\":\"");
    let ek = escape_json(key);
    r.append(ek.as_str());
    r.append("\"}}");
    proof {
        assert(r@ =~= status_body_spec(value@, key@));
    }
    r
}

/// JSON whitespace.
pub open spec fn is_json_ws(c: char) -> bool {
    c == ' ' || c == '\t' || c == '\n' || c == '\r'
}

/// The first position at or after `i` that does not hold whitespace.
pub open spec fn skip_ws_spec(s: Seq<char>, i: int) -> int
    decreases s.len() - i,
{
    if 0 <= i < s.len() && is_json_ws(s[i]) {
        skip_ws_spec(s, i + 1)
    } else {
        i
    }
}

/// The literal `lit` occurs in `s` starting at position `i`.
pub open spec fn lit_at(s: Seq<char>, i: int, lit: Seq<char>) -> bool {
    0 <= i && i + lit.len() <= s.len() && s.subrange(i, i + lit.len()) == lit
}

/// Advance past whitespace.
pub(crate) fn skip_ws(s: &str, i: usize) -> (r: usize)
    requires
        i <= s@.len(),
    ensures
        i <= r <= s@.len(),
        r == skip_ws_spec(s@, i as int),
{
    let n = s.unicode_len();
    let mut j: usize = i;
    loop
        invariant_except_break
            i <= j <= n,
            n == s@.len(),
            skip_ws_spec(s@, i as int) == skip_ws_spec(s@, j as int),
        ensures
            i <= j <= n,
            n == s@.len(),
            j == skip_ws_spec(s@, i as int),
        decreases n - j,
    {
        if j == n {
            break;
        }
        let c = s.get_char(j);
        if !(c == ' ' || c == '\t' || c == '\n' || c == '\r') {
            break;
        }
        j = j + 1;
    }
    j
}

/// Does the literal `lit` occur in `s` at position `i`?
pub(crate) fn has_lit_at(s: &str, i: usize, lit: &str) -> (r: bool)
    requires
        i <= s@.len(),
    ensures
        r == lit_at(s@, i as int, lit@),
{
    let n = s.unicode_len();
    let m = lit.unicode_len();
    if m > n - i {
        return false;
    }
    let mut j: usize = 0;
    while j < m
        invariant
            j <= m,
            i + m <= n,
            n == s@.len(),
            m == lit@.len(),
            forall|k: int| 0 <= k < j ==> s@[i + k] == lit@[k],
        decreases m - j,
    {
        if s.get_char(i + j) != lit.get_char(j) {
            proof {
                assert(s@.subrange(i as int, i as int + m as int)[j as int] == s@[i + j]);
            }
            return false;
        }
        j = j + 1;
    }
    proof {
        assert(s@.subrange(i as int, i as int + m as int) =~= lit@);
    }
    true
}

} // verus!
