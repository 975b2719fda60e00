//! Text that the store writes into its rows: decimal numbers and the
//! structured payload of a log entry.

use vstd::prelude::*;
use vstd::string::*;

verus! {

/// The character of one decimal digit.
pub open spec fn digit_char(d: nat) -> char {
    if d == 0 {
        '0'
    } else if d == 1 {
        '1'
    } else if d == 2 {
        '2'
    } else if d == 3 {
        '3'
    } else if d == 4 {
        '4'
    } else if d == 5 {
        '5'
    } else if d == 6 {
        '6'
    } else if d == 7 {
        '7'
    } else if d == 8 {
        '8'
    } else {
        '9'
    }
}

/// A natural number in decimal, without leading zeros.
pub open spec fn decimal_text(n: nat) -> Seq<char>
    decreases n,
{
    if n < 10 {
        seq![digit_char(n)]
    } else {
        decimal_text(n / 10).push(digit_char(n % 10))
    }
}

/// An integer in decimal, with a minus sign where it is negative.
pub open spec fn integer_text(i: int) -> Seq<char> {
    if i < 0 {
        seq!['-'] + decimal_text((-i) as nat)
    } else {
        decimal_text(i as nat)
    }
}

/// The text of a JSON string literal that holds `s`: the quotes and the
/// escapes included, as `serde_json` writes them.
pub uninterp spec fn json_string_text(s: Seq<char>) -> Seq<char>;

/// The payload of the log entry of a snapshot: a JSON object with the number
/// of files, the project's name (already quoted) and the bytes in all.
pub open spec fn details_text(quoted_name: Seq<char>, files_count: nat, total_size: int) -> Seq<
    char,
> {
    "{\"files_count\":"@ + decimal_text(files_count) + ",\"project_name\":"@ + quoted_name
        + ",\"total_size\":"@ + integer_text(total_size) + "}"@
}

/// The text of one decimal digit.
fn digit_str(d: u8) -> (out: &'static str)
    requires
        d < 10,
    ensures
        out@ == seq![digit_char(d as nat)],
{
    proof {
        reveal_strlit("0");
        reveal_strlit("1");
        reveal_strlit("2");
        reveal_strlit("3");
        reveal_strlit("4");
        reveal_strlit("5");
        reveal_strlit("6");
        reveal_strlit("7");
        reveal_strlit("8");
        reveal_strlit("9");
    }
    let out = if d == 0 {
        "0"
    } else if d == 1 {
        "1"
    } else if d == 2 {
        "2"
    } else if d == 3 {
        "3"
    } else if d == 4 {
        "4"
    } else if d == 5 {
        "5"
    } else if d == 6 {
        "6"
    } else if d == 7 {
        "7"
    } else if d == 8 {
        "8"
    } else {
        "9"
    };
    assert(out@ =~= seq![digit_char(d as nat)]);
    out
}

/// Appends `n` in decimal to `out`.
pub fn append_decimal(out: &mut String, n: u128)
    ensures
        final(out)@ == old(out)@ + decimal_text(n as nat),
    decreases n,
{
    if n >= 10 {
        append_decimal(out, n / 10);
    }
    let d: u8 = (n % 10) as u8;
    out.append(digit_str(d));
    proof {
        if n >= 10 {
            assert(final(out)@ =~= old(out)@ + decimal_text(n as nat));
        }
    }
}

/// Appends `i` in decimal to `out`, with its sign.
pub fn append_integer(out: &mut String, i: i128)
    ensures
        final(out)@ == old(out)@ + integer_text(i as int),
{
    if i < 0 {
        let m: u128 = ((-(i + 1)) as u128) + 1;
        out.append("-");
        append_decimal(out, m);
        proof {
            reveal_strlit("-");
            assert("-"@ =~= seq!['-']);
            assert(final(out)@ =~= old(out)@ + integer_text(i as int));
        }
    } else {
        append_decimal(out, i as u128);
    }
}

/// Calls `serde_json`'s `Display` for a `Value::String`, which writes the
/// string as a compact JSON literal. The contract names that text; it is a
/// function of the characters alone.
#[verifier::external_body]
fn json_string(s: &str) -> (out: String)
    ensures
        out@ == json_string_text(s@),
{
    serde_json::Value::String(s.to_owned()).to_string()
}

/// Assembles the payload from a name that is already a JSON literal.
pub fn details_document(quoted_name: &str, files_count: usize, total_size: i128) -> (out: String)
    ensures
        out@ == details_text(quoted_name@, files_count as nat, total_size as int),
{
    let mut out = String::from_str("{\"files_count\":");
    append_decimal(&mut out, files_count as u128);
    out.append(",\"project_name\":");
    out.append(quoted_name);
    out.append(",\"total_size\":");
    append_integer(&mut out, total_size);
    out.append("}");
    out
}

/// The payload for a project called `project_name`.
pub fn snapshot_details(project_name: &str, files_count: usize, total_size: i128) -> (out: String)
    ensures
        out@ == details_text(
            json_string_text(project_name@),
            files_count as nat,
            total_size as int,
        ),
{
    let quoted = json_string(project_name);
    details_document(quoted.as_str(), files_count, total_size)
}

/// Whether `a` comes before `b` from position `i` on, given that they agree
/// up to there: at the first difference the smaller code point decides, and
/// a text comes before every longer one that starts with it.
pub open spec fn text_before_from(a: Seq<char>, b: Seq<char>, i: int) -> bool
    decreases a.len() - i,
{
    if i >= b.len() {
        false
    } else if i >= a.len() {
        true
    } else if a[i] != b[i] {
        (a[i] as u32) < (b[i] as u32)
    } else {
        text_before_from(a, b, i + 1)
    }
}

/// The order of texts by code points, as a dictionary orders words.
pub open spec fn text_before(a: Seq<char>, b: Seq<char>) -> bool {
    text_before_from(a, b, 0)
}

/// The order is transitive from any position on.
pub proof fn text_before_from_transitive(a: Seq<char>, b: Seq<char>, c: Seq<char>, i: int)
    requires
        0 <= i,
        text_before_from(a, b, i),
        text_before_from(b, c, i),
    ensures
        text_before_from(a, c, i),
    decreases a.len() - i,
{
    if i < a.len() && i < b.len() && i < c.len() && a[i] == b[i] && b[i] == c[i] {
        text_before_from_transitive(a, b, c, i + 1);
    }
}

/// If `a` comes before `b` and `b` before `c`, then `a` comes before `c`.
pub proof fn text_before_transitive(a: Seq<char>, b: Seq<char>, c: Seq<char>)
    requires
        text_before(a, b),
        text_before(b, c),
    ensures
        text_before(a, c),
{
    text_before_from_transitive(a, b, c, 0);
}

/// Two different texts that agree up to a position are ordered from there.
pub proof fn text_before_from_total(a: Seq<char>, b: Seq<char>, i: int)
    requires
        0 <= i <= a.len(),
        i <= b.len(),
        forall|k: int| 0 <= k < i ==> a[k] == b[k],
        a != b,
    ensures
        text_before_from(a, b, i) || text_before_from(b, a, i),
    decreases a.len() - i,
{
    if i < a.len() && i < b.len() {
        if a[i] == b[i] {
            text_before_from_total(a, b, i + 1);
        } else {
            vstd::utf8::char_u32_cast(a[i], a[i] as u32);
            vstd::utf8::char_u32_cast(b[i], b[i] as u32);
        }
    } else if i >= a.len() && i >= b.len() {
        assert(a =~= b);
    }
}

/// No text comes before itself.
pub proof fn text_before_irreflexive(a: Seq<char>, i: int)
    requires
        0 <= i,
    ensures
        !text_before_from(a, a, i),
    decreases a.len() - i,
{
    if i < a.len() {
        text_before_irreflexive(a, i + 1);
    }
}

/// Of two different texts one comes before the other.
pub proof fn text_before_total(a: Seq<char>, b: Seq<char>)
    requires
        a != b,
    ensures
        text_before(a, b) || text_before(b, a),
{
    text_before_from_total(a, b, 0);
}

/// Whether `a` comes before `b` in the order of code points.
pub fn comes_before(a: &str, b: &str) -> (before: bool)
    ensures
        before == text_before(a@, b@),
{
    let n = a.unicode_len();
    let m = b.unicode_len();
    let mut i: usize = 0;
    while i < n && i < m
        invariant
            n == a@.len(),
            m == b@.len(),
            i <= n,
            i <= m,
            text_before(a@, b@) == text_before_from(a@, b@, i as int),
        decreases n - i,
    {
        let x = a.get_char(i);
        let y = b.get_char(i);
        if x != y {
            return (x as u32) < (y as u32);
        }
        i += 1;
    }
    i < m
}

} // verus!
