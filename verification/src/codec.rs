//! Command framing: argument escaping, quoting, decimal rendering and
//! parsing, and classification of response lines into the three shapes
//! the protocol allows (`key: value`, `OK`, `ACK <message>`).

use vstd::prelude::*;
use vstd::string::*;

verus! {

/// Character-wise equality of two string slices.
pub fn str_eq(a: &str, b: &str) -> (r: bool)
    ensures
        r == (a@ == b@),
{
    let alen = a.unicode_len();
    let blen = b.unicode_len();
    if alen != blen {
        return false;
    }
    let mut i: usize = 0;
    while i < alen
        invariant
            alen == a@.len(),
            blen == b@.len(),
            alen == blen,
            i <= alen,
            forall|j: int| 0 <= j < i ==> a@[j] == b@[j],
        decreases alen - i,
    {
        if a.get_char(i) != b.get_char(i) {
            return false;
        }
        i = i + 1;
    }
    proof {
        assert(a@ =~= b@);
    }
    true
}

/// How one character is escaped inside a quoted argument: the quote
/// delimiters `"` and `'` get a preceding backslash, everything else is
/// passed through.
pub open spec fn escape_char(c: char) -> Seq<char> {
    if c == '"' {
        seq!['\\', '"']
    } else if c == '\'' {
        seq!['\\', '\'']
    } else {
        seq![c]
    }
}

/// The escaped form of a whole argument.
pub open spec fn escape_seq(s: Seq<char>) -> Seq<char>
    decreases s.len(),
{
    if s.len() == 0 {
        Seq::empty()
    } else {
        escape_seq(s.drop_last()) + escape_char(s.last())
    }
}

/// Escapes the quote delimiters of an argument string.
pub fn escape_str(s: &str) -> (r: String)
    ensures
        r@ == escape_seq(s@),
{
    let len = s.unicode_len();
    let mut out = String::new();
    let mut i: usize = 0;
    while i < len
        invariant
            len == s@.len(),
            i <= len,
            out@ == escape_seq(s@.take(i as int)),
        decreases len - i,
    {
        let c = s.get_char(i);
        if c == '"' {
            out.append("\\\"");
            proof {
                reveal_strlit("\\\"");
                assert(("\\\"")@ =~= escape_char(c));
            }
        } else if c == '\'' {
            out.append("\\'");
            proof {
                reveal_strlit("\\'");
                assert(("\\'")@ =~= escape_char(c));
            }
        } else {
            let piece = s.substring_char(i, i + 1);
            out.append(piece);
            proof {
                assert(piece@ =~= escape_char(c));
            }
        }
        proof {
            assert(s@.take(i + 1).drop_last() =~= s@.take(i as int));
            assert(s@.take(i + 1).last() == c);
        }
        i = i + 1;
    }
    proof {
        assert(s@.take(len as int) =~= s@);
    }
    out
}

/// An argument wrapped in double quotes, with its delimiters escaped.
pub open spec fn quoted(s: Seq<char>) -> Seq<char> {
    seq!['"'] + escape_seq(s) + seq!['"']
}

/// Quotes an argument for inclusion in a command line.
pub fn quote_arg(s: &str) -> (r: String)
    ensures
        r@ == quoted(s@),
{
    let mut out = String::from_str("\"");
    let e = escape_str(s);
    out.append(e.as_str());
    out.append("\"");
    proof {
        reveal_strlit("\"");
        assert(out@ =~= quoted(s@));
    }
    out
}

/// The character for one decimal digit.
pub open spec fn dec_digit(d: int) -> char {
    if d == 0 {
        '0'
    } else if d == 1 {
        '1'
    } else if d == 2 {
        '2'
    } else if d == 3 {
        '3'
    } else if d == 4 {
        '4'
    } else if d == 5 {
        '5'
    } else if d == 6 {
        '6'
    } else if d == 7 {
        '7'
    } else if d == 8 {
        '8'
    } else {
        '9'
    }
}

/// The usual decimal rendering of a natural number, most significant
/// digit first, no leading zeros (except for zero itself).
pub open spec fn dec_rep(n: int) -> Seq<char>
    decreases n,
{
    if n < 10 {
        seq![dec_digit(n)]
    } else {
        dec_rep(n / 10).push(dec_digit(n % 10))
    }
}

fn digit_str(d: u64) -> (r: &'static str)
    requires
        d < 10,
    ensures
        r@ == seq![dec_digit(d as int)],
{
    let r: &'static str = if d == 0 {
        "0"
    } else if d == 1 {
        "1"
    } else if d == 2 {
        "2"
    } else if d == 3 {
        "3"
    } else if d == 4 {
        "4"
    } else if d == 5 {
        "5"
    } else if d == 6 {
        "6"
    } else if d == 7 {
        "7"
    } else if d == 8 {
        "8"
    } else {
        "9"
    };
    proof {
        reveal_strlit("0");
        reveal_strlit("1");
        reveal_strlit("2");
        reveal_strlit("3");
        reveal_strlit("4");
        reveal_strlit("5");
        reveal_strlit("6");
        reveal_strlit("7");
        reveal_strlit("8");
        reveal_strlit("9");
        assert(r@ =~= seq![dec_digit(d as int)]);
    }
    r
}

/// Renders a number in decimal.
pub fn u64_to_dec(n: u64) -> (r: String)
    ensures
        r@ == dec_rep(n as int),
    decreases n,
{
    if n < 10 {
        let r = String::from_str(digit_str(n));
        r
    } else {
        let mut r = u64_to_dec(n / 10);
        r.append(digit_str(n % 10));
        proof {
            assert(r@ =~= dec_rep(n as int));
        }
        r
    }
}

/// Whether a character is a decimal digit.
pub open spec fn is_digit(c: char) -> bool {
    '0' as int <= c as int <= '9' as int
}

/// The numeric value of a digit character.
pub open spec fn digit_val(c: char) -> int {
    c as int - '0' as int
}

/// Whether every character of the sequence is a decimal digit.
pub open spec fn all_digits(s: Seq<char>) -> bool {
    forall|i: int| 0 <= i < s.len() ==> is_digit(#[trigger] s[i])
}

/// The numeric value of a digit string, most significant digit first.
pub open spec fn dec_val(s: Seq<char>) -> int
    decreases s.len(),
{
    if s.len() == 0 {
        0
    } else {
        dec_val(s.drop_last()) * 10 + digit_val(s.last())
    }
}

proof fn lemma_dec_val_nonneg(s: Seq<char>)
    requires
        all_digits(s),
    ensures
        dec_val(s) >= 0,
    decreases s.len(),
{
    if s.len() > 0 {
        assert(all_digits(s.drop_last()));
        lemma_dec_val_nonneg(s.drop_last());
    }
}

/// Along a digit string, the value of a prefix never exceeds the value
/// of the whole.
proof fn lemma_dec_val_prefix(s: Seq<char>, i: int)
    requires
        all_digits(s),
        0 <= i <= s.len(),
    ensures
        dec_val(s.take(i)) <= dec_val(s),
    decreases s.len() - i,
{
    if i < s.len() {
        assert(all_digits(s.take(i)));
        assert(s.take(i + 1).drop_last() =~= s.take(i));
        assert(is_digit(s.take(i + 1).last()));
        lemma_dec_val_nonneg(s.take(i));
        assert(dec_val(s.take(i + 1)) == dec_val(s.take(i)) * 10 + digit_val(s[i]));
        assert(dec_val(s.take(i)) * 10 >= dec_val(s.take(i))) by (nonlinear_arith)
            requires
                dec_val(s.take(i)) >= 0,
        ;
        lemma_dec_val_prefix(s, i + 1);
    } else {
        assert(s.take(i) =~= s);
    }
}

/// Parses an unsigned decimal number, exactly when the whole string is
/// one or more digits and the value fits in `usize`.
pub fn parse_usize(s: &str) -> (r: Option<usize>)
    ensures
        match r {
            Some(v) => s@.len() > 0 && all_digits(s@) && v as int == dec_val(s@),
            None => s@.len() == 0 || !all_digits(s@) || dec_val(s@) > usize::MAX as int,
        },
{
    let len = s.unicode_len();
    if len == 0 {
        return None;
    }
    let mut acc: usize = 0;
    let mut i: usize = 0;
    while i < len
        invariant
            len == s@.len(),
            0 < len,
            i <= len,
            all_digits(s@.take(i as int)),
            acc as int == dec_val(s@.take(i as int)),
        decreases len - i,
    {
        let c = s.get_char(i);
        let u = c as u32;
        if u < 48 || u > 57 {
            proof {
                assert(!is_digit(s@[i as int]));
            }
            return None;
        }
        let d = (u - 48) as usize;
        proof {
            assert(s@.take(i + 1).drop_last() =~= s@.take(i as int));
            assert(all_digits(s@.take(i + 1)));
            assert(dec_val(s@.take(i + 1)) == acc as int * 10 + d as int);
        }
        if acc > (usize::MAX - d) / 10 {
            proof {
                let q = (usize::MAX - d) as int / 10;
                assert(acc as int * 10 + d > usize::MAX as int) by (nonlinear_arith)
                    requires
                        acc as int > q,
                        q == (usize::MAX - d) as int / 10,
                        0 <= d as int <= 9,
                ;
                if all_digits(s@) {
                    lemma_dec_val_prefix(s@, i + 1);
                    assert(dec_val(s@) > usize::MAX as int);
                }
            }
            return None;
        }
        proof {
            let q = (usize::MAX - d) as int / 10;
            assert(acc as int * 10 + d <= usize::MAX as int) by (nonlinear_arith)
                requires
                    acc as int <= q,
                    q == (usize::MAX - d) as int / 10,
                    0 <= d as int <= 9,
            ;
        }
        acc = acc * 10 + d;
        i = i + 1;
    }
    proof {
        assert(s@.take(len as int) =~= s@);
    }
    Some(acc)
}

/// Parses an unsigned decimal number that must fit in `u32`.
pub fn parse_u32(s: &str) -> (r: Option<u32>)
    ensures
        match r {
            Some(v) => s@.len() > 0 && all_digits(s@) && v as int == dec_val(s@),
            None => s@.len() == 0 || !all_digits(s@) || dec_val(s@) > u32::MAX as int,
        },
{
    match parse_usize(s) {
        Some(v) => if v <= u32::MAX as usize {
            Some(v as u32)
        } else {
            None
        },
        None => None,
    }
}

/// The value of a signed decimal string as `str::parse::<i32>` accepts
/// it: an optional sign, then one or more digits, within the range of
/// the 32-bit type.
pub open spec fn parse_i32_spec(s: Seq<char>) -> Option<int> {
    let neg = s.len() > 0 && s[0] == '-';
    let digits = if s.len() > 0 && (s[0] == '-' || s[0] == '+') {
        s.skip(1)
    } else {
        s
    };
    if digits.len() > 0 && all_digits(digits) {
        let v = if neg {
            -dec_val(digits)
        } else {
            dec_val(digits)
        };
        if -2147483648 <= v <= 2147483647 {
            Some(v)
        } else {
            None
        }
    } else {
        None
    }
}

/// Parses a signed decimal number into `i32`.
pub fn parse_i32(s: &str) -> (r: Option<i32>)
    ensures
        match r {
            Some(v) => parse_i32_spec(s@) == Some(v as int),
            None => parse_i32_spec(s@) is None,
        },
{
    let len = s.unicode_len();
    if len == 0 {
        return None;
    }
    let c0 = s.get_char(0);
    let neg = c0 == '-';
    let start: usize = if c0 == '-' || c0 == '+' {
        1
    } else {
        0
    };
    let digits = s.substring_char(start, len);
    proof {
        assert(digits@ =~= if start == 1 {
            s@.skip(1)
        } else {
            s@
        });
    }
    match parse_usize(digits) {
        Some(v) => {
            if neg {
                if v <= 2147483648 {
                    if v == 2147483648 {
                        Some(i32::MIN)
                    } else {
                        Some(-(v as i32))
                    }
                } else {
                    None
                }
            } else {
                if v <= 2147483647 {
                    Some(v as i32)
                } else {
                    None
                }
            }
        },
        None => None,
    }
}

/// The byte count announced by a `binary` property value: defined
/// exactly when the whole value is one or more digits and the count
/// fits the machine.
pub open spec fn binary_count(v: Seq<char>) -> Option<int> {
    if v.len() > 0 && all_digits(v) && dec_val(v) <= usize::MAX as int {
        Some(dec_val(v))
    } else {
        None
    }
}

/// Whether a line is the success terminator: exactly `OK`.
pub open spec fn is_success_line(l: Seq<char>) -> bool {
    l.len() == 2 && l[0] == 'O' && l[1] == 'K'
}

/// Whether a line is the failure terminator: it begins with `ACK`.
pub open spec fn is_failure_line(l: Seq<char>) -> bool {
    l.len() >= 3 && l[0] == 'A' && l[1] == 'C' && l[2] == 'K'
}

/// Whether the property separator `": "` stands at position `i`.
pub open spec fn sep_at(l: Seq<char>, i: int) -> bool {
    0 <= i && i + 2 <= l.len() && l[i] == ':' && l[i + 1] == ' '
}

/// The position of the first property separator, if any.
pub open spec fn find_sep(l: Seq<char>) -> Option<int>
    decreases l.len(),
{
    if l.len() < 2 {
        None
    } else if l[0] == ':' && l[1] == ' ' {
        Some(0)
    } else {
        match find_sep(l.drop_first()) {
            None => None,
            Some(j) => Some(j + 1),
        }
    }
}

/// A separator at `i` and none before it pins `find_sep` down.
proof fn lemma_find_sep_at(l: Seq<char>, i: int)
    requires
        sep_at(l, i),
        forall|j: int| 0 <= j < i ==> !sep_at(l, j),
    ensures
        find_sep(l) == Some(i),
    decreases l.len(),
{
    if i == 0 {
    } else {
        assert(!sep_at(l, 0));
        let ld = l.drop_first();
        assert(ld[i - 1] == l[i] && ld[i] == l[i + 1]);
        assert(sep_at(ld, i - 1));
        assert(forall|j: int| 0 <= j < i - 1 ==> l[j + 1] == #[trigger] ld[j]);
        assert(forall|j: int| 0 <= j < i - 1 ==> !sep_at(ld, j)) by {
            assert forall|j: int| 0 <= j < i - 1 implies !sep_at(ld, j) by {
                assert(!sep_at(l, j + 1));
                assert(ld[j] == l[j + 1]);
                if j + 2 <= ld.len() {
                    assert(ld[j + 1] == l[j + 2]);
                }
            }
        }
        lemma_find_sep_at(ld, i - 1);
    }
}

/// No separator anywhere means `find_sep` finds none.
proof fn lemma_find_sep_none(l: Seq<char>)
    requires
        forall|j: int| 0 <= j ==> !sep_at(l, j),
    ensures
        find_sep(l) == None::<int>,
    decreases l.len(),
{
    if l.len() < 2 {
    } else {
        assert(!sep_at(l, 0));
        let ld = l.drop_first();
        assert(forall|j: int| 0 <= j ==> !sep_at(ld, j)) by {
            assert forall|j: int| 0 <= j implies !sep_at(ld, j) by {
                assert(!sep_at(l, j + 1));
                if j + 2 <= ld.len() {
                    assert(ld[j] == l[j + 1] && ld[j + 1] == l[j + 2]);
                }
            }
        }
        lemma_find_sep_none(ld);
    }
}

/// Whether a character counts as trailing whitespace of a value.
pub open spec fn is_line_space(c: char) -> bool {
    c == ' ' || c == '\t' || c == '\r' || c == '\n'
}

/// The sequence with its trailing whitespace removed.
pub open spec fn trimmed_end(s: Seq<char>) -> Seq<char>
    decreases s.len(),
{
    if s.len() > 0 && is_line_space(s.last()) {
        trimmed_end(s.drop_last())
    } else {
        s
    }
}

/// The key and value of a property line: the text before the first
/// `": "` separator, and the text after it with trailing whitespace
/// trimmed.
pub open spec fn parsed_property(l: Seq<char>) -> Option<(Seq<char>, Seq<char>)> {
    match find_sep(l) {
        None => None,
        Some(i) => Some((l.take(i), trimmed_end(l.skip(i + 2)))),
    }
}

/// One response line, classified into the shapes the protocol allows.
/// `Mismatch` is a framing violation: the line matched no shape.
pub enum ResponseLine {
    Property { key: String, value: String },
    Success,
    Failure { message: String },
    Mismatch,
}

fn is_space_char(c: char) -> (r: bool)
    ensures
        r == is_line_space(c),
{
    c == ' ' || c == '\t' || c == '\r' || c == '\n'
}

/// Classifies one response line. The terminators win over the property
/// shape: `OK` exactly is success, an `ACK` prefix is failure (the whole
/// line is the message), then a line with a `": "` separator is a
/// property, and anything else is a framing violation.
pub fn classify_line(line: &str) -> (r: ResponseLine)
    ensures
        match r {
            ResponseLine::Success => is_success_line(line@),
            ResponseLine::Failure { message } => is_failure_line(line@) && message@ == line@
                && !is_success_line(line@),
            ResponseLine::Property { key, value } => !is_success_line(line@) && !is_failure_line(
                line@,
            ) && parsed_property(line@) == Some((key@, value@)),
            ResponseLine::Mismatch => !is_success_line(line@) && !is_failure_line(line@)
                && parsed_property(line@) is None,
        },
{
    let len = line.unicode_len();
    if len == 2 && line.get_char(0) == 'O' && line.get_char(1) == 'K' {
        return ResponseLine::Success;
    }
    if len >= 3 && line.get_char(0) == 'A' && line.get_char(1) == 'C' && line.get_char(2) == 'K' {
        return ResponseLine::Failure { message: String::from_str(line) };
    }
    let mut i: usize = 0;
    while i < len && i + 1 < len
        invariant
            len == line@.len(),
            i <= len,
            !is_success_line(line@),
            !is_failure_line(line@),
            forall|j: int| 0 <= j < i ==> !sep_at(line@, j),
        decreases len - i,
    {
        if line.get_char(i) == ':' && line.get_char(i + 1) == ' ' {
            proof {
                assert(sep_at(line@, i as int));
                lemma_find_sep_at(line@, i as int);
            }
            let key = String::from_str(line.substring_char(0, i));
            let mut end = len;
            while end > i + 2 && is_space_char(line.get_char(end - 1))
                invariant
                    len == line@.len(),
                    i + 2 <= end <= len,
                    trimmed_end(line@.skip(i + 2)) == trimmed_end(
                        line@.subrange(i + 2, end as int),
                    ),
                decreases end,
            {
                proof {
                    let pre = line@.subrange(i + 2, end as int);
                    assert(pre.last() == line@[end - 1]);
                    assert(pre.drop_last() =~= line@.subrange(i + 2, end - 1));
                }
                end = end - 1;
            }
            let value = String::from_str(line.substring_char(i + 2, end));
            proof {
                let cut = line@.subrange(i + 2, end as int);
                if end > i + 2 {
                    assert(cut.last() == line@[end - 1]);
                    assert(!is_line_space(cut.last()));
                } else {
                    assert(cut.len() == 0);
                }
                assert(trimmed_end(cut) == cut);
                assert(line@.take(i as int) =~= key@);
                assert(line@.skip(i + 2) =~= line@.subrange(i + 2, len as int));
                assert(value@ == cut);
                assert(parsed_property(line@) == Some((key@, value@)));
                assert(!is_success_line(line@));
                assert(!is_failure_line(line@));
            }
            return ResponseLine::Property { key, value };
        }
        proof {
            assert(!sep_at(line@, i as int));
        }
        i = i + 1;
    }
    proof {
        assert(forall|j: int| 0 <= j ==> !sep_at(line@, j)) by {
            assert forall|j: int| 0 <= j implies !sep_at(line@, j) by {
                if j + 2 <= len {
                    assert(j < i);
                }
            }
        }
        lemma_find_sep_none(line@);
    }
    ResponseLine::Mismatch
}

/// The wire form of one property line.
pub open spec fn render_prop(k: Seq<char>, v: Seq<char>) -> Seq<char> {
    k + seq![':', ' '] + v
}

/// A key that renders unambiguously: it holds no colon (so the first
/// separator of the rendered line is its own), and does not itself begin
/// with the failure terminator's `ACK` prefix.
pub open spec fn wf_key(k: Seq<char>) -> bool {
    (forall|i: int| 0 <= i < k.len() ==> #[trigger] k[i] != ':') && !(k.len() >= 3 && k[0] == 'A'
        && k[1] == 'C' && k[2] == 'K')
}

/// A value that renders unambiguously: no embedded line break, and no
/// trailing whitespace (which decoding would trim away).
pub open spec fn wf_value(v: Seq<char>) -> bool {
    trimmed_end(v) == v && forall|i: int| 0 <= i < v.len() ==> #[trigger] v[i] != '\n'
}

/// Decoding inverts rendering: a well-formed property's rendered line
/// classifies as a property and parses back to exactly that key and
/// value.
pub proof fn lemma_parse_rendered(k: Seq<char>, v: Seq<char>)
    requires
        wf_key(k),
        wf_value(v),
    ensures
        !is_success_line(render_prop(k, v)),
        !is_failure_line(render_prop(k, v)),
        parsed_property(render_prop(k, v)) == Some((k, v)),
{
    let l = render_prop(k, v);
    assert(l.len() == k.len() + 2 + v.len());
    assert(forall|i: int| 0 <= i < k.len() ==> l[i] == #[trigger] k[i]);
    assert(l[k.len() as int] == ':' && l[k.len() as int + 1] == ' ');
    assert(forall|i: int| 0 <= i < v.len() ==> l[k.len() + 2 + i] == #[trigger] v[i]);
    assert(sep_at(l, k.len() as int));
    assert(forall|j: int| 0 <= j < k.len() ==> !sep_at(l, j));
    lemma_find_sep_at(l, k.len() as int);
    assert(l.take(k.len() as int) =~= k);
    assert(l.skip(k.len() as int + 2) =~= v);
    assert(!is_success_line(l)) by {
        if l.len() == 2 {
            assert(k.len() == 0 && v.len() == 0);
            assert(l[0] == ':');
        }
    }
    assert(!is_failure_line(l)) by {
        if l.len() >= 3 {
            if k.len() == 0 {
                assert(l[0] == ':');
            } else if k.len() == 1 {
                assert(l[1] == ':');
            } else if k.len() == 2 {
                assert(l[2] == ':');
            } else {
                if l[0] == 'A' && l[1] == 'C' && l[2] == 'K' {
                    assert(k[0] == 'A' && k[1] == 'C' && k[2] == 'K');
                }
            }
        }
    }
}

} // verus!
