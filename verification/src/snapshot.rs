//! The session snapshot: a canonical text form of a session, written after
//! every advance so that an interrupted run can resume.
//!
//! The format is line-based: the mode, the A4 reference (micro-hertz), the
//! current position, then one line per completed note holding the deviation
//! (milli-cents), a comma, and the note's display name. Every line ends
//! with a newline; numbers are canonical decimal (no leading zeros, no
//! negative zero). Encoding is exact; decoding accepts exactly the strings
//! that re-encode to themselves, so no snapshot ever decodes to a session
//! other than the one that wrote it. Reading and writing the file is the
//! caller's business.

use vstd::prelude::*;
use vstd::string::StrSliceExecFns;
use vstd::string::StringExecFns;
use crate::session::CompletedNote;
use crate::session::Session;
use crate::session::TuningMode;

verus! {

/// The decimal digit character for a value 0..=9.
pub open spec fn spec_digit_char(d: int) -> char {
    if d == 0 {
        '0'
    } else if d == 1 {
        '1'
    } else if d == 2 {
        '2'
    } else if d == 3 {
        '3'
    } else if d == 4 {
        '4'
    } else if d == 5 {
        '5'
    } else if d == 6 {
        '6'
    } else if d == 7 {
        '7'
    } else if d == 8 {
        '8'
    } else {
        '9'
    }
}

/// Canonical decimal digits of a nonnegative number, most significant
/// first.
pub open spec fn spec_u64_digits(n: int) -> Seq<char>
    decreases n,
{
    if n < 10 {
        seq![spec_digit_char(n)]
    } else {
        spec_u64_digits(n / 10).push(spec_digit_char(n % 10))
    }
}

/// Whether a character is a decimal digit.
pub open spec fn spec_is_digit(c: char) -> bool {
    '0' <= c <= '9'
}

/// The value of a digit character.
pub open spec fn spec_digit_val(c: char) -> int {
    c as int - '0' as int
}

/// Whether every character of a sequence is a digit.
pub open spec fn spec_all_digits(s: Seq<char>) -> bool {
    forall|i: int| 0 <= i < s.len() ==> spec_is_digit(#[trigger] s[i])
}

/// The number a digit sequence denotes.
pub open spec fn spec_digits_value(s: Seq<char>) -> int
    decreases s.len(),
{
    if s.len() == 0 {
        0
    } else {
        spec_digits_value(s.drop_last()) * 10 + spec_digit_val(s.last())
    }
}

/// Whether a sequence is a canonical decimal number: nonempty, all digits,
/// and without a leading zero (except the number zero itself).
pub open spec fn spec_canonical_number(s: Seq<char>) -> bool {
    &&& s.len() >= 1
    &&& spec_all_digits(s)
    &&& (s.len() > 1 ==> s[0] != '0')
}

/// Digit character of a small value.
fn digit_str(d: u64) -> (r: &'static str)
    requires
        d < 10,
    ensures
        r@ =~= seq![spec_digit_char(d as int)],
{
    proof {
        reveal_strlit("0");
        reveal_strlit("1");
        reveal_strlit("2");
        reveal_strlit("3");
        reveal_strlit("4");
        reveal_strlit("5");
        reveal_strlit("6");
        reveal_strlit("7");
        reveal_strlit("8");
        reveal_strlit("9");
    }
    if d == 0 {
        "0"
    } else if d == 1 {
        "1"
    } else if d == 2 {
        "2"
    } else if d == 3 {
        "3"
    } else if d == 4 {
        "4"
    } else if d == 5 {
        "5"
    } else if d == 6 {
        "6"
    } else if d == 7 {
        "7"
    } else if d == 8 {
        "8"
    } else {
        "9"
    }
}

/// Format a number as canonical decimal digits.
pub fn format_u64(n: u64) -> (r: String)
    ensures
        r@ == spec_u64_digits(n as int),
    decreases n,
{
    if n < 10 {
        digit_str(n).to_owned()
    } else {
        let mut s: String = format_u64(n / 10);
        s.append(digit_str(n % 10));
        proof {
            assert(s@ =~= spec_u64_digits(n as int));
        }
        s
    }
}

/// Digits are digits, and the encoding of a number is canonical.
pub proof fn lemma_format_canonical(n: int)
    requires
        n >= 0,
    ensures
        spec_canonical_number(spec_u64_digits(n)),
        spec_u64_digits(n).len() > 1 ==> n >= 10,
    decreases n,
{
    if n >= 10 {
        lemma_format_canonical(n / 10);
        let prefix = spec_u64_digits(n / 10);
        assert(spec_u64_digits(n) == prefix.push(spec_digit_char(n % 10)));
        assert(spec_is_digit(spec_digit_char(n % 10)));
        assert forall|i: int| 0 <= i < spec_u64_digits(n).len() implies spec_is_digit(
            #[trigger] spec_u64_digits(n)[i],
        ) by {
            if i < prefix.len() {
                assert(spec_u64_digits(n)[i] == prefix[i]);
            }
        }
        assert(n / 10 >= 1);
        if n / 10 < 10 {
            assert(prefix == seq![spec_digit_char(n / 10)]);
            assert(spec_digit_char(n / 10) != '0');
            assert(spec_u64_digits(n)[0] != '0');
        } else {
            assert(prefix.len() > 1 ==> prefix[0] != '0');
            assert(prefix.len() >= 2) by {
                assert(prefix == spec_u64_digits((n / 10) / 10).push(
                    spec_digit_char((n / 10) % 10),
                ));
                assert(spec_u64_digits((n / 10) / 10).len() >= 1);
            }
            assert(spec_u64_digits(n)[0] == prefix[0]);
        }
    } else {
        assert(spec_is_digit(spec_digit_char(n)));
    }
}

/// Parsing the digits of a number gives the number back: formatting and
/// value are mutually inverse on canonical strings.
pub proof fn lemma_format_value(n: int)
    requires
        n >= 0,
    ensures
        spec_digits_value(spec_u64_digits(n)) == n,
    decreases n,
{
    if n >= 10 {
        lemma_format_value(n / 10);
        let s = spec_u64_digits(n);
        assert(s.drop_last() =~= spec_u64_digits(n / 10));
        assert(spec_digit_val(spec_digit_char(n % 10)) == n % 10);
        vstd::arithmetic::div_mod::lemma_fundamental_div_mod(n, 10);
    } else {
        assert(spec_digits_value(seq![spec_digit_char(n)].drop_last()) == 0);
        assert(spec_digit_val(spec_digit_char(n)) == n);
    }
}

/// A canonical digit string is the encoding of its own value: decoding is
/// the inverse of encoding.
pub proof fn lemma_value_format(s: Seq<char>)
    requires
        spec_canonical_number(s),
    ensures
        spec_digits_value(s) >= 0,
        spec_u64_digits(spec_digits_value(s)) == s,
        s.len() > 1 ==> spec_digits_value(s) >= 10,
    decreases s.len(),
{
    if s.len() == 1 {
        let c = s[0];
        assert(spec_is_digit(c));
        assert(0 <= spec_digit_val(c) <= 9);
        assert(s.last() == c);
        assert(s.drop_last() =~= Seq::<char>::empty());
        assert(spec_digits_value(s.drop_last()) == 0);
        assert(spec_digits_value(s) == 0 * 10 + spec_digit_val(c));
        assert(spec_u64_digits(spec_digit_val(c)) == seq![spec_digit_char(spec_digit_val(c))]);
        assert(spec_digit_char(spec_digit_val(c)) == c);
        assert(spec_u64_digits(spec_digits_value(s)) =~= s);
    } else {
        let prefix = s.drop_last();
        assert(prefix.len() >= 1);
        assert(spec_all_digits(prefix)) by {
            assert(forall|i: int| 0 <= i < prefix.len() ==> prefix[i] == #[trigger] s[i]);
        }
        assert(prefix[0] == s[0]);
        lemma_value_format(prefix);
        let v = spec_digits_value(prefix);
        let d = spec_digit_val(s.last());
        assert(0 <= d <= 9);
        assert(spec_digits_value(s) == v * 10 + d);
        assert(v >= 1) by {
            if v == 0 {
                assert(spec_u64_digits(0) == seq![spec_digit_char(0)]);
                assert(prefix == seq!['0']);
                assert(s[0] == '0');
            }
        }
        assert(v * 10 + d >= 10) by (nonlinear_arith)
            requires
                v >= 1,
                d >= 0;
        assert((v * 10 + d) / 10 == v && (v * 10 + d) % 10 == d) by {
            vstd::arithmetic::div_mod::lemma_fundamental_div_mod_converse(v * 10 + d, 10, v, d);
        }
        assert(spec_u64_digits(v * 10 + d) == spec_u64_digits(v).push(spec_digit_char(d)));
        assert(spec_digit_char(spec_digit_val(s.last())) == s.last());
        assert(spec_u64_digits(spec_digits_value(s)) =~= s);
    }
}

/// Parse a canonical decimal number: the value of a nonempty all-digit
/// string without leading zeros, when it fits the machine word.
pub fn parse_u64(s: &str) -> (r: Option<u64>)
    ensures
        (match r {
            Some(v) => {
                &&& spec_canonical_number(s@)
                &&& v == spec_digits_value(s@)
            },
            None => !(spec_canonical_number(s@) && spec_digits_value(s@) <= u64::MAX),
        }),
{
    let n: usize = s.unicode_len();
    if n == 0 {
        return None;
    }
    let first: char = s.get_char(0);
    if n > 1 && first == '0' {
        return None;
    }
    let mut acc: u64 = 0;
    let mut i: usize = 0;
    while i < n
        invariant
            0 <= i <= n,
            n == s@.len(),
            spec_all_digits(s@.take(i as int)),
            acc == spec_digits_value(s@.take(i as int)),
        decreases n - i,
    {
        let c: char = s.get_char(i);
        if c < '0' || c > '9' {
            proof {
                assert(!spec_is_digit(s@[i as int]));
            }
            return None;
        }
        let d: u64 = (c as u32 as u64) - 48;
        proof {
            assert(spec_digit_val(s@[i as int]) == d);
            assert(s@.take(i + 1).drop_last() =~= s@.take(i as int));
        }
        if acc > (u64::MAX - d) / 10 {
            proof {
                assert(spec_digits_value(s@.take(i + 1)) == acc * 10 + d);
                assert(acc * 10 + d > u64::MAX) by (nonlinear_arith)
                    requires
                        acc > (u64::MAX - d) / 10,
                        0 <= d <= 9,
                        10 * ((u64::MAX - d) as int / 10) + (u64::MAX - d) as int % 10 == (u64::MAX
                            - d) as int,
                        0 <= (u64::MAX - d) as int % 10 < 10;
                if spec_canonical_number(s@) && spec_digits_value(s@) <= u64::MAX {
                    lemma_digits_value_grows(s@, i as int + 1);
                    assert(false);
                }
            }
            return None;
        }
        proof {
            assert(acc * 10 + d <= u64::MAX) by (nonlinear_arith)
                requires
                    acc <= (u64::MAX - d) / 10,
                    0 <= d <= 9,
                    10 * ((u64::MAX - d) as int / 10) + (u64::MAX - d) as int % 10 == (u64::MAX
                        - d) as int,
                    0 <= (u64::MAX - d) as int % 10 < 10;
        }
        acc = acc * 10 + d;
        i = i + 1;
    }
    proof {
        assert(s@.take(n as int) =~= s@);
    }
    Some(acc)
}

/// Once a prefix of an all-digit string exceeds the machine word, the whole
/// string's value does too.
proof fn lemma_digits_value_grows(s: Seq<char>, k: int)
    requires
        0 <= k <= s.len(),
        spec_all_digits(s),
    ensures
        spec_digits_value(s) >= spec_digits_value(s.take(k)),
        spec_digits_value(s) >= 0,
    decreases s.len() - k,
{
    if k < s.len() {
        lemma_digits_value_grows(s, k + 1);
        let p = s.take(k);
        let q = s.take(k + 1);
        assert(q.drop_last() =~= p);
        assert(spec_is_digit(s[k]));
        assert(spec_digits_value(q) == spec_digits_value(p) * 10 + spec_digit_val(s[k]));
        lemma_digits_nonneg(p);
        assert(spec_digits_value(p) * 10 >= spec_digits_value(p)) by (nonlinear_arith)
            requires
                spec_digits_value(p) >= 0;
    } else {
        assert(s.take(k) =~= s);
        lemma_digits_nonneg(s);
    }
}

/// An all-digit string denotes a nonnegative number.
proof fn lemma_digits_nonneg(s: Seq<char>)
    requires
        spec_all_digits(s),
    ensures
        spec_digits_value(s) >= 0,
    decreases s.len(),
{
    if s.len() > 0 {
        assert(spec_all_digits(s.drop_last())) by {
            assert(forall|i: int|
                0 <= i < s.len() - 1 ==> s.drop_last()[i] == #[trigger] s[i]);
        }
        lemma_digits_nonneg(s.drop_last());
        assert(spec_is_digit(s.last()));
        assert(spec_digits_value(s.drop_last()) * 10 >= 0) by (nonlinear_arith)
            requires
                spec_digits_value(s.drop_last()) >= 0;
    }
}

/// Round trip of the number codec: the encoding of a number is a canonical
/// string that decodes back to the number, and every canonical string
/// re-encodes to itself. With the contracts of `format_u64` and
/// `parse_u64`, parsing an encoded number always succeeds and returns the
/// number.
pub proof fn lemma_number_round_trip(n: int, s: Seq<char>)
    requires
        0 <= n <= u64::MAX,
        spec_canonical_number(s),
        spec_digits_value(s) <= u64::MAX,
    ensures
        spec_canonical_number(spec_u64_digits(n)),
        spec_digits_value(spec_u64_digits(n)) == n,
        spec_u64_digits(spec_digits_value(s)) == s,
{
    lemma_format_canonical(n);
    lemma_format_value(n);
    lemma_value_format(s);
}

/// Text form of the tuning mode.
pub open spec fn spec_mode_str(m: TuningMode) -> Seq<char> {
    match m {
        TuningMode::Quick => "quick"@,
        TuningMode::Concert => "concert"@,
    }
}

/// Canonical decimal form of a signed deviation.
pub open spec fn spec_cents_digits(c: int) -> Seq<char> {
    if c < 0 {
        seq!['-'] + spec_u64_digits(-c)
    } else {
        spec_u64_digits(c)
    }
}

/// One snapshot line for a completed note: deviation, comma, name,
/// newline. The name stands last so that it may itself contain commas.
pub open spec fn spec_note_line(n: CompletedNote) -> Seq<char> {
    spec_cents_digits(n.final_cents as int) + seq![','] + n.name@ + seq!['\n']
}

/// The note lines of a snapshot, from position `i` of the record list on.
pub open spec fn spec_notes_lines(ns: Seq<CompletedNote>, i: int) -> Seq<char>
    decreases ns.len() - i,
{
    if i < 0 || i >= ns.len() {
        Seq::empty()
    } else {
        spec_note_line(ns[i]) + spec_notes_lines(ns, i + 1)
    }
}

/// The full snapshot text of a session.
pub open spec fn spec_encode_session(s: Session) -> Seq<char> {
    spec_mode_str(s.mode) + seq!['\n'] + spec_u64_digits(s.a4_reference as int) + seq!['\n']
        + spec_u64_digits(s.current_note_index as int) + seq!['\n'] + spec_notes_lines(
        s.completed_notes@,
        0,
    )
}

/// Appending one record appends one line.
proof fn lemma_notes_lines_push(ns: Seq<CompletedNote>, x: CompletedNote, i: int)
    requires
        0 <= i <= ns.len(),
    ensures
        spec_notes_lines(ns.push(x), i) == spec_notes_lines(ns, i) + spec_note_line(x),
    decreases ns.len() - i,
{
    if i < ns.len() {
        lemma_notes_lines_push(ns, x, i + 1);
        assert(ns.push(x)[i] == ns[i]);
        assert(spec_notes_lines(ns.push(x), i) =~= spec_notes_lines(ns, i) + spec_note_line(x));
    } else {
        assert(ns.push(x)[i] == x);
        assert(spec_notes_lines(ns.push(x), i + 1) =~= Seq::<char>::empty());
        assert(spec_notes_lines(ns.push(x), i) =~= spec_notes_lines(ns, i) + spec_note_line(x));
    }
}

/// Format a signed deviation as canonical decimal.
pub fn format_cents(c: i64) -> (r: String)
    ensures
        r@ == spec_cents_digits(c as int),
{
    if c < 0 {
        let mag: u64 = (-(c as i128)) as u64;
        let mut s: String = "-".to_owned();
        s.append(format_u64(mag).as_str());
        proof {
            reveal_strlit("-");
            assert(s@ =~= spec_cents_digits(c as int));
        }
        s
    } else {
        format_u64(c as u64)
    }
}

/// Encode a session as its snapshot text, exactly.
pub fn encode_session(session: &Session) -> (r: String)
    ensures
        r@ == spec_encode_session(*session),
{
    proof {
        reveal_strlit("quick");
        reveal_strlit("concert");
        reveal_strlit("\n");
        reveal_strlit(",");
    }
    let mut out: String = match session.mode {
        TuningMode::Quick => "quick".to_owned(),
        TuningMode::Concert => "concert".to_owned(),
    };
    out.append("\n");
    out.append(format_u64(session.a4_reference).as_str());
    out.append("\n");
    out.append(format_u64(session.current_note_index as u64).as_str());
    out.append("\n");
    let ghost header: Seq<char> = out@;
    proof {
        assert(header =~= spec_mode_str(session.mode) + seq!['\n'] + spec_u64_digits(
            session.a4_reference as int,
        ) + seq!['\n'] + spec_u64_digits(session.current_note_index as int) + seq!['\n']);
    }
    let mut k: usize = 0;
    while k < session.completed_notes.len()
        invariant
            0 <= k <= session.completed_notes@.len(),
            out@ == header + spec_notes_lines(session.completed_notes@.take(k as int), 0),
            header == spec_mode_str(session.mode) + seq!['\n'] + spec_u64_digits(
                session.a4_reference as int,
            ) + seq!['\n'] + spec_u64_digits(session.current_note_index as int) + seq!['\n'],
        decreases session.completed_notes@.len() - k,
    {
        proof {
            reveal_strlit("\n");
            reveal_strlit(",");
        }
        let note = &session.completed_notes[k];
        out.append(format_cents(note.final_cents).as_str());
        out.append(",");
        out.append(note.name.as_str());
        out.append("\n");
        proof {
            let taken = session.completed_notes@.take(k as int);
            lemma_notes_lines_push(taken, session.completed_notes@[k as int], 0);
            assert(taken.push(session.completed_notes@[k as int]) =~= session.completed_notes@
                .take(k + 1));
            assert(out@ =~= header + spec_notes_lines(
                session.completed_notes@.take(k + 1),
                0,
            ));
        }
        k = k + 1;
    }
    proof {
        assert(session.completed_notes@.take(session.completed_notes@.len() as int)
            =~= session.completed_notes@);
        assert(out@ =~= spec_encode_session(*session));
    }
    out
}

/// Position of the first newline at or after `from`, if any.
fn find_newline(text: &str, from: usize) -> (r: Option<usize>)
    requires
        from <= text@.len(),
    ensures
        (match r {
            Some(j) => from <= j < text@.len() && text@[j as int] == '\n' && (forall|k: int|
                from <= k < j ==> text@[k] != '\n'),
            None => forall|k: int| from <= k < text@.len() ==> text@[k] != '\n',
        }),
{
    let n: usize = text.unicode_len();
    let mut j: usize = from;
    while j < n
        invariant
            from <= j <= n,
            n == text@.len(),
            forall|k: int| from <= k < j ==> text@[k] != '\n',
        decreases n - j,
    {
        if text.get_char(j) == '\n' {
            return Some(j);
        }
        j = j + 1;
    }
    None
}

/// Position of the first comma in `[from, to)`, if any.
fn find_comma(text: &str, from: usize, to: usize) -> (r: Option<usize>)
    requires
        from <= to <= text@.len(),
    ensures
        (match r {
            Some(j) => from <= j < to && text@[j as int] == ',' && (forall|k: int|
                from <= k < j ==> text@[k] != ','),
            None => forall|k: int| from <= k < to ==> text@[k] != ',',
        }),
{
    let mut j: usize = from;
    while j < to
        invariant
            from <= j <= to <= text@.len(),
            forall|k: int| from <= k < j ==> text@[k] != ',',
        decreases to - j,
    {
        if text.get_char(j) == ',' {
            return Some(j);
        }
        j = j + 1;
    }
    None
}

/// A deviation's digit string is nonempty and holds neither newlines nor
/// commas: a minus sign or decimal digits only.
proof fn lemma_cents_digits_shape(v: int)
    ensures
        spec_cents_digits(v).len() >= 1,
        forall|k: int|
            0 <= k < spec_cents_digits(v).len() ==> #[trigger] spec_cents_digits(v)[k] != '\n'
                && spec_cents_digits(v)[k] != ',',
        v >= 0 ==> spec_cents_digits(v) == spec_u64_digits(v),
        v < 0 ==> spec_cents_digits(v) == seq!['-'] + spec_u64_digits(-v),
{
    if v < 0 {
        lemma_format_canonical(-v);
        let d = spec_u64_digits(-v);
        assert forall|k: int| 0 <= k < spec_cents_digits(v).len() implies #[trigger] spec_cents_digits(
            v,
        )[k] != '\n' && spec_cents_digits(v)[k] != ',' by {
            if k == 0 {
                assert(spec_cents_digits(v)[0] == '-');
            } else {
                assert(spec_cents_digits(v)[k] == d[k - 1]);
                assert(spec_is_digit(d[k - 1]));
            }
        }
    } else {
        lemma_format_canonical(v);
        assert forall|k: int| 0 <= k < spec_cents_digits(v).len() implies #[trigger] spec_cents_digits(
            v,
        )[k] != '\n' && spec_cents_digits(v)[k] != ',' by {
            assert(spec_is_digit(spec_cents_digits(v)[k]));
        }
    }
}

/// Two different deviations never share a digit string.
proof fn lemma_cents_digits_injective(v: int, w: int)
    requires
        spec_cents_digits(v) == spec_cents_digits(w),
    ensures
        v == w,
{
    lemma_format_canonical(if v < 0 {
        -v
    } else {
        v
    });
    lemma_format_canonical(if w < 0 {
        -w
    } else {
        w
    });
    if v < 0 && w < 0 {
        let dv = spec_u64_digits(-v);
        let dw = spec_u64_digits(-w);
        assert(spec_cents_digits(v) == seq!['-'] + dv);
        assert(spec_cents_digits(w) == seq!['-'] + dw);
        assert(seq!['-'] + dv == seq!['-'] + dw);
        assert((seq!['-'] + dv).len() == 1 + dv.len());
        assert((seq!['-'] + dw).len() == 1 + dw.len());
        assert(dv.len() == dw.len());
        assert forall|k: int| 0 <= k < dv.len() implies dv[k] == dw[k] by {
            assert(dv[k] == (seq!['-'] + dv)[k + 1]);
            assert(dw[k] == (seq!['-'] + dw)[k + 1]);
        }
        assert(dv =~= dw);
        lemma_format_value(-v);
        lemma_format_value(-w);
    } else if v >= 0 && w >= 0 {
        lemma_format_value(v);
        lemma_format_value(w);
    } else if v < 0 {
        assert(spec_cents_digits(v)[0] == '-');
        assert(spec_is_digit(spec_cents_digits(w)[0]));
        assert(false);
    } else {
        assert(spec_cents_digits(w)[0] == '-');
        assert(spec_is_digit(spec_cents_digits(v)[0]));
        assert(false);
    }
}

/// Parse a canonical signed deviation. The parse is complete: a substring
/// that is the digit string of some deviation always parses, to that
/// deviation.
fn parse_cents(text: &str, from: usize, to: usize) -> (r: Option<i64>)
    requires
        from <= to <= text@.len(),
    ensures
        (match r {
            Some(v) => text@.subrange(from as int, to as int) == spec_cents_digits(v as int),
            None => true,
        }),
        forall|v: i64|
            text@.subrange(from as int, to as int) == spec_cents_digits(v as int) ==> r == Some(
                v,
            ),
{
    let ghost sub: Seq<char> = text@.subrange(from as int, to as int);
    proof {
        assert forall|v: i64| sub == spec_cents_digits(v as int) implies sub.len() >= 1 by {
            lemma_cents_digits_shape(v as int);
        }
    }
    if from >= to {
        return None;
    }
    let first: char = text.get_char(from);
    if first == '-' {
        let mag_str: &str = text.substring_char(from + 1, to);
        proof {
            assert forall|v: i64| sub == spec_cents_digits(v as int) implies v < 0 && mag_str@
                == spec_u64_digits(-(v as int)) && spec_canonical_number(mag_str@)
                && spec_digits_value(mag_str@) == -(v as int) by {
                lemma_cents_digits_shape(v as int);
                if v >= 0 {
                    lemma_format_canonical(v as int);
                    assert(sub == spec_u64_digits(v as int));
                    assert(spec_is_digit(sub[0]));
                    assert(sub[0] == '-');
                    assert(false);
                }
                assert(mag_str@ =~= spec_u64_digits(-(v as int))) by {
                    assert(forall|k: int|
                        0 <= k < mag_str@.len() ==> #[trigger] mag_str@[k] == sub[k + 1]);
                }
                lemma_format_canonical(-(v as int));
                lemma_format_value(-(v as int));
            }
        }
        match parse_u64(mag_str) {
            Some(v) => {
                if v == 0 || v > 0x8000000000000000 {
                    proof {
                        assert forall|w: i64| sub != spec_cents_digits(w as int) by {
                            if sub == spec_cents_digits(w as int) {
                                assert(v == -(w as int));
                            }
                        }
                    }
                    None
                } else {
                    let c: i64 = (-(v as i128)) as i64;
                    proof {
                        lemma_value_format(mag_str@);
                        assert(text@.subrange(from as int, to as int) =~= seq!['-'] + mag_str@);
                        assert(spec_cents_digits(c as int) == seq!['-'] + spec_u64_digits(
                            v as int,
                        ));
                        assert forall|w: i64| sub == spec_cents_digits(w as int) implies w == c by {
                            lemma_cents_digits_injective(w as int, c as int);
                        }
                    }
                    Some(c)
                }
            },
            None => {
                proof {
                    assert forall|w: i64| sub != spec_cents_digits(w as int) by {
                        if sub == spec_cents_digits(w as int) {
                            assert(spec_canonical_number(mag_str@) && spec_digits_value(mag_str@)
                                <= u64::MAX);
                        }
                    }
                }
                None
            },
        }
    } else {
        let num_str: &str = text.substring_char(from, to);
        proof {
            assert(num_str@ =~= sub);
            assert forall|v: i64| sub == spec_cents_digits(v as int) implies v >= 0 && sub
                == spec_u64_digits(v as int) && spec_canonical_number(sub)
                && spec_digits_value(sub) == v as int by {
                lemma_cents_digits_shape(v as int);
                if v < 0 {
                    assert(sub[0] == '-');
                    assert(false);
                }
                lemma_format_canonical(v as int);
                lemma_format_value(v as int);
            }
        }
        match parse_u64(num_str) {
            Some(v) => {
                if v > 0x7FFFFFFFFFFFFFFF {
                    proof {
                        assert forall|w: i64| sub != spec_cents_digits(w as int) by {
                            if sub == spec_cents_digits(w as int) {
                                assert(v == w as int);
                            }
                        }
                    }
                    None
                } else {
                    proof {
                        lemma_value_format(num_str@);
                        assert(text@.subrange(from as int, to as int) =~= num_str@);
                        assert forall|w: i64| sub == spec_cents_digits(w as int) implies w
                            == v as i64 by {
                            lemma_cents_digits_injective(w as int, v as int);
                        }
                    }
                    Some(v as i64)
                }
            },
            None => {
                proof {
                    assert forall|w: i64| sub != spec_cents_digits(w as int) by {
                        if sub == spec_cents_digits(w as int) {
                            assert(spec_canonical_number(sub) && spec_digits_value(sub)
                                <= u64::MAX);
                        }
                    }
                }
                None
            },
        }
    }
}

/// Every name in the record list is free of line breaks.
pub open spec fn spec_name_ok(n: CompletedNote) -> bool {
    forall|j: int| 0 <= j < n.name@.len() ==> #[trigger] n.name@[j] != '\n'
}

/// All of a session's note names are free of line breaks, so its snapshot's
/// line structure is unambiguous. The engine only ever records table
/// display names, which satisfy this.
pub open spec fn spec_snapshot_names_ok(s: Session) -> bool {
    forall|i: int|
        0 <= i < s.completed_notes@.len() ==> spec_name_ok(#[trigger] s.completed_notes@[i])
}

/// The mode word is nonempty, free of line breaks, and the two words
/// differ.
proof fn lemma_mode_str_shape(m: TuningMode)
    ensures
        1 <= spec_mode_str(m).len() <= 7,
        forall|k: int| 0 <= k < spec_mode_str(m).len() ==> #[trigger] spec_mode_str(m)[k] != '\n',
        spec_mode_str(TuningMode::Quick) != spec_mode_str(TuningMode::Concert),
{
    reveal_strlit("quick");
    reveal_strlit("concert");
    assert("quick"@ =~= seq!['q', 'u', 'i', 'c', 'k']);
    assert("concert"@ =~= seq!['c', 'o', 'n', 'c', 'e', 'r', 't']);
    assert(spec_mode_str(TuningMode::Quick).len() == 5);
    assert(spec_mode_str(TuningMode::Concert).len() == 7);
    assert forall|k: int| 0 <= k < spec_mode_str(m).len() implies #[trigger] spec_mode_str(m)[k]
        != '\n' by {
        match m {
            TuningMode::Quick => {
                assert(spec_mode_str(m) == seq!['q', 'u', 'i', 'c', 'k']);
            },
            TuningMode::Concert => {
                assert(spec_mode_str(m) == seq!['c', 'o', 'n', 'c', 'e', 'r', 't']);
            },
        }
    }
}

/// One note line of a snapshot: the deviation's digits, then the single
/// comma separator, then the name, then the line's only line break.
proof fn lemma_note_line_shape(note: CompletedNote)
    requires
        spec_name_ok(note),
    ensures
        ({
            let cd = spec_cents_digits(note.final_cents as int);
            let line = spec_note_line(note);
            &&& line.len() == cd.len() + 2 + note.name@.len()
            &&& cd.len() >= 1
            &&& line[line.len() - 1] == '\n'
            &&& (forall|k: int| 0 <= k < line.len() - 1 ==> #[trigger] line[k] != '\n')
            &&& line[cd.len() as int] == ','
            &&& (forall|k: int| 0 <= k < cd.len() ==> #[trigger] line[k] != ',')
            &&& line.subrange(0, cd.len() as int) == cd
            &&& line.subrange(cd.len() as int + 1, line.len() - 1) == note.name@
        }),
{
    lemma_cents_digits_shape(note.final_cents as int);
    let cd = spec_cents_digits(note.final_cents as int);
    let line = spec_note_line(note);
    assert(line =~= cd + seq![','] + note.name@ + seq!['\n']);
    assert forall|k: int| 0 <= k < line.len() - 1 implies #[trigger] line[k] != '\n' by {
        if k < cd.len() {
            assert(line[k] == cd[k]);
        } else if k == cd.len() {
            assert(line[k] == ',');
        } else {
            assert(line[k] == note.name@[k - cd.len() - 1]);
        }
    }
    assert forall|k: int| 0 <= k < cd.len() implies #[trigger] line[k] != ',' by {
        assert(line[k] == cd[k]);
    }
    assert(line.subrange(0, cd.len() as int) =~= cd);
    assert(line.subrange(cd.len() as int + 1, line.len() - 1) =~= note.name@);
}

/// While records remain, the remaining snapshot text is nonempty.
proof fn lemma_notes_lines_nonempty(ns: Seq<CompletedNote>, k: int)
    requires
        0 <= k < ns.len(),
    ensures
        spec_notes_lines(ns, k).len() >= spec_note_line(ns[k]).len() >= 3,
{
    lemma_cents_digits_shape(ns[k].final_cents as int);
}

/// Decode a snapshot text. The decoder is sound and complete: a decoded
/// session re-encodes to exactly the given text, so no snapshot decodes to
/// a session other than the one that wrote it; and the snapshot of any
/// session whose note names hold no line break always decodes. Any other
/// text decodes to nothing, and the caller starts fresh.
#[verifier::rlimit(80)]
pub fn decode_session(text: &str) -> (r: Option<Session>)
    ensures
        (match r {
            Some(s) => spec_encode_session(s) == text@,
            None => true,
        }),
        (exists|s: Session|
            text@ == spec_encode_session(s) && spec_snapshot_names_ok(s)) ==> r is Some,
{
    let ghost wit: bool = exists|s: Session|
        text@ == spec_encode_session(s) && spec_snapshot_names_ok(s);
    let ghost w: Session = choose|s: Session|
        text@ == spec_encode_session(s) && spec_snapshot_names_ok(s);
    let ghost ms: Seq<char> = spec_mode_str(w.mode);
    let ghost a4d: Seq<char> = spec_u64_digits(w.a4_reference as int);
    let ghost idxd: Seq<char> = spec_u64_digits(w.current_note_index as int);
    let ghost nls: Seq<char> = spec_notes_lines(w.completed_notes@, 0);
    let ghost h1: int = ms.len() as int;
    let ghost h2: int = h1 + 1 + a4d.len();
    let ghost h3: int = h2 + 1 + idxd.len();
    proof {
        if wit {
            assert(text@ == spec_encode_session(w) && spec_snapshot_names_ok(w));
            lemma_mode_str_shape(w.mode);
            lemma_format_canonical(w.a4_reference as int);
            lemma_format_canonical(w.current_note_index as int);
            assert(text@ =~= ms + seq!['\n'] + a4d + seq!['\n'] + idxd + seq!['\n'] + nls);
            assert(text@.len() == h3 + 1 + nls.len());
            assert forall|k: int| 0 <= k < h1 implies text@[k] == ms[k] by {}
            assert(text@[h1] == '\n');
            assert forall|k: int| h1 + 1 <= k < h2 implies text@[k] == a4d[k - h1 - 1] by {}
            assert(text@[h2] == '\n');
            assert forall|k: int| h2 + 1 <= k < h3 implies text@[k] == idxd[k - h2 - 1] by {}
            assert(text@[h3] == '\n');
            assert forall|k: int| h3 + 1 <= k < text@.len() implies text@[k] == nls[k - h3
                - 1] by {}
        }
    }
    let n: usize = text.unicode_len();
    let e1: usize = match find_newline(text, 0) {
        Some(j) => j,
        None => {
            proof {
                if wit {
                    assert(text@[h1] == '\n');
                    assert(false);
                }
            }
            return None;
        },
    };
    proof {
        if wit {
            assert forall|k: int| 0 <= k < h1 implies text@[k] != '\n' by {
                assert(text@[k] == ms[k]);
            }
            assert(e1 == h1);
            assert(text@.subrange(0, e1 as int) =~= ms);
        }
    }
    let line1: String = text.substring_char(0, e1).to_owned();
    let mode: TuningMode = if line1 == "quick".to_owned() {
        TuningMode::Quick
    } else if line1 == "concert".to_owned() {
        TuningMode::Concert
    } else {
        proof {
            if wit {
                lemma_mode_str_shape(w.mode);
                assert(line1@ == ms);
                assert(false);
            }
        }
        return None;
    };
    let e2: usize = match find_newline(text, e1 + 1) {
        Some(j) => j,
        None => {
            proof {
                if wit {
                    assert(text@[h2] == '\n');
                    assert(false);
                }
            }
            return None;
        },
    };
    proof {
        if wit {
            assert forall|k: int| h1 + 1 <= k < h2 implies text@[k] != '\n' by {
                assert(text@[k] == a4d[k - h1 - 1]);
                assert(spec_is_digit(a4d[k - h1 - 1]));
            }
            assert(e2 == h2);
            assert(text@.subrange(e1 as int + 1, e2 as int) =~= a4d);
            lemma_format_value(w.a4_reference as int);
        }
    }
    let a4: u64 = match parse_u64(text.substring_char(e1 + 1, e2)) {
        Some(v) => v,
        None => {
            proof {
                if wit {
                    assert(false);
                }
            }
            return None;
        },
    };
    let e3: usize = match find_newline(text, e2 + 1) {
        Some(j) => j,
        None => {
            proof {
                if wit {
                    assert(text@[h3] == '\n');
                    assert(false);
                }
            }
            return None;
        },
    };
    proof {
        if wit {
            assert forall|k: int| h2 + 1 <= k < h3 implies text@[k] != '\n' by {
                assert(text@[k] == idxd[k - h2 - 1]);
                assert(spec_is_digit(idxd[k - h2 - 1]));
            }
            assert(e3 == h3);
            assert(text@.subrange(e2 as int + 1, e3 as int) =~= idxd);
            lemma_format_value(w.current_note_index as int);
        }
    }
    let idx64: u64 = match parse_u64(text.substring_char(e2 + 1, e3)) {
        Some(v) => v,
        None => {
            proof {
                if wit {
                    assert(false);
                }
            }
            return None;
        },
    };
    if idx64 > (usize::MAX as u64) {
        proof {
            if wit {
                assert(idx64 == w.current_note_index as int);
                assert(false);
            }
        }
        return None;
    }
    let idx: usize = idx64 as usize;
    proof {
        lemma_value_format(text@.subrange(e1 as int + 1, e2 as int));
        lemma_value_format(text@.subrange(e2 as int + 1, e3 as int));
    }
    let mut notes: Vec<CompletedNote> = Vec::new();
    let mut p: usize = e3 + 1;
    let ghost mut rec: int = 0;
    proof {
        if wit {
            assert(text@.subrange(p as int, text@.len() as int) =~= spec_notes_lines(
                w.completed_notes@,
                0,
            ));
        }
    }
    while p < n
        invariant
            e3 < p <= n,
            n == text@.len(),
            spec_notes_lines(notes@, 0) == text@.subrange(e3 as int + 1, p as int),
            wit == (exists|s: Session|
                text@ == spec_encode_session(s) && spec_snapshot_names_ok(s)),
            w == (choose|s: Session|
                text@ == spec_encode_session(s) && spec_snapshot_names_ok(s)),
            wit ==> {
                &&& 0 <= rec <= w.completed_notes@.len()
                &&& text@.subrange(p as int, n as int) == spec_notes_lines(
                    w.completed_notes@,
                    rec,
                )
                &&& spec_snapshot_names_ok(w)
            },
        decreases n - p,
    {
        let ghost note_w: CompletedNote = if wit && rec < w.completed_notes@.len() {
            w.completed_notes@[rec]
        } else {
            CompletedNote { name: notes@.first().name, final_cents: 0 }
        };
        let ghost cdl: int = spec_cents_digits(note_w.final_cents as int).len() as int;
        let ghost ll: int = spec_note_line(note_w).len() as int;
        proof {
            if wit {
                if rec >= w.completed_notes@.len() {
                    assert(spec_notes_lines(w.completed_notes@, rec).len() == 0);
                    assert(false);
                }
                assert(spec_name_ok(note_w));
                lemma_note_line_shape(note_w);
                lemma_notes_lines_nonempty(w.completed_notes@, rec);
                assert(spec_notes_lines(w.completed_notes@, rec) == spec_note_line(note_w)
                    + spec_notes_lines(w.completed_notes@, rec + 1));
                assert forall|m: int| 0 <= m < ll implies text@[p + m] == spec_note_line(
                    note_w,
                )[m] by {
                    assert(text@.subrange(p as int, n as int)[m] == text@[p + m]);
                }
                assert(p + ll <= n);
                assert(text@[p + ll - 1] == '\n');
                assert forall|k: int| p <= k < p + ll - 1 implies text@[k] != '\n' by {
                    assert(text@[k] == spec_note_line(note_w)[k - p]);
                }
                assert(text@[p + cdl] == ',');
                assert forall|k: int| p <= k < p + cdl implies text@[k] != ',' by {
                    assert(text@[k] == spec_note_line(note_w)[k - p]);
                }
            }
        }
        let e: usize = match find_newline(text, p) {
            Some(j) => j,
            None => {
                proof {
                    if wit {
                        assert(text@[p + ll - 1] == '\n');
                        assert(false);
                    }
                }
                return None;
            },
        };
        proof {
            if wit {
                assert(e == p + ll - 1);
            }
        }
        let c: usize = match find_comma(text, p, e) {
            Some(j) => j,
            None => {
                proof {
                    if wit {
                        assert(text@[p + cdl] == ',');
                        assert(p + cdl < p + ll - 1);
                        assert(false);
                    }
                }
                return None;
            },
        };
        proof {
            if wit {
                assert(c == p + cdl);
                assert(text@.subrange(p as int, c as int) =~= spec_cents_digits(
                    note_w.final_cents as int,
                )) by {
                    assert(spec_note_line(note_w).subrange(0, cdl) == spec_cents_digits(
                        note_w.final_cents as int,
                    ));
                    assert forall|m: int| 0 <= m < cdl implies text@.subrange(
                        p as int,
                        c as int,
                    )[m] == spec_cents_digits(note_w.final_cents as int)[m] by {
                        assert(text@.subrange(p as int, c as int)[m] == text@[p + m]);
                        assert(text@[p + m] == spec_note_line(note_w)[m]);
                        assert(spec_note_line(note_w)[m] == spec_note_line(note_w).subrange(
                            0,
                            cdl,
                        )[m]);
                    }
                }
            }
        }
        let cents: i64 = match parse_cents(text, p, c) {
            Some(v) => v,
            None => {
                proof {
                    if wit {
                        assert(false);
                    }
                }
                return None;
            },
        };
        let name: String = text.substring_char(c + 1, e).to_owned();
        let ghost notes0: Seq<CompletedNote> = notes@;
        let note = CompletedNote { name, final_cents: cents };
        proof {
            assert(spec_note_line(note) =~= text@.subrange(p as int, e as int + 1));
            lemma_notes_lines_push(notes0, note, 0);
        }
        notes.push(note);
        proof {
            assert(notes@ =~= notes0.push(note));
            assert(spec_notes_lines(notes@, 0) =~= text@.subrange(e3 as int + 1, e as int + 1));
            if wit {
                assert(text@.subrange(e as int + 1, n as int) =~= spec_notes_lines(
                    w.completed_notes@,
                    rec + 1,
                )) by {
                    assert forall|m: int| 0 <= m < n - e - 1 implies #[trigger] text@.subrange(
                        e as int + 1,
                        n as int,
                    )[m] == spec_notes_lines(w.completed_notes@, rec + 1)[m] by {
                        assert(text@.subrange(e as int + 1, n as int)[m] == text@[e + 1 + m]);
                        assert(text@.subrange(p as int, n as int)[ll + m] == text@[p + ll + m]);
                        assert(spec_notes_lines(w.completed_notes@, rec)[ll + m]
                            == spec_notes_lines(w.completed_notes@, rec + 1)[m]);
                    }
                    assert(text@.subrange(e as int + 1, n as int).len() == spec_notes_lines(
                        w.completed_notes@,
                        rec + 1,
                    ).len());
                }
                rec = rec + 1;
            }
        }
        p = e + 1;
    }
    let session = Session { mode, a4_reference: a4, current_note_index: idx, completed_notes: notes };
    proof {
        assert(spec_mode_str(mode) =~= text@.subrange(0, e1 as int));
        assert(spec_encode_session(session) =~= text@);
    }
    Some(session)
}

} // verus!
