//! Character and string utilities shared by both stages: line splitting,
//! whitespace handling, decimal parsing and formatting, and binary formatting.

use vstd::prelude::*;

verus! {

/// Relies on `String::push`: appends the given character at the end.
#[verifier::external_body]
pub fn push_char(s: &mut String, c: char)
    ensures
        final(s)@ == old(s)@.push(c),
{
    s.push(c);
}

/// String equality, decided character by character.
pub fn str_eq(a: &str, b: &str) -> (r: bool)
    ensures
        r == (a@ == b@),
{
    let a_len = a.unicode_len();
    let b_len = b.unicode_len();
    if a_len != b_len {
        return false;
    }
    let mut i: usize = 0;
    while i < a_len
        invariant
            a_len == a@.len(),
            b_len == b@.len(),
            a_len == b_len,
            i <= a_len,
            forall|j: int| 0 <= j < i ==> a@[j] == b@[j],
        decreases a_len - i,
    {
        if a.get_char(i) != b.get_char(i) {
            return false;
        }
        i = i + 1;
    }
    proof {
        assert(a@ =~= b@);
    }
    true
}

/// The whitespace characters recognized by the normalizers: the ASCII
/// spacing characters.
pub open spec fn is_space_char(c: char) -> bool {
    c == ' ' || c == '\t' || c == '\n' || c == '\r' || c == '\u{b}' || c == '\u{c}'
}

pub fn is_space(c: char) -> (r: bool)
    ensures
        r == is_space_char(c),
{
    c == ' ' || c == '\t' || c == '\n' || c == '\r' || c == '\u{b}' || c == '\u{c}'
}

/// A line piece with a trailing carriage return removed, as happens to the
/// piece before a line feed when text is split into lines.
pub open spec fn drop_trailing_cr(piece: Seq<char>) -> Seq<char> {
    if piece.len() > 0 && piece.last() == '\r' {
        piece.drop_last()
    } else {
        piece
    }
}

/// Splitting text into lines, carrying the line built so far: a line ends at
/// each line feed (a carriage return just before it is dropped), and a final
/// piece without a line feed is a line only if it is nonempty.
pub open spec fn split_lines_acc(s: Seq<char>, cur: Seq<char>) -> Seq<Seq<char>>
    decreases s.len(),
{
    if s.len() == 0 {
        if cur.len() == 0 {
            Seq::empty()
        } else {
            seq![cur]
        }
    } else if s[0] == '\n' {
        seq![drop_trailing_cr(cur)] + split_lines_acc(s.drop_first(), Seq::empty())
    } else {
        split_lines_acc(s.drop_first(), cur.push(s[0]))
    }
}

/// The lines of `s`, split at line feeds.
pub open spec fn split_lines(s: Seq<char>) -> Seq<Seq<char>> {
    split_lines_acc(s, Seq::empty())
}

/// Splits text into lines, dropping each line feed and any carriage return
/// just before it.
pub fn lines_of(s: &str) -> (r: Vec<String>)
    ensures
        r.deep_view() == split_lines(s@),
{
    let n = s.unicode_len();
    let mut out: Vec<String> = Vec::new();
    let mut cur = String::new();
    let mut i: usize = 0;
    proof {
        assert(s@.skip(0) =~= s@);
        assert(out.deep_view() =~= Seq::<Seq<char>>::empty());
        assert(Seq::<Seq<char>>::empty() + split_lines(s@) =~= split_lines(s@));
    }
    while i < n
        invariant
            n == s@.len(),
            i <= n,
            cur@.len() <= i,
            out.deep_view() + split_lines_acc(s@.skip(i as int), cur@) == split_lines(s@),
        decreases n - i,
    {
        let c = s.get_char(i);
        proof {
            assert(s@.skip(i as int)[0] == c);
            assert(s@.skip(i as int).drop_first() =~= s@.skip(i as int + 1));
        }
        if c == '\n' {
            let ghost prev_out = out.deep_view();
            let ghost prev_cur = cur@;
            let m = cur.as_str().unicode_len();
            let piece = if m > 0 && cur.as_str().get_char(m - 1) == '\r' {
                let p = cur.as_str().substring_char(0, m - 1).to_owned();
                proof {
                    assert(p@ =~= drop_trailing_cr(prev_cur));
                }
                p
            } else {
                cur
            };
            out.push(piece);
            cur = String::new();
            proof {
                assert(out.deep_view() =~= prev_out.push(drop_trailing_cr(prev_cur)));
                assert(prev_out + (seq![drop_trailing_cr(prev_cur)] + split_lines_acc(
                    s@.skip(i as int + 1),
                    Seq::empty(),
                )) =~= out.deep_view() + split_lines_acc(s@.skip(i as int + 1), Seq::empty()));
            }
        } else {
            push_char(&mut cur, c);
        }
        i = i + 1;
    }
    proof {
        assert(s@.skip(n as int) =~= Seq::<char>::empty());
    }
    if cur.as_str().unicode_len() > 0 {
        let ghost prev_out = out.deep_view();
        let ghost last_line = cur@;
        out.push(cur);
        proof {
            assert(out.deep_view() =~= prev_out.push(last_line));
            assert(prev_out + seq![last_line] =~= out.deep_view());
        }
    } else {
        proof {
            assert(out.deep_view() + Seq::<Seq<char>>::empty() =~= out.deep_view());
        }
    }
    out
}

/// A line with everything from the first `//` onward removed.
pub open spec fn strip_comment(l: Seq<char>) -> Seq<char>
    decreases l.len(),
{
    if l.len() < 2 {
        l
    } else if l[0] == '/' && l[1] == '/' {
        Seq::empty()
    } else {
        seq![l[0]] + strip_comment(l.drop_first())
    }
}

/// Removes everything from the first `//` onward.
pub fn strip_comment_of(s: &str) -> (r: String)
    ensures
        r@ == strip_comment(s@),
{
    let n = s.unicode_len();
    let mut out = String::new();
    let mut i: usize = 0;
    proof {
        assert(s@.skip(0) =~= s@);
        assert(out@ + strip_comment(s@) =~= strip_comment(s@));
    }
    while i < n
        invariant
            n == s@.len(),
            i <= n,
            out@ + strip_comment(s@.skip(i as int)) == strip_comment(s@),
        decreases n - i,
    {
        let c = s.get_char(i);
        proof {
            assert(s@.skip(i as int)[0] == c);
            assert(s@.skip(i as int).drop_first() =~= s@.skip(i as int + 1));
        }
        if c == '/' && i + 1 < n && s.get_char(i + 1) == '/' {
            proof {
                assert(s@.skip(i as int)[1] == s@[i as int + 1]);
                assert(out@ + Seq::<char>::empty() =~= out@);
            }
            return out;
        }
        proof {
            if s@.skip(i as int).len() < 2 {
                assert(i as int + 1 == n);
                assert(s@.skip(i as int) =~= seq![c]);
                assert(s@.skip(i as int + 1) =~= Seq::<char>::empty());
                assert(strip_comment(seq![c]) == seq![c]);
                assert(seq![c] =~= seq![c] + strip_comment(s@.skip(i as int + 1)));
            }
        }
        push_char(&mut out, c);
        proof {
            assert(out@ =~= (out@.drop_last() + seq![c]));
        }
        i = i + 1;
    }
    proof {
        assert(s@.skip(n as int) =~= Seq::<char>::empty());
        assert(out@ + Seq::<char>::empty() =~= out@);
    }
    out
}

/// A line with every whitespace character removed.
pub open spec fn strip_spaces(l: Seq<char>) -> Seq<char>
    decreases l.len(),
{
    if l.len() == 0 {
        Seq::empty()
    } else if is_space_char(l[0]) {
        strip_spaces(l.drop_first())
    } else {
        seq![l[0]] + strip_spaces(l.drop_first())
    }
}

/// Removes every whitespace character.
pub fn strip_spaces_of(s: &str) -> (r: String)
    ensures
        r@ == strip_spaces(s@),
{
    let n = s.unicode_len();
    let mut out = String::new();
    let mut i: usize = 0;
    proof {
        assert(s@.skip(0) =~= s@);
        assert(out@ + strip_spaces(s@) =~= strip_spaces(s@));
    }
    while i < n
        invariant
            n == s@.len(),
            i <= n,
            out@ + strip_spaces(s@.skip(i as int)) == strip_spaces(s@),
        decreases n - i,
    {
        let c = s.get_char(i);
        proof {
            assert(s@.skip(i as int)[0] == c);
            assert(s@.skip(i as int).drop_first() =~= s@.skip(i as int + 1));
        }
        if !is_space(c) {
            push_char(&mut out, c);
            proof {
                assert(out@ =~= (out@.drop_last() + seq![c]));
            }
        }
        i = i + 1;
    }
    proof {
        assert(s@.skip(n as int) =~= Seq::<char>::empty());
        assert(out@ + Seq::<char>::empty() =~= out@);
    }
    out
}

/// A line with leading spaces removed.
pub open spec fn trim_leading(l: Seq<char>) -> Seq<char>
    decreases l.len(),
{
    if l.len() > 0 && l[0] == ' ' {
        trim_leading(l.drop_first())
    } else {
        l
    }
}

/// A line with trailing spaces removed.
pub open spec fn trim_trailing(l: Seq<char>) -> Seq<char>
    decreases l.len(),
{
    if l.len() > 0 && l.last() == ' ' {
        trim_trailing(l.drop_last())
    } else {
        l
    }
}

/// A line with each run of spaces shortened to a single space: of two
/// adjacent spaces, the first is dropped.
pub open spec fn collapse_spaces(l: Seq<char>) -> Seq<char>
    decreases l.len(),
{
    if l.len() == 0 {
        Seq::empty()
    } else if l[0] == ' ' && l.len() > 1 && l[1] == ' ' {
        collapse_spaces(l.drop_first())
    } else {
        seq![l[0]] + collapse_spaces(l.drop_first())
    }
}

/// One source line as the stack-command normalizer leaves it: edge spaces
/// removed, interior runs of spaces shortened to a single space.
pub open spec fn clean_vm_line(l: Seq<char>) -> Seq<char> {
    collapse_spaces(trim_trailing(trim_leading(l)))
}

/// Trims edge spaces and collapses interior runs of spaces.
pub fn clean_vm_line_of(s: &str) -> (r: String)
    ensures
        r@ == clean_vm_line(s@),
{
    let n = s.unicode_len();
    let mut lo: usize = 0;
    proof {
        assert(s@.skip(0) =~= s@);
    }
    while lo < n && s.get_char(lo) == ' '
        invariant
            n == s@.len(),
            lo <= n,
            trim_leading(s@.skip(lo as int)) == trim_leading(s@),
        decreases n - lo,
    {
        proof {
            assert(s@.skip(lo as int)[0] == s@[lo as int]);
            assert(s@.skip(lo as int).drop_first() =~= s@.skip(lo as int + 1));
        }
        lo = lo + 1;
    }
    proof {
        if lo < n {
            assert(s@.skip(lo as int)[0] == s@[lo as int]);
        } else {
            assert(s@.skip(lo as int) =~= Seq::<char>::empty());
        }
        assert(trim_leading(s@) == s@.skip(lo as int));
    }
    let mut hi: usize = n;
    while hi > lo && s.get_char(hi - 1) == ' '
        invariant
            n == s@.len(),
            lo <= hi <= n,
            trim_leading(s@) == s@.skip(lo as int),
            trim_trailing(s@.subrange(lo as int, hi as int)) == trim_trailing(trim_leading(s@)),
        decreases hi,
    {
        proof {
            let t = s@.subrange(lo as int, hi as int);
            assert(t.last() == s@[hi as int - 1]);
            assert(t.drop_last() =~= s@.subrange(lo as int, hi as int - 1));
        }
        hi = hi - 1;
    }
    proof {
        let t = s@.subrange(lo as int, hi as int);
        if hi > lo {
            assert(t.last() == s@[hi as int - 1]);
        }
        assert(trim_trailing(trim_leading(s@)) == s@.subrange(lo as int, hi as int));
    }
    let ghost t = s@.subrange(lo as int, hi as int);
    let mut out = String::new();
    let mut i: usize = lo;
    proof {
        assert(t.skip(0) =~= t);
        assert(out@ + collapse_spaces(t) =~= collapse_spaces(t));
    }
    while i < hi
        invariant
            n == s@.len(),
            lo <= i <= hi <= n,
            t == s@.subrange(lo as int, hi as int),
            out@ + collapse_spaces(t.skip(i as int - lo as int)) == collapse_spaces(t),
        decreases hi - i,
    {
        let c = s.get_char(i);
        proof {
            let u = t.skip(i as int - lo as int);
            assert(u[0] == t[i as int - lo as int]);
            assert(t[i as int - lo as int] == s@[i as int]);
            assert(u.drop_first() =~= t.skip(i as int + 1 - lo as int));
            if u.len() > 1 {
                assert(u[1] == s@[i as int + 1]);
            }
        }
        if !(c == ' ' && i + 1 < hi && s.get_char(i + 1) == ' ') {
            push_char(&mut out, c);
            proof {
                assert(out@ =~= (out@.drop_last() + seq![c]));
            }
        }
        i = i + 1;
    }
    proof {
        assert(t.skip(hi as int - lo as int) =~= Seq::<char>::empty());
        assert(out@ + Seq::<char>::empty() =~= out@);
    }
    out
}

/// Splitting a line into whitespace-separated tokens, carrying the token
/// built so far.
pub open spec fn split_tokens_acc(l: Seq<char>, cur: Seq<char>) -> Seq<Seq<char>>
    decreases l.len(),
{
    if l.len() == 0 {
        if cur.len() == 0 {
            Seq::empty()
        } else {
            seq![cur]
        }
    } else if is_space_char(l[0]) {
        if cur.len() == 0 {
            split_tokens_acc(l.drop_first(), Seq::empty())
        } else {
            seq![cur] + split_tokens_acc(l.drop_first(), Seq::empty())
        }
    } else {
        split_tokens_acc(l.drop_first(), cur.push(l[0]))
    }
}

/// The whitespace-separated tokens of a line.
pub open spec fn tokens(l: Seq<char>) -> Seq<Seq<char>> {
    split_tokens_acc(l, Seq::empty())
}

/// Splits a line into whitespace-separated tokens.
pub fn tokens_of(s: &str) -> (r: Vec<String>)
    ensures
        r.deep_view() == tokens(s@),
{
    let n = s.unicode_len();
    let mut out: Vec<String> = Vec::new();
    let mut cur = String::new();
    let mut i: usize = 0;
    proof {
        assert(s@.skip(0) =~= s@);
        assert(out.deep_view() =~= Seq::<Seq<char>>::empty());
        assert(Seq::<Seq<char>>::empty() + tokens(s@) =~= tokens(s@));
    }
    while i < n
        invariant
            n == s@.len(),
            i <= n,
            out.deep_view() + split_tokens_acc(s@.skip(i as int), cur@) == tokens(s@),
        decreases n - i,
    {
        let c = s.get_char(i);
        proof {
            assert(s@.skip(i as int)[0] == c);
            assert(s@.skip(i as int).drop_first() =~= s@.skip(i as int + 1));
        }
        if is_space(c) {
            if cur.as_str().unicode_len() == 0 {
                proof {
                    assert(cur@ =~= Seq::<char>::empty());
                }
            } else {
                let ghost prev_out = out.deep_view();
                let ghost tok = cur@;
                out.push(cur);
                cur = String::new();
                proof {
                    assert(out.deep_view() =~= prev_out.push(tok));
                    assert(prev_out + (seq![tok] + split_tokens_acc(
                        s@.skip(i as int + 1),
                        Seq::empty(),
                    )) =~= out.deep_view() + split_tokens_acc(s@.skip(i as int + 1), Seq::empty()));
                }
            }
        } else {
            push_char(&mut cur, c);
        }
        i = i + 1;
    }
    proof {
        assert(s@.skip(n as int) =~= Seq::<char>::empty());
    }
    if cur.as_str().unicode_len() > 0 {
        let ghost prev_out = out.deep_view();
        let ghost tok = cur@;
        out.push(cur);
        proof {
            assert(out.deep_view() =~= prev_out.push(tok));
            assert(prev_out + seq![tok] =~= out.deep_view());
        }
    } else {
        proof {
            assert(out.deep_view() + Seq::<Seq<char>>::empty() =~= out.deep_view());
        }
    }
    out
}

/// The index of the first occurrence of `c` in `l`, or the length of `l`
/// when `c` does not occur.
pub open spec fn char_index(l: Seq<char>, c: char) -> int
    decreases l.len(),
{
    if l.len() == 0 {
        0
    } else if l[0] == c {
        0
    } else {
        1 + char_index(l.drop_first(), c)
    }
}

/// Finds the first occurrence of a character, returning the string's length
/// when it does not occur.
pub fn char_index_of(s: &str, c: char) -> (r: usize)
    ensures
        r as int == char_index(s@, c),
        r <= s@.len(),
{
    let n = s.unicode_len();
    let mut i: usize = 0;
    proof {
        assert(s@.skip(0) =~= s@);
    }
    while i < n
        invariant
            n == s@.len(),
            i <= n,
            char_index(s@, c) == i + char_index(s@.skip(i as int), c),
        decreases n - i,
    {
        proof {
            assert(s@.skip(i as int)[0] == s@[i as int]);
            assert(s@.skip(i as int).drop_first() =~= s@.skip(i as int + 1));
        }
        if s.get_char(i) == c {
            return i;
        }
        i = i + 1;
    }
    proof {
        assert(s@.skip(n as int) =~= Seq::<char>::empty());
    }
    n
}

pub open spec fn is_digit_char(c: char) -> bool {
    48 <= c as u32 && c as u32 <= 57
}

pub open spec fn digit_val(c: char) -> nat {
    (c as u32 - 48) as nat
}

pub open spec fn all_digits(t: Seq<char>) -> bool {
    forall|i: int| 0 <= i < t.len() ==> is_digit_char(t[i])
}

/// The value of a sequence of decimal digits, most significant first.
pub open spec fn dec_val(t: Seq<char>) -> nat
    decreases t.len(),
{
    if t.len() == 0 {
        0
    } else {
        dec_val(t.drop_last()) * 10 + digit_val(t.last())
    }
}

/// The token shapes accepted by the standard unsigned decimal parsers: an
/// optional leading plus sign, then at least one digit.
pub open spec fn is_dec_literal(t: Seq<char>) -> bool {
    if t.len() > 0 && t[0] == '+' {
        t.len() > 1 && all_digits(t.skip(1))
    } else {
        t.len() > 0 && all_digits(t)
    }
}

/// The numeric value of a decimal literal token.
pub open spec fn dec_literal_val(t: Seq<char>) -> nat {
    if t.len() > 0 && t[0] == '+' {
        dec_val(t.skip(1))
    } else {
        dec_val(t)
    }
}

/// The value of a digit sequence dominates the value of each of its
/// prefixes.
proof fn lemma_dec_val_prefix(t: Seq<char>, i: int)
    requires
        0 <= i <= t.len(),
    ensures
        dec_val(t.subrange(0, i)) <= dec_val(t),
    decreases t.len(),
{
    if i < t.len() {
        assert(t.drop_last().subrange(0, i) =~= t.subrange(0, i));
        lemma_dec_val_prefix(t.drop_last(), i);
    } else {
        assert(t.subrange(0, i) =~= t);
    }
}

/// Parses an unsigned decimal token, as `u16::from_str` accepts it: `Some`
/// exactly when the token is a decimal literal whose value fits.
pub fn parse_u16(s: &str) -> (r: Option<u16>)
    ensures
        r is Some <==> is_dec_literal(s@) && dec_literal_val(s@) <= u16::MAX,
        r is Some ==> r->Some_0 as nat == dec_literal_val(s@),
{
    let n = s.unicode_len();
    if n == 0 {
        return None;
    }
    let start: usize = if s.get_char(0) == '+' {
        1
    } else {
        0
    };
    if n == start {
        return None;
    }
    let ghost digits = s@.skip(start as int);
    let mut acc: u32 = 0;
    let mut i: usize = start;
    proof {
        assert(digits.subrange(0, 0) =~= Seq::<char>::empty());
        if s@[0] != '+' {
            assert(digits =~= s@);
        }
        assert(is_dec_literal(s@) <==> all_digits(digits));
        assert(is_dec_literal(s@) ==> dec_literal_val(s@) == dec_val(digits));
    }
    while i < n
        invariant
            n == s@.len(),
            start <= i <= n,
            start <= 1,
            digits == s@.skip(start as int),
            is_dec_literal(s@) <==> all_digits(digits),
            is_dec_literal(s@) ==> dec_literal_val(s@) == dec_val(digits),
            acc <= 65535,
            all_digits(digits.subrange(0, i as int - start as int)),
            acc as nat == dec_val(digits.subrange(0, i as int - start as int)),
        decreases n - i,
    {
        let c = s.get_char(i);
        let u = c as u32;
        if !(48 <= u && u <= 57) {
            proof {
                assert(digits[i as int - start as int] == c);
            }
            return None;
        }
        let d = u - 48;
        proof {
            let p = digits.subrange(0, i as int - start as int);
            let q = digits.subrange(0, i as int + 1 - start as int);
            assert(q.drop_last() =~= p);
            assert(q.last() == c);
        }
        let next = acc * 10 + d;
        if next > 65535 {
            proof {
                lemma_dec_val_prefix(digits, i as int + 1 - start as int);
            }
            return None;
        }
        acc = next;
        i = i + 1;
    }
    proof {
        assert(digits.subrange(0, n as int - start as int) =~= digits);
    }
    Some(acc as u16)
}

/// Parses an unsigned decimal token, as `usize::from_str` accepts it.
pub fn parse_usize(s: &str) -> (r: Option<usize>)
    ensures
        r is Some <==> is_dec_literal(s@) && dec_literal_val(s@) <= usize::MAX,
        r is Some ==> r->Some_0 as nat == dec_literal_val(s@),
{
    let n = s.unicode_len();
    if n == 0 {
        return None;
    }
    let start: usize = if s.get_char(0) == '+' {
        1
    } else {
        0
    };
    if n == start {
        return None;
    }
    let ghost digits = s@.skip(start as int);
    let mut acc: usize = 0;
    let mut i: usize = start;
    proof {
        assert(digits.subrange(0, 0) =~= Seq::<char>::empty());
        if s@[0] != '+' {
            assert(digits =~= s@);
        }
        assert(is_dec_literal(s@) <==> all_digits(digits));
        assert(is_dec_literal(s@) ==> dec_literal_val(s@) == dec_val(digits));
    }
    while i < n
        invariant
            n == s@.len(),
            start <= i <= n,
            start <= 1,
            digits == s@.skip(start as int),
            is_dec_literal(s@) <==> all_digits(digits),
            is_dec_literal(s@) ==> dec_literal_val(s@) == dec_val(digits),
            all_digits(digits.subrange(0, i as int - start as int)),
            acc as nat == dec_val(digits.subrange(0, i as int - start as int)),
        decreases n - i,
    {
        let c = s.get_char(i);
        let u = c as u32;
        if !(48 <= u && u <= 57) {
            proof {
                assert(digits[i as int - start as int] == c);
            }
            return None;
        }
        let d = (u - 48) as usize;
        proof {
            let p = digits.subrange(0, i as int - start as int);
            let q = digits.subrange(0, i as int + 1 - start as int);
            assert(q.drop_last() =~= p);
            assert(q.last() == c);
        }
        if acc > (usize::MAX - d) / 10 {
            proof {
                let m = (usize::MAX - d) as int;
                assert(m == 10 * (m / 10) + m % 10);
                assert(acc * 10 + d > usize::MAX);
                lemma_dec_val_prefix(digits, i as int + 1 - start as int);
            }
            return None;
        }
        proof {
            let m = (usize::MAX - d) as int;
            assert(m == 10 * (m / 10) + m % 10);
            assert(acc * 10 + d <= usize::MAX);
        }
        acc = acc * 10 + d;
        i = i + 1;
    }
    proof {
        assert(digits.subrange(0, n as int - start as int) =~= digits);
    }
    Some(acc)
}

/// The character for one decimal digit value.
pub open spec fn digit_char(d: nat) -> char {
    if d == 0 {
        '0'
    } else if d == 1 {
        '1'
    } else if d == 2 {
        '2'
    } else if d == 3 {
        '3'
    } else if d == 4 {
        '4'
    } else if d == 5 {
        '5'
    } else if d == 6 {
        '6'
    } else if d == 7 {
        '7'
    } else if d == 8 {
        '8'
    } else {
        '9'
    }
}

/// The decimal digit string of a number, most significant digit first, with
/// no leading zeros.
pub open spec fn dec_str(n: nat) -> Seq<char>
    decreases n,
{
    if n < 10 {
        seq![digit_char(n)]
    } else {
        dec_str(n / 10) + seq![digit_char(n % 10)]
    }
}

fn digit_to_char(d: usize) -> (c: char)
    requires
        d < 10,
    ensures
        c == digit_char(d as nat),
{
    if d == 0 {
        '0'
    } else if d == 1 {
        '1'
    } else if d == 2 {
        '2'
    } else if d == 3 {
        '3'
    } else if d == 4 {
        '4'
    } else if d == 5 {
        '5'
    } else if d == 6 {
        '6'
    } else if d == 7 {
        '7'
    } else if d == 8 {
        '8'
    } else {
        '9'
    }
}

/// Writes a number in decimal.
pub fn usize_to_string(n: usize) -> (r: String)
    ensures
        r@ == dec_str(n as nat),
    decreases n,
{
    if n < 10 {
        let mut s = String::new();
        push_char(&mut s, digit_to_char(n));
        proof {
            assert(s@ =~= seq![digit_char(n as nat)]);
        }
        s
    } else {
        let mut s = usize_to_string(n / 10);
        push_char(&mut s, digit_to_char(n % 10));
        proof {
            assert(s@ =~= dec_str((n / 10) as nat) + seq![digit_char((n % 10) as nat)]);
        }
        s
    }
}

pub open spec fn pow2(k: nat) -> nat
    decreases k,
{
    if k == 0 {
        1
    } else {
        2 * pow2((k - 1) as nat)
    }
}

proof fn lemma_pow2_pos(k: nat)
    ensures
        pow2(k) >= 1,
    decreases k,
{
    if k > 0 {
        lemma_pow2_pos((k - 1) as nat);
    }
}

/// The 16-character binary form of a value below 2^16, most significant bit
/// first.
pub open spec fn bin16(n: nat) -> Seq<char> {
    Seq::new(16, |i: int| if (n / pow2((15 - i) as nat)) % 2 == 1 {
        '1'
    } else {
        '0'
    })
}

/// Writes a 16-bit word as 16 binary characters, most significant bit first.
pub fn u16_to_bin_string(w: u16) -> (r: String)
    ensures
        r@ == bin16(w as nat),
{
    let mut s = String::new();
    let mut i: usize = 0;
    let mut div: u32 = 32768;
    proof {
        reveal_with_fuel(pow2, 17);
        assert(pow2(15) == 32768);
    }
    while i < 16
        invariant
            i <= 16,
            s@.len() == i,
            i < 16 ==> div as nat == pow2((15 - i) as nat),
            forall|j: int| 0 <= j < i ==> s@[j] == bin16(w as nat)[j],
        decreases 16 - i,
    {
        proof {
            lemma_pow2_pos((15 - i) as nat);
        }
        let bit = (w as u32) / div % 2;
        if bit == 1 {
            push_char(&mut s, '1');
        } else {
            push_char(&mut s, '0');
        }
        proof {
            assert((w as u32 / div) as nat == (w as nat) / (div as nat));
            assert(s@[i as int] == bin16(w as nat)[i as int]);
        }
        div = div / 2;
        i = i + 1;
        proof {
            if i < 16 {
                assert(pow2((16 - i) as nat) == 2 * pow2((15 - i) as nat));
            }
        }
    }
    proof {
        assert(s@ =~= bin16(w as nat));
    }
    s
}

} // verus!
