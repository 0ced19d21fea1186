//! Splitting assembler source lines into words and reading integer literals.
use vstd::prelude::*;
use vstd::string::StrSliceExecFns;

verus! {

pub open spec fn is_space(c: char) -> bool {
    c == ' ' || c == '\t' || c == '\r' || c == '\n'
}

/// Index of the first `;`, which starts a comment, or the length.
pub open spec fn comment_start(s: Seq<char>) -> nat
    decreases s.len(),
{
    if s.len() == 0 || s[0] == ';' {
        0
    } else {
        1 + comment_start(s.drop_first())
    }
}

/// The part of a line before its comment.
pub open spec fn code_of(s: Seq<char>) -> Seq<char> {
    s.take(comment_start(s) as int)
}

/// Length of the word at the start of `s`.
pub open spec fn word_len(s: Seq<char>) -> nat
    decreases s.len(),
{
    if s.len() == 0 || is_space(s[0]) {
        0
    } else {
        1 + word_len(s.drop_first())
    }
}

/// The whitespace-separated words of `s`, in order.
pub open spec fn split_words(s: Seq<char>) -> Seq<Seq<char>>
    decreases s.len(),
    via split_words_decreases
{
    if s.len() == 0 {
        seq![]
    } else if is_space(s[0]) {
        split_words(s.drop_first())
    } else {
        let n = word_len(s);
        seq![s.take(n as int)] + split_words(s.skip(n as int))
    }
}

proof fn lemma_word_len_bound(s: Seq<char>)
    ensures
        word_len(s) <= s.len(),
        s.len() > 0 && !is_space(s[0]) ==> word_len(s) >= 1,
    decreases s.len(),
{
    if s.len() > 0 && !is_space(s[0]) {
        lemma_word_len_bound(s.drop_first());
    }
}

#[via_fn]
proof fn split_words_decreases(s: Seq<char>) {
    lemma_word_len_bound(s);
}

/// The words of a source line, comment removed.
pub open spec fn line_words(s: Seq<char>) -> Seq<Seq<char>> {
    split_words(code_of(s))
}

proof fn lemma_comment_start(s: Seq<char>, i: int)
    requires
        0 <= i <= s.len(),
        forall|j: int| 0 <= j < i ==> s[j] != ';',
    ensures
        comment_start(s) == i + comment_start(s.skip(i)),
    decreases i,
{
    if i > 0 {
        lemma_comment_start(s.drop_first(), i - 1);
        assert(s.drop_first().skip(i - 1) =~= s.skip(i));
    } else {
        assert(s.skip(0) =~= s);
    }
}

proof fn lemma_word_len(s: Seq<char>, i: int, j: int)
    requires
        0 <= i <= j <= s.len(),
        forall|k: int| i <= k < j ==> !is_space(s[k]),
        j == s.len() || is_space(s[j]),
    ensures
        word_len(s.skip(i)) == j - i,
    decreases j - i,
{
    if i < j {
        lemma_word_len(s, i + 1, j);
        assert(s.skip(i).drop_first() =~= s.skip(i + 1));
    }
}

/// The characters of `s`.
pub fn chars_of(s: &str) -> (r: Vec<char>)
    ensures
        r@ == s@,
{
    let n = s.unicode_len();
    let mut r: Vec<char> = Vec::new();
    let mut i: usize = 0;
    while i < n
        invariant
            n == s@.len(),
            i <= n,
            r@ == s@.take(i as int),
        decreases n - i,
    {
        r.push(s.get_char(i));
        i = i + 1;
        assert(r@ =~= s@.take(i as int));
    }
    assert(r@ =~= s@);
    r
}

/// The words of a source line, comment removed.
pub fn tokenize(line: &str) -> (r: Vec<String>)
    ensures
        r@.map_values(|w: String| w@) == line_words(line@),
{
    let chars = chars_of(line);
    let ghost s = line@;
    let mut end: usize = 0;
    while end < chars.len() && chars[end] != ';'
        invariant
            chars@ == s,
            s == line@,
            end <= chars.len(),
            forall|j: int| 0 <= j < end ==> s[j] != ';',
        decreases chars.len() - end,
    {
        end = end + 1;
    }
    proof {
        lemma_comment_start(s, end as int);
        if end < chars.len() {
            assert(comment_start(s.skip(end as int)) == 0);
        } else {
            assert(s.skip(end as int).len() == 0);
        }
    }
    let ghost code = code_of(s);
    assert(code =~= s.take(end as int));
    let mut words: Vec<String> = Vec::new();
    let mut i: usize = 0;
    assert(code.skip(0) =~= code);
    assert(words@.map_values(|w: String| w@) =~= Seq::<Seq<char>>::empty());
    while i < end
        invariant
            chars@ == s,
            s == line@,
            end <= chars.len(),
            code == s.take(end as int),
            i <= end,
            split_words(code) == words@.map_values(|w: String| w@) + split_words(code.skip(i as int)),
        decreases end - i,
    {
        if chars[i] == ' ' || chars[i] == '\t' || chars[i] == '\r' || chars[i] == '\n' {
            proof {
                assert(code.skip(i as int).drop_first() =~= code.skip(i + 1));
            }
            i = i + 1;
        } else {
            let mut j = i;
            while j < end && !(chars[j] == ' ' || chars[j] == '\t' || chars[j] == '\r' || chars[j]
                == '\n')
                invariant
                    chars@ == s,
                    s == line@,
                    end <= chars.len(),
                    code == s.take(end as int),
                    i <= j <= end,
                    forall|k: int| i <= k < j ==> !is_space(code[k]),
                decreases end - j,
            {
                j = j + 1;
            }
            let w = line.substring_char(i, j).to_owned();
            proof {
                lemma_word_len(code, i as int, j as int);
                let rest = code.skip(i as int);
                assert(rest.take((j - i) as int) =~= w@);
                assert(rest.skip((j - i) as int) =~= code.skip(j as int));
            }
            let ghost before = words@;
            words.push(w);
            proof {
                assert(words@.map_values(|w: String| w@) =~= before.map_values(|w: String| w@).push(
                    w@,
                ));
                assert(split_words(code.skip(i as int)) == seq![w@] + split_words(code.skip(j as int)));
                assert(words@.map_values(|w: String| w@) + split_words(code.skip(j as int))
                    =~= before.map_values(|w: String| w@) + split_words(code.skip(i as int)));
            }
            i = j;
        }
    }
    proof {
        assert(code.skip(end as int).len() == 0);
        assert(words@.map_values(|w: String| w@) + split_words(code.skip(end as int))
            =~= words@.map_values(|w: String| w@));
    }
    words
}

/// The value of digit `c` in `base` (10 or 16), if it is one.
pub open spec fn digit_value(c: char, base: nat) -> Option<nat> {
    let d: int = if '0' <= c && c <= '9' {
        c as int - '0' as int
    } else if 'a' <= c && c <= 'f' {
        c as int - 'a' as int + 10
    } else if 'A' <= c && c <= 'F' {
        c as int - 'A' as int + 10
    } else {
        16
    };
    if d < base {
        Some(d as nat)
    } else {
        None
    }
}

pub open spec fn all_digits(s: Seq<char>, base: nat) -> bool {
    forall|i: int| 0 <= i < s.len() ==> (#[trigger] digit_value(s[i], base)) is Some
}

/// The number written by the digits `s` in `base`.
pub open spec fn digits_value(s: Seq<char>, base: nat) -> nat
    decreases s.len(),
{
    if s.len() == 0 {
        0
    } else {
        digits_value(s.drop_last(), base) * base + match digit_value(s.last(), base) {
            Some(d) => d,
            None => 0,
        }
    }
}

/// The sign, the base and the digits of an integer literal.
pub open spec fn literal_parts(w: Seq<char>) -> (bool, nat, Seq<char>) {
    let neg = w.len() > 0 && w[0] == '-';
    let body = if neg {
        w.drop_first()
    } else {
        w
    };
    let hex = body.len() > 2 && body[0] == '0' && (body[1] == 'x' || body[1] == 'X');
    if hex {
        (neg, 16, body.skip(2))
    } else {
        (neg, 10, body)
    }
}

/// The integer literal `w`: an optional `-`, then decimal digits or `0x`
/// and hexadecimal digits; nothing if it is not one or does not fit a word.
pub open spec fn parse_int_spec(w: Seq<char>) -> Option<i32> {
    let (neg, base, ds) = literal_parts(w);
    if ds.len() == 0 || !all_digits(ds, base) {
        None
    } else {
        let v = if neg {
            -(digits_value(ds, base) as int)
        } else {
            digits_value(ds, base) as int
        };
        if i32::MIN <= v && v <= i32::MAX {
            Some(v as i32)
        } else {
            None
        }
    }
}

proof fn lemma_digits_value_grows(s: Seq<char>, base: nat, i: int)
    requires
        base >= 1,
        0 <= i <= s.len(),
    ensures
        digits_value(s.take(i), base) <= digits_value(s, base),
    decreases s.len() - i,
{
    if i < s.len() {
        lemma_digits_value_grows(s, base, i + 1);
        assert(s.take(i + 1).drop_last() =~= s.take(i));
        assert(digits_value(s.take(i), base) * base >= digits_value(s.take(i), base)) by (
        nonlinear_arith)
            requires
                base >= 1,
        ;
    } else {
        assert(s.take(i) =~= s);
    }
}

fn digit(c: char, base: u32) -> (r: Option<u32>)
    requires
        base == 10 || base == 16,
    ensures
        r == (match digit_value(c, base as nat) {
            Some(d) => Some(d as u32),
            None => None,
        }),
{
    let d: u32 = if '0' <= c && c <= '9' {
        c as u32 - '0' as u32
    } else if 'a' <= c && c <= 'f' {
        c as u32 - 'a' as u32 + 10
    } else if 'A' <= c && c <= 'F' {
        c as u32 - 'A' as u32 + 10
    } else {
        16
    };
    if d < base {
        Some(d)
    } else {
        None
    }
}

/// Reads the integer literal `w`: an optional `-`, then decimal digits or
/// `0x` and hexadecimal digits.
pub fn parse_int(w: &str) -> (r: Option<i32>)
    ensures
        r == parse_int_spec(w@),
{
    let chars = chars_of(w);
    let ghost s = w@;
    let neg = chars.len() > 0 && chars[0] == '-';
    let mut start: usize = if neg {
        1
    } else {
        0
    };
    let ghost body = if neg {
        s.drop_first()
    } else {
        s
    };
    let hex = chars.len() > start + 2 && chars[start] == '0' && (chars[start + 1] == 'x'
        || chars[start + 1] == 'X');
    assert(hex == (body.len() > 2 && body[0] == '0' && (body[1] == 'x' || body[1] == 'X')));
    let base: u32 = if hex {
        16
    } else {
        10
    };
    if hex {
        start = start + 2;
    }
    let ghost ds = if hex {
        body.skip(2)
    } else {
        body
    };
    assert(ds =~= s.skip(start as int));
    assert(literal_parts(s) == (neg, base as nat, ds));
    if start >= chars.len() {
        return None;
    }
    let mut acc: u64 = 0;
    let mut i: usize = start;
    assert(ds.take(0) =~= Seq::<char>::empty());
    while i < chars.len()
        invariant
            chars@ == s,
            ds == s.skip(start as int),
            start <= i <= chars.len(),
            base == 10 || base == 16,
            acc == digits_value(ds.take(i - start), base as nat),
            acc <= 0x8000_0000,
            all_digits(ds.take(i - start), base as nat),
            literal_parts(s) == (neg, base as nat, ds),
            s == w@,
        decreases chars.len() - i,
    {
        let d = digit(chars[i], base);
        match d {
            None => {
                assert(digit_value(ds[i - start], base as nat) is None);
                return None;
            },
            Some(d) => {
                let ghost k = i - start;
                assert(ds.take(k + 1).drop_last() =~= ds.take(k));
                assert(ds.take(k + 1).last() == ds[k]);
                assert(acc * base as u64 <= 0x8000_0000 * 16) by (nonlinear_arith)
                    requires
                        acc <= 0x8000_0000,
                        base <= 16,
                ;
                acc = acc * base as u64 + d as u64;
                i = i + 1;
                assert forall|j: int| 0 <= j < ds.take(k + 1).len() implies (#[trigger] digit_value(
                    ds.take(k + 1)[j],
                    base as nat,
                )) is Some by {
                    if j < k {
                        assert(ds.take(k + 1)[j] == ds.take(k)[j]);
                    }
                }
                if acc > 0x8000_0000 {
                    proof {
                        if all_digits(ds, base as nat) {
                            lemma_digits_value_grows(ds, base as nat, k + 1);
                        }
                    }
                    return None;
                }
            },
        }
    }
    assert(ds.take(i - start) =~= ds);
    let v: i64 = if neg {
        -(acc as i64)
    } else {
        acc as i64
    };
    if v < i32::MIN as i64 || v > i32::MAX as i64 {
        None
    } else {
        Some(v as i32)
    }
}

} // verus!
