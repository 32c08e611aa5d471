//! A move as it is typed: four numbers on a line, set apart by white space,
//! which are the file and the rank to move from and the file and the rank to
//! move to.

use vstd::prelude::*;

verus! {

/// Whether `c` is white space.
pub open spec fn is_space(c: char) -> bool {
    let u = c as u32;
    ||| 0x09 <= u <= 0x0D
    ||| u == 0x20
    ||| u == 0x85
    ||| u == 0xA0
    ||| u == 0x1680
    ||| 0x2000 <= u <= 0x200A
    ||| u == 0x2028
    ||| u == 0x2029
    ||| u == 0x202F
    ||| u == 0x205F
    ||| u == 0x3000
}

/// Whether `c` is a decimal digit.
pub open spec fn is_digit(c: char) -> bool {
    '0' <= c <= '9'
}

/// The value of a decimal digit.
pub open spec fn digit_value(c: char) -> nat
    recommends
        is_digit(c),
{
    if is_digit(c) {
        (c as u32 - '0' as u32) as nat
    } else {
        0
    }
}

/// The number that a sequence of decimal digits stands for.
pub open spec fn digits_value(digits: Seq<char>) -> nat
    decreases digits.len(),
{
    if digits.len() == 0 {
        0
    } else {
        digits_value(digits.drop_last()) * 10 + digit_value(digits.last())
    }
}

/// Whether `s` holds decimal digits only.
pub open spec fn all_digits(s: Seq<char>) -> bool {
    forall|i: int| 0 <= i < s.len() ==> is_digit(#[trigger] s[i])
}

/// A word without the plus sign that may stand before it.
pub open spec fn unsigned(word: Seq<char>) -> Seq<char> {
    if word.len() > 0 && word[0] == '+' {
        word.drop_first()
    } else {
        word
    }
}

/// The number that a word stands for: one or more decimal digits, with or
/// without a plus sign before them. Any other word stands for none.
pub open spec fn number(word: Seq<char>) -> Option<nat> {
    let digits = unsigned(word);
    if digits.len() > 0 && all_digits(digits) {
        Some(digits_value(digits))
    } else {
        None
    }
}

/// The number that a word stands for, where it fits a machine integer.
pub open spec fn coordinate(word: Seq<char>) -> Option<usize> {
    match number(word) {
        Some(n) => if n <= usize::MAX {
            Some(n as usize)
        } else {
            None
        },
        None => None,
    }
}

/// The length of the word at the start of `s`: of its longest prefix that
/// holds no white space.
pub open spec fn word_len(s: Seq<char>) -> nat
    decreases s.len(),
{
    if s.len() == 0 || is_space(s[0]) {
        0
    } else {
        1 + word_len(s.drop_first())
    }
}

/// The words of `s`: its longest stretches that hold no white space, from
/// left to right.
pub open spec fn words(s: Seq<char>) -> Seq<Seq<char>>
    decreases s.len(),
    via words_decreases
{
    if s.len() == 0 {
        Seq::empty()
    } else if is_space(s[0]) {
        words(s.drop_first())
    } else {
        seq![s.take(word_len(s) as int)] + words(s.skip(word_len(s) as int))
    }
}

#[via_fn]
proof fn words_decreases(s: Seq<char>) {
    lemma_word_len(s);
}

/// The move that a line stands for: the line holds exactly four words, each
/// of them a number that fits a machine integer.
pub open spec fn parsed_move(line: Seq<char>) -> Option<((usize, usize), (usize, usize))> {
    let w = words(line);
    if w.len() == 4 && (forall|k: int| 0 <= k < 4 ==> coordinate(#[trigger] w[k]) is Some) {
        Some(
            (
                (coordinate(w[0])->0, coordinate(w[1])->0),
                (coordinate(w[2])->0, coordinate(w[3])->0),
            ),
        )
    } else {
        None
    }
}

/// The word at the start of `s` lies within `s`, holds no white space, and
/// ends where `s` ends or white space stands.
pub proof fn lemma_word_len(s: Seq<char>)
    ensures
        word_len(s) <= s.len(),
        s.len() > 0 && !is_space(s[0]) ==> word_len(s) >= 1,
        forall|j: int| 0 <= j < word_len(s) ==> !is_space(#[trigger] s[j]),
        word_len(s) < s.len() ==> is_space(s[word_len(s) as int]),
    decreases s.len(),
{
    if s.len() == 0 || is_space(s[0]) {
    } else {
        let rest = s.drop_first();
        lemma_word_len(rest);
        assert forall|j: int| 0 <= j < word_len(s) implies !is_space(#[trigger] s[j]) by {
            if j > 0 {
                assert(s[j] == rest[j - 1]);
            }
        }
        if word_len(s) < s.len() {
            assert(s[word_len(s) as int] == rest[word_len(rest) as int]);
        }
    }
}

/// A prefix of `s` that holds no white space and ends where `s` ends or
/// white space stands is the word at the start of `s`.
pub proof fn lemma_word_ends(s: Seq<char>, n: int)
    requires
        0 <= n <= s.len(),
        forall|j: int| 0 <= j < n ==> !is_space(#[trigger] s[j]),
        n == s.len() || is_space(s[n]),
    ensures
        word_len(s) == n,
    decreases n,
{
    if n > 0 {
        let rest = s.drop_first();
        assert forall|j: int| 0 <= j < n - 1 implies !is_space(#[trigger] rest[j]) by {
            assert(rest[j] == s[j + 1]);
        }
        lemma_word_ends(rest, n - 1);
    }
}

/// Every word of a line holds at least one character and no white space.
pub proof fn lemma_words_hold_no_space(s: Seq<char>, k: int)
    requires
        0 <= k < words(s).len(),
    ensures
        words(s)[k].len() > 0,
        forall|j: int| 0 <= j < words(s)[k].len() ==> !is_space(#[trigger] words(s)[k][j]),
    decreases s.len(),
{
    if s.len() == 0 {
    } else if is_space(s[0]) {
        lemma_words_hold_no_space(s.drop_first(), k);
    } else {
        lemma_word_len(s);
        if k > 0 {
            lemma_words_hold_no_space(s.skip(word_len(s) as int), k - 1);
        }
    }
}

/// The digits of a prefix stand for no greater a number than the digits of
/// the whole.
pub proof fn lemma_prefix_value(digits: Seq<char>, n: int)
    requires
        0 <= n <= digits.len(),
    ensures
        digits_value(digits.take(n)) <= digits_value(digits),
    decreases digits.len(),
{
    if n == digits.len() {
        assert(digits.take(n) =~= digits);
    } else {
        assert(digits.drop_last().take(n) =~= digits.take(n));
        lemma_prefix_value(digits.drop_last(), n);
        assert(digits_value(digits.drop_last()) <= digits_value(digits.drop_last()) * 10)
            by (nonlinear_arith);
    }
}

/// Whether `c` is white space.
pub fn is_whitespace(c: char) -> (b: bool)
    ensures
        b == is_space(c),
{
    let u = c as u32;
    (0x09 <= u && u <= 0x0D) || u == 0x20 || u == 0x85 || u == 0xA0 || u == 0x1680 || (0x2000 <= u
        && u <= 0x200A) || u == 0x2028 || u == 0x2029 || u == 0x202F || u == 0x205F || u == 0x3000
}

/// The characters of `line`.
fn chars_of(line: &str) -> (chars: Vec<char>)
    ensures
        chars@ == line@,
{
    let mut chars: Vec<char> = Vec::new();
    for c in it: line.chars()
        invariant
            it.seq() == line@,
            chars@ == it.seq().take(it.index()),
    {
        chars.push(c);
        assert(it.seq().take(it.index() + 1) =~= it.seq().take(it.index()).push(c));
    }
    assert(chars@ =~= line@);
    chars
}

/// Where the word that starts at `start` ends.
fn word_end(chars: &Vec<char>, start: usize) -> (end: usize)
    requires
        start < chars.len(),
        !is_space(chars[start as int]),
    ensures
        start < end <= chars.len(),
        end - start == word_len(chars@.skip(start as int)),
{
    let mut end = start + 1;
    while end < chars.len() && !is_whitespace(chars[end])
        invariant
            start < end <= chars.len(),
            forall|j: int| start <= j < end ==> !is_space(#[trigger] chars[j]),
        decreases chars.len() - end,
    {
        end = end + 1;
    }
    proof {
        let rest = chars@.skip(start as int);
        assert forall|j: int| 0 <= j < end - start implies !is_space(#[trigger] rest[j]) by {
            assert(rest[j] == chars[start + j]);
        }
        lemma_word_ends(rest, end - start);
    }
    end
}

/// Reads the word from `start` to `end` as a number.
#[verifier::loop_isolation(false)]
fn parse_number(chars: &Vec<char>, start: usize, end: usize) -> (value: Option<usize>)
    requires
        start < end <= chars.len(),
    ensures
        value == coordinate(chars@.subrange(start as int, end as int)),
{
    let ghost word = chars@.subrange(start as int, end as int);
    let first = if chars[start] == '+' {
        start + 1
    } else {
        start
    };
    let ghost digits = chars@.subrange(first as int, end as int);
    proof {
        assert(word[0] == chars[start as int]);
        assert(unsigned(word) =~= digits);
    }
    if first == end {
        return None;
    }
    let mut value: usize = 0;
    let mut k = first;
    while k < end
        invariant
            first <= k <= end <= chars.len(),
            digits == chars@.subrange(first as int, end as int),
            forall|j: int| 0 <= j < k - first ==> is_digit(#[trigger] digits[j]),
            value == digits_value(digits.take(k - first)),
        decreases end - k,
    {
        let c = chars[k];
        proof {
            assert(digits[k - first] == c);
            assert(digits.take(k - first + 1).drop_last() =~= digits.take(k - first));
            assert(digits.take(k - first + 1).last() == c);
        }
        if !('0' <= c && c <= '9') {
            assert(!is_digit(digits[k - first]));
            return None;
        }
        let d = (c as u32 - '0' as u32) as usize;
        let next = match value.checked_mul(10) {
            Some(tens) => tens.checked_add(d),
            None => None,
        };
        match next {
            Some(sum) => {
                value = sum;
            },
            None => {
                proof {
                    lemma_prefix_value(digits, k - first + 1);
                }
                return None;
            },
        }
        k = k + 1;
    }
    proof {
        assert(digits.take(end - first) =~= digits);
    }
    Some(value)
}

/// Reads a move from a line: the file and rank to move from, then the file
/// and rank to move to. A line that does not hold exactly four numbers, or
/// holds one too large for the machine, gives no move.
pub fn parse_move(line: &str) -> (mv: Option<((usize, usize), (usize, usize))>)
    ensures
        mv == parsed_move(line@),
{
    let chars = chars_of(line);
    let mut numbers: Vec<usize> = Vec::new();
    let mut pos: usize = 0;
    let ghost mut done: Seq<Seq<char>> = Seq::empty();
    proof {
        assert(line@.skip(0) =~= line@);
    }
    while pos < chars.len()
        invariant
            pos <= chars.len(),
            chars@ == line@,
            words(line@) == done + words(line@.skip(pos as int)),
            numbers.len() == done.len() <= 4,
            forall|k: int| 0 <= k < done.len() ==> coordinate(#[trigger] done[k]) == Some(numbers[k]),
        decreases chars.len() - pos,
    {
        let ghost rest = line@.skip(pos as int);
        proof {
            assert(rest[0] == chars[pos as int]);
        }
        if is_whitespace(chars[pos]) {
            proof {
                assert(rest.drop_first() =~= line@.skip(pos + 1));
            }
            pos = pos + 1;
        } else {
            let end = word_end(&chars, pos);
            let ghost word = rest.take(end - pos);
            proof {
                assert(rest.skip(end - pos) =~= line@.skip(end as int));
                assert(word =~= chars@.subrange(pos as int, end as int));
                assert(words(line@) =~= done.push(word) + words(line@.skip(end as int)));
                assert(words(line@)[done.len() as int] == word);
            }
            if numbers.len() == 4 {
                return None;
            }
            match parse_number(&chars, pos, end) {
                Some(value) => {
                    numbers.push(value);
                    proof {
                        done = done.push(word);
                    }
                },
                None => {
                    return None;
                },
            }
            pos = end;
        }
    }
    proof {
        assert(line@.skip(pos as int) =~= Seq::<char>::empty());
        assert(words(line@) =~= done);
    }
    if numbers.len() == 4 {
        Some(((numbers[0], numbers[1]), (numbers[2], numbers[3])))
    } else {
        None
    }
}

} // verus!
