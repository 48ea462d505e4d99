//! Text as sequences of characters: numbers, blanks, words and lines.

use vstd::prelude::*;

verus! {

/// The decimal digit `d`.
pub open spec fn digit(d: nat) -> char {
    (48 + d) as char
}

/// `n` in decimal, without leading zeros.
pub open spec fn decimal(n: nat) -> Seq<char>
    decreases n,
{
    if n < 10 {
        seq![digit(n)]
    } else {
        decimal(n / 10).push(digit(n % 10))
    }
}

/// `n` below one hundred, in exactly two digits.
pub open spec fn two_digits(n: nat) -> Seq<char> {
    seq![digit(n / 10), digit(n % 10)]
}

/// Whether `c` is a digit in base `radix`, which is at most ten.
pub open spec fn is_digit(c: char, radix: nat) -> bool {
    48 <= c as int && (c as int) < 48 + radix
}

/// The number that the digits `s` stand for in base `radix`.
pub open spec fn digits_value(s: Seq<char>, radix: nat) -> nat
    decreases s.len(),
{
    if s.len() == 0 {
        0
    } else {
        digits_value(s.drop_last(), radix) * radix + (s.last() as int - 48) as nat
    }
}

/// `s` without one leading plus sign.
pub open spec fn unsigned(s: Seq<char>) -> Seq<char> {
    if s.len() > 0 && s[0] == '+' {
        s.skip(1)
    } else {
        s
    }
}

/// Whether `s` is an unsigned number in base `radix`: an optional plus sign and
/// at least one digit.
pub open spec fn is_number(s: Seq<char>, radix: nat) -> bool {
    let digits = unsigned(s);
    digits.len() > 0 && forall|i: int| 0 <= i < digits.len() ==> is_digit(#[trigger] digits[i], radix)
}

/// The value of the number `s` in base `radix`.
pub open spec fn number_value(s: Seq<char>, radix: nat) -> nat {
    digits_value(unsigned(s), radix)
}

/// Whether `c` has the Unicode property White_Space.
pub open spec fn is_blank(c: char) -> bool {
    let x = c as int;
    ||| 0x9 <= x <= 0xd
    ||| x == 0x20
    ||| x == 0x85
    ||| x == 0xa0
    ||| x == 0x1680
    ||| 0x2000 <= x <= 0x200a
    ||| x == 0x2028
    ||| x == 0x2029
    ||| x == 0x202f
    ||| x == 0x205f
    ||| x == 0x3000
}

/// `s` without blanks at its start.
pub open spec fn trimmed_start(s: Seq<char>) -> Seq<char>
    decreases s.len(),
{
    if s.len() > 0 && is_blank(s[0]) {
        trimmed_start(s.skip(1))
    } else {
        s
    }
}

/// `s` without blanks at its end.
pub open spec fn trimmed_end(s: Seq<char>) -> Seq<char>
    decreases s.len(),
{
    if s.len() > 0 && is_blank(s.last()) {
        trimmed_end(s.drop_last())
    } else {
        s
    }
}

/// `s` without blanks at either end.
pub open spec fn trimmed(s: Seq<char>) -> Seq<char> {
    trimmed_end(trimmed_start(s))
}

/// How many characters stand in front of the first blank of `s`.
pub open spec fn word_len(s: Seq<char>) -> nat
    decreases s.len(),
{
    if s.len() == 0 || is_blank(s[0]) {
        0
    } else {
        1 + word_len(s.skip(1))
    }
}

/// The words of `s`: its maximal runs of characters that are not blank.
pub open spec fn words(s: Seq<char>) -> Seq<Seq<char>>
    decreases s.len(),
{
    if s.len() == 0 {
        Seq::empty()
    } else if is_blank(s[0]) {
        words(s.skip(1))
    } else {
        proof {
            lemma_word_len(s);
        }
        seq![s.take(word_len(s) as int)] + words(s.skip(word_len(s) as int))
    }
}

/// How many characters stand in front of the first `c` of `s`; all of them
/// where there is none.
pub open spec fn first_at(s: Seq<char>, c: char) -> nat
    decreases s.len(),
{
    if s.len() == 0 || s[0] == c {
        0
    } else {
        1 + first_at(s.skip(1), c)
    }
}

/// The views of the strings in `v`.
pub open spec fn views(v: Seq<String>) -> Seq<Seq<char>> {
    Seq::new(v.len(), |i: int| v[i]@)
}

/// Whether `part` occurs in `s`.
pub open spec fn occurs(part: Seq<char>, s: Seq<char>) -> bool {
    exists|i: int| 0 <= i && i + part.len() <= s.len() && #[trigger] s.subrange(i, i + part.len()) == part
}

/// A word is no longer than the text, and empty only in front of a blank.
pub proof fn lemma_word_len(s: Seq<char>)
    ensures
        word_len(s) <= s.len(),
        s.len() > 0 && !is_blank(s[0]) ==> word_len(s) > 0,
        forall|i: int| 0 <= i < word_len(s) ==> !is_blank(#[trigger] s[i]),
        word_len(s) < s.len() ==> is_blank(s[word_len(s) as int]),
    decreases s.len(),
{
    if s.len() > 0 && !is_blank(s[0]) {
        let rest = s.skip(1);
        lemma_word_len(rest);
        assert forall|i: int| 0 <= i < word_len(s) implies !is_blank(#[trigger] s[i]) by {
            if i > 0 {
                assert(s[i] == rest[i - 1]);
            }
        }
        if word_len(s) < s.len() {
            assert(s[word_len(s) as int] == rest[word_len(rest) as int]);
        }
    }
}

/// The place of the first `c`.
pub proof fn lemma_first_at(s: Seq<char>, c: char, i: int)
    requires
        0 <= i <= s.len(),
        i < s.len() ==> s[i] == c,
        forall|k: int| 0 <= k < i ==> #[trigger] s[k] != c,
    ensures
        first_at(s, c) == i,
    decreases s.len(),
{
    if i > 0 {
        assert(s[0] != c);
        let rest = s.skip(1);
        assert forall|k: int| 0 <= k < i - 1 implies #[trigger] rest[k] != c by {
            assert(s[k + 1] != c);
        }
        lemma_first_at(rest, c, i - 1);
    }
}

/// The decimal digits of `n` are digits, the first of them not zero unless it
/// stands alone, and their value is `n`.
pub proof fn lemma_decimal(n: nat)
    ensures
        decimal(n).len() > 0,
        forall|i: int| 0 <= i < decimal(n).len() ==> is_digit(#[trigger] decimal(n)[i], 10),
        n > 0 ==> decimal(n)[0] != '0',
        digits_value(decimal(n), 10) == n,
    decreases n,
{
    if n < 10 {
        assert(decimal(n).drop_last() =~= Seq::empty());
        assert(digits_value(decimal(n).drop_last(), 10) == 0);
        assert(decimal(n).last() as int == 48 + n);
    } else {
        lemma_decimal(n / 10);
        assert(decimal(n).drop_last() =~= decimal(n / 10));
    }
}

/// A number written in decimal reads back as itself.
pub proof fn law_decimal_reads_back(n: nat)
    ensures
        is_number(decimal(n), 10),
        number_value(decimal(n), 10) == n,
{
    lemma_decimal(n);
    assert(decimal(n)[0] != '+');
}

/// Different numbers are written differently.
pub proof fn law_decimal_is_injective(m: nat, n: nat)
    requires
        decimal(m) == decimal(n),
    ensures
        m == n,
{
    lemma_decimal(m);
    lemma_decimal(n);
}

/// Appends the digit `d`.
fn push_digit(out: &mut String, d: u64)
    requires
        d < 10,
    ensures
        final(out)@ == old(out)@.push(digit(d as nat)),
{
    let s: &str = if d == 0 {
        "0"
    } else if d == 1 {
        "1"
    } else if d == 2 {
        "2"
    } else if d == 3 {
        "3"
    } else if d == 4 {
        "4"
    } else if d == 5 {
        "5"
    } else if d == 6 {
        "6"
    } else if d == 7 {
        "7"
    } else if d == 8 {
        "8"
    } else {
        "9"
    };
    proof {
        reveal_strlit("0");
        reveal_strlit("1");
        reveal_strlit("2");
        reveal_strlit("3");
        reveal_strlit("4");
        reveal_strlit("5");
        reveal_strlit("6");
        reveal_strlit("7");
        reveal_strlit("8");
        reveal_strlit("9");
        assert(s@ =~= seq![digit(d as nat)]);
    }
    out.append(s);
    assert(out@ =~= old(out)@.push(digit(d as nat)));
}

/// Appends `n` in decimal.
pub fn push_decimal(out: &mut String, n: u64)
    ensures
        final(out)@ == old(out)@ + decimal(n as nat),
    decreases n,
{
    if n >= 10 {
        push_decimal(out, n / 10);
    }
    push_digit(out, n % 10);
    assert(out@ =~= old(out)@ + decimal(n as nat));
}

/// Appends `n` in two digits.
pub fn push_two_digits(out: &mut String, n: u64)
    requires
        n < 100,
    ensures
        final(out)@ == old(out)@ + two_digits(n as nat),
{
    push_digit(out, n / 10);
    push_digit(out, n % 10);
    assert(out@ =~= old(out)@ + two_digits(n as nat));
}

/// The text of `n` in decimal.
pub fn to_decimal(n: u64) -> (r: String)
    ensures
        r@ == decimal(n as nat),
{
    let mut out: String = String::new();
    push_decimal(&mut out, n);
    assert(out@ =~= decimal(n as nat));
    out
}

/// Reads an unsigned number of at most `max` in base `radix`.
pub fn parse_number(s: &str, radix: u32, max: u32) -> (r: Option<u32>)
    requires
        2 <= radix <= 10,
    ensures
        match r {
            Some(v) => is_number(s@, radix as nat) && v == number_value(s@, radix as nat) && v <= max,
            None => !is_number(s@, radix as nat) || number_value(s@, radix as nat) > max,
        },
{
    let len: usize = s.unicode_len();
    let mut i: usize = 0;
    if len > 0 && s.get_char(0) == '+' {
        i = 1;
    }
    let ghost digits = unsigned(s@);
    let ghost skip = i as int;
    if i == len {
        return None;
    }
    let mut value: u32 = 0;
    assert(digits.take(0) =~= Seq::empty());
    while i < len
        invariant
            2 <= radix <= 10,
            digits == unsigned(s@),
            len == s@.len(),
            0 <= skip <= 1,
            skip <= i <= len,
            digits.len() + skip == s@.len(),
            forall|k: int| 0 <= k < digits.len() ==> #[trigger] digits[k] == s@[k + skip],
            forall|k: int| 0 <= k < i - skip ==> is_digit(#[trigger] digits[k], radix as nat),
            value == digits_value(digits.take(i - skip), radix as nat),
            value <= max,
        decreases len - i,
    {
        let c: u32 = s.get_char(i) as u32;
        let ghost k = i - skip;
        assert(digits[k] == s@[i as int]);
        if c < 48 || c >= 48 + radix {
            assert(!is_digit(digits[k], radix as nat));
            return None;
        }
        assert(value * radix <= u32::MAX * 10) by (nonlinear_arith)
            requires
                value <= u32::MAX,
                radix <= 10,
        ;
        let next: u64 = value as u64 * radix as u64 + (c - 48) as u64;
        proof {
            assert(digits.take(k + 1).drop_last() =~= digits.take(k));
            assert(next == digits_value(digits.take(k + 1), radix as nat));
        }
        if next > max as u64 {
            proof {
                if is_number(s@, radix as nat) {
                    lemma_digits_value_grows(digits, radix as nat, k + 1);
                }
            }
            return None;
        }
        value = next as u32;
        i += 1;
    }
    assert(digits.take(len - skip) =~= digits);
    Some(value)
}

/// More digits never make a number smaller.
proof fn lemma_digits_value_grows(s: Seq<char>, radix: nat, n: int)
    requires
        radix >= 1,
        0 <= n <= s.len(),
    ensures
        digits_value(s.take(n), radix) <= digits_value(s, radix),
    decreases s.len(),
{
    if n == s.len() {
        assert(s.take(n) =~= s);
    } else {
        lemma_digits_value_grows(s.drop_last(), radix, n);
        assert(s.drop_last().take(n) =~= s.take(n));
        let v = digits_value(s.drop_last(), radix);
        assert(v <= v * radix) by (nonlinear_arith)
            requires
                radix >= 1,
        ;
    }
}

/// Tells whether `c` is blank.
fn blank(c: char) -> (r: bool)
    ensures
        r == is_blank(c),
{
    let x: u32 = c as u32;
    (0x9 <= x && x <= 0xd) || x == 0x20 || x == 0x85 || x == 0xa0 || x == 0x1680 || (0x2000 <= x && x
        <= 0x200a) || x == 0x2028 || x == 0x2029 || x == 0x202f || x == 0x205f || x == 0x3000
}

/// `s` without blanks at either end.
pub fn trim<'a>(s: &'a str) -> (r: &'a str)
    ensures
        r@ == trimmed(s@),
{
    let len: usize = s.unicode_len();
    let mut from: usize = 0;
    assert(s@.skip(0) =~= s@);
    while from < len && blank(s.get_char(from))
        invariant
            len == s@.len(),
            from <= len,
            trimmed_start(s@.skip(from as int)) == trimmed_start(s@),
        decreases len - from,
    {
        assert(s@.skip(from as int).skip(1) =~= s@.skip(from as int + 1));
        from += 1;
    }
    let mut to: usize = len;
    let ghost kept = s@.skip(from as int);
    assert(kept == trimmed_start(s@));
    assert(kept.take(to - from) =~= kept);
    while from < to && blank(s.get_char(to - 1))
        invariant
            len == s@.len(),
            from <= to <= len,
            kept == s@.skip(from as int),
            trimmed_end(kept.take(to - from)) == trimmed_end(kept),
        decreases to - from,
    {
        assert(kept.take(to - from).drop_last() =~= kept.take(to - from - 1));
        assert(kept.take(to - from).last() == s@[to - 1]);
        to -= 1;
    }
    proof {
        let rest = kept.take(to - from);
        if from < to {
            assert(rest.last() == s@[to - 1]);
        }
        assert(s@.subrange(from as int, to as int) =~= rest);
    }
    s.substring_char(from, to)
}

/// The words of `s`.
pub fn split_words(s: &str) -> (r: Vec<String>)
    ensures
        views(r@) == words(s@),
{
    let len: usize = s.unicode_len();
    let mut out: Vec<String> = Vec::new();
    let mut i: usize = 0;
    assert(s@.skip(0) =~= s@);
    assert(views(out@) + words(s@) =~= words(s@));
    while i < len
        invariant
            len == s@.len(),
            i <= len,
            views(out@) + words(s@.skip(i as int)) == words(s@),
        decreases len - i,
    {
        let ghost rest = s@.skip(i as int);
        if blank(s.get_char(i)) {
            assert(rest.skip(1) =~= s@.skip(i as int + 1));
            i += 1;
            continue ;
        }
        let start: usize = i;
        while i < len && !blank(s.get_char(i))
            invariant
                len == s@.len(),
                start <= i <= len,
                rest == s@.skip(start as int),
                word_len(rest) == (i - start) + word_len(s@.skip(i as int)),
                start == i ==> i < len && !is_blank(s@[i as int]),
            decreases len - i,
        {
            assert(s@.skip(i as int).skip(1) =~= s@.skip(i as int + 1));
            i += 1;
        }
        let word: String = s.substring_char(start, i).to_owned();
        proof {
            let n = (i - start) as int;
            assert(word_len(rest) == n);
            assert(rest.take(n) =~= word@);
            assert(rest.skip(n) =~= s@.skip(i as int));
            assert(views(out@.push(word)) =~= views(out@) + seq![word@]);
            assert(views(out@) + (seq![word@] + words(s@.skip(i as int))) =~= views(out@.push(word))
                + words(s@.skip(i as int)));
        }
        out.push(word);
    }
    assert(s@.skip(i as int).len() == 0);
    assert(views(out@) + words(s@.skip(i as int)) =~= views(out@));
    out
}

/// The first position of `c` in `s` at or after `from`.
pub fn find_char(s: &str, c: char, from: usize) -> (r: Option<usize>)
    ensures
        match r {
            Some(i) => from <= i < s@.len() && s@[i as int] == c && forall|k: int|
                from <= k < i ==> #[trigger] s@[k] != c,
            None => forall|k: int| from <= k < s@.len() ==> #[trigger] s@[k] != c,
        },
{
    let len: usize = s.unicode_len();
    let mut i: usize = from;
    while i < len
        invariant
            len == s@.len(),
            from <= i,
            forall|k: int| from <= k < i && k < len ==> #[trigger] s@[k] != c,
        decreases len - i,
    {
        if s.get_char(i) == c {
            return Some(i);
        }
        i += 1;
    }
    None
}

/// The position of the first `c` in `s`.
pub fn find_first(s: &str, c: char) -> (r: Option<usize>)
    ensures
        first_at(s@, c) <= s@.len(),
        r == if first_at(s@, c) < s@.len() {
            Some(first_at(s@, c) as usize)
        } else {
            None
        },
        r matches Some(i) ==> i < s@.len() && i == first_at(s@, c),
{
    match find_char(s, c, 0) {
        Some(i) => {
            proof {
                lemma_first_at(s@, c, i as int);
            }
            Some(i)
        },
        None => {
            proof {
                lemma_first_at(s@, c, s@.len() as int);
            }
            None
        },
    }
}

/// Tells whether `s` holds two dots in a row.
pub fn has_two_dots(s: &str) -> (r: bool)
    ensures
        r == occurs(seq!['.', '.'], s@),
{
    let len: usize = s.unicode_len();
    let ghost pair = seq!['.', '.'];
    let mut i: usize = 1;
    while i < len
        invariant
            len == s@.len(),
            1 <= i,
            pair == seq!['.', '.'],
            forall|k: int| 0 <= k && k + 1 < i && k + 1 < len ==> #[trigger] s@.subrange(k, k + 2) != pair,
        decreases len - i,
    {
        if s.get_char(i - 1) == '.' && s.get_char(i) == '.' {
            assert(s@.subrange(i - 1, i - 1 + pair.len()) =~= pair);
            return true;
        }
        proof {
            let k = i - 1;
            assert(s@.subrange(k, k + 2)[0] == s@[k] && s@.subrange(k, k + 2)[1] == s@[k + 1]);
        }
        i += 1;
    }
    proof {
        if occurs(pair, s@) {
            let k = choose|k: int|
                0 <= k && k + pair.len() <= s@.len() && #[trigger] s@.subrange(k, k + pair.len()) == pair;
            assert(s@.subrange(k, k + 2) == pair);
        }
    }
    false
}

/// Tells whether `s` and `t` are the same text.
pub fn same(s: &str, t: &str) -> (r: bool)
    ensures
        r == (s@ == t@),
{
    s.to_owned() == t.to_owned()
}

/// A digit more at the end is one place more: the value so far counts `radix`
/// times.
pub proof fn law_digits_count_by_place(s: Seq<char>, d: nat, radix: nat)
    requires
        d < radix <= 10,
    ensures
        digits_value(s.push((48 + d) as char), radix) == digits_value(s, radix) * radix + d,
        digits_value(Seq::empty(), radix) == 0,
        is_digit((48 + d) as char, radix),
{
    assert(s.push((48 + d) as char).drop_last() =~= s);
}

/// A number is one digit or more, with a plus sign in front or without, and
/// nothing else.
pub proof fn law_numbers_are_digits(s: Seq<char>, radix: nat)
    ensures
        s.len() > 0 && (forall|i: int|
            0 <= i < s.len() ==> '0' <= #[trigger] s[i] && (s[i] as int) < 48 + radix) ==> is_number(
            s,
            radix,
        ) && is_number(seq!['+'] + s, radix) && number_value(s, radix) == digits_value(s, radix)
            && number_value(seq!['+'] + s, radix) == digits_value(s, radix),
        is_number(s, radix) ==> s.len() > 0,
        is_number(s, radix) ==> forall|i: int|
            0 < i < s.len() ==> '0' <= #[trigger] s[i] && (s[i] as int) < 48 + radix,
        is_number(s, radix) ==> s[0] == '+' && s.len() > 1 || '0' <= s[0] && (s[0] as int) < 48
            + radix,
{
    let signed = seq!['+'] + s;
    assert(signed.skip(1) =~= s);
    if is_number(s, radix) {
        let digits = unsigned(s);
        let off: int = if s[0] == '+' {
            1
        } else {
            0
        };
        assert forall|i: int| off <= i < s.len() implies '0' <= #[trigger] s[i] && (s[i] as int) < 48
            + radix by {
            assert(s[i] == digits[i - off]);
            assert(is_digit(digits[i - off], radix));
        }
    }
}

/// In ASCII the blanks are the space and the five controls from the tab to the
/// carriage return.
pub proof fn law_ascii_blanks(c: char)
    requires
        (c as int) < 128,
    ensures
        is_blank(c) <==> c == ' ' || 9 <= c as int <= 13,
{
}

proof fn lemma_trimmed_start(s: Seq<char>) -> (n: int)
    ensures
        0 <= n <= s.len(),
        trimmed_start(s) == s.skip(n),
        forall|i: int| 0 <= i < n ==> is_blank(#[trigger] s[i]),
        n < s.len() ==> !is_blank(s[n]),
    decreases s.len(),
{
    if s.len() > 0 && is_blank(s[0]) {
        let m = lemma_trimmed_start(s.skip(1));
        assert(s.skip(1).skip(m) =~= s.skip(m + 1));
        assert forall|i: int| 0 <= i < m + 1 implies is_blank(#[trigger] s[i]) by {
            if i > 0 {
                assert(s.skip(1)[i - 1] == s[i]);
            }
        }
        m + 1
    } else {
        assert(s.skip(0) =~= s);
        0
    }
}

proof fn lemma_trimmed_end(s: Seq<char>) -> (n: int)
    ensures
        0 <= n <= s.len(),
        trimmed_end(s) == s.take(n),
        forall|i: int| n <= i < s.len() ==> is_blank(#[trigger] s[i]),
        n > 0 ==> !is_blank(s[n - 1]),
    decreases s.len(),
{
    if s.len() > 0 && is_blank(s.last()) {
        let m = lemma_trimmed_end(s.drop_last());
        assert(s.drop_last().take(m) =~= s.take(m));
        assert forall|i: int| m <= i < s.len() implies is_blank(#[trigger] s[i]) by {
            if i < s.len() - 1 {
                assert(s.drop_last()[i] == s[i]);
            }
        }
        m
    } else {
        assert(s.take(s.len() as int) =~= s);
        s.len() as int
    }
}

/// Trimming takes blanks away and nothing else, and leaves none at either end.
pub proof fn law_trimming_takes_blanks_only(s: Seq<char>) -> (r: (Seq<char>, Seq<char>))
    ensures
        s == r.0 + trimmed(s) + r.1,
        forall|i: int| 0 <= i < r.0.len() ==> is_blank(#[trigger] r.0[i]),
        forall|i: int| 0 <= i < r.1.len() ==> is_blank(#[trigger] r.1[i]),
        trimmed(s).len() > 0 ==> !is_blank(trimmed(s)[0]) && !is_blank(trimmed(s).last()),
{
    let n = lemma_trimmed_start(s);
    let kept = s.skip(n);
    let m = lemma_trimmed_end(kept);
    let front = s.take(n);
    let back = kept.skip(m);
    assert(s =~= front + kept.take(m) + back);
    assert forall|i: int| 0 <= i < back.len() implies is_blank(#[trigger] back[i]) by {
        assert(back[i] == kept[i + m]);
    }
    if m > 0 {
        assert(kept[0] == s[n]);
    }
    (front, back)
}

/// A run of characters that are not blank is one word.
pub proof fn law_solid_text_is_one_word(s: Seq<char>)
    requires
        s.len() > 0,
        forall|i: int| 0 <= i < s.len() ==> !is_blank(#[trigger] s[i]),
    ensures
        words(s) == seq![s],
{
    lemma_word_len(s);
    assert(word_len(s) == s.len());
    assert(s.take(s.len() as int) =~= s);
    let rest = s.skip(s.len() as int);
    assert(rest.len() == 0);
    assert(words(rest) == Seq::<Seq<char>>::empty());
    assert(words(s) == seq![s.take(word_len(s) as int)] + words(rest));
    assert(words(s) =~= seq![s]);
}

/// A blank parts words: the words of two texts with a blank between them are
/// those of the first and then those of the second.
pub proof fn law_blanks_part_words(a: Seq<char>, c: char, b: Seq<char>)
    requires
        is_blank(c),
    ensures
        words(a + seq![c] + b) == words(a) + words(b),
        words(Seq::empty()) == Seq::<Seq<char>>::empty(),
    decreases a.len(),
{
    let s = a + seq![c] + b;
    if a.len() == 0 {
        assert(s[0] == c);
        assert(s.skip(1) =~= b);
        assert(words(a) + words(b) =~= words(b));
    } else if is_blank(a[0]) {
        assert(s[0] == a[0]);
        assert(s.skip(1) =~= a.skip(1) + seq![c] + b);
        law_blanks_part_words(a.skip(1), c, b);
    } else {
        lemma_word_len(a);
        lemma_word_len(s);
        let n = word_len(a) as int;
        let m = word_len(s) as int;
        assert(s[0] == a[0]);
        if m < n {
            assert(s[m] == a[m]);
        }
        if n < m {
            assert(s[n] == if n < a.len() {
                a[n]
            } else {
                c
            });
        }
        assert(n == m);
        assert(s.take(n) =~= a.take(n));
        assert(s.skip(n) =~= a.skip(n) + seq![c] + b);
        law_blanks_part_words(a.skip(n), c, b);
        assert(words(s) =~= words(a) + words(b));
    }
}

/// A text occurs in another exactly where that one is made of something, the
/// text, and something.
pub proof fn law_occurs_in_between(a: Seq<char>, part: Seq<char>, b: Seq<char>)
    ensures
        occurs(part, a + part + b),
{
    let s = a + part + b;
    let i = a.len() as int;
    assert(s.subrange(i, i + part.len()) =~= part);
}

/// Two digits hold a number below one hundred.
pub proof fn law_two_digits(n: nat)
    requires
        n < 100,
    ensures
        two_digits(n).len() == 2,
        digits_value(two_digits(n), 10) == n,
        is_digit(two_digits(n)[0], 10) && is_digit(two_digits(n)[1], 10),
{
    reveal_with_fuel(digits_value, 3);
    let s = two_digits(n);
    assert(s.drop_last() =~= seq![digit(n / 10)]);
    assert(s.drop_last().drop_last().len() == 0);
}

} // verus!
