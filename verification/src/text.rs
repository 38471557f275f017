//! Character-level helpers on strings: prefixes, substrings, blank-separated
//! fields, and decimal numbers.
//!
//! Strings are modelled by their sequence of characters, `s@`.

use vstd::prelude::*;
use vstd::string::*;

verus! {

/// The characters of a string, in order.
pub fn characters(s: &str) -> (r: Vec<char>)
    ensures
        r@ == s@,
{
    let mut r: Vec<char> = Vec::new();
    for c in it: s.chars()
        invariant
            it.seq() == s@,
            r@ == s@.take(it.index() as int),
    {
        proof {
            assert(s@.take(it.index() + 1) =~= s@.take(it.index() as int).push(c));
        }
        r.push(c);
    }
    proof {
        assert(s@.take(s@.len() as int) =~= s@);
    }
    r
}

/// Whether two strings hold the same characters.
pub fn same(a: &str, b: &str) -> (r: bool)
    ensures
        r == (a@ == b@),
{
    let x = characters(a);
    let y = characters(b);
    if x.len() != y.len() {
        return false;
    }
    let mut i: usize = 0;
    while i < x.len()
        invariant
            i <= x.len(),
            x.len() == y.len(),
            x@ == a@,
            y@ == b@,
            forall|j: int| 0 <= j < i ==> x@[j] == y@[j],
        decreases x.len() - i,
    {
        if x[i] != y[i] {
            return false;
        }
        i = i + 1;
    }
    proof {
        assert(x@ =~= y@);
    }
    true
}

/// Whether `s` begins with `prefix`.
pub fn starts_with(s: &str, prefix: &str) -> (r: bool)
    ensures
        r == prefix@.is_prefix_of(s@),
{
    let x = characters(s);
    let p = characters(prefix);
    if p.len() > x.len() {
        return false;
    }
    let mut i: usize = 0;
    while i < p.len()
        invariant
            i <= p.len() <= x.len(),
            x@ == s@,
            p@ == prefix@,
            forall|j: int| 0 <= j < i ==> x@[j] == p@[j],
        decreases p.len() - i,
    {
        if x[i] != p[i] {
            return false;
        }
        i = i + 1;
    }
    proof {
        assert(p@ =~= x@.subrange(0, p@.len() as int));
    }
    true
}

/// `needle` stands in `s` at position `at`.
pub open spec fn occurs_at(s: Seq<char>, needle: Seq<char>, at: int) -> bool {
    &&& 0 <= at
    &&& at + needle.len() <= s.len()
    &&& s.subrange(at, at + needle.len()) == needle
}

/// `needle` stands somewhere in `s`.
pub open spec fn occurs(s: Seq<char>, needle: Seq<char>) -> bool {
    exists|at: int| occurs_at(s, needle, at)
}

/// Whether `needle` stands somewhere in `s`; the empty needle always does.
pub fn contains(s: &str, needle: &str) -> (r: bool)
    ensures
        r == occurs(s@, needle@),
{
    let x = characters(s);
    let n = characters(needle);
    if n.len() > x.len() {
        return false;
    }
    let last: usize = x.len() - n.len();
    let mut at: usize = 0;
    loop
        invariant
            x@ == s@,
            n@ == needle@,
            n.len() <= x.len(),
            last == x.len() - n.len(),
            at <= last,
            forall|k: int| 0 <= k < at ==> !occurs_at(s@, needle@, k),
        decreases last - at,
    {
        let mut i: usize = 0;
        while i < n.len() && x[at + i] == n[i]
            invariant
                n.len() <= x.len(),
                last == x.len() - n.len(),
                at <= last,
                i <= n.len(),
                forall|j: int| 0 <= j < i ==> x@[at + j] == n@[j],
            decreases n.len() - i,
        {
            i = i + 1;
        }
        if i == n.len() {
            proof {
                assert(x@.subrange(at as int, at + n@.len()) =~= n@);
                assert(occurs_at(s@, needle@, at as int));
            }
            return true;
        }
        proof {
            if occurs_at(s@, needle@, at as int) {
                assert(x@.subrange(at as int, at + n@.len())[i as int] == n@[i as int]);
            }
        }
        if at == last {
            return false;
        }
        at = at + 1;
    }
}

/// The characters that Unicode calls `White_Space`.
pub open spec fn is_blank(c: char) -> bool {
    ||| '\u{0009}' <= c <= '\u{000D}'
    ||| c == '\u{0020}'
    ||| c == '\u{0085}'
    ||| c == '\u{00A0}'
    ||| c == '\u{1680}'
    ||| '\u{2000}' <= c <= '\u{200A}'
    ||| c == '\u{2028}'
    ||| c == '\u{2029}'
    ||| c == '\u{202F}'
    ||| c == '\u{205F}'
    ||| c == '\u{3000}'
}

/// Whether `c` is a white-space character.
pub fn blank(c: char) -> (r: bool)
    ensures
        r == is_blank(c),
{
    ('\u{0009}' <= c && c <= '\u{000D}') || c == '\u{0020}' || c == '\u{0085}' || c == '\u{00A0}'
        || c == '\u{1680}' || ('\u{2000}' <= c && c <= '\u{200A}') || c == '\u{2028}' || c
        == '\u{2029}' || c == '\u{202F}' || c == '\u{205F}' || c == '\u{3000}'
}

/// `s` without its leading white space.
pub open spec fn trim_start(s: Seq<char>) -> Seq<char>
    decreases s.len(),
{
    if s.len() > 0 && is_blank(s[0]) {
        trim_start(s.skip(1))
    } else {
        s
    }
}

/// `s` without its trailing white space.
pub open spec fn trim_end(s: Seq<char>) -> Seq<char>
    decreases s.len(),
{
    if s.len() > 0 && is_blank(s.last()) {
        trim_end(s.drop_last())
    } else {
        s
    }
}

/// `s` without leading and trailing white space.
pub open spec fn trimmed(s: Seq<char>) -> Seq<char> {
    trim_end(trim_start(s))
}

/// `s` without leading and trailing white space.
pub fn trim(s: &str) -> (r: String)
    ensures
        r@ == trimmed(s@),
{
    let x = characters(s);
    let mut from: usize = 0;
    proof {
        assert(x@.skip(0) =~= x@);
    }
    while from < x.len() && blank(x[from])
        invariant
            from <= x.len(),
            x@ == s@,
            trim_start(x@.skip(from as int)) == trim_start(s@),
        decreases x.len() - from,
    {
        proof {
            assert(x@.skip(from as int).skip(1) =~= x@.skip(from + 1));
        }
        from = from + 1;
    }
    let mut to: usize = x.len();
    proof {
        assert(trim_start(s@) == x@.skip(from as int));
        assert(x@.subrange(from as int, to as int) =~= x@.skip(from as int));
    }
    while from < to && blank(x[to - 1])
        invariant
            from <= to <= x.len(),
            x@ == s@,
            trim_end(x@.subrange(from as int, to as int)) == trimmed(s@),
        decreases to - from,
    {
        proof {
            assert(x@.subrange(from as int, to as int).drop_last() =~= x@.subrange(
                from as int,
                to - 1,
            ));
        }
        to = to - 1;
    }
    let r = s.substring_char(from, to);
    r.to_owned()
}

/// The characters of a text, where there is one.
pub open spec fn text_in(text: Option<&str>) -> Option<Seq<char>> {
    match text {
        Some(s) => Some(s@),
        None => None,
    }
}

/// The characters of each text.
pub open spec fn texts(v: Seq<String>) -> Seq<Seq<char>> {
    Seq::new(v.len(), |i: int| v[i]@)
}

/// How many characters stand before the first white space.
pub open spec fn word_len(s: Seq<char>) -> nat
    decreases s.len(),
{
    if s.len() == 0 || is_blank(s[0]) {
        0
    } else {
        1 + word_len(s.skip(1))
    }
}

proof fn lemma_word_len(s: Seq<char>)
    ensures
        word_len(s) <= s.len(),
        s.len() > 0 && !is_blank(s[0]) ==> word_len(s) > 0,
    decreases s.len(),
{
    if s.len() > 0 && !is_blank(s[0]) {
        lemma_word_len(s.skip(1));
    }
}

proof fn lemma_trim_start(s: Seq<char>)
    ensures
        trim_start(s).len() <= s.len(),
        trim_start(s).len() > 0 ==> !is_blank(trim_start(s)[0]),
    decreases s.len(),
{
    if s.len() > 0 && is_blank(s[0]) {
        lemma_trim_start(s.skip(1));
    }
}

/// The words of a text: the longest stretches without white space, in order.
pub open spec fn fields(s: Seq<char>) -> Seq<Seq<char>>
    decreases s.len(),
    via fields_shrink
{
    let t = trim_start(s);
    if t.len() == 0 {
        Seq::empty()
    } else {
        seq![t.take(word_len(t) as int)] + fields(t.skip(word_len(t) as int))
    }
}

#[via_fn]
proof fn fields_shrink(s: Seq<char>) {
    lemma_trim_start(s);
    lemma_word_len(trim_start(s));
}

/// Splits a text at white space.
pub fn split_fields(s: &str) -> (r: Vec<String>)
    ensures
        texts(r@) == fields(s@),
{
    let x = characters(s);
    let mut r: Vec<String> = Vec::new();
    let mut at: usize = 0;
    proof {
        assert(x@.skip(0) =~= x@);
        assert(texts(r@) + fields(x@) =~= fields(s@));
    }
    loop
        invariant
            at <= x.len(),
            x@ == s@,
            texts(r@) + fields(x@.skip(at as int)) == fields(s@),
        ensures
            texts(r@) == fields(s@),
        decreases x.len() - at,
    {
        let ghost rest = x@.skip(at as int);
        let mut from: usize = at;
        while from < x.len() && blank(x[from])
            invariant
                at <= from <= x.len(),
                trim_start(x@.skip(from as int)) == trim_start(rest),
            decreases x.len() - from,
        {
            proof {
                assert(x@.skip(from as int).skip(1) =~= x@.skip(from + 1));
            }
            from = from + 1;
        }
        let ghost t = x@.skip(from as int);
        proof {
            assert(trim_start(rest) == t);
        }
        if from == x.len() {
            proof {
                assert(fields(rest) =~= Seq::<Seq<char>>::empty());
                assert(texts(r@) + fields(rest) =~= texts(r@));
            }
            break;
        }
        let mut to: usize = from;
        proof {
            assert(t.skip(0) =~= t);
            lemma_word_len(t);
        }
        while to < x.len() && !blank(x[to])
            invariant
                from <= to <= x.len(),
                t == x@.skip(from as int),
                word_len(t) == (to - from) + word_len(x@.skip(to as int)),
            decreases x.len() - to,
        {
            proof {
                assert(x@.skip(to as int).skip(1) =~= x@.skip(to + 1));
            }
            to = to + 1;
        }
        let word = s.substring_char(from, to).to_owned();
        proof {
            assert(word_len(t) == to - from);
            assert(word@ =~= t.take(to - from));
            assert(t.skip(to - from) =~= x@.skip(to as int));
            assert(fields(rest) == seq![word@] + fields(x@.skip(to as int)));
            assert(texts(r@.push(word)) =~= texts(r@).push(word@));
            assert(texts(r@) + fields(rest) =~= texts(r@).push(word@) + fields(x@.skip(to as int)));
        }
        r.push(word);
        at = to;
    }
    r
}

/// How many characters stand before the first line feed.
pub open spec fn line_len(s: Seq<char>) -> nat
    decreases s.len(),
{
    if s.len() == 0 || s[0] == '\n' {
        0
    } else {
        1 + line_len(s.skip(1))
    }
}

proof fn lemma_line_len(s: Seq<char>)
    ensures
        line_len(s) <= s.len(),
    decreases s.len(),
{
    if s.len() > 0 && s[0] != '\n' {
        lemma_line_len(s.skip(1));
    }
}

/// The lines of a text, each without the line feed that ends it. A carriage
/// return before the line feed stays: it is white space, so no field holds it.
pub open spec fn lines(s: Seq<char>) -> Seq<Seq<char>>
    decreases s.len(),
    via lines_shrink
{
    if s.len() == 0 {
        Seq::empty()
    } else if line_len(s) < s.len() {
        seq![s.take(line_len(s) as int)] + lines(s.skip(line_len(s) as int + 1))
    } else {
        seq![s]
    }
}

#[via_fn]
proof fn lines_shrink(s: Seq<char>) {
    lemma_line_len(s);
}

/// Splits a text into lines.
pub fn split_lines(s: &str) -> (r: Vec<String>)
    ensures
        texts(r@) == lines(s@),
{
    let x = characters(s);
    let mut r: Vec<String> = Vec::new();
    let mut at: usize = 0;
    proof {
        assert(x@.skip(0) =~= x@);
        assert(texts(r@) + lines(x@) =~= lines(s@));
    }
    while at < x.len()
        invariant
            at <= x.len(),
            x@ == s@,
            texts(r@) + lines(x@.skip(at as int)) == lines(s@),
        decreases x.len() - at,
    {
        let ghost rest = x@.skip(at as int);
        let mut to: usize = at;
        while to < x.len() && x[to] != '\n'
            invariant
                at <= to <= x.len(),
                rest == x@.skip(at as int),
                line_len(rest) == (to - at) + line_len(x@.skip(to as int)),
            decreases x.len() - to,
        {
            proof {
                assert(x@.skip(to as int).skip(1) =~= x@.skip(to + 1));
            }
            to = to + 1;
        }
        let line = s.substring_char(at, to).to_owned();
        proof {
            assert(line_len(rest) == to - at);
            assert(line@ =~= rest.take(to - at));
            assert(texts(r@.push(line)) =~= texts(r@).push(line@));
        }
        r.push(line);
        if to < x.len() {
            proof {
                assert(rest.skip(to - at + 1) =~= x@.skip(to + 1));
                assert(lines(rest) =~= seq![line@] + lines(x@.skip(to + 1)));
                assert(lines(s@) =~= texts(r@) + lines(x@.skip(to + 1)));
            }
            at = to + 1;
        } else {
            proof {
                assert(rest.take(to - at) =~= rest);
                assert(lines(rest) =~= seq![line@]);
                assert(x@.skip(x@.len() as int) =~= Seq::<char>::empty());
                assert(lines(s@) =~= texts(r@) + lines(x@.skip(x@.len() as int)));
            }
            at = x.len();
        }
    }
    proof {
        assert(x@.skip(at as int) =~= Seq::<char>::empty());
        assert(texts(r@) + lines(x@.skip(at as int)) =~= texts(r@));
    }
    r
}

/// The value of a character as a decimal digit.
pub open spec fn digit_of(c: char) -> nat {
    (c as nat - '0' as nat) as nat
}

/// The character is one of `0` to `9`.
pub open spec fn is_digit(c: char) -> bool {
    '0' <= c <= '9'
}

/// Every character is one of `0` to `9`.
pub open spec fn all_digits(s: Seq<char>) -> bool {
    forall|i: int| 0 <= i < s.len() ==> is_digit(#[trigger] s[i])
}

/// The number that a sequence of decimal digits writes, most significant first.
pub open spec fn number_of(s: Seq<char>) -> nat
    decreases s.len(),
{
    if s.len() == 0 {
        0
    } else {
        number_of(s.drop_last()) * 10 + digit_of(s.last())
    }
}

/// The digits of an unsigned number: what follows an optional plus sign.
pub open spec fn unsigned_digits(s: Seq<char>) -> Seq<char> {
    if s.len() > 0 && s[0] == '+' {
        s.skip(1)
    } else {
        s
    }
}

/// The `u64` that a text writes: an optional plus sign, then at least one
/// digit and nothing else, with a value that fits.
pub open spec fn parsed_u64(s: Seq<char>) -> Option<u64> {
    let digits = unsigned_digits(s);
    if digits.len() > 0 && all_digits(digits) && number_of(digits) <= u64::MAX {
        Some(number_of(digits) as u64)
    } else {
        None
    }
}

/// Appending digits never makes the number smaller.
proof fn lemma_number_of_grows(s: Seq<char>, n: int)
    requires
        0 <= n <= s.len(),
    ensures
        number_of(s.take(n)) <= number_of(s),
    decreases s.len() - n,
{
    if n < s.len() {
        lemma_number_of_grows(s, n + 1);
        assert(s.take(n + 1).drop_last() =~= s.take(n));
    } else {
        assert(s.take(n) =~= s);
    }
}

/// Reads a text as an unsigned decimal number.
pub fn parse_u64(s: &str) -> (r: Option<u64>)
    ensures
        r == parsed_u64(s@),
{
    let x = characters(s);
    let start: usize = if x.len() > 0 && x[0] == '+' { 1 } else { 0 };
    let ghost digits = unsigned_digits(s@);
    proof {
        assert(x@.skip(start as int) =~= digits);
    }
    if start == x.len() {
        return None;
    }
    let mut value: u64 = 0;
    let mut i: usize = start;
    while i < x.len()
        invariant
            start <= i <= x.len(),
            start < x.len(),
            x@ == s@,
            x@.skip(start as int) == digits,
            digits == unsigned_digits(s@),
            all_digits(digits.take(i - start)),
            value == number_of(digits.take(i - start)),
        decreases x.len() - i,
    {
        let c = x[i];
        proof {
            assert(digits[i - start] == c);
            assert(digits.take(i - start + 1).drop_last() =~= digits.take(i - start));
            assert(digits.take(i - start + 1).last() == c);
        }
        if c < '0' || c > '9' {
            proof {
                assert(!is_digit(digits[i - start]));
            }
            return None;
        }
        let d: u64 = c as u64 - '0' as u64;
        proof {
            lemma_number_of_grows(digits, i - start + 1);
            assert(number_of(digits.take(i - start + 1)) == value * 10 + d);
        }
        if value > (u64::MAX - d) / 10 {
            return None;
        }
        value = value * 10 + d;
        i = i + 1;
        proof {
            assert forall|j: int| 0 <= j < i - start implies is_digit(
                #[trigger] digits.take(i - start)[j],
            ) by {
                if j < i - start - 1 {
                    assert(digits.take(i - start - 1)[j] == digits[j]);
                }
            }
        }
    }
    proof {
        assert(digits.take(x.len() - start) =~= digits);
    }
    Some(value)
}

/// The character that writes the decimal digit `d`.
pub open spec fn digit_char(d: nat) -> char {
    if d == 0 {
        '0'
    } else if d == 1 {
        '1'
    } else if d == 2 {
        '2'
    } else if d == 3 {
        '3'
    } else if d == 4 {
        '4'
    } else if d == 5 {
        '5'
    } else if d == 6 {
        '6'
    } else if d == 7 {
        '7'
    } else if d == 8 {
        '8'
    } else {
        '9'
    }
}

/// The decimal digits of `n`, most significant first and without leading zeros.
pub open spec fn decimal(n: nat) -> Seq<char>
    decreases n,
{
    if n < 10 {
        seq![digit_char(n)]
    } else {
        decimal(n / 10).push(digit_char(n % 10))
    }
}

/// The decimal digits of `n`, with a minus sign before them if it is negative.
pub open spec fn signed_decimal(n: int) -> Seq<char> {
    if n < 0 {
        seq!['-'] + decimal((-n) as nat)
    } else {
        decimal(n as nat)
    }
}

proof fn lemma_decimal(n: nat)
    ensures
        decimal(n).len() > 0,
        all_digits(decimal(n)),
        number_of(decimal(n)) == n,
    decreases n,
{
    if n < 10 {
        reveal_with_fuel(number_of, 2);
        assert(decimal(n).drop_last() =~= Seq::<char>::empty());
    } else {
        lemma_decimal(n / 10);
        assert(decimal(n).drop_last() =~= decimal(n / 10));
    }
}

/// A number that was written in decimal reads back as itself.
pub proof fn law_decimal_reads_back(n: u64)
    ensures
        parsed_u64(decimal(n as nat)) == Some(n),
{
    lemma_decimal(n as nat);
    assert(is_digit(decimal(n as nat)[0]));
}

fn digit_text(d: u64) -> (r: &'static str)
    requires
        d < 10,
    ensures
        r@ == seq![digit_char(d as nat)],
{
    proof {
        reveal_strlit("0");
        reveal_strlit("1");
        reveal_strlit("2");
        reveal_strlit("3");
        reveal_strlit("4");
        reveal_strlit("5");
        reveal_strlit("6");
        reveal_strlit("7");
        reveal_strlit("8");
        reveal_strlit("9");
    }
    match d {
        0 => "0",
        1 => "1",
        2 => "2",
        3 => "3",
        4 => "4",
        5 => "5",
        6 => "6",
        7 => "7",
        8 => "8",
        _ => "9",
    }
}

/// Writes an unsigned number in decimal.
pub fn format_u64(n: u64) -> (r: String)
    ensures
        r@ == decimal(n as nat),
    decreases n,
{
    if n < 10 {
        digit_text(n).to_owned()
    } else {
        let mut s = format_u64(n / 10);
        s.append(digit_text(n % 10));
        s
    }
}

/// Writes a signed number in decimal.
pub fn format_i64(n: i64) -> (r: String)
    ensures
        r@ == signed_decimal(n as int),
{
    if n < 0 {
        let mut s = "-".to_owned();
        proof {
            reveal_strlit("-");
        }
        let magnitude: u64 = (-(n + 1)) as u64 + 1;
        s.append(format_u64(magnitude).as_str());
        s
    } else {
        format_u64(n as u64)
    }
}

/// Joins two texts.
pub fn join(a: &str, b: &str) -> (r: String)
    ensures
        r@ == a@ + b@,
{
    let mut s = a.to_owned();
    s.append(b);
    s
}

/// Joins three texts.
pub fn join3(a: &str, b: &str, c: &str) -> (r: String)
    ensures
        r@ == a@ + b@ + c@,
{
    let mut s = a.to_owned();
    s.append(b);
    s.append(c);
    s
}

/// A text that is put between two others occurs in the whole.
pub proof fn law_occurs_between(before: Seq<char>, needle: Seq<char>, after: Seq<char>)
    ensures
        occurs(before + needle + after, needle),
{
    let s = before + needle + after;
    let at = before.len() as int;
    assert(s.subrange(at, at + needle.len()) =~= needle);
    assert(occurs_at(s, needle, at));
}

/// A text that occurs in another one splits it in two.
pub proof fn law_occurs_splits(s: Seq<char>, needle: Seq<char>)
    requires
        occurs(s, needle),
    ensures
        exists|before: Seq<char>, after: Seq<char>| s == #[trigger] (before + needle + after),
{
    let at = choose|at: int| occurs_at(s, needle, at);
    assert(s =~= s.take(at) + needle + s.skip(at + needle.len()));
}

/// White space is what Unicode lists as such, by its code points.
pub proof fn law_white_space(c: char)
    ensures
        is_blank(c) <==> {
            let point = c as u32;
            ||| 9 <= point <= 13
            ||| point == 32
            ||| point == 133
            ||| point == 160
            ||| point == 5760
            ||| 8192 <= point <= 8202
            ||| point == 8232
            ||| point == 8233
            ||| point == 8239
            ||| point == 8287
            ||| point == 12288
        },
{
}

/// Every character is white space.
pub open spec fn all_blank(s: Seq<char>) -> bool {
    forall|i: int| 0 <= i < s.len() ==> is_blank(#[trigger] s[i])
}

/// No character is white space.
pub open spec fn none_blank(s: Seq<char>) -> bool {
    forall|i: int| 0 <= i < s.len() ==> !is_blank(#[trigger] s[i])
}

proof fn lemma_trim_start_skips(a: Seq<char>, rest: Seq<char>)
    requires
        all_blank(a),
    ensures
        trim_start(a + rest) == trim_start(rest),
    decreases a.len(),
{
    if a.len() == 0 {
        assert(a + rest =~= rest);
    } else {
        assert((a + rest)[0] == a[0]);
        assert((a + rest).skip(1) =~= a.skip(1) + rest);
        lemma_trim_start_skips(a.skip(1), rest);
    }
}

proof fn lemma_trim_end_skips(rest: Seq<char>, b: Seq<char>)
    requires
        all_blank(b),
    ensures
        trim_end(rest + b) == trim_end(rest),
    decreases b.len(),
{
    if b.len() == 0 {
        assert(rest + b =~= rest);
    } else {
        assert((rest + b).last() == b[b.len() - 1]);
        assert((rest + b).drop_last() =~= rest + b.drop_last());
        lemma_trim_end_skips(rest, b.drop_last());
    }
}

/// Trimming takes the white space around a text away, and nothing else.
pub proof fn law_trim_takes_white_space(before: Seq<char>, kept: Seq<char>, after: Seq<char>)
    requires
        all_blank(before),
        all_blank(after),
        kept.len() > 0 ==> !is_blank(kept[0]) && !is_blank(kept[kept.len() - 1]),
    ensures
        trimmed(before + kept + after) == kept,
{
    assert(before + kept + after =~= before + (kept + after));
    lemma_trim_start_skips(before, kept + after);
    if kept.len() == 0 {
        assert(kept + after =~= after + kept);
        lemma_trim_start_skips(after, kept);
    } else {
        assert((kept + after)[0] == kept[0]);
        lemma_trim_end_skips(kept, after);
    }
}

proof fn lemma_word_len_of(word: Seq<char>, after: Seq<char>)
    requires
        none_blank(word),
        after.len() > 0 ==> is_blank(after[0]),
    ensures
        word_len(word + after) == word.len(),
    decreases word.len(),
{
    if word.len() == 0 {
        assert(word + after =~= after);
    } else {
        assert((word + after)[0] == word[0]);
        assert((word + after).skip(1) =~= word.skip(1) + after);
        lemma_word_len_of(word.skip(1), after);
    }
}

/// White space alone has no fields.
pub proof fn law_no_fields_in_white_space(s: Seq<char>)
    requires
        all_blank(s),
    ensures
        fields(s).len() == 0,
{
    let none = Seq::<char>::empty();
    assert(s + none =~= s);
    lemma_trim_start_skips(s, none);
}

/// The first word of a text, up to the white space behind it, is its first field,
/// and the fields of the rest follow.
pub proof fn law_first_field(before: Seq<char>, word: Seq<char>, after: Seq<char>)
    requires
        all_blank(before),
        word.len() > 0,
        none_blank(word),
        after.len() > 0 ==> is_blank(after[0]),
    ensures
        fields(before + word + after) == seq![word] + fields(after),
{
    let t = word + after;
    assert(before + word + after =~= before + t);
    lemma_trim_start_skips(before, t);
    assert(t[0] == word[0]);
    lemma_word_len_of(word, after);
    assert(t.take(word.len() as int) =~= word);
    assert(t.skip(word.len() as int) =~= after);
}

/// The text has no line feed.
pub open spec fn one_line(s: Seq<char>) -> bool {
    forall|i: int| 0 <= i < s.len() ==> #[trigger] s[i] != '\n'
}

proof fn lemma_line_len_of(line: Seq<char>, after: Seq<char>)
    requires
        one_line(line),
        after.len() > 0 ==> after[0] == '\n',
    ensures
        line_len(line + after) == line.len(),
    decreases line.len(),
{
    if line.len() == 0 {
        assert(line + after =~= after);
    } else {
        assert((line + after)[0] == line[0]);
        assert((line + after).skip(1) =~= line.skip(1) + after);
        lemma_line_len_of(line.skip(1), after);
    }
}

/// What stands before the first line feed is the first line, and the lines of
/// what stands behind it follow.
pub proof fn law_first_line(line: Seq<char>, rest: Seq<char>)
    requires
        one_line(line),
    ensures
        lines(line + seq!['\n'] + rest) == seq![line] + lines(rest),
{
    let after = seq!['\n'] + rest;
    let s = line + after;
    assert(line + seq!['\n'] + rest =~= s);
    lemma_line_len_of(line, after);
    assert(s.take(line.len() as int) =~= line);
    assert(s.skip(line.len() as int + 1) =~= rest);
}

/// A text without a line feed is one line, and none if it is empty.
pub proof fn law_last_line(line: Seq<char>)
    requires
        one_line(line),
    ensures
        line.len() > 0 ==> lines(line) == seq![line],
        line.len() == 0 ==> lines(line).len() == 0,
{
    let none = Seq::<char>::empty();
    assert(line + none =~= line);
    lemma_line_len_of(line, none);
}

proof fn lemma_leading_zeros(zeros: nat, digits: Seq<char>)
    ensures
        number_of(Seq::new(zeros, |i: int| '0') + digits) == number_of(digits),
    decreases digits.len(), zeros,
{
    let z = Seq::new(zeros, |i: int| '0');
    if digits.len() > 0 {
        assert((z + digits).drop_last() =~= z + digits.drop_last());
        assert((z + digits).last() == digits.last());
        lemma_leading_zeros(zeros, digits.drop_last());
    } else if zeros > 0 {
        let fewer = Seq::new((zeros - 1) as nat, |i: int| '0');
        assert(z + digits =~= z);
        assert(z.drop_last() =~= fewer + digits);
        assert(z.last() == '0');
        lemma_leading_zeros((zeros - 1) as nat, digits);
    } else {
        assert(z + digits =~= digits);
    }
}

/// A number reads back from its decimal digits, with any number of zeros and with
/// or without a plus sign before them, as long as a `u64` holds it.
pub proof fn law_number_is_read(n: nat, zeros: nat)
    ensures
        ({
            let text = Seq::new(zeros, |i: int| '0') + decimal(n);
            &&& n <= u64::MAX ==> parsed_u64(text) == Some(n as u64)
            &&& n <= u64::MAX ==> parsed_u64(seq!['+'] + text) == Some(n as u64)
            &&& n > u64::MAX ==> parsed_u64(text) is None
            &&& n > u64::MAX ==> parsed_u64(seq!['+'] + text) is None
        }),
{
    let text = Seq::new(zeros, |i: int| '0') + decimal(n);
    lemma_decimal(n);
    lemma_leading_zeros(zeros, decimal(n));
    assert forall|i: int| 0 <= i < text.len() implies is_digit(#[trigger] text[i]) by {
        if i >= zeros {
            assert(text[i] == decimal(n)[i - zeros]);
        }
    }
    assert(is_digit(text[0]));
    assert((seq!['+'] + text).skip(1) =~= text);
}

/// Only digits, behind at most one plus sign, are read as a number.
pub proof fn law_only_digits_are_read(s: Seq<char>)
    requires
        parsed_u64(s) is Some,
    ensures
        s.len() > 0,
        s[0] == '+' ==> s.len() > 1,
        forall|i: int| 0 <= i < s.len() ==> '0' <= #[trigger] s[i] <= '9' || (i == 0 && s[i] == '+'),
{
    let digits = unsigned_digits(s);
    assert forall|i: int| 0 <= i < s.len() implies '0' <= #[trigger] s[i] <= '9' || (i == 0 && s[i]
        == '+') by {
        if s[0] == '+' {
            if i > 0 {
                assert(is_digit(digits[i - 1]));
            }
        } else {
            assert(is_digit(digits[i]));
        }
    }
}

/// A number is written with digits alone.
pub proof fn law_decimal_is_digits(n: nat)
    ensures
        decimal(n).len() > 0,
        forall|i: int| 0 <= i < decimal(n).len() ==> '0' <= #[trigger] decimal(n)[i] <= '9',
{
    lemma_decimal(n);
    assert forall|i: int| 0 <= i < decimal(n).len() implies '0' <= #[trigger] decimal(n)[i]
        <= '9' by {
        assert(is_digit(decimal(n)[i]));
    }
}

/// A number is written without needless zeros before it.
pub proof fn law_no_needless_zeros(n: nat)
    ensures
        decimal(n)[0] == '0' ==> n == 0 && decimal(n).len() == 1,
    decreases n,
{
    if n >= 10 {
        lemma_decimal(n / 10);
        law_no_needless_zeros(n / 10);
        assert(decimal(n)[0] == decimal(n / 10)[0]);
    }
}

/// A signed number is its magnitude, behind a minus sign if it is negative.
pub proof fn law_signed_number_reads_back(n: i64)
    ensures
        n >= 0 ==> parsed_u64(signed_decimal(n as int)) == Some(n as u64),
        n < 0 ==> signed_decimal(n as int)[0] == '-' && parsed_u64(signed_decimal(n as int).skip(1))
            == Some((-n) as u64),
{
    if n >= 0 {
        law_decimal_reads_back(n as u64);
    } else {
        law_decimal_reads_back((-n) as u64);
        assert(signed_decimal(n as int).skip(1) =~= decimal((-n) as nat));
    }
}

/// The model of a list of texts has the characters of each text, in place.
pub proof fn law_texts(v: Seq<String>)
    ensures
        texts(v).len() == v.len(),
        forall|i: int| 0 <= i < v.len() ==> #[trigger] texts(v)[i] == v[i]@,
{
}

/// The model of an optional text is there exactly if the text is, and has its
/// characters.
pub proof fn law_text_in(text: Option<&str>)
    ensures
        text is Some <==> text_in(text) is Some,
        text matches Some(s) ==> text_in(text) == Some(s@),
{
}

} // verus!
