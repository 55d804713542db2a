//! Text: searching, trimming, splitting, and numbers as text.
use vstd::prelude::*;

verus! {

/// `pattern` stands in `s` at position `i`.
pub open spec fn occurs_at<T>(s: Seq<T>, pattern: Seq<T>, i: int) -> bool {
    &&& 0 <= i
    &&& i + pattern.len() <= s.len()
    &&& s.subrange(i, i + pattern.len()) == pattern
}

/// `i` is the first position at which `pattern` stands in `s`.
pub open spec fn first_at<T>(s: Seq<T>, pattern: Seq<T>, i: int) -> bool {
    &&& occurs_at(s, pattern, i)
    &&& forall|j: int| 0 <= j < i ==> !#[trigger] occurs_at(s, pattern, j)
}

/// The first position at which `pattern` stands in `s`, if there is one.
pub open spec fn find<T>(s: Seq<T>, pattern: Seq<T>) -> Option<int> {
    if exists|i: int| first_at(s, pattern, i) {
        Some(choose|i: int| first_at(s, pattern, i))
    } else {
        None
    }
}

/// A first position is unique, so `find` gives it.
pub proof fn lemma_find_some<T>(s: Seq<T>, pattern: Seq<T>, i: int)
    requires
        first_at(s, pattern, i),
    ensures
        find(s, pattern) == Some(i),
{
    let k = choose|k: int| first_at(s, pattern, k);
    assert(first_at(s, pattern, k));
    if k < i {
        assert(!occurs_at(s, pattern, k));
    }
    if i < k {
        assert(!occurs_at(s, pattern, i));
    }
}

proof fn lemma_first_exists<T>(s: Seq<T>, pattern: Seq<T>, i: int)
    requires
        occurs_at(s, pattern, i),
    ensures
        exists|k: int| first_at(s, pattern, k),
    decreases i,
{
    if forall|j: int| 0 <= j < i ==> !#[trigger] occurs_at(s, pattern, j) {
        assert(first_at(s, pattern, i));
    } else {
        let j = choose|j: int| 0 <= j < i && #[trigger] occurs_at(s, pattern, j);
        lemma_first_exists(s, pattern, j);
    }
}

/// What `find` tells of a sequence.
pub proof fn lemma_find<T>(s: Seq<T>, pattern: Seq<T>)
    ensures
        match find(s, pattern) {
            Some(i) => first_at(s, pattern, i),
            None => forall|i: int| !#[trigger] occurs_at(s, pattern, i),
        },
{
    if find(s, pattern) is None {
        assert forall|i: int| !#[trigger] occurs_at(s, pattern, i) by {
            if occurs_at(s, pattern, i) {
                lemma_first_exists(s, pattern, i);
            }
        }
    }
}

/// What stands behind the first place does not move it.
pub proof fn lemma_find_in_front<T>(s: Seq<T>, tail: Seq<T>, pattern: Seq<T>)
    requires
        find(s, pattern) is Some,
    ensures
        find(s + tail, pattern) == find(s, pattern),
{
    lemma_find(s, pattern);
    let i = find(s, pattern)->0;
    assert((s + tail).subrange(i, i + pattern.len()) =~= s.subrange(i, i + pattern.len()));
    assert forall|j: int| 0 <= j < i implies !#[trigger] occurs_at(s + tail, pattern, j) by {
        assert((s + tail).subrange(j, j + pattern.len()) =~= s.subrange(j, j + pattern.len()));
        assert(!occurs_at(s, pattern, j));
    }
    lemma_find_some(s + tail, pattern, i);
}

/// Searches `s` for the first place where `pattern` stands.
pub fn find_bytes(s: &[u8], pattern: &[u8]) -> (found: Option<usize>)
    ensures
        match found {
            Some(i) => find(s@, pattern@) == Some(i as int) && i + pattern@.len() <= s@.len()
                <= usize::MAX,
            None => find(s@, pattern@) is None,
        },
{
    proof {
        lemma_find(s@, pattern@);
    }
    if pattern.len() > s.len() {
        return None;
    }
    let last: usize = s.len() - pattern.len();
    let mut i: usize = 0;
    loop
        invariant
            i <= last,
            last + pattern.len() == s.len(),
            forall|j: int| 0 <= j < i ==> !#[trigger] occurs_at(s@, pattern@, j),
        decreases last - i,
    {
        let mut k: usize = 0;
        while k < pattern.len() && s[i + k] == pattern[k]
            invariant
                k <= pattern.len(),
                i + pattern.len() <= s.len(),
                forall|j: int| 0 <= j < k ==> s@[i + j] == pattern@[j],
            decreases pattern.len() - k,
        {
            k = k + 1;
        }
        proof {
            if k == pattern.len() {
                assert(s@.subrange(i as int, i + pattern@.len()) =~= pattern@);
                lemma_find_some(s@, pattern@, i as int);
            } else if occurs_at(s@, pattern@, i as int) {
                assert(s@.subrange(i as int, i + pattern@.len())[k as int] == pattern@[k as int]);
            }
            lemma_find(s@, pattern@);
        }
        if k == pattern.len() {
            return Some(i);
        }
        if i == last {
            return None;
        }
        i = i + 1;
    }
}

/// Searches `s` for the first place where `pattern` stands.
pub fn find_chars(s: &[char], pattern: &[char]) -> (found: Option<usize>)
    ensures
        match found {
            Some(i) => find(s@, pattern@) == Some(i as int) && i + pattern@.len() <= s@.len()
                <= usize::MAX,
            None => find(s@, pattern@) is None,
        },
{
    proof {
        lemma_find(s@, pattern@);
    }
    if pattern.len() > s.len() {
        return None;
    }
    let last: usize = s.len() - pattern.len();
    let mut i: usize = 0;
    loop
        invariant
            i <= last,
            last + pattern.len() == s.len(),
            forall|j: int| 0 <= j < i ==> !#[trigger] occurs_at(s@, pattern@, j),
        decreases last - i,
    {
        let found = prefix_at(s, pattern, i);
        proof {
            if found {
                lemma_find_some(s@, pattern@, i as int);
            }
            lemma_find(s@, pattern@);
        }
        if found {
            return Some(i);
        }
        if i == last {
            return None;
        }
        i = i + 1;
    }
}

/// Tells whether `pattern` stands in `s` at position `i`.
pub fn prefix_at(s: &[char], pattern: &[char], i: usize) -> (found: bool)
    ensures
        found == occurs_at(s@, pattern@, i as int),
{
    if i > s.len() || pattern.len() > s.len() - i {
        return false;
    }
    let mut k: usize = 0;
    while k < pattern.len()
        invariant
            k <= pattern.len(),
            i + pattern.len() <= s.len(),
            forall|j: int| 0 <= j < k ==> s@[i + j] == pattern@[j],
        decreases pattern.len() - k,
    {
        if s[i + k] != pattern[k] {
            assert(s@.subrange(i as int, i + pattern@.len())[k as int] == s@[i + k]);
            return false;
        }
        k = k + 1;
    }
    assert(s@.subrange(i as int, i + pattern@.len()) =~= pattern@);
    true
}

/// The characters of a text, in order.
pub fn chars_of(text: &str) -> (chars: Vec<char>)
    ensures
        chars@ == text@,
{
    let mut chars: Vec<char> = Vec::new();
    for c in it: text.chars()
        invariant
            it.seq() == text@,
            chars@ == text@.take(it.index()),
    {
        chars.push(c);
        assert(text@.take(it.index() + 1) =~= text@.take(it.index()).push(c));
    }
    assert(text@.take(text@.len() as int) =~= text@);
    chars
}

/// Tells whether two texts hold the same characters.
pub fn same_text(a: &str, b: &str) -> (same: bool)
    ensures
        same == (a@ == b@),
{
    let x = chars_of(a);
    let y = chars_of(b);
    let same = x.len() == y.len() && prefix_at(x.as_slice(), y.as_slice(), 0);
    proof {
        if x@.len() == y@.len() {
            assert(x@.subrange(0, y@.len() as int) =~= x@);
        }
    }
    same
}

/// The characters with the Unicode property `White_Space`.
pub open spec fn is_white(c: char) -> bool {
    ||| '\u{9}' <= c <= '\u{d}'
    ||| c == '\u{20}'
    ||| c == '\u{85}'
    ||| c == '\u{a0}'
    ||| c == '\u{1680}'
    ||| '\u{2000}' <= c <= '\u{200a}'
    ||| c == '\u{2028}'
    ||| c == '\u{2029}'
    ||| c == '\u{202f}'
    ||| c == '\u{205f}'
    ||| c == '\u{3000}'
}

/// Tells whether a character is white space.
pub fn is_whitespace(c: char) -> (white: bool)
    ensures
        white == is_white(c),
{
    ('\u{9}' <= c && c <= '\u{d}') || c == '\u{20}' || c == '\u{85}' || c == '\u{a0}' || c
        == '\u{1680}' || ('\u{2000}' <= c && c <= '\u{200a}') || c == '\u{2028}' || c == '\u{2029}'
        || c == '\u{202f}' || c == '\u{205f}' || c == '\u{3000}'
}

/// Where the run of white space that begins at `from` ends.
pub open spec fn white_end(s: Seq<char>, from: int) -> int
    decreases s.len() - from,
{
    if 0 <= from < s.len() && is_white(s[from]) {
        white_end(s, from + 1)
    } else {
        from
    }
}

/// Where the run of other characters that begins at `from` ends.
pub open spec fn word_end(s: Seq<char>, from: int) -> int
    decreases s.len() - from,
{
    if 0 <= from < s.len() && !is_white(s[from]) {
        word_end(s, from + 1)
    } else {
        from
    }
}

/// Where the run of white space that ends at `to` begins.
pub open spec fn white_start(s: Seq<char>, to: int) -> int
    decreases to,
{
    if 0 < to <= s.len() && is_white(s[to - 1]) {
        white_start(s, to - 1)
    } else {
        to
    }
}

/// `s` without the white space at its two ends.
pub open spec fn trim(s: Seq<char>) -> Seq<char> {
    let from = white_end(s, 0);
    let to = white_start(s, s.len() as int);
    if from <= to {
        s.subrange(from, to)
    } else {
        Seq::empty()
    }
}

/// Passes over white space.
pub fn skip_white(s: &[char], from: usize) -> (end: usize)
    requires
        from <= s@.len(),
    ensures
        end == white_end(s@, from as int),
        from <= end <= s@.len(),
{
    let mut i: usize = from;
    while i < s.len() && is_whitespace(s[i])
        invariant
            from <= i <= s@.len(),
            white_end(s@, i as int) == white_end(s@, from as int),
        decreases s@.len() - i,
    {
        i = i + 1;
    }
    i
}

/// Passes over everything but white space.
pub fn skip_word(s: &[char], from: usize) -> (end: usize)
    requires
        from <= s@.len(),
    ensures
        end == word_end(s@, from as int),
        from <= end <= s@.len(),
{
    let mut i: usize = from;
    while i < s.len() && !is_whitespace(s[i])
        invariant
            from <= i <= s@.len(),
            word_end(s@, i as int) == word_end(s@, from as int),
        decreases s@.len() - i,
    {
        i = i + 1;
    }
    i
}

/// Cuts the white space off both ends.
pub fn trim_chars(s: &[char]) -> (trimmed: &[char])
    ensures
        trimmed@ == trim(s@),
{
    let from = skip_white(s, 0);
    let mut to: usize = s.len();
    while to > 0 && is_whitespace(s[to - 1])
        invariant
            to <= s@.len(),
            white_start(s@, to as int) == white_start(s@, s@.len() as int),
        decreases to,
    {
        to = to - 1;
    }
    if from <= to {
        vstd::slice::slice_subrange(s, from, to)
    } else {
        vstd::slice::slice_subrange(s, 0, 0)
    }
}

/// The value of a character as a digit of a radix of at most 36; 36 for any other character.
pub open spec fn digit_value(c: char) -> int {
    if '0' <= c <= '9' {
        c as int - '0' as int
    } else if 'a' <= c <= 'z' {
        c as int - 'a' as int + 10
    } else if 'A' <= c <= 'Z' {
        c as int - 'A' as int + 10
    } else {
        36
    }
}

/// Every character is a digit of the radix.
pub open spec fn all_digits(s: Seq<char>, radix: int) -> bool {
    forall|i: int| 0 <= i < s.len() ==> digit_value(#[trigger] s[i]) < radix
}

/// The number that a row of digits stands for, the first digit being the highest.
pub open spec fn number(s: Seq<char>, radix: int) -> int
    decreases s.len(),
{
    if s.len() == 0 {
        0
    } else {
        number(s.drop_last(), radix) * radix + digit_value(s.last())
    }
}

/// A number as text: digits, with a `+` before them or not.
pub open spec fn unsigned_digits(s: Seq<char>) -> Seq<char> {
    if s.len() > 0 && s[0] == '+' {
        s.drop_first()
    } else {
        s
    }
}

/// Reads a number of at most `max`: `None` where the text is no number or the number is larger.
pub open spec fn parse(s: Seq<char>, radix: int, max: int) -> Option<int> {
    let digits = unsigned_digits(s);
    if digits.len() > 0 && all_digits(digits, radix) && number(digits, radix) <= max {
        Some(number(digits, radix))
    } else {
        None
    }
}

/// The value of a character as a digit.
pub fn digit_of(c: char) -> (value: u64)
    ensures
        value == digit_value(c),
        value <= 36,
{
    if '0' <= c && c <= '9' {
        c as u64 - '0' as u64
    } else if 'a' <= c && c <= 'z' {
        c as u64 - 'a' as u64 + 10
    } else if 'A' <= c && c <= 'Z' {
        c as u64 - 'A' as u64 + 10
    } else {
        36
    }
}

proof fn lemma_number_grows(s: Seq<char>, radix: int, k: int)
    requires
        all_digits(s, radix),
        radix >= 1,
        0 <= k <= s.len(),
    ensures
        0 <= number(s.take(k), radix) <= number(s, radix),
    decreases s.len(),
{
    if k == s.len() {
        assert(s.take(k) =~= s);
        if s.len() > 0 {
            assert(digit_value(s[s.len() - 1]) >= 0);
            assert(s.drop_last().take(k - 1) =~= s.drop_last());
            lemma_number_grows(s.drop_last(), radix, k - 1);
            let n = number(s.drop_last(), radix);
            assert(n * radix >= 0) by (nonlinear_arith)
                requires
                    n >= 0,
                    radix >= 1,
            ;
        }
    } else {
        lemma_number_grows(s.drop_last(), radix, k);
        assert(s.drop_last().take(k) =~= s.take(k));
        assert(digit_value(s[s.len() - 1]) >= 0);
        let n = number(s.drop_last(), radix);
        assert(n * radix >= n) by (nonlinear_arith)
            requires
                n >= 0,
                radix >= 1,
        ;
    }
}

/// Reads a number in the given radix.
pub fn parse_unsigned(s: &[char], radix: u64, max: u64) -> (parsed: Option<u64>)
    requires
        2 <= radix <= 36,
    ensures
        match parsed {
            Some(n) => parse(s@, radix as int, max as int) == Some(n as int),
            None => parse(s@, radix as int, max as int) is None,
        },
{
    let start: usize = if s.len() > 0 && s[0] == '+' { 1 } else { 0 };
    let ghost digits = unsigned_digits(s@);
    assert(digits =~= s@.skip(start as int));
    if start == s.len() {
        return None;
    }
    let mut n: u64 = 0;
    let mut i: usize = start;
    while i < s.len()
        invariant
            start <= i <= s@.len(),
            2 <= radix <= 36,
            digits == unsigned_digits(s@),
            digits == s@.skip(start as int),
            digits.len() > 0,
            n == number(digits.take(i - start), radix as int),
            n <= max,
            all_digits(digits.take(i - start), radix as int),
        decreases s@.len() - i,
    {
        let d: u64 = digit_of(s[i]);
        let ghost next = digits.take(i - start + 1);
        proof {
            assert(next.drop_last() =~= digits.take(i - start));
            assert(next.last() == s@[i as int]);
            assert(digits[i - start] == s@[i as int]);
        }
        if d >= radix {
            return None;
        }
        let room: u64 = if d <= max { (max - d) / radix } else { 0 };
        proof {
            assert(n * radix + d <= max <==> (d <= max && n <= room)) by (nonlinear_arith)
                requires
                    2 <= radix,
                    d <= max ==> room == (max - d) / (radix as int),
                    d > max ==> room == 0,
                    n >= 0,
            ;
        }
        if d > max || n > room {
            proof {
                if all_digits(digits, radix as int) {
                    lemma_number_grows(digits, radix as int, i - start + 1);
                }
            }
            return None;
        }
        n = n * radix + d;
        proof {
            assert forall|j: int| 0 <= j < next.len() implies digit_value(#[trigger] next[j])
                < radix by {
                if j < i - start {
                    assert(digits.take(i - start)[j] == next[j]);
                }
            }
        }
        i = i + 1;
    }
    assert(digits.take(digits.len() as int) =~= digits);
    Some(n)
}

/// The digit of a value below 16; `upper` tells how the digits above nine are written.
pub open spec fn digit_char(d: int, upper: bool) -> char {
    if d < 10 {
        ('0' as int + d) as char
    } else if upper {
        ('A' as int + d - 10) as char
    } else {
        ('a' as int + d - 10) as char
    }
}

/// A value below 16 as the text of its digit.
pub fn digit_text(d: u64, upper: bool) -> (text: &'static str)
    requires
        d < 16,
    ensures
        text@ == seq![digit_char(d as int, upper)],
{
    proof {
        reveal_strlit("0");
        reveal_strlit("1");
        reveal_strlit("2");
        reveal_strlit("3");
        reveal_strlit("4");
        reveal_strlit("5");
        reveal_strlit("6");
        reveal_strlit("7");
        reveal_strlit("8");
        reveal_strlit("9");
        reveal_strlit("a");
        reveal_strlit("b");
        reveal_strlit("c");
        reveal_strlit("d");
        reveal_strlit("e");
        reveal_strlit("f");
        reveal_strlit("A");
        reveal_strlit("B");
        reveal_strlit("C");
        reveal_strlit("D");
        reveal_strlit("E");
        reveal_strlit("F");
    }
    match (d, upper) {
        (0, _) => "0",
        (1, _) => "1",
        (2, _) => "2",
        (3, _) => "3",
        (4, _) => "4",
        (5, _) => "5",
        (6, _) => "6",
        (7, _) => "7",
        (8, _) => "8",
        (9, _) => "9",
        (10, false) => "a",
        (11, false) => "b",
        (12, false) => "c",
        (13, false) => "d",
        (14, false) => "e",
        (15, false) => "f",
        (10, true) => "A",
        (11, true) => "B",
        (12, true) => "C",
        (13, true) => "D",
        (14, true) => "E",
        _ => "F",
    }
}

/// A number in decimal digits, without leading zeros.
pub open spec fn decimal(n: nat) -> Seq<char>
    decreases n,
{
    if n < 10 {
        seq![digit_char(n as int, false)]
    } else {
        decimal(n / 10).push(digit_char((n % 10) as int, false))
    }
}

/// Writes a number in decimal digits.
pub fn decimal_text(n: u64) -> (text: String)
    ensures
        text@ == decimal(n as nat),
    decreases n,
{
    if n < 10 {
        digit_text(n, false).to_owned()
    } else {
        let mut text = decimal_text(n / 10);
        text.append(digit_text(n % 10, false));
        assert(text@ =~= decimal(n as nat));
        text
    }
}

/// A number in decimal digits, with a `-` before them where it is negative.
pub open spec fn signed_decimal(n: int) -> Seq<char> {
    if n < 0 {
        seq!['-'] + decimal((-n) as nat)
    } else {
        decimal(n as nat)
    }
}

/// Writes a signed number in decimal digits.
pub fn signed_decimal_text(n: i32) -> (text: String)
    ensures
        text@ == signed_decimal(n as int),
{
    if n < 0 {
        proof {
            reveal_strlit("-");
        }
        let minus = "-";
        let magnitude: u64 = (-(n as i64)) as u64;
        let mut text = minus.to_owned();
        text.append(decimal_text(magnitude).as_str());
        assert(text@ =~= signed_decimal(n as int));
        text
    } else {
        decimal_text(n as u64)
    }
}

/// A byte as two hexadecimal digits.
pub open spec fn hex_byte(b: u8, upper: bool) -> Seq<char> {
    seq![digit_char(b as int / 16, upper), digit_char(b as int % 16, upper)]
}

/// Appends a byte as two hexadecimal digits.
pub fn append_hex_byte(text: &mut String, b: u8, upper: bool)
    ensures
        final(text)@ == old(text)@ + hex_byte(b, upper),
{
    text.append(digit_text(b as u64 / 16, upper));
    text.append(digit_text(b as u64 % 16, upper));
    assert(text@ =~= old(text)@ + hex_byte(b, upper));
}

/// What the decimal digits of a number are.
pub proof fn lemma_decimal(n: nat)
    ensures
        decimal(n).len() > 0,
        all_digits(decimal(n), 10),
        number(decimal(n), 10) == n,
        decimal(n)[0] != '+',
    decreases n,
{
    if n < 10 {
        let s = decimal(n);
        assert(s.drop_last() =~= Seq::<char>::empty());
        assert(digit_value(s[0]) == n);
        assert(number(s.drop_last(), 10) == 0);
    } else {
        lemma_decimal(n / 10);
        let s = decimal(n);
        assert(s.drop_last() =~= decimal(n / 10));
        assert(digit_value(s.last()) == n % 10);
        assert forall|i: int| 0 <= i < s.len() implies digit_value(#[trigger] s[i]) < 10 by {
            if i < s.len() - 1 {
                assert(s[i] == decimal(n / 10)[i]);
            }
        }
        assert(s[0] == decimal(n / 10)[0]);
    }
}

/// A number that was written in decimal digits is read back.
pub proof fn law_decimal_reads_back(n: nat, max: int)
    requires
        n <= max,
    ensures
        parse(decimal(n), 10, max) == Some(n as int),
{
    lemma_decimal(n);
}

/// A byte that was written in hexadecimal digits is read back.
pub proof fn law_hex_byte_reads_back(b: u8, upper: bool)
    ensures
        parse(hex_byte(b, upper), 16, 255) == Some(b as int),
{
    let s = hex_byte(b, upper);
    assert(s.drop_last() =~= seq![s[0]]);
    assert(s.drop_last().drop_last() =~= Seq::<char>::empty());
    assert(number(s.drop_last().drop_last(), 16) == 0);
    assert(digit_value(s[0]) == b as int / 16);
    assert(digit_value(s[1]) == b as int % 16);
    assert(number(s.drop_last(), 16) == b as int / 16);
}

/// What `find` gives is the first place at which every element of the pattern has its equal, and
/// nothing is given only where there is no such place.
pub proof fn law_find_gives_the_first_place<T>(s: Seq<T>, pattern: Seq<T>)
    ensures
        match find(s, pattern) {
            Some(i) => {
                &&& 0 <= i <= s.len() - pattern.len()
                &&& forall|k: int| 0 <= k < pattern.len() ==> s[i + k] == #[trigger] pattern[k]
                &&& forall|j: int| #![trigger s.subrange(j, j + pattern.len())]
                    0 <= j < i ==> s.subrange(j, j + pattern.len()) != pattern
            },
            None => forall|j: int| #![trigger s.subrange(j, j + pattern.len())]
                0 <= j <= s.len() - pattern.len() ==> s.subrange(j, j + pattern.len()) != pattern,
        },
{
    lemma_find(s, pattern);
    match find(s, pattern) {
        Some(i) => {
            assert forall|k: int| 0 <= k < pattern.len() implies s[i + k]
                == #[trigger] pattern[k] by {
                assert(s.subrange(i, i + pattern.len())[k] == s[i + k]);
            }
            assert forall|j: int| #![trigger s.subrange(j, j + pattern.len())]
                0 <= j < i implies s.subrange(j, j + pattern.len()) != pattern by {
                assert(!occurs_at(s, pattern, j));
            }
        },
        None => {
            assert forall|j: int| #![trigger s.subrange(j, j + pattern.len())]
                0 <= j <= s.len() - pattern.len() implies s.subrange(j, j + pattern.len())
                != pattern by {
                assert(!occurs_at(s, pattern, j));
            }
        },
    }
}

/// A text begins with another exactly where something can be put behind the other to make it.
pub proof fn law_prefix_can_be_completed<T>(s: Seq<T>, prefix: Seq<T>)
    ensures
        occurs_at(s, prefix, 0) <==> prefix.len() <= s.len() && s == prefix + s.skip(
            prefix.len() as int,
        ),
        forall|rest: Seq<T>| #[trigger] occurs_at(prefix + rest, prefix, 0),
{
    if occurs_at(s, prefix, 0) {
        assert(s =~= s.subrange(0, prefix.len() as int) + s.skip(prefix.len() as int));
    }
    if prefix.len() <= s.len() && s == prefix + s.skip(prefix.len() as int) {
        assert(s.subrange(0, prefix.len() as int) =~= prefix);
    }
    assert forall|rest: Seq<T>| #[trigger] occurs_at(prefix + rest, prefix, 0) by {
        assert((prefix + rest).subrange(0, prefix.len() as int) =~= prefix);
    }
}

/// All characters are white space.
pub open spec fn all_white(s: Seq<char>) -> bool {
    forall|i: int| 0 <= i < s.len() ==> is_white(#[trigger] s[i])
}

/// No character is white space.
pub open spec fn none_white(s: Seq<char>) -> bool {
    forall|i: int| 0 <= i < s.len() ==> !is_white(#[trigger] s[i])
}

/// A run of white space ends before the first character that is none.
pub proof fn lemma_white_end(s: Seq<char>, from: int, to: int)
    requires
        0 <= from <= to <= s.len(),
        all_white(s.subrange(from, to)),
        to < s.len() ==> !is_white(s[to]),
    ensures
        white_end(s, from) == to,
    decreases to - from,
{
    if from < to {
        assert(s.subrange(from, to)[0] == s[from]);
        assert forall|i: int| 0 <= i < to - from - 1 implies is_white(
            #[trigger] s.subrange(from + 1, to)[i],
        ) by {
            assert(s.subrange(from + 1, to)[i] == s.subrange(from, to)[i + 1]);
        }
        lemma_white_end(s, from + 1, to);
    }
}

/// A word ends before the first white space.
pub proof fn lemma_word_end(s: Seq<char>, from: int, to: int)
    requires
        0 <= from <= to <= s.len(),
        none_white(s.subrange(from, to)),
        to < s.len() ==> is_white(s[to]),
    ensures
        word_end(s, from) == to,
    decreases to - from,
{
    if from < to {
        assert(s.subrange(from, to)[0] == s[from]);
        assert forall|i: int| 0 <= i < to - from - 1 implies !is_white(
            #[trigger] s.subrange(from + 1, to)[i],
        ) by {
            assert(s.subrange(from + 1, to)[i] == s.subrange(from, to)[i + 1]);
        }
        lemma_word_end(s, from + 1, to);
    }
}

proof fn lemma_white_start(s: Seq<char>, from: int, to: int)
    requires
        0 <= from <= to <= s.len(),
        all_white(s.subrange(from, to)),
        from > 0 ==> !is_white(s[from - 1]),
    ensures
        white_start(s, to) == from,
    decreases to - from,
{
    if from < to {
        assert(s.subrange(from, to)[to - from - 1] == s[to - 1]);
        assert forall|i: int| 0 <= i < to - from - 1 implies is_white(
            #[trigger] s.subrange(from, to - 1)[i],
        ) by {
            assert(s.subrange(from, to - 1)[i] == s.subrange(from, to)[i]);
        }
        lemma_white_start(s, from, to - 1);
    }
}

/// Trimming takes away the white space at the two ends, all of it and nothing else, however long
/// the text is and whatever stands in its middle.
pub proof fn law_trim_takes_the_white_ends(before: Seq<char>, core: Seq<char>, after: Seq<char>)
    requires
        all_white(before),
        all_white(after),
        core.len() > 0 ==> !is_white(core[0]) && !is_white(core.last()),
    ensures
        trim(before + core + after) == core,
{
    let s = before + core + after;
    let b = before.len() as int;
    let c = (before.len() + core.len()) as int;
    if core.len() > 0 {
        assert(s.subrange(0, b) =~= before);
        assert(s[b] == core[0]);
        lemma_white_end(s, 0, b);
        assert(s.subrange(c, s.len() as int) =~= after);
        assert(s[c - 1] == core.last());
        lemma_white_start(s, c, s.len() as int);
        assert(s.subrange(b, c) =~= core);
    } else {
        assert forall|i: int| 0 <= i < s.len() implies is_white(#[trigger] s[i]) by {
            if i < b {
                assert(s[i] == before[i]);
            } else {
                assert(s[i] == after[i - b]);
            }
        }
        assert(s.subrange(0, s.len() as int) =~= s);
        lemma_white_end(s, 0, s.len() as int);
        lemma_white_start(s, 0, s.len() as int);
        if s.len() == 0 {
            assert(s.subrange(0, 0) =~= core);
        }
        assert(trim(s) =~= core);
    }
}

/// The digits, in the order of their values.
pub proof fn law_digits_have_their_values(c: char)
    ensures
        '0' <= c <= '9' ==> digit_value(c) == c as int - 48,
        'a' <= c <= 'z' ==> digit_value(c) == c as int - 87,
        'A' <= c <= 'Z' ==> digit_value(c) == c as int - 55,
        digit_value(c) < 36 ==> ('0' <= c <= '9' || 'a' <= c <= 'z' || 'A' <= c <= 'Z'),
        digit_value(c) >= 0,
{
}

/// A text is read as a number digit by digit. A single digit is its value. One digit more makes
/// the number `radix` times as large and adds the digit, and what then exceeds `max` is no number.
/// What is no number does not become one by one more digit, and no number by any other character.
pub proof fn law_numbers_are_read_digit_by_digit(s: Seq<char>, c: char, radix: int, max: int)
    requires
        2 <= radix <= 36,
        0 <= max,
        c != '+',
    ensures
        parse(Seq::empty(), radix, max) is None,
        parse(seq!['+'], radix, max) is None,
        parse(seq![c], radix, max) == if digit_value(c) < radix && digit_value(c) <= max {
            Some(digit_value(c))
        } else {
            None
        },
        parse(seq!['+', c], radix, max) == parse(seq![c], radix, max),
        s.len() > 0 && s != seq!['+'] ==> parse(s.push(c), radix, max) == match parse(
            s,
            radix,
            max,
        ) {
            Some(n) => if digit_value(c) < radix && n * radix + digit_value(c) <= max {
                Some(n * radix + digit_value(c))
            } else {
                None
            },
            None => None,
        },
        s.len() > 0 ==> parse(s.push('+'), radix, max) is None,
        parse(s, radix, max) matches Some(n) ==> 0 <= n <= max,
{
    law_digits_have_their_values(c);
    let empty = Seq::<char>::empty();
    assert(unsigned_digits(empty) =~= empty);
    assert(unsigned_digits(seq!['+']) =~= empty);
    assert(unsigned_digits(seq![c]) =~= seq![c]);
    assert(unsigned_digits(seq!['+', c]) =~= seq![c]);
    assert(seq![c].drop_last() =~= empty);
    assert(number(empty, radix) == 0);
    assert(number(seq![c], radix) == digit_value(c)) by {
        assert(seq![c].last() == c);
    }
    assert(all_digits(seq![c], radix) == (digit_value(c) < radix)) by {
        assert(seq![c][0] == c);
    }
    let d = unsigned_digits(s);
    if s.len() > 0 {
        let t = s.push(c);
        if s != seq!['+'] {
            assert(unsigned_digits(t) =~= d.push(c));
            let dt = d.push(c);
            assert(dt.drop_last() =~= d);
            assert(dt.last() == c);
            if d.len() == 0 {
                assert(s[0] == '+');
                assert(s =~= seq!['+']);
            }
            if all_digits(dt, radix) {
                assert forall|i: int| 0 <= i < d.len() implies digit_value(#[trigger] d[i])
                    < radix by {
                    assert(dt[i] == d[i]);
                }
                assert(dt[d.len() as int] == c);
            }
            if all_digits(d, radix) && digit_value(c) < radix {
                assert forall|i: int| 0 <= i < dt.len() implies digit_value(#[trigger] dt[i])
                    < radix by {
                    if i < d.len() {
                        assert(dt[i] == d[i]);
                    }
                }
                lemma_number_grows(dt, radix, d.len() as int);
                assert(dt.take(d.len() as int) =~= d);
            }
        }
        let u = s.push('+');
        if unsigned_digits(u).len() > 0 {
            assert(unsigned_digits(u).last() == '+');
            assert(digit_value('+') == 36);
        }
    }
    if all_digits(d, radix) {
        lemma_number_grows(d, radix, 0);
        assert(d.take(0) =~= empty);
    }
}

/// A number in decimal digits is as short as it can be: only zero begins with a zero.
pub proof fn law_decimal_has_no_leading_zero(n: nat)
    ensures
        decimal(n)[0] == '0' <==> n == 0,
        n == 0 ==> decimal(n) == seq!['0'],
        forall|i: int| 0 <= i < decimal(n).len() ==> '0' <= #[trigger] decimal(n)[i] <= '9',
    decreases n,
{
    lemma_decimal(n);
    if n >= 10 {
        law_decimal_has_no_leading_zero(n / 10);
        let s = decimal(n);
        assert forall|i: int| 0 <= i < s.len() implies '0' <= #[trigger] s[i] <= '9' by {
            if i < s.len() - 1 {
                assert(s[i] == decimal(n / 10)[i]);
            }
        }
    }
}

/// A signed number is told by its digits, and by a `-` before them where it is negative.
pub proof fn law_signed_decimal_reads_back(n: int)
    ensures
        n >= 0 ==> signed_decimal(n) == decimal(n as nat),
        n < 0 ==> signed_decimal(n) == seq!['-'] + decimal((-n) as nat),
        n < 0 ==> parse(signed_decimal(n).drop_first(), 10, -n) == Some(-n),
{
    if n < 0 {
        law_decimal_reads_back((-n) as nat, -n);
        assert(signed_decimal(n).drop_first() =~= decimal((-n) as nat));
    }
}

/// A byte takes two hexadecimal digits, and those above nine are written in one way only.
pub proof fn law_hex_byte_is_two_digits(b: u8, upper: bool)
    ensures
        hex_byte(b, upper).len() == 2,
        forall|i: int|
            0 <= i < 2 ==> ('0' <= #[trigger] hex_byte(b, upper)[i] <= '9' || (if upper {
                'A' <= hex_byte(b, upper)[i] <= 'F'
            } else {
                'a' <= hex_byte(b, upper)[i] <= 'f'
            })),
        16 * digit_value(hex_byte(b, upper)[0]) + digit_value(hex_byte(b, upper)[1]) == b,
{
}

} // verus!
