//! Text as sequences of characters: reading and writing decimal numbers, and
//! looking for one text inside another.

use vstd::prelude::*;
use vstd::std_specs::iter::IteratorSpec;

verus! {

/// One of the ten ASCII digits.
pub open spec fn is_digit(c: char) -> bool {
    '0' <= c && c <= '9'
}

/// The number that a digit stands for.
pub open spec fn digit_value(c: char) -> int {
    c as int - '0' as int
}

/// The digit that stands for a number below ten.
pub open spec fn digit_char(d: int) -> char {
    (d + '0' as int) as char
}

/// Every character is a digit.
pub open spec fn all_digits(s: Seq<char>) -> bool {
    forall|i: int| 0 <= i < s.len() ==> is_digit(#[trigger] s[i])
}

/// The number that a run of digits writes down in base ten.
pub open spec fn digits_value(s: Seq<char>) -> int
    decreases s.len(),
{
    if s.len() == 0 {
        0
    } else {
        10 * digits_value(s.drop_last()) + digit_value(s.last())
    }
}

/// What is left of a number's text once a sign in front is taken away.
pub open spec fn without_sign(s: Seq<char>, signs: Seq<char>) -> Seq<char> {
    if s.len() > 0 && signs.contains(s[0]) {
        s.drop_first()
    } else {
        s
    }
}

/// The number that a text writes down, if it is one that fits 32 bits
/// without a sign: digits and nothing else, but for a `+` that may stand in
/// front.
pub open spec fn u32_of_text(s: Seq<char>) -> Option<u32> {
    let digits = without_sign(s, seq!['+']);
    if digits.len() > 0 && all_digits(digits) && digits_value(digits) <= u32::MAX {
        Some(digits_value(digits) as u32)
    } else {
        None
    }
}

/// The number that a text writes down, if it is one that fits 32 bits with a
/// sign: digits and nothing else, but for a `+` or a `-` that may stand in
/// front.
pub open spec fn i32_of_text(s: Seq<char>) -> Option<i32> {
    let digits = without_sign(s, seq!['+', '-']);
    let value = if s.len() > 0 && s[0] == '-' {
        -digits_value(digits)
    } else {
        digits_value(digits)
    };
    if digits.len() > 0 && all_digits(digits) && i32::MIN <= value <= i32::MAX {
        Some(value as i32)
    } else {
        None
    }
}

/// `needle` stands in `hay` from position `i` on.
pub open spec fn occurs_at(hay: Seq<char>, needle: Seq<char>, i: int) -> bool {
    0 <= i && i + needle.len() <= hay.len() && hay.subrange(i, i + needle.len()) == needle
}

/// `needle` stands somewhere in `hay`.
pub open spec fn contains_text(hay: Seq<char>, needle: Seq<char>) -> bool {
    exists|i: int| occurs_at(hay, needle, i)
}

/// `end` stands at the end of `text`.
pub open spec fn ends_with(text: Seq<char>, end: Seq<char>) -> bool {
    end.len() <= text.len() && text.subrange(text.len() - end.len(), text.len() as int) == end
}

/// What is left of `text` once `end` is taken from its end as often as it
/// stands there.
pub open spec fn trimmed(text: Seq<char>, end: Seq<char>) -> Seq<char>
    decreases text.len(),
{
    if end.len() > 0 && ends_with(text, end) {
        trimmed(text.take(text.len() - end.len()), end)
    } else {
        text
    }
}

/// A number that is not negative, written in base ten without leading zeros.
pub open spec fn natural_text(n: nat) -> Seq<char>
    decreases n,
{
    if n < 10 {
        seq![digit_char(n as int)]
    } else {
        natural_text(n / 10).push(digit_char((n % 10) as int))
    }
}

/// A number written in base ten, with a `-` in front if it is negative.
pub open spec fn integer_text(n: int) -> Seq<char> {
    if n < 0 {
        seq!['-'] + natural_text((-n) as nat)
    } else {
        natural_text(n as nat)
    }
}

/// What is written is read again: the text of a number is made of digits
/// and writes that number down.
pub proof fn lemma_natural_text(n: nat)
    ensures
        natural_text(n).len() > 0,
        all_digits(natural_text(n)),
        digits_value(natural_text(n)) == n,
    decreases n,
{
    if n < 10 {
        let text = natural_text(n);
        assert(text.drop_last() =~= Seq::<char>::empty());
        assert(digits_value(text.drop_last()) == 0);
    } else {
        lemma_natural_text(n / 10);
        let front = natural_text(n / 10);
        let text = natural_text(n);
        assert(text.drop_last() =~= front);
        assert(text.last() == digit_char((n % 10) as int));
        assert forall|i: int| 0 <= i < text.len() implies is_digit(#[trigger] text[i]) by {
            if i < front.len() {
                assert(text[i] == front[i]);
            }
        }
    }
}

/// A number that is written without a sign is read as that number.
pub proof fn lemma_written_is_read(n: u32)
    ensures
        u32_of_text(natural_text(n as nat)) == Some(n),
{
    lemma_natural_text(n as nat);
    let text = natural_text(n as nat);
    assert(is_digit(text[0]));
    assert(!seq!['+'].contains(text[0])) by {
        if seq!['+'].contains(text[0]) {
            let i = choose|i: int| 0 <= i < seq!['+'].len() && seq!['+'][i] == text[0];
            assert(text[0] == '+');
        }
    }
}

/// The characters of `s`, in order.
pub fn chars_of(s: &str) -> (chars: Vec<char>)
    ensures
        chars@ == s@,
{
    broadcast use vstd::string::group_string_axioms;

    let mut chars: Vec<char> = Vec::new();
    let mut rest = s.chars();
    loop
        invariant
            rest.obeys_prophetic_iter_laws(),
            rest.decrease() is Some,
            chars@ + rest.remaining() == s@,
        ensures
            chars@ == s@,
        decreases rest.decrease()->0,
    {
        match rest.next() {
            Some(c) => {
                chars.push(c);
            },
            None => {
                break ;
            },
        }
    }
    chars
}

/// The value of a digit, or nothing for any other character.
pub fn digit(c: char) -> (value: Option<u8>)
    ensures
        value is Some <==> is_digit(c),
        value matches Some(d) ==> d == digit_value(c) && d < 10,
{
    if c >= '0' && c <= '9' {
        Some((c as u32 - '0' as u32) as u8)
    } else {
        None
    }
}

/// A longer run of digits does not write down a smaller number.
proof fn lemma_digits_grow(s: Seq<char>, k: int)
    requires
        all_digits(s),
        0 <= k <= s.len(),
    ensures
        0 <= digits_value(s.take(k)) <= digits_value(s),
    decreases s.len(),
{
    if k == s.len() {
        assert(s.take(k) =~= s);
        if s.len() > 0 {
            lemma_digits_grow(s.drop_last(), k - 1);
        }
    } else {
        lemma_digits_grow(s.drop_last(), k);
        assert(s.drop_last().take(k) =~= s.take(k));
    }
}

/// The digits of `text` from `start` on, as a number.
fn parse_digits(text: &[char], start: usize) -> (value: Option<u32>)
    requires
        start <= text.len(),
    ensures
        ({
            let digits = text@.subrange(start as int, text@.len() as int);
            value == if digits.len() > 0 && all_digits(digits) && digits_value(digits) <= u32::MAX {
                Some(digits_value(digits) as u32)
            } else {
                None::<u32>
            }
        }),
{
    let ghost digits = text@.subrange(start as int, text@.len() as int);
    if start == text.len() {
        return None;
    }
    let mut value: u32 = 0;
    let mut i: usize = start;
    while i < text.len()
        invariant
            start <= i <= text.len(),
            digits == text@.subrange(start as int, text@.len() as int),
            all_digits(digits.take(i - start)),
            value == digits_value(digits.take(i - start)),
        decreases text.len() - i,
    {
        let ghost seen = digits.take(i - start);
        let ghost more = digits.take(i - start + 1);
        assert(more.drop_last() =~= seen);
        assert(more.last() == text@[i as int]);
        match digit(text[i]) {
            None => {
                assert(!is_digit(digits[i - start]));
                return None;
            },
            Some(d) => {
                assert(all_digits(more)) by {
                    assert forall|j: int| 0 <= j < more.len() implies is_digit(
                        #[trigger] more[j],
                    ) by {
                        if j < seen.len() {
                            assert(more[j] == seen[j]);
                        }
                    }
                }
                if value > (u32::MAX - d as u32) / 10 {
                    proof {
                        if all_digits(digits) {
                            lemma_digits_grow(digits, i - start + 1);
                        }
                    }
                    return None;
                }
                value = value * 10 + d as u32;
            },
        }
        i += 1;
    }
    assert(digits.take(i - start) =~= digits);
    Some(value)
}

/// Read a number without a sign, as `str::parse::<u32>` does.
pub fn parse_u32(text: &[char]) -> (value: Option<u32>)
    ensures
        value == u32_of_text(text@),
{
    let start: usize = if text.len() > 0 && text[0] == '+' {
        1
    } else {
        0
    };
    proof {
        let signs = seq!['+'];
        assert(signs[0] == '+');
        assert(text@.len() > 0 ==> (signs.contains(text@[0]) <==> text@[0] == '+'));
        assert(without_sign(text@, signs) =~= text@.subrange(start as int, text@.len() as int));
    }
    parse_digits(text, start)
}

/// Read a number with a sign, as `str::parse::<i32>` does.
pub fn parse_i32(text: &[char]) -> (value: Option<i32>)
    ensures
        value == i32_of_text(text@),
{
    let negative = text.len() > 0 && text[0] == '-';
    let start: usize = if text.len() > 0 && (text[0] == '+' || text[0] == '-') {
        1
    } else {
        0
    };
    proof {
        let signs = seq!['+', '-'];
        assert(signs[0] == '+' && signs[1] == '-');
        assert(text@.len() > 0 ==> (signs.contains(text@[0]) <==> (text@[0] == '+' || text@[0]
            == '-')));
        assert(without_sign(text@, signs) =~= text@.subrange(start as int, text@.len() as int));
        if all_digits(text@.subrange(start as int, text@.len() as int)) {
            lemma_digits_grow(text@.subrange(start as int, text@.len() as int), 0);
        }
    }
    match parse_digits(text, start) {
        None => None,
        Some(magnitude) => {
            if negative {
                if magnitude <= 0x8000_0000u32 {
                    Some((0i64 - magnitude as i64) as i32)
                } else {
                    None
                }
            } else {
                if magnitude <= 0x7fff_ffffu32 {
                    Some(magnitude as i32)
                } else {
                    None
                }
            }
        },
    }
}

/// Whether `needle` stands somewhere in `hay`.
pub fn contains(hay: &[char], needle: &[char]) -> (found: bool)
    ensures
        found == contains_text(hay@, needle@),
{
    if needle.len() > hay.len() {
        assert forall|i: int| !occurs_at(hay@, needle@, i) by {}
        return false;
    }
    let last: usize = hay.len() - needle.len();
    let mut i: usize = 0;
    while i <= last
        invariant
            needle.len() <= hay.len(),
            last == hay.len() - needle.len(),
            i <= last + 1,
            forall|k: int| 0 <= k < i ==> !occurs_at(hay@, needle@, k),
        decreases last + 1 - i,
    {
        let mut j: usize = 0;
        while j < needle.len() && hay[i + j] == needle[j]
            invariant
                i <= last,
                last == hay.len() - needle.len(),
                j <= needle.len(),
                forall|k: int| 0 <= k < j ==> hay@[i + k] == needle@[k],
            decreases needle.len() - j,
        {
            j += 1;
        }
        if j == needle.len() {
            assert(hay@.subrange(i as int, i + needle@.len()) =~= needle@);
            assert(occurs_at(hay@, needle@, i as int));
            return true;
        }
        assert(!occurs_at(hay@, needle@, i as int)) by {
            if occurs_at(hay@, needle@, i as int) {
                assert(hay@.subrange(i as int, i + needle@.len())[j as int] == needle@[j as int]);
            }
        }
        i += 1;
    }
    assert forall|k: int| !occurs_at(hay@, needle@, k) by {}
    false
}

/// Whether two texts are the same.
pub fn same_text(a: &[char], b: &[char]) -> (same: bool)
    ensures
        same == (a@ == b@),
{
    if a.len() != b.len() {
        return false;
    }
    let mut i: usize = 0;
    while i < a.len()
        invariant
            i <= a.len(),
            a.len() == b.len(),
            forall|j: int| 0 <= j < i ==> a@[j] == b@[j],
        decreases a.len() - i,
    {
        if a[i] != b[i] {
            return false;
        }
        i += 1;
    }
    assert(a@ =~= b@);
    true
}

/// Whether `end` stands at the end of the first `len` characters of `text`.
fn ends_at(text: &[char], len: usize, end: &[char]) -> (found: bool)
    requires
        len <= text.len(),
    ensures
        found == ends_with(text@.take(len as int), end@),
{
    if end.len() > len {
        return false;
    }
    let from: usize = len - end.len();
    let ghost front = text@.take(len as int);
    let mut i: usize = 0;
    while i < end.len()
        invariant
            i <= end.len(),
            from + end.len() == len,
            len <= text.len(),
            front == text@.take(len as int),
            forall|j: int| 0 <= j < i ==> text@[from + j] == end@[j],
        decreases end.len() - i,
    {
        if text[from + i] != end[i] {
            assert(front.subrange(front.len() - end@.len(), front.len() as int)[i as int]
                != end@[i as int]);
            return false;
        }
        i += 1;
    }
    assert(front.subrange(front.len() - end@.len(), front.len() as int) =~= end@);
    true
}

/// How many characters of `text` are left once `end` is taken from its end
/// as often as it stands there.
pub fn trimmed_len(text: &[char], end: &[char]) -> (len: usize)
    ensures
        len <= text.len(),
        text@.take(len as int) == trimmed(text@, end@),
{
    let mut len: usize = text.len();
    assert(text@.take(len as int) =~= text@);
    if end.len() == 0 {
        return len;
    }
    while ends_at(text, len, end)
        invariant
            len <= text.len(),
            end.len() > 0,
            trimmed(text@.take(len as int), end@) == trimmed(text@, end@),
        decreases len,
    {
        assert(text@.take(len as int).take(len - end@.len()) =~= text@.take(len - end@.len()));
        len -= end.len();
    }
    len
}

/// One digit as text.
fn digit_text(d: u32) -> (text: &'static str)
    requires
        d < 10,
    ensures
        text@ == seq![digit_char(d as int)],
{
    proof {
        reveal_strlit("0");
        reveal_strlit("1");
        reveal_strlit("2");
        reveal_strlit("3");
        reveal_strlit("4");
        reveal_strlit("5");
        reveal_strlit("6");
        reveal_strlit("7");
        reveal_strlit("8");
        reveal_strlit("9");
    }
    let text = if d == 0 {
        "0"
    } else if d == 1 {
        "1"
    } else if d == 2 {
        "2"
    } else if d == 3 {
        "3"
    } else if d == 4 {
        "4"
    } else if d == 5 {
        "5"
    } else if d == 6 {
        "6"
    } else if d == 7 {
        "7"
    } else if d == 8 {
        "8"
    } else {
        "9"
    };
    assert(text@ =~= seq![digit_char(d as int)]);
    text
}

/// Write `n` in base ten behind what `out` holds already.
fn push_natural(out: &mut String, n: u32)
    ensures
        final(out)@ == old(out)@ + natural_text(n as nat),
    decreases n,
{
    if n >= 10 {
        push_natural(out, n / 10);
    }
    out.append(digit_text(n % 10));
    assert(out@ =~= old(out)@ + natural_text(n as nat));
}

/// A number without a sign, written in base ten.
pub fn decimal(n: u32) -> (text: String)
    ensures
        text@ == natural_text(n as nat),
{
    let mut text = String::new();
    push_natural(&mut text, n);
    assert(text@ =~= natural_text(n as nat));
    text
}

/// A number with a sign, written in base ten.
pub fn signed_decimal(n: i32) -> (text: String)
    ensures
        text@ == integer_text(n as int),
{
    let mut text = String::new();
    if n < 0 {
        proof {
            reveal_strlit("-");
        }
        text.append("-");
        push_natural(&mut text, (0i64 - n as i64) as u32);
        assert(text@ =~= seq!['-'] + natural_text((-n) as nat));
    } else {
        push_natural(&mut text, n as u32);
        assert(text@ =~= natural_text(n as nat));
    }
    text
}

} // verus!
