//! Rendering and searching of text.

use vstd::arithmetic::div_mod::lemma_div_denominator;
use vstd::arithmetic::power::{lemma_pow0, lemma_pow1, lemma_pow_positive, pow};
use vstd::prelude::*;
use vstd::string::*;

verus! {

/// The digit of value `d`, for `d` below sixteen.
pub open spec fn digit(d: nat) -> char {
    "0123456789abcdef"@[d as int]
}

/// `n` written in base `radix`, most significant digit first and without leading zeros.
pub open spec fn digits(n: nat, radix: nat) -> Seq<char>
    decreases n,
{
    if radix < 2 || n < radix {
        seq![digit(n)]
    } else {
        proof {
            assert(n / radix < n) by (nonlinear_arith)
                requires
                    2 <= radix <= n,
            ;
        }
        digits(n / radix, radix) + seq![digit(n % radix)]
    }
}

/// `n` in decimal.
pub open spec fn decimal(n: nat) -> Seq<char> {
    digits(n, 10)
}

/// `n` in decimal, with a minus sign before a negative number.
pub open spec fn signed_decimal(n: int) -> Seq<char> {
    if n < 0 {
        "-"@ + decimal((-n) as nat)
    } else {
        decimal(n as nat)
    }
}

/// `n` in hexadecimal, in lower case.
pub open spec fn hexadecimal(n: nat) -> Seq<char> {
    digits(n, 16)
}

/// Whether `text` writes `n` in base `radix`: each symbol is the digit of its place, counted from the
/// end, and there are as many as the number needs and no more.
pub open spec fn writes_number(text: Seq<char>, n: nat, radix: int) -> bool {
    &&& text.len() >= 1
    &&& n < pow(radix, text.len())
    &&& text.len() > 1 ==> n >= pow(radix, (text.len() - 1) as nat)
    &&& forall|i: int|
        0 <= i < text.len() ==> #[trigger] text[i] == "0123456789abcdef"@[n as int / pow(
            radix,
            (text.len() - 1 - i) as nat,
        ) % radix]
}

/// Digits are those of the number, place by place.
proof fn lemma_digits_write_number(n: nat, radix: nat)
    requires
        2 <= radix <= 16,
    ensures
        writes_number(digits(n, radix), n, radix as int),
    decreases n,
{
    let text = digits(n, radix);
    let base = radix as int;
    lemma_pow0(base);
    lemma_pow1(base);
    if n < radix {
        assert(n as int / 1 % base == n) by (nonlinear_arith)
            requires
                0 <= n < base,
        ;
    } else {
        assert(n / radix < n) by (nonlinear_arith)
            requires
                2 <= radix <= n,
        ;
        let high = digits(n / radix, radix);
        let q = n as int / base;
        lemma_digits_write_number(n / radix, radix);
        reveal(pow);
        lemma_pow_positive(base, high.len());
        lemma_pow_positive(base, (high.len() - 1) as nat);
        let p = pow(base, high.len());
        assert(pow(base, text.len()) == base * p);
        assert(n < base * p) by (nonlinear_arith)
            requires
                q == n as int / base,
                q < p,
                base >= 2,
        ;
        if high.len() > 1 {
            let low = pow(base, (high.len() - 1) as nat);
            assert(p == base * low);
            assert(n >= base * low) by (nonlinear_arith)
                requires
                    q == n as int / base,
                    q >= low,
                    base >= 2,
                    n >= 0,
            ;
        } else {
            assert(p == base);
        }
        assert forall|i: int| 0 <= i < text.len() implies #[trigger] text[i]
            == "0123456789abcdef"@[n as int / pow(base, (text.len() - 1 - i) as nat) % base] by {
            if i < high.len() {
                let e = (high.len() - 1 - i) as nat;
                assert(text[i] == high[i]);
                lemma_pow_positive(base, e);
                lemma_div_denominator(n as int, base, pow(base, e));
                assert(pow(base, e + 1) == base * pow(base, e));
            } else {
                assert(n as int / 1 == n);
            }
        }
    }
}

/// A number in decimal has its decimal digits, place by place.
pub proof fn decimal_writes_number(n: nat)
    ensures
        writes_number(decimal(n), n, 10),
        decimal(n).len() >= 1,
        n < pow(10, decimal(n).len()),
        decimal(n).len() > 1 ==> n >= pow(10, (decimal(n).len() - 1) as nat),
        forall|i: int|
            0 <= i < decimal(n).len() ==> #[trigger] decimal(n)[i] == "0123456789abcdef"@[n as int
                / pow(10, (decimal(n).len() - 1 - i) as nat) % 10],
{
    lemma_digits_write_number(n, 10);
}

/// A number in hexadecimal has its hexadecimal digits, place by place.
pub proof fn hexadecimal_writes_number(n: nat)
    ensures
        writes_number(hexadecimal(n), n, 16),
        hexadecimal(n).len() >= 1,
        n < pow(16, hexadecimal(n).len()),
        hexadecimal(n).len() > 1 ==> n >= pow(16, (hexadecimal(n).len() - 1) as nat),
        forall|i: int|
            0 <= i < hexadecimal(n).len() ==> #[trigger] hexadecimal(n)[i] == "0123456789abcdef"@[n as int
                / pow(16, (hexadecimal(n).len() - 1 - i) as nat) % 16],
{
    lemma_digits_write_number(n, 16);
}

/// A negative number is written as a minus sign and its magnitude, and another as it is.
pub proof fn signed_decimal_writes_number(n: int)
    ensures
        n >= 0 ==> writes_number(signed_decimal(n), n as nat, 10),
        n < 0 ==> signed_decimal(n).len() > 0 && signed_decimal(n)[0] == '-' && writes_number(
            signed_decimal(n).skip(1),
            (-n) as nat,
            10,
        ),
        n >= 0 ==> signed_decimal(n) == decimal(n as nat),
        n < 0 ==> signed_decimal(n) == seq!['-'] + decimal((-n) as nat),
{
    reveal_strlit("-");
    if n < 0 {
        decimal_writes_number((-n) as nat);
        assert(signed_decimal(n).skip(1) =~= decimal((-n) as nat));
        assert(signed_decimal(n) =~= seq!['-'] + decimal((-n) as nat));
    } else {
        decimal_writes_number(n as nat);
    }
}

/// The symbols of the digits are the decimal digits and the letters `a` to `f`, in order.
pub proof fn symbols_of_digits(d: int)
    requires
        0 <= d < 16,
    ensures
        "0123456789abcdef"@[d] as int == if d < 10 {
            '0' as int + d
        } else {
            'a' as int + d - 10
        },
{
    reveal_strlit("0123456789abcdef");
}

fn append_digits(out: &mut String, n: u64, radix: u64)
    requires
        2 <= radix <= 16,
    ensures
        final(out)@ == old(out)@ + digits(n as nat, radix as nat),
    decreases n,
{
    proof {
        reveal_strlit("0123456789abcdef");
    }
    let low: u64 = n % radix;
    if n >= radix {
        append_digits(out, n / radix, radix);
    }
    let at: usize = low as usize;
    let ghost before = out@;
    out.append("0123456789abcdef".substring_char(at, at + 1));
    assert("0123456789abcdef"@.subrange(at as int, at + 1) =~= seq![digit(low as nat)]);
    proof {
        if n >= radix {
            assert(out@ =~= old(out)@ + digits(n as nat, radix as nat));
        } else {
            assert(n % radix == n) by (nonlinear_arith)
                requires
                    0 <= n < radix,
            ;
        }
    }
}

/// Renders `n` in decimal.
pub fn decimal_text(n: u64) -> (res: String)
    ensures
        res@ == decimal(n as nat),
{
    let mut out = String::new();
    append_digits(&mut out, n, 10);
    assert(out@ =~= decimal(n as nat));
    out
}

/// Renders `n` in lower-case hexadecimal.
pub fn hexadecimal_text(n: u64) -> (res: String)
    ensures
        res@ == hexadecimal(n as nat),
{
    let mut out = String::new();
    append_digits(&mut out, n, 16);
    assert(out@ =~= hexadecimal(n as nat));
    out
}

/// Renders `n` in decimal, with its sign when it is negative.
pub fn signed_decimal_text(n: i64) -> (res: String)
    ensures
        res@ == signed_decimal(n as int),
{
    if n < 0 {
        let magnitude: u64 = (-(n as i128)) as u64;
        concat("-", decimal_text(magnitude).as_str())
    } else {
        decimal_text(n as u64)
    }
}

/// `a` followed by `b`.
pub fn concat(a: &str, b: &str) -> (res: String)
    ensures
        res@ == a@ + b@,
{
    let mut out = a.to_owned();
    out.append(b);
    out
}

/// The characters of `s`.
fn characters(s: &str) -> (res: Vec<char>)
    ensures
        res@ == s@,
{
    let mut out: Vec<char> = Vec::new();
    for c in it: s.chars()
        invariant
            it.seq() == s@,
            out@ == s@.take(it.index() as int),
    {
        out.push(c);
        assert(out@ =~= s@.take(it.index() + 1));
    }
    assert(s@.take(s@.len() as int) =~= s@);
    out
}

/// Whether `needle` stands in `haystack` at position `at`.
pub open spec fn occurs_at(haystack: Seq<char>, needle: Seq<char>, at: int) -> bool {
    0 <= at && at + needle.len() <= haystack.len() && haystack.subrange(at, at + needle.len())
        == needle
}

/// Whether `needle` stands somewhere in `haystack`.
pub open spec fn contains_text(haystack: Seq<char>, needle: Seq<char>) -> bool {
    exists|at: int| occurs_at(haystack, needle, at)
}

/// A text contains another exactly where it is made of that other and of something before and behind
/// it.
pub proof fn text_contains_its_parts(haystack: Seq<char>, needle: Seq<char>)
    ensures
        forall|before: Seq<char>, behind: Seq<char>|
            haystack == #[trigger] (before + needle + behind) ==> contains_text(haystack, needle),
        contains_text(haystack, needle) ==> exists|before: Seq<char>, behind: Seq<char>|
            haystack == #[trigger] (before + needle + behind),
{
    assert forall|before: Seq<char>, behind: Seq<char>|
        haystack == #[trigger] (before + needle + behind) implies contains_text(
        haystack,
        needle,
    ) by {
        let at = before.len() as int;
        assert(haystack.subrange(at, at + needle.len()) =~= needle);
        assert(occurs_at(haystack, needle, at));
    }
    if contains_text(haystack, needle) {
        let at = choose|at: int| occurs_at(haystack, needle, at);
        let before = haystack.take(at);
        let behind = haystack.skip(at + needle.len());
        assert(haystack =~= before + needle + behind);
    }
}

/// Whether `needle` is a part of `haystack`.
pub fn has_text(haystack: &str, needle: &str) -> (res: bool)
    ensures
        res == contains_text(haystack@, needle@),
{
    let hay = characters(haystack);
    let pin = characters(needle);
    if pin.len() > hay.len() {
        return false;
    }
    let total: usize = hay.len();
    let last: usize = total - pin.len();
    let mut at: usize = 0;
    while at <= last
        invariant
            hay@ == haystack@,
            pin@ == needle@,
            last + pin@.len() == hay@.len() == total,
            0 <= at <= last + 1,
            last < usize::MAX || pin@.len() == 0,
            forall|i: int| 0 <= i < at ==> !occurs_at(haystack@, needle@, i),
        decreases last + 1 - at,
    {
        let mut same: usize = 0;
        while same < pin.len() && hay[at + same] == pin[same]
            invariant
                hay@ == haystack@,
                pin@ == needle@,
                at <= last,
                last + pin@.len() == hay@.len() == total,
                same <= pin@.len(),
                forall|i: int| 0 <= i < same ==> hay@[at + i] == pin@[i],
            decreases pin@.len() - same,
        {
            same += 1;
        }
        if same == pin.len() {
            assert(haystack@.subrange(at as int, at + needle@.len()) =~= needle@);
            assert(occurs_at(haystack@, needle@, at as int));
            return true;
        }
        assert(haystack@.subrange(at as int, at + needle@.len())[same as int] != needle@[same as int]);
        at += 1;
    }
    false
}

/// The position of the first `c` in `s` at or after `from`, or the length of `s`.
pub open spec fn find_char(s: Seq<char>, c: char, from: nat) -> nat
    decreases s.len() - from,
{
    if from >= s.len() {
        s.len()
    } else if s[from as int] == c {
        from
    } else {
        find_char(s, c, from + 1)
    }
}

/// The position that is found holds the character or is the end, and the character does not stand
/// between there and where the search began.
pub proof fn found_character_is_the_first(s: Seq<char>, c: char, from: nat)
    requires
        from <= s.len(),
    ensures
        from <= find_char(s, c, from) <= s.len(),
        find_char(s, c, from) < s.len() ==> s[find_char(s, c, from) as int] == c,
        forall|i: int| from <= i < find_char(s, c, from) ==> #[trigger] s[i] != c,
    decreases s.len() - from,
{
    if from < s.len() && s[from as int] != c {
        found_character_is_the_first(s, c, from + 1);
    }
}

fn find(s: &Vec<char>, c: char, from: usize) -> (res: usize)
    requires
        from <= s@.len(),
    ensures
        res == find_char(s@, c, from as nat),
        from <= res <= s@.len(),
{
    let mut at: usize = from;
    while at < s.len() && s[at] != c
        invariant
            from <= at <= s@.len(),
            find_char(s@, c, from as nat) == find_char(s@, c, at as nat),
        decreases s@.len() - at,
    {
        at += 1;
    }
    at
}

/// The second of the fields that `separator` divides `s` into, where there is one.
pub open spec fn second_field(s: Seq<char>, separator: char) -> Option<Seq<char>> {
    let first = find_char(s, separator, 0);
    if first < s.len() {
        Some(s.subrange(first as int + 1, find_char(s, separator, first + 1) as int))
    } else {
        None
    }
}

/// The second field is what stands between the first two separators, or behind the only one. A text
/// without a separator has none.
pub proof fn second_field_stands_behind_the_first_separator(
    first: Seq<char>,
    second: Seq<char>,
    rest: Seq<char>,
    separator: char,
)
    requires
        !first.contains(separator),
        !second.contains(separator),
    ensures
        second_field(first, separator) is None,
        second_field(first + seq![separator] + second, separator) == Some(second),
        second_field(first + seq![separator] + second + seq![separator] + rest, separator) == Some(
            second,
        ),
{
    found_character_is_the_first(first, separator, 0);
    if find_char(first, separator, 0) < first.len() {
        assert(first.contains(separator));
    }
    let two = first + seq![separator] + second;
    lemma_ends_of_second_field(first, second, two, separator);
    assert(two.subrange(first.len() as int + 1, two.len() as int) =~= second);
    let more = two + seq![separator] + rest;
    lemma_ends_of_second_field(first, second, more, separator);
    assert(more.subrange(first.len() as int + 1, two.len() as int) =~= second);
}

/// Where the second field starts and ends, in a text that goes on with a separator or not at all.
proof fn lemma_ends_of_second_field(
    first: Seq<char>,
    second: Seq<char>,
    text: Seq<char>,
    separator: char,
)
    requires
        !first.contains(separator),
        !second.contains(separator),
        (first + seq![separator] + second).is_prefix_of(text),
        text.len() > first.len() + 1 + second.len() ==> text[(first.len() + 1
            + second.len()) as int] == separator,
    ensures
        find_char(text, separator, 0) == first.len(),
        find_char(text, separator, first.len() + 1) == first.len() + 1 + second.len(),
{
    let two = first + seq![separator] + second;
    let start = find_char(text, separator, 0);
    let end = find_char(text, separator, first.len() + 1);
    assert forall|i: int| 0 <= i < two.len() implies #[trigger] text[i] == two[i] by {
        assert(text.subrange(0, two.len() as int)[i] == text[i]);
    }
    found_character_is_the_first(text, separator, 0);
    found_character_is_the_first(text, separator, first.len() + 1);
    assert(text[first.len() as int] == two[first.len() as int]);
    if start < first.len() {
        assert(text[start as int] == first[start as int]);
        assert(first.contains(separator));
    }
    if end < two.len() {
        assert(text[end as int] == second[end - first.len() - 1]);
        assert(second.contains(separator));
    }
}

/// The second of the fields that `separator` divides `s` into.
pub fn second_field_of(s: &str, separator: char) -> (res: Option<String>)
    ensures
        match res {
            Some(field) => second_field(s@, separator) == Some(field@),
            None => second_field(s@, separator) is None,
        },
{
    let chars = characters(s);
    let first: usize = find(&chars, separator, 0);
    if first == chars.len() {
        return None;
    }
    let end: usize = find(&chars, separator, first + 1);
    Some(s.substring_char(first + 1, end).to_owned())
}

/// `s` without `prefix` at its front, or `s` itself where it does not begin so.
pub open spec fn without_prefix(s: Seq<char>, prefix: Seq<char>) -> Seq<char> {
    if prefix.is_prefix_of(s) {
        s.skip(prefix.len() as int)
    } else {
        s
    }
}

/// A prefix that was put before a text is dropped again, and a text that does not begin with it stays
/// as it is.
pub proof fn prefix_is_dropped(prefix: Seq<char>, s: Seq<char>)
    ensures
        without_prefix(prefix + s, prefix) == s,
        (forall|rest: Seq<char>| s != #[trigger] (prefix + rest)) ==> without_prefix(s, prefix) == s,
{
    if prefix.is_prefix_of(s) {
        assert(s =~= prefix + s.skip(prefix.len() as int));
    }
    assert(prefix =~= (prefix + s).subrange(0, prefix.len() as int));
    assert((prefix + s).skip(prefix.len() as int) =~= s);
}

/// Drops `prefix` from the front of `s`, once, if it stands there.
pub fn drop_prefix<'a>(s: &'a str, prefix: &str) -> (res: &'a str)
    ensures
        res@ == without_prefix(s@, prefix@),
{
    let chars = characters(s);
    let start = characters(prefix);
    if start.len() > chars.len() {
        return s;
    }
    let mut at: usize = 0;
    while at < start.len()
        invariant
            chars@ == s@,
            start@ == prefix@,
            start@.len() <= chars@.len(),
            at <= start@.len(),
            forall|i: int| 0 <= i < at ==> chars@[i] == start@[i],
        decreases start@.len() - at,
    {
        if chars[at] != start[at] {
            assert(s@.subrange(0, prefix@.len() as int)[at as int] != prefix@[at as int]);
            return s;
        }
        at += 1;
    }
    assert(s@.subrange(0, prefix@.len() as int) =~= prefix@);
    s.substring_char(start.len(), chars.len())
}

} // verus!
