//! Small text helpers: decimal numerals, prefixes and trimming.

use vstd::prelude::*;

verus! {

/// The character of the decimal digit `d`.
pub open spec fn digit_char(d: nat) -> char {
    if d == 0 { '0' } else if d == 1 { '1' } else if d == 2 { '2' } else if d == 3 { '3' }
    else if d == 4 { '4' } else if d == 5 { '5' } else if d == 6 { '6' } else if d == 7 { '7' }
    else if d == 8 { '8' } else { '9' }
}

/// The decimal numeral of `n`, without leading zeros.
pub open spec fn decimal(n: nat) -> Seq<char>
    decreases n,
{
    if n < 10 {
        seq![digit_char(n)]
    } else {
        decimal(n / 10).push(digit_char(n % 10))
    }
}

/// The numeral of a single digit, as a string slice.
fn digit_str(d: u64) -> (res: &'static str)
    requires
        d < 10,
    ensures
        res@ == seq![digit_char(d as nat)],
{
    proof {
        reveal_strlit("0");
        reveal_strlit("1");
        reveal_strlit("2");
        reveal_strlit("3");
        reveal_strlit("4");
        reveal_strlit("5");
        reveal_strlit("6");
        reveal_strlit("7");
        reveal_strlit("8");
        reveal_strlit("9");
    }
    match d {
        0 => "0",
        1 => "1",
        2 => "2",
        3 => "3",
        4 => "4",
        5 => "5",
        6 => "6",
        7 => "7",
        8 => "8",
        _ => "9",
    }
}

/// Writes `n` as a decimal numeral.
pub fn decimal_string(n: u64) -> (res: String)
    ensures
        res@ == decimal(n as nat),
    decreases n,
{
    if n < 10 {
        digit_str(n).to_owned()
    } else {
        let mut head = decimal_string(n / 10);
        head.append(digit_str(n % 10));
        head
    }
}

/// The first character of `s`.
pub fn first_char(s: &str) -> (res: Option<char>)
    ensures
        res == (if s@.len() > 0 { Some(s@[0]) } else { None }),
{
    s.chars().next()
}

/// Whether `name` begins with all of `prefix`.
pub fn has_prefix(name: &str, prefix: &str) -> (res: bool)
    ensures
        res == prefix@.is_prefix_of(name@),
{
    let n: usize = prefix.unicode_len();
    if name.unicode_len() < n {
        return false;
    }
    let mut i: usize = 0;
    while i < n
        invariant
            i <= n,
            n == prefix@.len(),
            n <= name@.len(),
            forall|j: int| 0 <= j < i ==> prefix@[j] == name@[j],
        decreases n - i,
    {
        if prefix.get_char(i) != name.get_char(i) {
            assert(prefix@[i as int] != name@.subrange(0, n as int)[i as int]);
            return false;
        }
        i += 1;
    }
    assert(prefix@ =~= name@.subrange(0, n as int));
    true
}

/// Whether two texts are the same, character by character.
pub fn same_text(a: &str, b: &str) -> (res: bool)
    ensures
        res == (a@ == b@),
{
    a.to_owned() == b.to_owned()
}

/// The characters with the Unicode property `White_Space`.
pub open spec fn is_white_space(c: char) -> bool {
    ||| '\u{9}' <= c <= '\u{d}'
    ||| c == ' ' || c == '\u{85}' || c == '\u{a0}' || c == '\u{1680}'
    ||| '\u{2000}' <= c <= '\u{200a}'
    ||| c == '\u{2028}' || c == '\u{2029}' || c == '\u{202f}' || c == '\u{205f}' || c == '\u{3000}'
}

/// `s` without the white space at its two ends.
pub open spec fn trimmed(s: Seq<char>) -> Seq<char>
    decreases s.len(),
{
    if s.len() > 0 && is_white_space(s.first()) {
        trimmed(s.drop_first())
    } else if s.len() > 0 && is_white_space(s.last()) {
        trimmed(s.drop_last())
    } else {
        s
    }
}

/// Tells whether `c` has the Unicode property `White_Space`.
fn white_space(c: char) -> (res: bool)
    ensures
        res == is_white_space(c),
{
    ('\u{9}' <= c && c <= '\u{d}') || c == ' ' || c == '\u{85}' || c == '\u{a0}' || c == '\u{1680}'
        || ('\u{2000}' <= c && c <= '\u{200a}') || c == '\u{2028}' || c == '\u{2029}' || c
        == '\u{202f}' || c == '\u{205f}' || c == '\u{3000}'
}

/// `s` without the white space at its two ends.
pub fn trim(s: &str) -> (res: &str)
    ensures
        res@ == trimmed(s@),
{
    let mut start: usize = 0;
    let mut end: usize = s.unicode_len();
    assert(s@.subrange(0, end as int) =~= s@);
    while start < end && white_space(s.get_char(start))
        invariant
            start <= end,
            end == s@.len(),
            trimmed(s@.subrange(start as int, end as int)) == trimmed(s@),
        decreases end - start,
    {
        assert(s@.subrange(start as int, end as int).drop_first() =~= s@.subrange(
            start + 1,
            end as int,
        ));
        start += 1;
    }
    while start < end && white_space(s.get_char(end - 1))
        invariant
            start <= end <= s@.len(),
            start < end ==> !is_white_space(s@[start as int]),
            trimmed(s@.subrange(start as int, end as int)) == trimmed(s@),
        decreases end - start,
    {
        assert(s@.subrange(start as int, end as int).drop_last() =~= s@.subrange(
            start as int,
            end - 1,
        ));
        end -= 1;
    }
    s.substring_char(start, end)
}

proof fn lemma_digit_value(d: nat)
    requires
        d < 10,
    ensures
        digit_char(d) as int == '0' as int + d,
{
}

proof fn lemma_numeral_value(n: nat, f: spec_fn(int, char) -> int)
    requires
        forall|value: int, c: char| #[trigger] f(value, c) == value * 10 + (c as int - '0' as int),
    ensures
        decimal(n).fold_left(0, f) == n,
        decimal(n).len() > 0,
        n > 0 ==> decimal(n)[0] != '0',
    decreases n,
{
    reveal_with_fuel(Seq::fold_left, 2);
    lemma_digit_value(n % 10);
    if n < 10 {
        assert(decimal(n).drop_last() =~= seq![]);
    } else {
        lemma_numeral_value(n / 10, f);
        assert(decimal(n).drop_last() =~= decimal(n / 10));
    }
}

/// A numeral reads back as its number, digit by digit, and begins with a zero
/// only if it is that of zero.
pub proof fn law_numeral_reads_back(n: u64, numeral: String)
    requires
        call_ensures(decimal_string, (n,), numeral),
    ensures
        numeral@.fold_left(0, |value: int, c: char| value * 10 + (c as int - '0' as int)) == n,
        numeral@.len() > 0,
        n > 0 ==> numeral@[0] != '0',
        n == 0 ==> numeral@ == seq!['0'],
{
    lemma_numeral_value(
        n as nat,
        |value: int, c: char| value * 10 + (c as int - '0' as int),
    );
}

/// Whether every character is white space.
pub open spec fn all_white_space(s: Seq<char>) -> bool {
    forall|i: int| 0 <= i < s.len() ==> is_white_space(#[trigger] s[i])
}

proof fn lemma_trimmed_parts(s: Seq<char>) -> (parts: (int, int))
    ensures
        0 <= parts.0 <= parts.1 <= s.len(),
        trimmed(s) == s.subrange(parts.0, parts.1),
        all_white_space(s.take(parts.0)),
        all_white_space(s.skip(parts.1)),
        trimmed(s).len() > 0 ==> !is_white_space(trimmed(s).first()) && !is_white_space(
            trimmed(s).last(),
        ),
    decreases s.len(),
{
    if s.len() > 0 && is_white_space(s.first()) {
        let (from, to) = lemma_trimmed_parts(s.drop_first());
        assert(s.drop_first().subrange(from, to) =~= s.subrange(from + 1, to + 1));
        assert forall|i: int| 0 <= i < from + 1 implies is_white_space(
            #[trigger] s.take(from + 1)[i],
        ) by {
            if i > 0 {
                assert(s.drop_first().take(from)[i - 1] == s.take(from + 1)[i]);
            }
        }
        assert(s.skip(to + 1) =~= s.drop_first().skip(to));
        (from + 1, to + 1)
    } else if s.len() > 0 && is_white_space(s.last()) {
        let (from, to) = lemma_trimmed_parts(s.drop_last());
        assert(s.drop_last().subrange(from, to) =~= s.subrange(from, to));
        assert(s.take(from) =~= s.drop_last().take(from));
        assert forall|i: int| 0 <= i < s.len() - to implies is_white_space(
            #[trigger] s.skip(to)[i],
        ) by {
            if i < s.len() - to - 1 {
                assert(s.drop_last().skip(to)[i] == s.skip(to)[i]);
            }
        }
        (from, to)
    } else {
        assert(s.subrange(0, s.len() as int) =~= s);
        (0, s.len() as int)
    }
}

/// Trimming takes white space off the two ends, all of it and nothing else:
/// what is taken off is white space, and what is left neither begins nor ends
/// with it.
pub proof fn law_trimming_takes_off_the_white_space_at_the_ends(s: &str, left: &str)
    requires
        call_ensures(trim, (s,), left),
    ensures
        exists|from: int, to: int|
            0 <= from <= to <= s@.len() && left@ == #[trigger] s@.subrange(from, to)
                && all_white_space(s@.take(from)) && all_white_space(s@.skip(to)),
        left@.len() > 0 ==> !is_white_space(left@[0]) && !is_white_space(left@[left@.len() - 1]),
{
    let (from, to) = lemma_trimmed_parts(s@);
    assert(left@ == s@.subrange(from, to));
}

/// What counts as white space, by code point.
pub proof fn law_white_space_is_listed(c: char)
    ensures
        is_white_space(c) <==> {
            let n = c as int;
            9 <= n <= 13 || n == 32 || n == 0x85 || n == 0xa0 || n == 0x1680 || 0x2000 <= n
                <= 0x200a || n == 0x2028 || n == 0x2029 || n == 0x202f || n == 0x205f || n
                == 0x3000
        },
{
}

/// A name has a prefix if the prefix followed by something is the name.
pub proof fn law_prefix_leaves_a_rest(name: &str, prefix: &str, found: bool)
    requires
        call_ensures(has_prefix, (name, prefix), found),
    ensures
        found ==> prefix@ + name@.skip(prefix@.len() as int) == name@,
        !found ==> forall|rest: Seq<char>| prefix@ + rest != name@,
{
    if found {
        assert(prefix@ + name@.skip(prefix@.len() as int) =~= name@);
    } else {
        assert forall|rest: Seq<char>| prefix@ + rest != name@ by {
            if prefix@ + rest == name@ {
                assert(name@.subrange(0, prefix@.len() as int) =~= prefix@);
            }
        }
    }
}

} // verus!
