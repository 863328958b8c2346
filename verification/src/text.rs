//! Text: numbers in decimal and hexadecimal, and base URLs without their trailing
//! slashes.
use vstd::prelude::*;
use vstd::string::*;

verus! {

/// The character of a digit below sixteen, in lower case.
pub open spec fn digit_char(d: nat) -> char
    recommends
        d < 16,
{
    if d < 10 {
        ('0' as nat + d) as char
    } else {
        ('a' as nat + d - 10) as char
    }
}

/// The decimal notation of `n`, without leading zeros.
pub open spec fn decimal(n: nat) -> Seq<char>
    decreases n,
{
    if n < 10 {
        seq![digit_char(n)]
    } else {
        decimal(n / 10).push(digit_char(n % 10))
    }
}

/// The two hexadecimal digits of a byte.
pub open spec fn hex_byte(b: u8) -> Seq<char> {
    seq![digit_char((b / 16) as nat), digit_char((b % 16) as nat)]
}

/// `s` without the slashes at its end.
pub open spec fn without_trailing_slashes(s: Seq<char>) -> Seq<char>
    decreases s.len(),
{
    if s.len() > 0 && s.last() == '/' {
        without_trailing_slashes(s.drop_last())
    } else {
        s
    }
}

/// Whether a character is a decimal digit.
pub open spec fn is_digit(c: char) -> bool {
    '0' <= c <= '9'
}

/// Whether a character is a hexadecimal digit in lower case.
pub open spec fn is_hex_digit(c: char) -> bool {
    is_digit(c) || 'a' <= c <= 'f'
}

/// The value of a hexadecimal digit in lower case.
pub open spec fn digit_value(c: char) -> nat
    recommends
        is_hex_digit(c),
{
    if is_digit(c) {
        (c as int - '0' as int) as nat
    } else {
        (c as int - 'a' as int + 10) as nat
    }
}

/// The number that decimal digits stand for, high digit first.
pub open spec fn decimal_value(digits: Seq<char>) -> nat
    decreases digits.len(),
{
    if digits.len() == 0 {
        0
    } else {
        decimal_value(digits.drop_last()) * 10 + digit_value(digits.last())
    }
}

/// The number that hexadecimal digits stand for, high digit first.
pub open spec fn hex_value(digits: Seq<char>) -> nat
    decreases digits.len(),
{
    if digits.len() == 0 {
        0
    } else {
        hex_value(digits.drop_last()) * 16 + digit_value(digits.last())
    }
}

/// The parts of a text between its separators: one more than there are separators.
pub open spec fn fields(s: Seq<char>, separator: char) -> Seq<Seq<char>>
    decreases s.len(),
{
    if s.len() == 0 {
        seq![Seq::empty()]
    } else {
        let before = fields(s.drop_last(), separator);
        if s.last() == separator {
            before.push(Seq::empty())
        } else {
            before.drop_last().push(before.last().push(s.last()))
        }
    }
}

/// The digit `d` as text.
fn digit_text(d: u8) -> (r: &'static str)
    requires
        d < 16,
    ensures
        r@ == seq![digit_char(d as nat)],
{
    proof {
        reveal_strlit("0");
        reveal_strlit("1");
        reveal_strlit("2");
        reveal_strlit("3");
        reveal_strlit("4");
        reveal_strlit("5");
        reveal_strlit("6");
        reveal_strlit("7");
        reveal_strlit("8");
        reveal_strlit("9");
        reveal_strlit("a");
        reveal_strlit("b");
        reveal_strlit("c");
        reveal_strlit("d");
        reveal_strlit("e");
        reveal_strlit("f");
    }
    match d {
        0 => "0",
        1 => "1",
        2 => "2",
        3 => "3",
        4 => "4",
        5 => "5",
        6 => "6",
        7 => "7",
        8 => "8",
        9 => "9",
        10 => "a",
        11 => "b",
        12 => "c",
        13 => "d",
        14 => "e",
        _ => "f",
    }
}

/// Appends `n` in decimal.
pub fn push_decimal(out: &mut String, n: u64)
    ensures
        final(out)@ == old(out)@ + decimal(n as nat),
    decreases n,
{
    if n >= 10 {
        push_decimal(out, n / 10);
    }
    out.append(digit_text((n % 10) as u8));
}

/// Appends the two hexadecimal digits of `b`.
pub fn push_hex_byte(out: &mut String, b: u8)
    ensures
        final(out)@ == old(out)@ + hex_byte(b),
{
    out.append(digit_text(b / 16));
    out.append(digit_text(b % 16));
}

/// Removes the slashes at the end of a base URL.
pub fn trim_trailing_slashes(s: &str) -> (r: String)
    ensures
        r@ == without_trailing_slashes(s@),
{
    let mut n: usize = s.unicode_len();
    proof {
        assert(s@.take(n as int) =~= s@);
    }
    while n > 0 && s.get_char(n - 1) == '/'
        invariant
            n <= s@.len(),
            without_trailing_slashes(s@.take(n as int)) == without_trailing_slashes(s@),
        decreases n,
    {
        proof {
            assert(s@.take(n as int).drop_last() =~= s@.take(n - 1));
        }
        n = n - 1;
    }
    s.substring_char(0, n).to_owned()
}

/// Whatever is left after the slashes at the end are removed ends in no slash, and
/// removing them again changes nothing.
pub proof fn trimming_is_idempotent(s: Seq<char>)
    ensures
        ({
            let t = without_trailing_slashes(s);
            &&& t.len() > 0 ==> t.last() != '/'
            &&& without_trailing_slashes(t) == t
        }),
    decreases s.len(),
{
    if s.len() > 0 && s.last() == '/' {
        trimming_is_idempotent(s.drop_last());
    }
}

/// A base URL written with any number of further slashes at its end means the same.
pub proof fn trailing_slashes_do_not_matter(s: Seq<char>, k: nat)
    ensures
        without_trailing_slashes(s + Seq::new(k, |i: int| '/')) == without_trailing_slashes(s),
    decreases k,
{
    let slashes = Seq::new(k, |i: int| '/');
    if k == 0 {
        assert(s + slashes =~= s);
    } else {
        let fewer = Seq::new((k - 1) as nat, |i: int| '/');
        assert((s + slashes).drop_last() =~= s + fewer);
        trailing_slashes_do_not_matter(s, (k - 1) as nat);
    }
}

/// Decimal notation has at least one character, only digits, and no zero before another
/// digit.
pub proof fn decimal_is_digits(n: nat)
    ensures
        decimal(n).len() > 0,
        forall|i: int| 0 <= i < decimal(n).len() ==> is_digit(#[trigger] decimal(n)[i]),
        n > 0 ==> decimal(n)[0] != '0',
        decimal(n).len() > 1 ==> decimal(n)[0] != '0',
    decreases n,
{
    if n >= 10 {
        decimal_is_digits(n / 10);
    }
}

/// Decimal notation reads back to the number.
pub proof fn decimal_reads_back(n: nat)
    ensures
        decimal_value(decimal(n)) == n,
    decreases n,
{
    if n < 10 {
        assert(decimal(n).drop_last() =~= Seq::empty());
        assert(decimal_value(Seq::empty()) == 0);
    } else {
        decimal_reads_back(n / 10);
        assert(decimal(n).drop_last() =~= decimal(n / 10));
    }
}

/// Different numbers are written differently in decimal.
pub proof fn decimal_is_injective(m: nat, n: nat)
    requires
        decimal(m) == decimal(n),
    ensures
        m == n,
{
    decimal_reads_back(m);
    decimal_reads_back(n);
}

/// Two texts that end with a colon and a number in decimal end with the same number if they
/// are equal, and are equal before the colon.
pub proof fn trailing_decimal_is_determined(a: Seq<char>, m: nat, b: Seq<char>, n: nat)
    requires
        a + seq![':'] + decimal(m) == b + seq![':'] + decimal(n),
    ensures
        a == b,
        m == n,
{
    decimal_is_digits(m);
    decimal_is_digits(n);
    let x = a + seq![':'] + decimal(m);
    let y = b + seq![':'] + decimal(n);
    assert(x[a.len() as int] == ':');
    assert(y[b.len() as int] == ':');
    assert(x.len() == a.len() + 1 + decimal(m).len());
    assert(y.len() == b.len() + 1 + decimal(n).len());
    if a.len() < b.len() {
        assert(x[b.len() as int] == decimal(m)[b.len() - a.len() - 1]);
    }
    if b.len() < a.len() {
        assert(y[a.len() as int] == decimal(n)[a.len() - b.len() - 1]);
    }
    assert(a =~= x.take(a.len() as int));
    assert(b =~= y.take(b.len() as int));
    assert(decimal(m) =~= x.skip(a.len() as int + 1));
    assert(decimal(n) =~= y.skip(b.len() as int + 1));
    decimal_is_injective(m, n);
}

/// The hexadecimal digits of two bytes read back to the number that the bytes stand for.
pub proof fn hex_bytes_read_back(a: u8, b: u8)
    ensures
        (hex_byte(a) + hex_byte(b)).len() == 4,
        forall|i: int|
            0 <= i < 4 ==> is_hex_digit(#[trigger] (hex_byte(a) + hex_byte(b))[i]),
        hex_value(hex_byte(a) + hex_byte(b)) == a * 256 + b,
{
    let digits = hex_byte(a) + hex_byte(b);
    assert(digits.drop_last().drop_last().drop_last().drop_last() =~= Seq::empty());
    reveal_with_fuel(hex_value, 5);
}

/// A text without separators is its only part.
pub proof fn text_without_separators_is_one_field(s: Seq<char>, separator: char)
    requires
        !s.contains(separator),
    ensures
        fields(s, separator) == seq![s],
    decreases s.len(),
{
    if s.len() == 0 {
        assert(s =~= Seq::empty());
    } else {
        assert(s.last() != separator);
        assert forall|i: int| 0 <= i < s.drop_last().len() implies s.drop_last()[i]
            != separator by {
            assert(s[i] != separator);
        }
        text_without_separators_is_one_field(s.drop_last(), separator);
        assert(s.drop_last().push(s.last()) =~= s);
        assert(fields(s, separator) =~= seq![s]);
    }
}

/// What follows the last separator is the last part.
pub proof fn last_field_follows_the_last_separator(
    before: Seq<char>,
    last: Seq<char>,
    separator: char,
)
    requires
        !last.contains(separator),
    ensures
        fields(before + seq![separator] + last, separator) == fields(before, separator).push(last),
    decreases last.len(),
{
    let s = before + seq![separator] + last;
    if last.len() == 0 {
        assert(s.drop_last() =~= before);
        assert(last =~= Seq::empty());
    } else {
        let shorter = last.drop_last();
        assert(last.last() != separator);
        assert forall|i: int| 0 <= i < shorter.len() implies shorter[i] != separator by {
            assert(last[i] != separator);
        }
        last_field_follows_the_last_separator(before, shorter, separator);
        assert(s.drop_last() =~= before + seq![separator] + shorter);
        assert(shorter.push(last.last()) =~= last);
        let parts = fields(before, separator).push(shorter);
        assert(parts.drop_last() =~= fields(before, separator));
    }
}

/// Trimming takes away slashes at the end and nothing else: what is left starts the text, and
/// only slashes follow it.
pub proof fn trimming_takes_only_slashes(s: Seq<char>)
    ensures
        without_trailing_slashes(s).is_prefix_of(s),
        forall|i: int|
            without_trailing_slashes(s).len() <= i < s.len() ==> #[trigger] s[i] == '/',
    decreases s.len(),
{
    if s.len() > 0 && s.last() == '/' {
        let shorter = s.drop_last();
        trimming_takes_only_slashes(shorter);
        assert(without_trailing_slashes(s) =~= s.take(without_trailing_slashes(s).len() as int));
        assert forall|i: int| without_trailing_slashes(s).len() <= i < s.len() implies #[trigger] s[i]
            == '/' by {
            if i < shorter.len() {
                assert(shorter[i] == s[i]);
            }
        }
    } else {
        assert(s =~= s.take(s.len() as int));
    }
}

/// A byte has two hexadecimal digits, in lower case, that read back to it.
pub proof fn hex_byte_reads_back(b: u8)
    ensures
        hex_byte(b).len() == 2,
        is_hex_digit(hex_byte(b)[0]),
        is_hex_digit(hex_byte(b)[1]),
        hex_value(hex_byte(b)) == b,
{
    assert(hex_byte(b).drop_last().drop_last() =~= Seq::empty());
    reveal_with_fuel(hex_value, 3);
}

} // verus!
