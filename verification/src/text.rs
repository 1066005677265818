//! Building text.

use vstd::prelude::*;
use vstd::string::StringExecFns;

verus! {

/// The character of a decimal digit.
pub open spec fn digit(d: nat) -> char {
    ('0' as u32 + d) as char
}

/// The number in decimal, without leading zeros.
pub open spec fn decimal(n: nat) -> Seq<char>
    decreases n,
{
    if n < 10 {
        seq![digit(n)]
    } else {
        decimal(n / 10).push(digit(n % 10))
    }
}

/// The number that a sequence of decimal digits stands for.
pub open spec fn decimal_value(digits: Seq<char>) -> int
    decreases digits.len(),
{
    if digits.len() == 0 {
        0
    } else {
        decimal_value(digits.drop_last()) * 10 + (digits.last() as u32 - '0' as u32)
    }
}

/// Writing a number in decimal and reading it back gives the number.
pub proof fn decimal_reads_back(n: nat)
    ensures
        decimal_value(decimal(n)) == n,
        decimal(n).len() > 0,
        forall|i: int| 0 <= i < decimal(n).len() ==> '0' <= #[trigger] decimal(n)[i] <= '9',
    decreases n,
{
    reveal_with_fuel(decimal_value, 2);
    if n < 10 {
        assert(seq![digit(n)].drop_last() =~= Seq::<char>::empty());
    } else {
        decimal_reads_back(n / 10);
        assert(decimal(n).drop_last() =~= decimal(n / 10));
        assert(n == (n / 10) * 10 + n % 10);
    }
}

/// A number of more than one digit is written as the number without its last
/// digit, followed by that digit; a number below ten is one digit. So nothing
/// but zero begins with a zero.
pub proof fn decimal_by_digits(n: nat, d: nat)
    requires
        d < 10,
    ensures
        decimal(d) == seq![('0' as u32 + d) as char],
        n > 0 ==> decimal(10 * n + d) == decimal(n).push(('0' as u32 + d) as char),
        n > 0 ==> decimal(n)[0] != '0',
        n > 0 ==> decimal(n).len() > 0,
    decreases n,
{
    assert((10 * n + d) / 10 == n);
    assert((10 * n + d) % 10 == d);
    if n >= 10 {
        decimal_by_digits(n / 10, n % 10);
        assert(decimal(n)[0] == decimal(n / 10)[0]);
    }
}

/// Two numbers that are written alike are equal.
pub proof fn decimal_is_unique(a: nat, b: nat)
    requires
        decimal(a) == decimal(b),
    ensures
        a == b,
{
    decimal_reads_back(a);
    decimal_reads_back(b);
}

/// The parts one after the other, each of them behind the separator.
pub open spec fn each_after(parts: Seq<Seq<char>>, separator: Seq<char>) -> Seq<char>
    decreases parts.len(),
{
    if parts.len() == 0 {
        Seq::empty()
    } else {
        each_after(parts.drop_last(), separator) + separator + parts.last()
    }
}

/// The parts one after the other, with the separator between two of them.
pub open spec fn joined(parts: Seq<Seq<char>>, separator: Seq<char>) -> Seq<char> {
    if parts.len() == 0 {
        Seq::empty()
    } else {
        parts[0] + each_after(parts.skip(1), separator)
    }
}

/// Joining one more part puts the separator and the part behind the rest.
pub proof fn joined_with_one_more(parts: Seq<Seq<char>>, last: Seq<char>, separator: Seq<char>)
    requires
        parts.len() > 0,
    ensures
        joined(parts.push(last), separator) == joined(parts, separator) + separator + last,
{
    let longer = parts.push(last);
    assert(longer.skip(1).drop_last() =~= parts.skip(1));
    assert(longer.skip(1).last() == last);
    assert(joined(longer, separator) =~= joined(parts, separator) + separator + last);
}

/// No part gives no text, one part gives that part alone, and one more part at
/// the front comes with the separator before the rest.
pub proof fn joined_by_parts(first: Seq<char>, rest: Seq<Seq<char>>, separator: Seq<char>)
    ensures
        joined(Seq::empty(), separator) == Seq::<char>::empty(),
        joined(seq![first], separator) == first,
        rest.len() > 0 ==> joined(seq![first] + rest, separator) == first + separator + joined(
            rest,
            separator,
        ),
    decreases rest.len(),
{
    assert(seq![first].skip(1) =~= Seq::<Seq<char>>::empty());
    assert(joined(seq![first], separator) =~= first);
    if rest.len() == 1 {
        assert(rest =~= seq![rest[0]]);
        assert(seq![first] + rest =~= seq![first].push(rest[0]));
        joined_with_one_more(seq![first], rest[0], separator);
        assert(rest.skip(1) =~= Seq::<Seq<char>>::empty());
        assert(joined(rest, separator) =~= rest[0]);
    } else if rest.len() > 1 {
        let most = rest.drop_last();
        let last = rest.last();
        joined_by_parts(first, most, separator);
        assert(rest =~= most.push(last));
        assert(seq![first] + rest =~= (seq![first] + most).push(last));
        joined_with_one_more(seq![first] + most, last, separator);
        joined_with_one_more(most, last, separator);
        assert(joined(seq![first] + rest, separator) =~= first + separator + joined(
            rest,
            separator,
        ));
    }
}

/// The texts of a vector of strings.
pub open spec fn texts(v: Seq<String>) -> Seq<Seq<char>> {
    Seq::new(v.len(), |i: int| v[i]@)
}

/// There is one text for each string, at its position.
pub proof fn texts_of_strings(v: Seq<String>, i: int)
    ensures
        texts(v).len() == v.len(),
        0 <= i < v.len() ==> texts(v)[i] == v[i]@,
{
}

/// The text of a string that may be absent.
pub open spec fn text_of(s: Option<String>) -> Option<Seq<char>> {
    match s {
        Some(s) => Some(s@),
        None => None,
    }
}

/// A string that is there is taken as it is, and an absent one stays absent.
pub proof fn text_or_none(s: String)
    ensures
        text_of(Some(s)) == Some(s@),
        text_of(None) == None::<Seq<char>>,
{
}

/// Puts two texts together.
pub fn prefixed(first: &str, second: &str) -> (r: String)
    ensures
        r@ == first@ + second@,
{
    let mut r = first.to_owned();
    r.append(second);
    r
}

/// Puts the parts together, with the separator between two of them.
pub fn join(parts: &Vec<String>, separator: &str) -> (r: String)
    ensures
        r@ == joined(texts(parts@), separator@),
{
    let ghost all = texts(parts@);
    if parts.len() == 0 {
        return String::new();
    }
    let mut r = parts[0].clone();
    let mut i: usize = 1;
    proof {
        assert(all.subrange(1, 1) =~= Seq::<Seq<char>>::empty());
        assert(r@ =~= all[0] + each_after(all.subrange(1, 1), separator@));
    }
    while i < parts.len()
        invariant
            1 <= i <= parts.len(),
            all == texts(parts@),
            r@ == all[0] + each_after(all.subrange(1, i as int), separator@),
        decreases parts.len() - i,
    {
        r.append(separator);
        r.append(parts[i].as_str());
        proof {
            let longer = all.subrange(1, i + 1);
            assert(longer.drop_last() =~= all.subrange(1, i as int));
            assert(longer.last() == parts[i as int]@);
            assert(r@ =~= all[0] + each_after(longer, separator@));
        }
        i += 1;
    }
    assert(all.skip(1) =~= all.subrange(1, all.len() as int));
    r
}

/// The text of a decimal digit.
fn digit_text(d: u32) -> (r: &'static str)
    requires
        d < 10,
    ensures
        r@ == seq![digit(d as nat)],
{
    proof {
        reveal_strlit("0");
        reveal_strlit("1");
        reveal_strlit("2");
        reveal_strlit("3");
        reveal_strlit("4");
        reveal_strlit("5");
        reveal_strlit("6");
        reveal_strlit("7");
        reveal_strlit("8");
        reveal_strlit("9");
    }
    let r = match d {
        0 => "0",
        1 => "1",
        2 => "2",
        3 => "3",
        4 => "4",
        5 => "5",
        6 => "6",
        7 => "7",
        8 => "8",
        _ => "9",
    };
    assert(r@ =~= seq![digit(d as nat)]);
    r
}

/// Writes a number in decimal.
pub fn to_decimal(n: u32) -> (r: String)
    ensures
        r@ == decimal(n as nat),
    decreases n,
{
    if n < 10 {
        digit_text(n).to_owned()
    } else {
        let mut r = to_decimal(n / 10);
        r.append(digit_text(n % 10));
        assert(r@ =~= decimal(n as nat / 10).push(digit(n as nat % 10)));
        r
    }
}

/// The text that stands for a byte string that need not be UTF-8.
pub uninterp spec fn lossy_text(bytes: Seq<u8>) -> Seq<char>;

/// `String::from_utf8_lossy`: the text of the bytes where they are UTF-8. What
/// it puts in the place of bytes that are not is not said here, only that it is
/// the same at each call.
#[verifier::external_body]
pub(crate) fn lossy(bytes: &[u8]) -> (r: String)
    ensures
        r@ == lossy_text(bytes@),
        vstd::utf8::valid_utf8(bytes@) ==> r@ == vstd::utf8::decode_utf8(bytes@),
{
    String::from_utf8_lossy(bytes).into_owned()
}

} // verus!
