//! Keys of persistent entries that belong to one place in the source.
use vstd::prelude::*;

verus! {

/// The decimal digit for `d` (below 10).
pub open spec fn decimal_digit(d: u32) -> char {
    (d + 48) as char
}

/// The decimal text of `n`, without leading zeros.
pub open spec fn decimal(n: u32) -> Seq<char>
    decreases n,
{
    if n < 10 {
        seq![decimal_digit(n)]
    } else {
        decimal(n / 10).push(decimal_digit(n % 10))
    }
}

/// The decimal text of a number below ten is one digit; of a larger one,
/// two or more.
proof fn lemma_decimal_len(n: u32)
    ensures
        n < 10 ==> decimal(n).len() == 1,
        n >= 10 ==> decimal(n).len() >= 2,
    decreases n,
{
    if n >= 10 {
        lemma_decimal_len(n / 10);
    }
}

/// Different numbers have different decimal texts.
pub proof fn lemma_decimal_injective(a: u32, b: u32)
    requires
        decimal(a) == decimal(b),
    ensures
        a == b,
    decreases a,
{
    lemma_decimal_len(a);
    lemma_decimal_len(b);
    if a < 10 && b < 10 {
        assert(decimal(a)[0] == decimal_digit(a));
        assert(decimal(b)[0] == decimal_digit(b));
        assert((a + 48) as char == (b + 48) as char);
        assert(((a + 48) as char) as u32 == a + 48);
        assert(((b + 48) as char) as u32 == b + 48);
    } else if a >= 10 && b >= 10 {
        let da = decimal(a);
        let db = decimal(b);
        assert(da.last() == decimal_digit(a % 10));
        assert(db.last() == decimal_digit(b % 10));
        assert(((a % 10 + 48) as char) as u32 == a % 10 + 48);
        assert(((b % 10 + 48) as char) as u32 == b % 10 + 48);
        assert(da.drop_last() =~= decimal(a / 10));
        assert(db.drop_last() =~= decimal(b / 10));
        lemma_decimal_injective(a / 10, b / 10);
    }
}

/// Entries made at two places in the source share a key exactly when the
/// places are the same file and line.
pub proof fn lemma_singleton_keys_distinct(file: Seq<char>, line1: u32, line2: u32)
    ensures
        (file + seq![':'] + decimal(line1) == file + seq![':'] + decimal(line2)) <==> line1
            == line2,
{
    let k1 = file + seq![':'] + decimal(line1);
    let k2 = file + seq![':'] + decimal(line2);
    if k1 == k2 {
        let p: int = file.len() as int + 1;
        assert(k1.skip(p) =~= decimal(line1));
        assert(k2.skip(p) =~= decimal(line2));
        lemma_decimal_injective(line1, line2);
    }
}

/// Writes `n` in decimal.
pub fn decimal_text(n: u32) -> (res: String)
    ensures
        res@ == decimal(n),
{
    let mut digits: Vec<char> = Vec::new();
    let mut m = n;
    while m >= 10
        invariant
            decimal(n) == decimal(m) + digits@.reverse(),
        decreases m,
    {
        let d = m % 10;
        let c = ((d as u8) + 48) as char;
        proof {
            assert(decimal(m) == decimal(m / 10).push(decimal_digit(m % 10)));
            assert(digits@.push(c).reverse() =~= seq![c] + digits@.reverse());
            assert(decimal(m / 10).push(c) + digits@.reverse() =~= decimal(m / 10) + (seq![c]
                + digits@.reverse()));
        }
        digits.push(c);
        m = m / 10;
    }
    let mut res = String::new();
    crate::chars::push_char(&mut res, ((m as u8) + 48) as char);
    let mut i: usize = digits.len();
    assert(decimal(m) == seq![decimal_digit(m)]);
    assert(digits@.subrange(i as int, digits@.len() as int).reverse() =~= Seq::<char>::empty());
    while i > 0
        invariant
            i <= digits@.len(),
            decimal(n) == decimal(m) + digits@.reverse(),
            decimal(m) == seq![decimal_digit(m)],
            res@ == decimal(m) + digits@.subrange(i as int, digits@.len() as int).reverse(),
        decreases i,
    {
        i = i - 1;
        crate::chars::push_char(&mut res, digits[i]);
        assert(digits@.subrange(i as int, digits@.len() as int).reverse() =~= digits@.subrange(
            i + 1,
            digits@.len() as int,
        ).reverse().push(digits@[i as int]));
    }
    assert(digits@.subrange(0, digits@.len() as int) =~= digits@);
    res
}

/// The key of a persistent entry made at a place in the source:
/// `file:line`.
pub fn singleton_key(file: &str, line: u32) -> (res: String)
    ensures
        res@ == file@ + seq![':'] + decimal(line),
{
    let mut res = String::from_str(file);
    crate::chars::push_char(&mut res, ':');
    res.append(decimal_text(line).as_str());
    res
}

} // verus!
