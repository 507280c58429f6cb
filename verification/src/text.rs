use vstd::prelude::*;

verus! {

/// The decimal digit character for a value below ten.
pub open spec fn digit_char(d: nat) -> char {
    if d == 0 {
        '0'
    } else if d == 1 {
        '1'
    } else if d == 2 {
        '2'
    } else if d == 3 {
        '3'
    } else if d == 4 {
        '4'
    } else if d == 5 {
        '5'
    } else if d == 6 {
        '6'
    } else if d == 7 {
        '7'
    } else if d == 8 {
        '8'
    } else {
        '9'
    }
}

/// The numeric value of a decimal digit character (0 for any other character).
pub open spec fn digit_value(c: char) -> nat {
    if c == '1' {
        1
    } else if c == '2' {
        2
    } else if c == '3' {
        3
    } else if c == '4' {
        4
    } else if c == '5' {
        5
    } else if c == '6' {
        6
    } else if c == '7' {
        7
    } else if c == '8' {
        8
    } else if c == '9' {
        9
    } else {
        0
    }
}

/// The shortest decimal representation of `n`, most significant digit first.
pub open spec fn decimal(n: nat) -> Seq<char>
    decreases n,
{
    if n < 10 {
        seq![digit_char(n)]
    } else {
        decimal(n / 10).push(digit_char(n % 10))
    }
}

/// `k` copies of the character `'0'`.
pub open spec fn zeros(k: nat) -> Seq<char> {
    Seq::new(k, |i: int| '0')
}

/// `s`, left-padded with `'0'` up to `width` characters; never truncated.
pub open spec fn zero_padded(s: Seq<char>, width: nat) -> Seq<char> {
    if s.len() >= width {
        s
    } else {
        zeros((width - s.len()) as nat) + s
    }
}

/// The decimal representation of `n`, zero-padded to at least eight characters.
pub open spec fn padded8(n: nat) -> Seq<char> {
    zero_padded(decimal(n), 8)
}

/// The value that a string of decimal digits denotes.
pub open spec fn decimal_value(s: Seq<char>) -> nat
    decreases s.len(),
{
    if s.len() == 0 {
        0
    } else {
        decimal_value(s.drop_last()) * 10 + digit_value(s.last())
    }
}

/// `parts` joined by `sep` between each two neighbours.
pub open spec fn joined(parts: Seq<Seq<char>>, sep: Seq<char>) -> Seq<char>
    decreases parts.len(),
{
    if parts.len() == 0 {
        Seq::empty()
    } else if parts.len() == 1 {
        parts[0]
    } else {
        joined(parts.drop_last(), sep) + sep + parts.last()
    }
}

/// The character sequences of a vector of strings.
pub open spec fn string_views(v: Seq<String>) -> Seq<Seq<char>> {
    v.map_values(|s: String| s@)
}

/// The total length of `parts`.
pub open spec fn total_len(parts: Seq<Seq<char>>) -> nat
    decreases parts.len(),
{
    if parts.len() == 0 {
        0
    } else {
        total_len(parts.drop_last()) + parts.last().len()
    }
}

/// Joining nothing gives the empty text, joining one part gives that part, and
/// joining one more part appends the separator and that part to the join of
/// the others: no part is ever dropped, whatever their number.
pub proof fn lemma_joined_extends(parts: Seq<Seq<char>>, sep: Seq<char>, p: Seq<char>)
    ensures
        joined(Seq::empty(), sep) == Seq::<char>::empty(),
        joined(seq![p], sep) == p,
        parts.len() >= 1 ==> joined(parts.push(p), sep) == joined(parts, sep) + sep + p,
{
    assert(parts.push(p).drop_last() =~= parts);
}

/// The join is as long as all its parts together, plus one separator between
/// each two neighbours.
pub proof fn lemma_joined_len(parts: Seq<Seq<char>>, sep: Seq<char>)
    requires
        parts.len() >= 1,
    ensures
        joined(parts, sep).len() == total_len(parts) + (parts.len() - 1) * sep.len(),
    decreases parts.len(),
{
    let n = parts.len() as int;
    let m = sep.len() as int;
    if n > 1 {
        lemma_joined_len(parts.drop_last(), sep);
        assert(joined(parts, sep) == joined(parts.drop_last(), sep) + sep + parts.last());
        assert(total_len(parts) == total_len(parts.drop_last()) + parts.last().len());
        assert((n - 1) * m == (n - 2) * m + m) by (nonlinear_arith);
    } else {
        assert(parts.drop_last() =~= Seq::<Seq<char>>::empty());
        assert(total_len(parts.drop_last()) == 0);
        assert(parts.last() == parts[0]);
        assert((n - 1) * m == 0) by (nonlinear_arith)
            requires
                n == 1,
        ;
    }
}

/// The character sequences of a vector of strings are those of its strings,
/// one for one and in order.
pub proof fn lemma_string_views(v: Seq<String>)
    ensures
        string_views(v).len() == v.len(),
        forall|i: int| 0 <= i < v.len() ==> #[trigger] string_views(v)[i] == v[i]@,
{
}

proof fn lemma_digit_roundtrip(d: nat)
    requires
        d < 10,
    ensures
        digit_value(digit_char(d)) == d,
{
}

proof fn lemma_decimal_value(n: nat)
    ensures
        decimal_value(decimal(n)) == n,
        decimal(n).len() >= 1,
    decreases n,
{
    if n < 10 {
        lemma_digit_roundtrip(n);
        assert(decimal(n).drop_last() =~= Seq::<char>::empty());
        assert(decimal_value(Seq::<char>::empty()) == 0);
    } else {
        lemma_decimal_value(n / 10);
        lemma_digit_roundtrip(n % 10);
        assert(decimal(n).drop_last() =~= decimal(n / 10));
        assert(decimal(n).last() == digit_char(n % 10));
        assert(n == (n / 10) * 10 + n % 10);
    }
}

proof fn lemma_leading_zeros(k: nat, s: Seq<char>)
    ensures
        decimal_value(zeros(k) + s) == decimal_value(s),
    decreases s.len(), k,
{
    if s.len() == 0 {
        if k > 0 {
            assert((zeros(k) + s).drop_last() =~= zeros((k - 1) as nat) + s);
            lemma_leading_zeros((k - 1) as nat, s);
        } else {
            assert(zeros(k) + s =~= s);
        }
    } else {
        assert((zeros(k) + s).drop_last() =~= zeros(k) + s.drop_last());
        lemma_leading_zeros(k, s.drop_last());
    }
}

/// Reading a zero-padded key back gives the number it was made from.
pub proof fn lemma_padded8_value(n: nat)
    ensures
        decimal_value(padded8(n)) == n,
{
    lemma_decimal_value(n);
    let d = decimal(n);
    if d.len() < 8 {
        lemma_leading_zeros((8 - d.len()) as nat, d);
    }
}

/// Distinct numbers have distinct zero-padded keys.
pub proof fn lemma_padded8_injective(a: nat, b: nat)
    requires
        a != b,
    ensures
        padded8(a) != padded8(b),
{
    lemma_padded8_value(a);
    lemma_padded8_value(b);
}

/// Ten to the power `k`.
pub open spec fn ten_pow(k: nat) -> nat
    decreases k,
{
    if k == 0 {
        1
    } else {
        10 * ten_pow((k - 1) as nat)
    }
}

proof fn lemma_decimal_len_bound(n: nat, k: nat)
    requires
        n < ten_pow(k),
        k >= 1,
    ensures
        decimal(n).len() <= k,
    decreases k,
{
    if n >= 10 {
        reveal_with_fuel(ten_pow, 2);
        assert(k > 1);
        assert(n / 10 < ten_pow((k - 1) as nat));
        lemma_decimal_len_bound(n / 10, (k - 1) as nat);
    }
}

/// A key below one hundred million is exactly eight characters long.
pub proof fn lemma_padded8_len(n: nat)
    requires
        n < 100_000_000,
    ensures
        padded8(n).len() == 8,
{
    reveal_with_fuel(ten_pow, 9);
    lemma_decimal_len_bound(n, 8);
}

/// Whether `x` sorts strictly before `y` in lexicographic order of characters.
pub open spec fn lex_less(x: Seq<char>, y: Seq<char>) -> bool {
    ||| exists|i: int|
        0 <= i < x.len() && i < y.len() && x.take(i) == y.take(i) && (x[i] as int) < (
        y[i] as int)
    ||| x.len() < y.len() && x == y.take(x.len() as int)
}

/// Whether every character of `s` is a decimal digit.
pub open spec fn all_digits(s: Seq<char>) -> bool {
    forall|i: int| 0 <= i < s.len() ==> 48 <= #[trigger] (s[i] as int) <= 57
}

proof fn lemma_digit_char_code(d: nat)
    requires
        d < 10,
    ensures
        digit_char(d) as int == 48 + d,
{
}

proof fn lemma_digit_value_code(c: char)
    requires
        48 <= c as int <= 57,
    ensures
        digit_value(c) == c as int - 48,
{
    let v = c as int;
    if v == 48 {
        assert(c == '0');
    } else if v == 49 {
        assert(c == '1');
    } else if v == 50 {
        assert(c == '2');
    } else if v == 51 {
        assert(c == '3');
    } else if v == 52 {
        assert(c == '4');
    } else if v == 53 {
        assert(c == '5');
    } else if v == 54 {
        assert(c == '6');
    } else if v == 55 {
        assert(c == '7');
    } else if v == 56 {
        assert(c == '8');
    } else {
        assert(c == '9');
    }
}

proof fn lemma_decimal_digits(n: nat)
    ensures
        all_digits(decimal(n)),
    decreases n,
{
    if n < 10 {
        lemma_digit_char_code(n);
    } else {
        lemma_decimal_digits(n / 10);
        lemma_digit_char_code(n % 10);
    }
}

proof fn lemma_padded8_digits(n: nat)
    ensures
        all_digits(padded8(n)),
{
    lemma_decimal_digits(n);
    let d = decimal(n);
    if d.len() < 8 {
        let z = zeros((8 - d.len()) as nat);
        assert forall|i: int| 0 <= i < padded8(n).len() implies 48 <= #[trigger] (padded8(n)[i] as int) <= 57 by {
            if i < z.len() {
                assert(padded8(n)[i] == '0');
            } else {
                assert(padded8(n)[i] == d[i - z.len()]);
            }
        }
    }
}

proof fn lemma_same_value_same_digits(s: Seq<char>, t: Seq<char>)
    requires
        all_digits(s),
        all_digits(t),
        s.len() == t.len(),
        decimal_value(s) == decimal_value(t),
    ensures
        s == t,
    decreases s.len(),
{
    if s.len() > 0 {
        lemma_digit_value_code(s.last());
        lemma_digit_value_code(t.last());
        let a = decimal_value(s.drop_last());
        let b = decimal_value(t.drop_last());
        let da = digit_value(s.last());
        let db = digit_value(t.last());
        assert(a == b && da == db) by (nonlinear_arith)
            requires
                a * 10 + da == b * 10 + db,
                0 <= da < 10,
                0 <= db < 10,
                a >= 0,
                b >= 0,
        ;
        lemma_same_value_same_digits(s.drop_last(), t.drop_last());
        assert(s.last() as int == t.last() as int);
        assert(s =~= s.drop_last().push(s.last()));
        assert(t =~= t.drop_last().push(t.last()));
    }
}

/// Digit strings of one length sort in the order of the numbers they denote.
pub proof fn lemma_digits_sort_by_value(s: Seq<char>, t: Seq<char>)
    requires
        all_digits(s),
        all_digits(t),
        s.len() == t.len(),
        decimal_value(s) < decimal_value(t),
    ensures
        lex_less(s, t),
    decreases s.len(),
{
    let n = s.len();
    lemma_digit_value_code(s.last());
    lemma_digit_value_code(t.last());
    let a = decimal_value(s.drop_last());
    let b = decimal_value(t.drop_last());
    let da = digit_value(s.last());
    let db = digit_value(t.last());
    if a < b {
        lemma_digits_sort_by_value(s.drop_last(), t.drop_last());
        let i = choose|i: int|
            0 <= i < s.drop_last().len() && i < t.drop_last().len() && s.drop_last().take(i)
                == t.drop_last().take(i) && (s.drop_last()[i] as int) < (t.drop_last()[i] as int);
        assert(s.take(i) =~= s.drop_last().take(i));
        assert(t.take(i) =~= t.drop_last().take(i));
        assert(s[i] == s.drop_last()[i]);
        assert(t[i] == t.drop_last()[i]);
    } else if a == b {
        lemma_same_value_same_digits(s.drop_last(), t.drop_last());
        assert(da < db);
        assert(s.take(n - 1) =~= s.drop_last());
        assert(t.take(n - 1) =~= t.drop_last());
        assert((s[n - 1] as int) < (t[n - 1] as int));
    } else {
        assert(false) by (nonlinear_arith)
            requires
                a > b,
                a * 10 + da < b * 10 + db,
                0 <= da < 10,
                0 <= db < 10,
        ;
    }
}

/// Keys below one hundred million sort in the order of their numbers.
pub proof fn lemma_padded8_sorted(a: nat, b: nat)
    requires
        a < b < 100_000_000,
    ensures
        lex_less(padded8(a), padded8(b)),
{
    lemma_padded8_len(a);
    lemma_padded8_len(b);
    lemma_padded8_digits(a);
    lemma_padded8_digits(b);
    lemma_padded8_value(a);
    lemma_padded8_value(b);
    lemma_digits_sort_by_value(padded8(a), padded8(b));
}

/// The one-character string for the decimal digit `d`.
fn digit_str(d: u32) -> (s: &'static str)
    requires
        d < 10,
    ensures
        s@ == seq![digit_char(d as nat)],
{
    proof {
        reveal_strlit("0");
        reveal_strlit("1");
        reveal_strlit("2");
        reveal_strlit("3");
        reveal_strlit("4");
        reveal_strlit("5");
        reveal_strlit("6");
        reveal_strlit("7");
        reveal_strlit("8");
        reveal_strlit("9");
    }
    if d == 0 {
        "0"
    } else if d == 1 {
        "1"
    } else if d == 2 {
        "2"
    } else if d == 3 {
        "3"
    } else if d == 4 {
        "4"
    } else if d == 5 {
        "5"
    } else if d == 6 {
        "6"
    } else if d == 7 {
        "7"
    } else if d == 8 {
        "8"
    } else {
        "9"
    }
}

/// Appends the decimal representation of `n` to `out`.
fn push_decimal(out: &mut String, n: u32)
    ensures
        final(out)@ == old(out)@ + decimal(n as nat),
    decreases n,
{
    if n >= 10 {
        push_decimal(out, n / 10);
    }
    out.append(digit_str(n % 10));
}

/// The number of decimal digits of `n`.
fn decimal_len(n: u32) -> (len: usize)
    ensures
        len == decimal(n as nat).len(),
    decreases n,
{
    if n < 10 {
        1
    } else {
        let rest = decimal_len(n / 10);
        proof {
            reveal_with_fuel(ten_pow, 11);
            lemma_decimal_len_bound((n / 10) as nat, 10);
        }
        rest + 1
    }
}

/// The decimal form of `n`, left-padded with zeros to eight characters.
pub fn format_padded8(n: u32) -> (res: String)
    ensures
        res@ == padded8(n as nat),
{
    let mut out = String::new();
    let len = decimal_len(n);
    let mut i: usize = len;
    while i < 8
        invariant
            len == decimal(n as nat).len(),
            len <= i <= 8 || (len > 8 && i == len),
            out@ == zeros((i - len) as nat),
        decreases 8 - i,
    {
        out.append("0");
        proof {
            reveal_strlit("0");
            assert(out@ =~= zeros((i + 1 - len) as nat));
        }
        i = i + 1;
    }
    push_decimal(&mut out, n);
    proof {
        if len < 8 {
            assert(i == 8);
        } else {
            assert(out@ =~= decimal(n as nat));
        }
    }
    out
}

/// Joins `parts` with `sep` between each two neighbours.
pub fn join_strings(parts: &Vec<String>, sep: &str) -> (res: String)
    ensures
        res@ == joined(string_views(parts@), sep@),
{
    let mut res = String::new();
    let ghost views = string_views(parts@);
    let mut i: usize = 0;
    while i < parts.len()
        invariant
            0 <= i <= parts.len(),
            views == string_views(parts@),
            views.len() == parts@.len(),
            res@ == joined(views.take(i as int), sep@),
        decreases parts.len() - i,
    {
        assert(views.take(i + 1).drop_last() =~= views.take(i as int));
        if i != 0 {
            res.append(sep);
        } else {
            assert(res@ =~= Seq::<char>::empty());
        }
        res.append(parts[i].as_str());
        assert(views[i as int] == parts@[i as int]@);
        i = i + 1;
    }
    assert(views.take(parts.len() as int) =~= views);
    res
}

} // verus!
