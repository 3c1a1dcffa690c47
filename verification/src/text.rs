//! Text helpers with exact specifications: decimal rendering of integers,
//! substring search and lexicographic ordering of character sequences.
use vstd::prelude::*;
use vstd::string::*;

verus! {

/// The character of a decimal digit `d` (for `d < 10`).
pub open spec fn digit_char(d: nat) -> char {
    if d == 0 { '0' }
    else if d == 1 { '1' }
    else if d == 2 { '2' }
    else if d == 3 { '3' }
    else if d == 4 { '4' }
    else if d == 5 { '5' }
    else if d == 6 { '6' }
    else if d == 7 { '7' }
    else if d == 8 { '8' }
    else { '9' }
}

/// Decimal digits of a natural number, most significant first, no leading zeros.
pub open spec fn decimal_digits(n: nat) -> Seq<char>
    decreases n,
{
    if n < 10 {
        seq![digit_char(n)]
    } else {
        decimal_digits(n / 10).push(digit_char(n % 10))
    }
}

/// Decimal rendering of an integer, with a leading `-` for negative numbers.
pub open spec fn decimal_text(i: int) -> Seq<char> {
    if i < 0 {
        seq!['-'] + decimal_digits((-i) as nat)
    } else {
        decimal_digits(i as nat)
    }
}

proof fn lemma_decimal_digits_shape(n: nat)
    ensures
        decimal_digits(n).len() >= 1,
        n < 10 <==> decimal_digits(n).len() == 1,
        decimal_digits(n)[0] != '-',
    decreases n,
{
    if n >= 10 {
        lemma_decimal_digits_shape(n / 10);
    }
}

proof fn lemma_decimal_digits_injective(n: nat, m: nat)
    requires
        decimal_digits(n) == decimal_digits(m),
    ensures
        n == m,
    decreases n,
{
    lemma_decimal_digits_shape(n);
    lemma_decimal_digits_shape(m);
    if n >= 10 && m >= 10 {
        let dn = decimal_digits(n);
        let dm = decimal_digits(m);
        assert(dn.last() == digit_char(n % 10));
        assert(dm.last() == digit_char(m % 10));
        assert(dn.drop_last() =~= decimal_digits(n / 10));
        assert(dm.drop_last() =~= decimal_digits(m / 10));
        lemma_decimal_digits_injective(n / 10, m / 10);
    }
}

/// Distinct integers have distinct decimal renderings.
pub proof fn law_decimal_text_injective(a: int, b: int)
    requires
        decimal_text(a) == decimal_text(b),
    ensures
        a == b,
{
    if a < 0 {
        lemma_decimal_digits_shape((-a) as nat);
    } else {
        lemma_decimal_digits_shape(a as nat);
    }
    if b < 0 {
        lemma_decimal_digits_shape((-b) as nat);
    } else {
        lemma_decimal_digits_shape(b as nat);
    }
    if a < 0 && b < 0 {
        assert(decimal_text(a).drop_first() =~= decimal_digits((-a) as nat));
        assert(decimal_text(b).drop_first() =~= decimal_digits((-b) as nat));
        lemma_decimal_digits_injective((-a) as nat, (-b) as nat);
    } else if a >= 0 && b >= 0 {
        lemma_decimal_digits_injective(a as nat, b as nat);
    } else {
        assert(decimal_text(a)[0] != decimal_text(b)[0]);
    }
}

fn push_digit(out: &mut String, d: u64)
    requires
        d < 10,
    ensures
        final(out)@ == old(out)@.push(digit_char(d as nat)),
{
    if d == 0 {
        proof { reveal_strlit("0"); }
        out.append("0");
    } else if d == 1 {
        proof { reveal_strlit("1"); }
        out.append("1");
    } else if d == 2 {
        proof { reveal_strlit("2"); }
        out.append("2");
    } else if d == 3 {
        proof { reveal_strlit("3"); }
        out.append("3");
    } else if d == 4 {
        proof { reveal_strlit("4"); }
        out.append("4");
    } else if d == 5 {
        proof { reveal_strlit("5"); }
        out.append("5");
    } else if d == 6 {
        proof { reveal_strlit("6"); }
        out.append("6");
    } else if d == 7 {
        proof { reveal_strlit("7"); }
        out.append("7");
    } else if d == 8 {
        proof { reveal_strlit("8"); }
        out.append("8");
    } else {
        proof { reveal_strlit("9"); }
        out.append("9");
    }
}

fn append_decimal(out: &mut String, n: u64)
    ensures
        final(out)@ == old(out)@ + decimal_digits(n as nat),
    decreases n,
{
    if n >= 10 {
        append_decimal(out, n / 10);
    }
    push_digit(out, n % 10);
    proof {
        if n >= 10 {
            assert(old(out)@ + decimal_digits(n as nat) =~= (old(out)@ + decimal_digits(
                (n / 10) as nat,
            )).push(digit_char((n % 10) as nat)));
        } else {
            assert(old(out)@ + decimal_digits(n as nat) =~= old(out)@.push(
                digit_char((n % 10) as nat),
            ));
        }
    }
}

/// Renders an `i64` in decimal, as `to_string` does.
pub fn format_decimal(x: i64) -> (s: String)
    ensures
        s@ == decimal_text(x as int),
{
    let mut out = String::new();
    if x < 0 {
        proof { reveal_strlit("-"); }
        out.append("-");
        let wide: i128 = x as i128;
        let magnitude: u64 = (-wide) as u64;
        assert(magnitude as int == -(x as int));
        append_decimal(&mut out, magnitude);
        assert(out@ =~= seq!['-'] + decimal_digits((-(x as int)) as nat));
    } else {
        let magnitude: u64 = x as u64;
        append_decimal(&mut out, magnitude);
        assert(out@ =~= decimal_digits(x as nat));
    }
    out
}


/// The characters of `s`, in order.
pub fn chars_of(s: &str) -> (v: Vec<char>)
    ensures
        v@ == s@,
{
    let n = s.unicode_len();
    let mut v: Vec<char> = Vec::new();
    let mut i: usize = 0;
    while i < n
        invariant
            n == s@.len(),
            i <= n,
            v@ == s@.take(i as int),
        decreases n - i,
    {
        let c = s.get_char(i);
        v.push(c);
        i = i + 1;
        assert(v@ =~= s@.take(i as int));
    }
    assert(s@.take(n as int) =~= s@);
    v
}

/// `needle` occurs as a contiguous block of `hay` (the empty needle occurs everywhere).
pub open spec fn contains_text(hay: Seq<char>, needle: Seq<char>) -> bool {
    exists|i: int|
        0 <= i && i + needle.len() <= hay.len() && #[trigger] hay.subrange(i, i + needle.len())
            == needle
}

fn block_matches(hay: &Vec<char>, needle: &Vec<char>, at: usize) -> (b: bool)
    requires
        at + needle@.len() <= hay@.len(),
    ensures
        b == (hay@.subrange(at as int, at + needle@.len()) == needle@),
{
    let hl = hay.len();
    let mut j: usize = 0;
    while j < needle.len()
        invariant
            hl == hay@.len(),
            at + needle@.len() <= hay@.len(),
            j <= needle@.len(),
            forall|k: int| 0 <= k < j ==> hay@[at + k] == needle@[k],
        decreases needle@.len() - j,
    {
        if hay[at + j] != needle[j] {
            assert(hay@.subrange(at as int, at + needle@.len())[j as int] != needle@[j as int]);
            return false;
        }
        j = j + 1;
    }
    assert(hay@.subrange(at as int, at + needle@.len()) =~= needle@);
    true
}

/// Substring search on text, as `str::contains` with a string pattern.
pub fn text_contains(hay: &str, needle: &str) -> (b: bool)
    ensures
        b == contains_text(hay@, needle@),
{
    let h = chars_of(hay);
    let n = chars_of(needle);
    if n.len() > h.len() {
        assert forall|i: int|
            0 <= i && i + needle@.len() <= hay@.len() implies #[trigger] hay@.subrange(
            i,
            i + needle@.len(),
        ) != needle@ by {}
        return false;
    }
    let last = h.len() - n.len();
    let mut i: usize = 0;
    while i <= last
        invariant
            h@ == hay@,
            n@ == needle@,
            last == h@.len() - n@.len(),
            n@.len() <= h@.len(),
            i <= last + 1,
            forall|k: int|
                0 <= k < i ==> #[trigger] hay@.subrange(k, k + needle@.len()) != needle@,
        decreases last + 1 - i,
    {
        if block_matches(&h, &n, i) {
            return true;
        }
        if i == last {
            return false;
        }
        i = i + 1;
    }
    false
}

/// Strict lexicographic order on character sequences, comparing code points;
/// this is the order of `str` comparison (UTF-8 preserves code-point order).
pub open spec fn text_lt(a: Seq<char>, b: Seq<char>) -> bool
    decreases a.len(),
{
    if a.len() == 0 {
        b.len() > 0
    } else if b.len() == 0 {
        false
    } else if a[0] != b[0] {
        (a[0] as u32) < (b[0] as u32)
    } else {
        text_lt(a.drop_first(), b.drop_first())
    }
}

proof fn lemma_text_lt_skip(a: Seq<char>, b: Seq<char>, i: int)
    requires
        0 <= i <= a.len(),
        i <= b.len(),
        a.take(i) == b.take(i),
    ensures
        text_lt(a, b) == text_lt(a.skip(i), b.skip(i)),
    decreases i,
{
    if i > 0 {
        assert(a[0] == a.take(i)[0]);
        assert(b[0] == b.take(i)[0]);
        assert(a.drop_first().take(i - 1) =~= a.take(i).drop_first());
        assert(b.drop_first().take(i - 1) =~= b.take(i).drop_first());
        lemma_text_lt_skip(a.drop_first(), b.drop_first(), i - 1);
        assert(a.drop_first().skip(i - 1) =~= a.skip(i));
        assert(b.drop_first().skip(i - 1) =~= b.skip(i));
    } else {
        assert(a.skip(0) =~= a);
        assert(b.skip(0) =~= b);
    }
}

/// `a` sorts strictly before `b`, as `<` on strings.
pub fn text_less(a: &str, b: &str) -> (r: bool)
    ensures
        r == text_lt(a@, b@),
{
    let x = chars_of(a);
    let y = chars_of(b);
    let mut i: usize = 0;
    while i < x.len() && i < y.len()
        invariant
            x@ == a@,
            y@ == b@,
            i <= x@.len(),
            i <= y@.len(),
            x@.take(i as int) == y@.take(i as int),
        decreases x@.len() - i,
    {
        if x[i] != y[i] {
            proof {
                lemma_text_lt_skip(x@, y@, i as int);
                assert(x@.skip(i as int)[0] == x@[i as int]);
                assert(y@.skip(i as int)[0] == y@[i as int]);
            }
            return (x[i] as u32) < (y[i] as u32);
        }
        i = i + 1;
        assert(x@.take(i as int) =~= y@.take(i as int));
    }
    proof {
        lemma_text_lt_skip(x@, y@, i as int);
    }
    i < y.len()
}

/// `text_lt` never relates a sequence to itself.
pub proof fn lemma_text_lt_irreflexive(a: Seq<char>)
    ensures
        !text_lt(a, a),
    decreases a.len(),
{
    if a.len() > 0 {
        lemma_text_lt_irreflexive(a.drop_first());
    }
}

/// `text_lt` is transitive.
pub proof fn lemma_text_lt_transitive(a: Seq<char>, b: Seq<char>, c: Seq<char>)
    requires
        text_lt(a, b),
        text_lt(b, c),
    ensures
        text_lt(a, c),
    decreases a.len(),
{
    if a.len() > 0 && b.len() > 0 && c.len() > 0 {
        if a[0] == b[0] && b[0] == c[0] {
            lemma_text_lt_transitive(a.drop_first(), b.drop_first(), c.drop_first());
        }
    }
}

proof fn lemma_code_points_differ(x: char, y: char)
    requires
        x != y,
    ensures
        (x as u32) != (y as u32),
{
}

/// Any two distinct sequences are ordered one way or the other.
pub proof fn lemma_text_lt_total(a: Seq<char>, b: Seq<char>)
    ensures
        text_lt(a, b) || text_lt(b, a) || a == b,
    decreases a.len(),
{
    if a.len() > 0 && b.len() > 0 {
        if a[0] == b[0] {
            lemma_text_lt_total(a.drop_first(), b.drop_first());
            if a.drop_first() == b.drop_first() {
                assert(a =~= seq![a[0]] + a.drop_first());
                assert(b =~= seq![b[0]] + b.drop_first());
            }
        } else {
            lemma_code_points_differ(a[0], b[0]);
        }
    } else if a.len() == 0 && b.len() == 0 {
        assert(a =~= b);
    }
}

/// Decimal rendering, digit by digit: a digit is the character with code
/// `'0'` + its value; a number of two or more digits is the rendering of its
/// tens followed by its last digit; a negative number is `-` and the
/// rendering of its magnitude.
pub proof fn law_decimal_text_digits(n: int)
    ensures
        0 <= n < 10 ==> decimal_text(n).len() == 1 && (decimal_text(n)[0] as u32) == 48 + n,
        n >= 10 ==> decimal_text(n) == decimal_text(n / 10).push(decimal_text(n % 10)[0]),
        n < 0 ==> decimal_text(n) == seq!['-'] + decimal_text(-n),
{
    if n >= 10 {
        assert(decimal_text(n % 10) == seq![digit_char((n % 10) as nat)]);
    }
}

/// A text contains every text placed in it, at any position.
pub proof fn law_contains_text_anywhere(before: Seq<char>, needle: Seq<char>, after: Seq<char>)
    ensures
        contains_text(before + needle + after, needle),
{
    let hay = before + needle + after;
    let i = before.len() as int;
    assert(hay.subrange(i, i + needle.len()) =~= needle);
}

/// A text contains only texts that occur in it: a needle longer than the
/// text is never contained.
pub proof fn law_contains_text_needs_room(hay: Seq<char>, needle: Seq<char>)
    requires
        needle.len() > hay.len(),
    ensures
        !contains_text(hay, needle),
{
}

/// Text order is decided at the first differing position by code point, and
/// a proper prefix comes first.
pub proof fn law_text_lt_is_lexicographic(a: Seq<char>, b: Seq<char>, k: int)
    requires
        0 <= k <= a.len(),
        k <= b.len(),
        a.take(k) == b.take(k),
    ensures
        k < a.len() && k < b.len() && a[k] != b[k] ==> (text_lt(a, b) <==> (a[k] as u32) < (b[k] as u32)),
        k == a.len() && k < b.len() ==> text_lt(a, b),
        k == a.len() && k == b.len() ==> !text_lt(a, b),
{
    lemma_text_lt_skip(a, b, k);
    if k < a.len() && k < b.len() {
        assert(a.skip(k)[0] == a[k]);
        assert(b.skip(k)[0] == b[k]);
    }
}

} // verus!
