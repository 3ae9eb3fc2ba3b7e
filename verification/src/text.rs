use vstd::prelude::*;

verus! {

/// Appends a character to a string.
pub assume_specification[ String::push ](string: &mut String, ch: char)
    ensures
        final(string)@ == old(string)@.push(ch),
;

/// The characters of `s`, in order.
pub fn chars_of(s: &str) -> (v: Vec<char>)
    ensures
        v@ == s@,
{
    let mut v: Vec<char> = Vec::new();
    for c in it: s.chars()
        invariant
            v@ == it.seq().take(it.index() as int),
    {
        v.push(c);
    }
    v
}

/// A string holding the characters `chars[lo..hi]`.
pub fn string_of(chars: &Vec<char>, lo: usize, hi: usize) -> (s: String)
    requires
        lo <= hi <= chars.len(),
    ensures
        s@ == chars@.subrange(lo as int, hi as int),
{
    let mut s = String::new();
    let mut i = lo;
    while i < hi
        invariant
            lo <= i <= hi <= chars.len(),
            s@ == chars@.subrange(lo as int, i as int),
        decreases hi - i,
    {
        s.push(chars[i]);
        proof {
            assert(chars@.subrange(lo as int, i + 1) =~= chars@.subrange(lo as int, i as int).push(
                chars@[i as int],
            ));
        }
        i = i + 1;
    }
    s
}

/// Appends `tail` to `s`.
pub fn push_str(s: &mut String, tail: &str)
    ensures
        final(s)@ == old(s)@ + tail@,
{
    let cs = chars_of(tail);
    let mut i: usize = 0;
    while i < cs.len()
        invariant
            i <= cs.len(),
            cs@ == tail@,
            s@ == old(s)@ + tail@.take(i as int),
        decreases cs.len() - i,
    {
        s.push(cs[i]);
        proof {
            assert(tail@.take(i + 1) =~= tail@.take(i as int).push(tail@[i as int]));
        }
        i = i + 1;
    }
    proof {
        assert(tail@.take(cs.len() as int) =~= tail@);
    }
}

/// `s` concatenated with `t`.
pub fn concat(s: &str, t: &str) -> (r: String)
    ensures
        r@ == s@ + t@,
{
    let mut r = String::new();
    push_str(&mut r, s);
    push_str(&mut r, t);
    proof {
        assert(Seq::<char>::empty() + s@ =~= s@);
    }
    r
}

/// Whether `c` is Unicode white space, as `char::is_whitespace` decides it.
pub open spec fn is_white(c: char) -> bool {
    let u = c as u32;
    ||| 9 <= u <= 13
    ||| u == 32
    ||| u == 0x85
    ||| u == 0xA0
    ||| u == 0x1680
    ||| 0x2000 <= u <= 0x200A
    ||| u == 0x2028
    ||| u == 0x2029
    ||| u == 0x202F
    ||| u == 0x205F
    ||| u == 0x3000
}

pub fn is_whitespace(c: char) -> (b: bool)
    ensures
        b == is_white(c),
{
    let u = c as u32;
    (9 <= u && u <= 13) || u == 32 || u == 0x85 || u == 0xA0 || u == 0x1680 || (0x2000 <= u && u
        <= 0x200A) || u == 0x2028 || u == 0x2029 || u == 0x202F || u == 0x205F || u == 0x3000
}

/// `s` without its leading white space.
pub open spec fn trim_start(s: Seq<char>) -> Seq<char>
    decreases s.len(),
{
    if s.len() > 0 && is_white(s[0]) {
        trim_start(s.drop_first())
    } else {
        s
    }
}

/// `s` without its trailing white space.
pub open spec fn trim_end(s: Seq<char>) -> Seq<char>
    decreases s.len(),
{
    if s.len() > 0 && is_white(s.last()) {
        trim_end(s.drop_last())
    } else {
        s
    }
}

/// `s` without white space at either end.
pub open spec fn trim(s: Seq<char>) -> Seq<char> {
    trim_end(trim_start(s))
}

/// Whether `s` begins with `prefix`.
pub open spec fn has_prefix(s: Seq<char>, prefix: Seq<char>) -> bool {
    prefix.len() <= s.len() && s.subrange(0, prefix.len() as int) == prefix
}

proof fn lemma_trim_start_skip(s: Seq<char>, i: int)
    requires
        0 <= i <= s.len(),
        forall|j: int| 0 <= j < i ==> is_white(#[trigger] s[j]),
    ensures
        trim_start(s) == trim_start(s.skip(i)),
    decreases i,
{
    if i > 0 {
        assert(s.skip(1) =~= s.drop_first());
        lemma_trim_start_skip(s.drop_first(), i - 1);
        assert(s.drop_first().skip(i - 1) =~= s.skip(i));
    } else {
        assert(s.skip(0) =~= s);
    }
}

proof fn lemma_trim_end_take(s: Seq<char>, i: int)
    requires
        0 <= i <= s.len(),
        forall|j: int| i <= j < s.len() ==> is_white(#[trigger] s[j]),
    ensures
        trim_end(s) == trim_end(s.take(i)),
    decreases s.len() - i,
{
    if i < s.len() {
        lemma_trim_end_take(s.drop_last(), i);
        assert(s.drop_last().take(i) =~= s.take(i));
    } else {
        assert(s.take(i) =~= s);
    }
}

/// Index of the first character of `cs[lo..hi]` that is not white space, or `hi`.
fn first_non_white(cs: &Vec<char>, lo: usize, hi: usize) -> (i: usize)
    requires
        lo <= hi <= cs.len(),
    ensures
        lo <= i <= hi,
        forall|j: int| lo <= j < i ==> is_white(#[trigger] cs@[j]),
        i < hi ==> !is_white(cs@[i as int]),
{
    let mut i = lo;
    while i < hi && is_whitespace(cs[i])
        invariant
            lo <= i <= hi <= cs.len(),
            forall|j: int| lo <= j < i ==> is_white(#[trigger] cs@[j]),
        decreases hi - i,
    {
        i = i + 1;
    }
    i
}

/// Index just past the last character of `cs[lo..hi]` that is not white space, or `lo`.
fn last_non_white(cs: &Vec<char>, lo: usize, hi: usize) -> (i: usize)
    requires
        lo <= hi <= cs.len(),
    ensures
        lo <= i <= hi,
        forall|j: int| i <= j < hi ==> is_white(#[trigger] cs@[j]),
        i > lo ==> !is_white(cs@[i - 1]),
{
    let mut i = hi;
    while i > lo && is_whitespace(cs[i - 1])
        invariant
            lo <= i <= hi <= cs.len(),
            forall|j: int| i <= j < hi ==> is_white(#[trigger] cs@[j]),
        decreases i - lo,
    {
        i = i - 1;
    }
    i
}

/// Bounds of `trim_start(cs[lo..hi])` inside `cs`.
pub fn trim_start_bounds(cs: &Vec<char>, lo: usize, hi: usize) -> (i: usize)
    requires
        lo <= hi <= cs.len(),
    ensures
        lo <= i <= hi,
        cs@.subrange(i as int, hi as int) == trim_start(cs@.subrange(lo as int, hi as int)),
{
    let i = first_non_white(cs, lo, hi);
    proof {
        let s = cs@.subrange(lo as int, hi as int);
        lemma_trim_start_skip(s, i - lo);
        assert(s.skip(i - lo) =~= cs@.subrange(i as int, hi as int));
        let t = cs@.subrange(i as int, hi as int);
        if t.len() > 0 {
            assert(t[0] == cs@[i as int]);
        }
    }
    i
}

/// Bounds of `trim(cs[lo..hi])` inside `cs`.
pub fn trim_bounds(cs: &Vec<char>, lo: usize, hi: usize) -> (b: (usize, usize))
    requires
        lo <= hi <= cs.len(),
    ensures
        lo <= b.0 <= b.1 <= hi,
        cs@.subrange(b.0 as int, b.1 as int) == trim(cs@.subrange(lo as int, hi as int)),
{
    let i = trim_start_bounds(cs, lo, hi);
    let j = last_non_white(cs, i, hi);
    proof {
        let t = cs@.subrange(i as int, hi as int);
        lemma_trim_end_take(t, j - i);
        assert(t.take(j - i) =~= cs@.subrange(i as int, j as int));
        let u = cs@.subrange(i as int, j as int);
        if u.len() > 0 {
            assert(u.last() == cs@[j - 1]);
        }
    }
    (i, j)
}

/// Whether `cs[lo..hi]` begins with `prefix`.
pub fn chars_start_with(cs: &Vec<char>, lo: usize, hi: usize, prefix: &str) -> (b: bool)
    requires
        lo <= hi <= cs.len(),
    ensures
        b == has_prefix(cs@.subrange(lo as int, hi as int), prefix@),
{
    let p = chars_of(prefix);
    if p.len() > hi - lo {
        return false;
    }
    let mut k: usize = 0;
    while k < p.len()
        invariant
            lo <= hi <= cs.len(),
            p@ == prefix@,
            p.len() <= hi - lo,
            k <= p.len(),
            forall|j: int| 0 <= j < k ==> cs@[lo + j] == p@[j],
        decreases p.len() - k,
    {
        if cs[lo + k] != p[k] {
            proof {
                let s = cs@.subrange(lo as int, hi as int);
                assert(s.subrange(0, p.len() as int)[k as int] != p@[k as int]);
            }
            return false;
        }
        k = k + 1;
    }
    proof {
        let s = cs@.subrange(lo as int, hi as int);
        assert(s.subrange(0, p.len() as int) =~= p@);
    }
    true
}

/// The character for decimal digit `d`.
pub open spec fn digit_char(d: nat) -> char {
    (d + 48) as char
}

/// Decimal text of `n`, without leading zeros.
pub open spec fn dec(n: nat) -> Seq<char>
    decreases n,
{
    if n < 10 {
        seq![digit_char(n)]
    } else {
        dec(n / 10).push(digit_char(n % 10))
    }
}

/// `s` padded on the left with zeros to at least `width` characters.
pub open spec fn zero_pad(s: Seq<char>, width: nat) -> Seq<char> {
    if s.len() >= width {
        s
    } else {
        Seq::new((width - s.len()) as nat, |i: int| '0') + s
    }
}

/// Decimal text of a signed integer, with a leading `-` when negative.
pub open spec fn int_text(i: int) -> Seq<char> {
    if i < 0 {
        seq!['-'] + dec((-i) as nat)
    } else {
        dec(i as nat)
    }
}

fn digit(d: u64) -> (c: char)
    requires
        d < 10,
    ensures
        c == digit_char(d as nat),
{
    let c = if d == 0 {
        '0'
    } else if d == 1 {
        '1'
    } else if d == 2 {
        '2'
    } else if d == 3 {
        '3'
    } else if d == 4 {
        '4'
    } else if d == 5 {
        '5'
    } else if d == 6 {
        '6'
    } else if d == 7 {
        '7'
    } else if d == 8 {
        '8'
    } else {
        '9'
    };
    c
}

/// Decimal digits of `n`.
pub fn dec_digits(n: u64) -> (v: Vec<char>)
    ensures
        v@ == dec(n as nat),
        1 <= v.len() <= 20,
{
    let mut v: Vec<char> = Vec::new();
    let mut cur = n;
    while cur >= 10
        invariant
            cur <= n,
            dec(n as nat) == dec(cur as nat) + v@,
        decreases cur,
    {
        let d = digit(cur % 10);
        proof {
            assert(dec(cur as nat) == dec((cur / 10) as nat).push(d));
            assert(dec((cur / 10) as nat) + v@.insert(0, d) =~= dec(cur as nat) + v@);
        }
        v.insert(0, d);
        cur = cur / 10;
    }
    let d = digit(cur);
    v.insert(0, d);
    proof {
        assert(dec(n as nat) =~= v@);
        assert(pow10(20) == 100000000000000000000nat) by {
            reveal_with_fuel(pow10, 21);
        }
        lemma_dec_len(n as nat, 20);
    }
    v
}

pub open spec fn pow10(k: nat) -> nat
    decreases k,
{
    if k == 0 {
        1
    } else {
        10 * pow10((k - 1) as nat)
    }
}

pub proof fn lemma_dec_len(n: nat, k: nat)
    ensures
        1 <= dec(n).len(),
        1 <= k && n < pow10(k) ==> dec(n).len() <= k,
    decreases n,
{
    if n >= 10 {
        if 2 <= k && n < pow10(k) {
            let p = pow10((k - 1) as nat);
            assert(pow10(k) == 10 * p);
            assert(n / 10 < p) by (nonlinear_arith)
                requires
                    n < 10 * p,
            ;
        }
        if k == 1 {
            assert(pow10(1) == 10) by {
                reveal_with_fuel(pow10, 2);
            }
        }
        lemma_dec_len(n / 10, (k - 1) as nat);
    }
}

/// Appends the decimal text of `n`, zero-padded to `width`.
pub fn push_padded(s: &mut String, n: u64, width: usize)
    ensures
        final(s)@ == old(s)@ + zero_pad(dec(n as nat), width as nat),
{
    let digits = dec_digits(n);
    let mut k = digits.len();
    while k < width
        invariant
            digits.len() <= k,
            k <= width || k == digits.len(),
            s@ == old(s)@ + Seq::new((k - digits.len()) as nat, |i: int| '0'),
        decreases width - k,
    {
        s.push('0');
        proof {
            assert(Seq::new((k + 1 - digits.len()) as nat, |i: int| '0') =~= Seq::new(
                (k - digits.len()) as nat,
                |i: int| '0',
            ).push('0'));
        }
        k = k + 1;
    }
    let ghost before = s@;
    let mut i: usize = 0;
    while i < digits.len()
        invariant
            i <= digits.len(),
            s@ == before + digits@.take(i as int),
        decreases digits.len() - i,
    {
        s.push(digits[i]);
        proof {
            assert(digits@.take(i + 1) =~= digits@.take(i as int).push(digits@[i as int]));
        }
        i = i + 1;
    }
    proof {
        assert(digits@.take(digits.len() as int) =~= digits@);
        if digits.len() >= width {
            assert(Seq::new(0nat, |i: int| '0') + digits@ =~= digits@);
            assert(old(s)@ + Seq::new(0nat, |i: int| '0') =~= old(s)@);
        }
        assert(old(s)@ + Seq::new((k - digits.len()) as nat, |i: int| '0') + digits@ =~= old(s)@
            + (Seq::new((k - digits.len()) as nat, |i: int| '0') + digits@));
    }
}

/// Appends the decimal text of a signed integer.
pub fn push_int(s: &mut String, i: i64)
    ensures
        final(s)@ == old(s)@ + int_text(i as int),
{
    if i < 0 {
        s.push('-');
        let m: u64 = if i == i64::MIN {
            9223372036854775808u64
        } else {
            (-i) as u64
        };
        push_padded(s, m, 0);
        proof {
            assert(old(s)@.push('-') + dec(m as nat) =~= old(s)@ + (seq!['-'] + dec(m as nat)));
        }
    } else {
        push_padded(s, i as u64, 0);
    }
}


/// Whether `c` is an ASCII decimal digit.
pub open spec fn is_digit(c: char) -> bool {
    48 <= (c as u32) <= 57
}

/// The value of a decimal digit character.
pub open spec fn digit_value(c: char) -> nat {
    if is_digit(c) {
        (c as u32 - 48) as nat
    } else {
        0
    }
}

/// The number a string of decimal digits denotes.
pub open spec fn digits_value(s: Seq<char>) -> nat
    decreases s.len(),
{
    if s.len() == 0 {
        0
    } else {
        digits_value(s.drop_last()) * 10 + digit_value(s.last())
    }
}

/// `s` without a leading `+`.
pub open spec fn unsigned_digits(s: Seq<char>) -> Seq<char> {
    if s.len() > 0 && s[0] == '+' {
        s.drop_first()
    } else {
        s
    }
}

/// Whether every character of `d` is a decimal digit.
pub open spec fn all_digits(d: Seq<char>) -> bool {
    forall|i: int| 0 <= i < d.len() ==> is_digit(#[trigger] d[i])
}

/// What `str::parse` gives for an unsigned integer type whose largest value is `max`: an
/// optional `+`, then one or more digits, denoting at most `max`.
pub open spec fn parse_unsigned(s: Seq<char>, max: nat) -> Option<nat> {
    let d = unsigned_digits(s);
    if d.len() > 0 && all_digits(d) && digits_value(d) <= max {
        Some(digits_value(d))
    } else {
        None
    }
}

proof fn lemma_digits_value_grows(s: Seq<char>, k: int)
    requires
        0 <= k <= s.len(),
    ensures
        digits_value(s.take(k)) <= digits_value(s),
    decreases s.len() - k,
{
    if k < s.len() {
        lemma_digits_value_grows(s, k + 1);
        assert(s.take(k + 1).drop_last() =~= s.take(k));
    } else {
        assert(s.take(k) =~= s);
    }
}

/// Parses `cs[lo..hi]` as `str::parse` does for an unsigned integer type whose largest value
/// is `max`.
pub fn parse_unsigned_chars(cs: &Vec<char>, lo: usize, hi: usize, max: u64) -> (r: Option<u64>)
    requires
        lo <= hi <= cs.len(),
    ensures
        match parse_unsigned(cs@.subrange(lo as int, hi as int), max as nat) {
            Some(n) => r == Some(n as u64),
            None => r is None,
        },
{
    let ghost s = cs@.subrange(lo as int, hi as int);
    let start = if lo < hi && cs[lo] == '+' {
        lo + 1
    } else {
        lo
    };
    let ghost d = cs@.subrange(start as int, hi as int);
    proof {
        if lo < hi && cs@[lo as int] == '+' {
            assert(d =~= s.drop_first());
        } else {
            assert(d =~= s);
        }
    }
    if start == hi {
        return None;
    }
    let mut acc: u64 = 0;
    let mut k = start;
    while k < hi
        invariant
            lo <= start <= k <= hi <= cs.len(),
            d == cs@.subrange(start as int, hi as int),
            s == cs@.subrange(lo as int, hi as int),
            d == unsigned_digits(s),
            acc as nat == digits_value(d.take(k - start)),
            acc <= max,
            forall|i: int| 0 <= i < k - start ==> is_digit(#[trigger] d[i]),
        decreases hi - k,
    {
        let c = cs[k];
        let u = c as u32;
        if u < 48 || u > 57 {
            proof {
                assert(d[k - start] == c);
                assert(!is_digit(d[k - start]));
                assert(!all_digits(d));
            }
            return None;
        }
        let next: u128 = (acc as u128) * 10 + ((u - 48) as u128);
        proof {
            assert(d.take(k - start + 1).drop_last() =~= d.take(k - start));
            assert(d.take(k - start + 1).last() == c);
        }
        if next > max as u128 {
            proof {
                lemma_digits_value_grows(d, k - start + 1);
            }
            return None;
        }
        acc = next as u64;
        k = k + 1;
    }
    proof {
        assert(d.take(hi - start) =~= d);
    }
    Some(acc)
}

/// Reading back the decimal text of a number gives the number: parsing inverts formatting,
/// for every value the target type can hold.
pub proof fn lemma_parse_dec(n: nat, max: nat)
    requires
        n <= max,
    ensures
        parse_unsigned(dec(n), max) == Some(n),
{
    lemma_dec_digits(n);
    lemma_dec_len(n, 1);
    assert(unsigned_digits(dec(n)) == dec(n));
}

proof fn lemma_dec_digits(n: nat)
    ensures
        all_digits(dec(n)),
        digits_value(dec(n)) == n,
        dec(n)[0] != '+',
    decreases n,
{
    let d = (n % 10) as nat;
    assert(((d + 48) as char) as u32 == d + 48);
    if n >= 10 {
        lemma_dec_digits(n / 10);
        let s = dec(n);
        assert(s.drop_last() == dec(n / 10));
        assert(all_digits(s)) by {
            assert forall|i: int| 0 <= i < s.len() implies is_digit(#[trigger] s[i]) by {
                if i < s.len() - 1 {
                    assert(s[i] == dec(n / 10)[i]);
                }
            }
        }
        lemma_dec_len(n / 10, 1);
        assert(s[0] == dec(n / 10)[0]);
        assert(s.last() == digit_char(d));
        assert(digit_value(s.last()) == d);
        assert(digits_value(s) == digits_value(dec(n / 10)) * 10 + d);
        assert((n / 10) * 10 + n % 10 == n);
        assert(digits_value(s) == n);
    } else {
        let s = dec(n);
        assert(s == seq![digit_char(n)]);
        assert(s.drop_last() =~= Seq::<char>::empty());
        assert(digits_value(s.drop_last()) == 0);
        assert(digit_value(digit_char(n)) == n);
        assert(s.last() == digit_char(n));
        assert(digits_value(s) == n);
    }
}

/// The part of `s` before the first `c` (all of `s` when there is none).
pub open spec fn before_char(s: Seq<char>, c: char) -> Seq<char>
    decreases s.len(),
{
    if s.len() == 0 {
        s
    } else if s[0] == c {
        Seq::empty()
    } else {
        seq![s[0]] + before_char(s.drop_first(), c)
    }
}

proof fn lemma_before_char(s: Seq<char>, c: char, i: int)
    requires
        0 <= i <= s.len(),
        i < s.len() ==> s[i] == c,
        forall|j: int| 0 <= j < i ==> #[trigger] s[j] != c,
    ensures
        before_char(s, c) == s.take(i),
    decreases i,
{
    if i == 0 {
        if s.len() > 0 {
        }
        assert(s.take(0) =~= Seq::<char>::empty());
    } else {
        lemma_before_char(s.drop_first(), c, i - 1);
        assert(seq![s[0]] + s.drop_first().take(i - 1) =~= s.take(i));
    }
}

pub proof fn lemma_before_char_no(s: Seq<char>, c: char, j: int)
    requires
        0 <= j < before_char(s, c).len(),
    ensures
        before_char(s, c)[j] != c,
    decreases s.len(),
{
    if s.len() > 0 && s[0] != c {
        assert(before_char(s, c) =~= seq![s[0]] + before_char(s.drop_first(), c));
        if j > 0 {
            lemma_before_char_no(s.drop_first(), c, j - 1);
        }
    }
}

/// Index of the first `c` in `cs`, or its length.
pub fn find_char(cs: &Vec<char>, c: char) -> (i: usize)
    ensures
        i <= cs.len(),
        cs@.take(i as int) == before_char(cs@, c),
{
    let mut i: usize = 0;
    while i < cs.len() && cs[i] != c
        invariant
            i <= cs.len(),
            forall|j: int| 0 <= j < i ==> #[trigger] cs@[j] != c,
        decreases cs.len() - i,
    {
        i = i + 1;
    }
    proof {
        lemma_before_char(cs@, c, i as int);
    }
    i
}

} // verus!
