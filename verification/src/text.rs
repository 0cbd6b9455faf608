//! Text primitives shared by the tokenizer and the listing renderer: characters
//! in and out of strings, decimal numerals and right alignment.
//!
//! A string is modelled by its view, the sequence of its characters.
use vstd::prelude::*;

verus! {

/// Whether a code point beyond ASCII carries the Unicode `White_Space`
/// property, as the standard library's tables have it.
pub uninterp spec fn unicode_white_space(c: char) -> bool;

/// The characters that separate words: the space, the ASCII controls from tab
/// to carriage return, and beyond ASCII whatever Unicode calls white space.
pub open spec fn is_blank(c: char) -> bool {
    c == ' ' || ('\t' <= c && c <= '\r') || (c > '\x7f' && unicode_white_space(c))
}

/// Trusted: `char::is_whitespace` answers by the Unicode `White_Space`
/// property. Within ASCII that is the space and U+0009 to U+000D; beyond it the
/// answer is whatever the library's table holds, which only has a name here.
pub assume_specification[ char::is_whitespace ](c: char) -> (r: bool)
    ensures
        r == is_blank(c),
        c > '\x7f' ==> r == unicode_white_space(c),
;

/// Trusted: `String::push` appends one character at the end and leaves the
/// rest of the string as it was.
pub assume_specification[ String::push ](s: &mut String, c: char)
    ensures
        final(s)@ == old(s)@.push(c),
;

/// The lower-case form of a text, as the standard library's Unicode tables
/// give it.
pub uninterp spec fn lowercase(s: Seq<char>) -> Seq<char>;

/// Trusted: `str::to_lowercase` returns the lower-case form of the text. The
/// mapping follows Unicode and is anything but short, so the result only has a
/// name here.
pub assume_specification[ str::to_lowercase ](s: &str) -> (r: String)
    ensures
        r@ == lowercase(s@),
;

/// The characters of `s`, in order, for code that needs to look ahead.
pub fn to_chars(s: &str) -> (v: Vec<char>)
    ensures
        v@ == s@,
{
    let mut v: Vec<char> = Vec::new();
    for c in it: s.chars()
        invariant
            it.seq() == s@,
            v@ == it.seq().take(it.index()),
    {
        v.push(c);
    }
    v
}

/// The string that holds exactly the characters `v[from..to]`.
pub fn from_chars(v: &Vec<char>, from: usize, to: usize) -> (s: String)
    requires
        from <= to <= v.len(),
    ensures
        s@ == v@.subrange(from as int, to as int),
{
    let mut s = String::new();
    let mut i: usize = from;
    while i < to
        invariant
            from <= i <= to <= v.len(),
            s@ == v@.subrange(from as int, i as int),
        decreases to - i,
    {
        s.push(v[i]);
        i = i + 1;
    }
    s
}

/// The decimal digit for `d`, meant for `d < 10`.
pub open spec fn digit(d: nat) -> char {
    (48 + d) as char
}

/// The decimal numeral of `n`: no sign, no leading zeros, `0` for zero.
pub open spec fn decimal(n: nat) -> Seq<char>
    decreases n,
{
    if n < 10 {
        seq![digit(n)]
    } else {
        decimal(n / 10).push(digit(n % 10))
    }
}

/// A numeral is never empty.
pub proof fn lemma_decimal_nonempty(n: nat)
    ensures
        decimal(n).len() >= 1,
    decreases n,
{
    if n >= 10 {
        lemma_decimal_nonempty(n / 10);
    }
}

/// A larger number never has a shorter numeral.
pub proof fn lemma_decimal_len_monotonic(a: nat, b: nat)
    requires
        a <= b,
    ensures
        decimal(a).len() <= decimal(b).len(),
    decreases b,
{
    if a >= 10 {
        lemma_decimal_len_monotonic(a / 10, b / 10);
    } else if b >= 10 {
        lemma_decimal_nonempty(b / 10);
    }
}

/// A numeral of a 64-bit number has at most twenty digits.
pub proof fn lemma_decimal_len_bound(n: nat)
    requires
        n <= u64::MAX,
    ensures
        1 <= decimal(n).len() <= 20,
{
    lemma_decimal_nonempty(n);
    lemma_decimal_len_monotonic(n, u64::MAX as nat);
    assert(decimal(u64::MAX as nat).len() == 20) by {
        reveal_with_fuel(decimal, 21);
    }
}

/// Number of characters in the decimal numeral of `n`.
pub fn decimal_width(n: u64) -> (w: usize)
    ensures
        w == decimal(n as nat).len(),
        1 <= w <= 20,
{
    let mut m: u64 = n;
    let mut w: usize = 1;
    proof {
        lemma_decimal_len_bound(n as nat);
    }
    while m >= 10
        invariant
            1 <= w,
            decimal(n as nat).len() == decimal(m as nat).len() + w - 1,
            decimal(n as nat).len() <= 20,
        decreases m,
    {
        proof {
            lemma_decimal_nonempty((m / 10) as nat);
        }
        m = m / 10;
        w = w + 1;
    }
    w
}

/// The decimal numeral of `n` as a string.
pub fn decimal_string(n: u64) -> (s: String)
    ensures
        s@ == decimal(n as nat),
{
    // Digits are produced least significant first, then written out backwards.
    let mut low_first: Vec<char> = Vec::new();
    low_first.push(digit_char((n % 10) as u8));
    let mut m: u64 = n / 10;
    let ghost head = |m: nat| if m > 0 { decimal(m) } else { Seq::<char>::empty() };
    while m > 0
        invariant
            low_first.len() >= 1,
            head == |m: nat| if m > 0 { decimal(m) } else { Seq::<char>::empty() },
            decimal(n as nat) == head(m as nat) + low_first@.reverse(),
        decreases m,
    {
        let ghost before = low_first@;
        low_first.push(digit_char((m % 10) as u8));
        proof {
            let d = digit((m % 10) as nat);
            assert(low_first@.reverse() =~= seq![d] + before.reverse());
            assert(head(m as nat) =~= head((m / 10) as nat) + seq![d]);
            assert(decimal(n as nat) =~= head((m / 10) as nat) + low_first@.reverse());
        }
        m = m / 10;
    }
    let mut s = String::new();
    let mut k: usize = low_first.len();
    while k > 0
        invariant
            k <= low_first.len(),
            s@ == low_first@.reverse().take(low_first.len() - k),
        decreases k,
    {
        k = k - 1;
        s.push(low_first[k]);
        assert(s@ =~= low_first@.reverse().take(low_first.len() - k));
    }
    assert(s@ =~= low_first@.reverse());
    s
}

fn digit_char(d: u8) -> (c: char)
    requires
        d < 10,
    ensures
        c == digit(d as nat),
{
    (48u8 + d) as char
}

/// `s` pushed to the right of a field `width` characters wide; a text that is
/// already that long stays as it is.
pub open spec fn pad_left(s: Seq<char>, width: nat) -> Seq<char> {
    if s.len() >= width {
        s
    } else {
        Seq::new((width - s.len()) as nat, |i: int| ' ') + s
    }
}

/// Right-aligns `s` in a field of `width` characters.
pub fn pad_left_str(s: &str, width: usize) -> (r: String)
    ensures
        r@ == pad_left(s@, width as nat),
{
    let n = s.unicode_len();
    let mut r = String::new();
    if n < width {
        let fill: usize = width - n;
        let mut i: usize = 0;
        while i < fill
            invariant
                i <= fill,
                r@ == Seq::new(i as nat, |j: int| ' '),
            decreases fill - i,
        {
            r.push(' ');
            i = i + 1;
            assert(r@ =~= Seq::new(i as nat, |j: int| ' '));
        }
    }
    r.append(s);
    assert(r@ =~= pad_left(s@, width as nat));
    r
}

} // verus!
