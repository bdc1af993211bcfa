//! Text primitives shared by the serializer and the planners: per-character
//! substitution, decimal and hexadecimal numerals, padding and ordering.

use vstd::arithmetic::div_mod::lemma_small_mod;
use vstd::arithmetic::power2::*;
use vstd::prelude::*;
use vstd::string::*;

verus! {

/// Appends one character to `s`.
///
/// Trusted: `String::push` appends exactly the given character.
#[verifier::external_body]
pub(crate) fn push_char(s: &mut String, c: char)
    ensures
        final(s)@ == old(s)@.push(c),
{
    s.push(c);
}

/// Whether two texts hold the same characters.
///
/// Trusted: `==` on `str` compares the two texts character by character.
#[verifier::external_body]
pub(crate) fn same_text(a: &str, b: &str) -> (r: bool)
    ensures
        r == (a@ == b@),
{
    a == b
}

/// The text obtained from `s` by replacing every character `c` by `f(c)`.
pub open spec fn substitute(s: Seq<char>, f: spec_fn(char) -> Seq<char>) -> Seq<char>
    decreases s.len(),
{
    if s.len() == 0 {
        Seq::empty()
    } else {
        substitute(s.drop_last(), f) + f(s.last())
    }
}

/// Replacing character by character goes through joined texts part by
/// part.
pub proof fn lemma_substitute_join(a: Seq<char>, b: Seq<char>, f: spec_fn(char) -> Seq<char>)
    ensures
        substitute(a + b, f) == substitute(a, f) + substitute(b, f),
    decreases b.len(),
{
    if b.len() == 0 {
        assert(a + b =~= a);
        assert(substitute(a, f) + substitute(b, f) =~= substitute(a, f));
    } else {
        lemma_substitute_join(a, b.drop_last(), f);
        assert((a + b).drop_last() =~= a + b.drop_last());
        assert((a + b).last() == b.last());
        assert(substitute(a, f) + substitute(b.drop_last(), f) + f(b.last()) =~= substitute(a, f)
            + (substitute(b.drop_last(), f) + f(b.last())));
    }
}

/// Replacing by `f` and then by `g` is replacing each character by what
/// `g` makes of what `f` made of it.
pub proof fn lemma_substitute_twice(
    s: Seq<char>,
    f: spec_fn(char) -> Seq<char>,
    g: spec_fn(char) -> Seq<char>,
)
    ensures
        substitute(substitute(s, f), g) == substitute(s, |c: char| substitute(f(c), g)),
    decreases s.len(),
{
    let fg = |c: char| substitute(f(c), g);
    if s.len() > 0 {
        lemma_substitute_twice(s.drop_last(), f, g);
        lemma_substitute_join(substitute(s.drop_last(), f), f(s.last()), g);
        assert(fg(s.last()) == substitute(f(s.last()), g));
    }
}

/// Replacements that agree on every character give the same text.
pub proof fn lemma_substitute_same(
    s: Seq<char>,
    f: spec_fn(char) -> Seq<char>,
    g: spec_fn(char) -> Seq<char>,
)
    requires
        forall|c: char| #[trigger] f(c) == g(c),
    ensures
        substitute(s, f) == substitute(s, g),
    decreases s.len(),
{
    if s.len() > 0 {
        lemma_substitute_same(s.drop_last(), f, g);
    }
}

/// What replacing makes of one character, and of two.
pub proof fn lemma_substitute_short(a: char, b: char, f: spec_fn(char) -> Seq<char>)
    ensures
        substitute(seq![a], f) == f(a),
        substitute(seq![a, b], f) == f(a) + f(b),
{
    assert(seq![a].drop_last() =~= Seq::<char>::empty());
    assert(substitute(Seq::<char>::empty(), f) + f(a) =~= f(a));
    assert(seq![a, b].drop_last() =~= seq![a]);
}

/// The replacement of one character by a text.
pub open spec fn replacing(from: char, to: Seq<char>) -> spec_fn(char) -> Seq<char> {
    |c: char|
        if c == from {
            to
        } else {
            seq![c]
        }
}

/// The characters of `s`, one by one.
pub fn chars_of(s: &str) -> (v: Vec<char>)
    ensures
        v@ == s@,
{
    let mut v: Vec<char> = Vec::new();
    for c in it: s.chars()
        invariant
            it.seq() == s@,
            v@ == s@.take(it.index() as int),
    {
        v.push(c);
        assert(s@.take(it.index() + 1) == s@.take(it.index() as int).push(c));
    }
    assert(s@.take(s@.len() as int) == s@);
    v
}

/// `n` copies of `c`.
pub open spec fn repeated(c: char, n: nat) -> Seq<char> {
    Seq::new(n, |i: int| c)
}

/// `s` with copies of `fill` in front, as many as it takes to reach `width`.
pub open spec fn pad_left(s: Seq<char>, width: nat, fill: char) -> Seq<char> {
    if s.len() >= width {
        s
    } else {
        repeated(fill, (width - s.len()) as nat) + s
    }
}

/// `s` with copies of `fill` behind, as many as it takes to reach `width`.
pub open spec fn pad_right(s: Seq<char>, width: nat, fill: char) -> Seq<char> {
    if s.len() >= width {
        s
    } else {
        s + repeated(fill, (width - s.len()) as nat)
    }
}

/// The digit that stands for `d` (lower case from ten on).
pub open spec fn digit_char(d: int) -> char {
    if d == 0 {
        '0'
    } else if d == 1 {
        '1'
    } else if d == 2 {
        '2'
    } else if d == 3 {
        '3'
    } else if d == 4 {
        '4'
    } else if d == 5 {
        '5'
    } else if d == 6 {
        '6'
    } else if d == 7 {
        '7'
    } else if d == 8 {
        '8'
    } else if d == 9 {
        '9'
    } else if d == 10 {
        'a'
    } else if d == 11 {
        'b'
    } else if d == 12 {
        'c'
    } else if d == 13 {
        'd'
    } else if d == 14 {
        'e'
    } else {
        'f'
    }
}

/// The numeral of `n` in the given base, without leading zeros.
pub open spec fn numeral(n: nat, base: nat) -> Seq<char>
    decreases n,
    via numeral_decreases
{
    if base < 2 || n < base {
        seq![digit_char(n as int)]
    } else {
        numeral(n / base, base).push(digit_char((n % base) as int))
    }
}

#[via_fn]
proof fn numeral_decreases(n: nat, base: nat) {
    if base >= 2 && n >= base {
        assert(n / base < n) by (nonlinear_arith)
            requires
                2 <= base <= n,
        ;
    }
}

/// The decimal numeral of `n`.
pub open spec fn decimal(n: nat) -> Seq<char> {
    numeral(n, 10)
}

/// The hexadecimal numeral of `n`, in lower case.
pub open spec fn hexadecimal(n: nat) -> Seq<char> {
    numeral(n, 16)
}

/// The decimal numeral of a possibly negative number.
pub open spec fn signed_decimal(n: int) -> Seq<char> {
    if n < 0 {
        seq!['-'] + decimal((-n) as nat)
    } else {
        decimal(n as nat)
    }
}

/// The decimal numeral of `n` with zeros in front up to `width` digits.
pub open spec fn zero_padded(n: nat, width: nat) -> Seq<char> {
    pad_left(decimal(n), width, '0')
}

/// The digit that stands for `d`.
pub fn digit(d: u64) -> (c: char)
    requires
        d < 16,
    ensures
        c == digit_char(d as int),
{
    if d == 0 {
        '0'
    } else if d == 1 {
        '1'
    } else if d == 2 {
        '2'
    } else if d == 3 {
        '3'
    } else if d == 4 {
        '4'
    } else if d == 5 {
        '5'
    } else if d == 6 {
        '6'
    } else if d == 7 {
        '7'
    } else if d == 8 {
        '8'
    } else if d == 9 {
        '9'
    } else if d == 10 {
        'a'
    } else if d == 11 {
        'b'
    } else if d == 12 {
        'c'
    } else if d == 13 {
        'd'
    } else if d == 14 {
        'e'
    } else {
        'f'
    }
}

/// Appends the numeral of `n` in the given base.
pub fn push_numeral(out: &mut String, n: u64, base: u64)
    requires
        2 <= base <= 16,
    ensures
        final(out)@ == old(out)@ + numeral(n as nat, base as nat),
    decreases n,
{
    if n >= base {
        assert(n / base < n) by (nonlinear_arith)
            requires
                2 <= base <= n,
        ;
        push_numeral(out, n / base, base);
        assert(numeral(n as nat, base as nat) == numeral((n / base) as nat, base as nat).push(
            digit_char((n % base) as int),
        ));
    } else {
        proof {
            lemma_small_mod(n as nat, base as nat);
        }
    }
    push_char(out, digit(n % base));
    assert(out@ =~= old(out)@ + numeral(n as nat, base as nat));
}

/// The number of digits of the numeral of `n` in the given base.
pub fn numeral_len(n: u64, base: u64) -> (len: usize)
    requires
        2 <= base <= 16,
    ensures
        len == numeral(n as nat, base as nat).len(),
        1 <= len <= 64,
    decreases n,
{
    if n >= base {
        assert(n / base < n) by (nonlinear_arith)
            requires
                2 <= base <= n,
        ;
        let inner = numeral_len(n / base, base);
        proof {
            lemma_numeral_len_bound(n as nat, base as nat);
        }
        inner + 1
    } else {
        1
    }
}

/// A numeral in base two or more has at most as many digits as the number
/// has bits.
pub proof fn lemma_numeral_len_bound(n: nat, base: nat)
    requires
        base >= 2,
        n <= u64::MAX,
    ensures
        1 <= numeral(n, base).len() <= 64,
{
    lemma2_to64();
    lemma_numeral_len_pow(n, base, 64);
}

proof fn lemma_numeral_len_pow(n: nat, base: nat, k: nat)
    requires
        base >= 2,
        k >= 1,
        n < pow2(k),
    ensures
        1 <= numeral(n, base).len() <= k,
    decreases k,
{
    if n < base {
    } else {
        assert(n / base <= n / 2) by (nonlinear_arith)
            requires
                base >= 2,
        ;
        lemma_pow2_unfold(k);
        if k == 1 {
            lemma2_to64();
        } else {
            lemma_numeral_len_pow(n / base, base, (k - 1) as nat);
        }
    }
}

/// Appends `count` copies of `c`.
pub fn push_repeated(out: &mut String, c: char, count: usize)
    ensures
        final(out)@ == old(out)@ + repeated(c, count as nat),
{
    let ghost before = out@;
    let mut i: usize = 0;
    assert(out@ =~= before + repeated(c, 0));
    while i < count
        invariant
            i <= count,
            out@ == before + repeated(c, i as nat),
        decreases count - i,
    {
        push_char(out, c);
        i += 1;
        assert(out@ =~= before + repeated(c, i as nat));
    }
}

/// Appends the decimal numeral of `n`, filled up in front to `width`.
pub fn push_padded_decimal(out: &mut String, n: u64, width: usize, fill: char)
    ensures
        final(out)@ == old(out)@ + pad_left(decimal(n as nat), width as nat, fill),
{
    let len = numeral_len(n, 10);
    let ghost before = out@;
    if len < width {
        push_repeated(out, fill, width - len);
    }
    push_numeral(out, n, 10);
    assert(out@ =~= before + pad_left(decimal(n as nat), width as nat, fill));
}

/// Appends the decimal numeral of a possibly negative number.
pub fn push_signed_decimal(out: &mut String, n: i64)
    ensures
        final(out)@ == old(out)@ + signed_decimal(n as int),
{
    let ghost before = out@;
    if n < 0 {
        push_char(out, '-');
        let magnitude: u64 = if n == i64::MIN {
            9223372036854775808u64
        } else {
            (-n) as u64
        };
        push_numeral(out, magnitude, 10);
        assert(out@ =~= before + signed_decimal(n as int));
    } else {
        push_numeral(out, n as u64, 10);
    }
}

/// `text` with every `from` replaced by `to`.
pub open spec fn replaced(text: Seq<char>, from: char, to: Seq<char>) -> Seq<char> {
    substitute(text, replacing(from, to))
}

/// A copy of `text` in which `to` stands for every `from`.
pub fn replace(text: &str, from: char, to: &str) -> (out: String)
    ensures
        out@ == replaced(text@, from, to@),
{
    let mut out = String::new();
    for c in it: text.chars()
        invariant
            it.seq() == text@,
            out@ == replaced(text@.take(it.index() as int), from, to@),
    {
        assert(text@.take(it.index() + 1).drop_last() == text@.take(it.index() as int));
        if c == from {
            out.append(to);
        } else {
            push_char(&mut out, c);
        }
    }
    assert(text@.take(text@.len() as int) == text@);
    out
}

/// Whether `text` begins with `prefix`.
pub fn starts_with(text: &str, prefix: &str) -> (r: bool)
    ensures
        r == prefix@.is_prefix_of(text@),
{
    let t = chars_of(text);
    let p = chars_of(prefix);
    if p.len() > t.len() {
        return false;
    }
    let mut i: usize = 0;
    while i < p.len()
        invariant
            i <= p.len() <= t.len(),
            t@ == text@,
            p@ == prefix@,
            forall|k: int| 0 <= k < i ==> t@[k] == p@[k],
        decreases p.len() - i,
    {
        if t[i] != p[i] {
            assert(text@.subrange(0, prefix@.len() as int)[i as int] != prefix@[i as int]);
            return false;
        }
        i += 1;
    }
    assert(prefix@ =~= text@.subrange(0, prefix@.len() as int));
    true
}

/// Whether `text` ends with `suffix`.
pub open spec fn has_suffix(text: Seq<char>, suffix: Seq<char>) -> bool {
    suffix.len() <= text.len() && text.skip(text.len() - suffix.len()) == suffix
}

/// Whether `text` ends with `suffix`.
pub fn ends_with(text: &str, suffix: &str) -> (r: bool)
    ensures
        r == has_suffix(text@, suffix@),
{
    let t = chars_of(text);
    let p = chars_of(suffix);
    if p.len() > t.len() {
        return false;
    }
    let shift = t.len() - p.len();
    let mut i: usize = 0;
    while i < p.len()
        invariant
            i <= p.len() <= t.len(),
            shift == t.len() - p.len(),
            t@ == text@,
            p@ == suffix@,
            forall|k: int| 0 <= k < i ==> t@[shift + k] == p@[k],
        decreases p.len() - i,
    {
        if t[shift + i] != p[i] {
            assert(text@.skip(shift as int)[i as int] != suffix@[i as int]);
            return false;
        }
        i += 1;
    }
    assert(suffix@ =~= text@.skip(shift as int));
    true
}

/// The texts of a list of strings.
pub open spec fn texts(s: Seq<String>) -> Seq<Seq<char>> {
    s.map_values(|t: String| t@)
}

/// A text in lower case.
pub uninterp spec fn lowercase_of(text: Seq<char>) -> Seq<char>;

/// A text as a debugger shows it: in double quotes, with escapes where a
/// character could not be read as it is.
pub uninterp spec fn quoted_of(text: Seq<char>) -> Seq<char>;

/// Turns a text into lower case.
///
/// Trusted: the result is what `str::to_lowercase` returns, which depends
/// on the text alone.
#[verifier::external_body]
pub(crate) fn lowercase(text: &str) -> (r: String)
    ensures
        r@ == lowercase_of(text@),
{
    text.to_lowercase()
}

/// Writes a text as a debugger shows it.
///
/// Trusted: the result is what formatting a `str` with `{:?}` gives, which
/// depends on the text alone.
#[verifier::external_body]
pub(crate) fn quoted(text: &str) -> (r: String)
    ensures
        r@ == quoted_of(text@),
{
    format!("{:?}", text)
}

/// Whether `a` stands before `b` in a dictionary that orders characters by
/// their code: at the first place where they differ `a` has the smaller
/// character, or `a` ends there and `b` goes on.
pub open spec fn text_before(a: Seq<char>, b: Seq<char>) -> bool
    decreases a.len(),
{
    if b.len() == 0 {
        false
    } else if a.len() == 0 {
        true
    } else if a.first() != b.first() {
        a.first() < b.first()
    } else {
        text_before(a.drop_first(), b.drop_first())
    }
}

/// Of two texts at most one stands before the other.
pub proof fn lemma_text_before_one_way(a: Seq<char>, b: Seq<char>)
    ensures
        text_before(a, b) ==> !text_before(b, a),
    decreases a.len(),
{
    if a.len() > 0 && b.len() > 0 && a.first() == b.first() {
        lemma_text_before_one_way(a.drop_first(), b.drop_first());
    }
}

/// Where `a` does not stand behind `b`, nor `b` behind `c`, `a` does not
/// stand behind `c`.
pub proof fn lemma_text_before_chain(a: Seq<char>, b: Seq<char>, c: Seq<char>)
    ensures
        !text_before(b, a) && !text_before(c, b) ==> !text_before(c, a),
    decreases a.len(),
{
    if a.len() > 0 && b.len() > 0 && c.len() > 0 {
        let (x, y, z) = (a.first(), b.first(), c.first());
        if x == y && y == z {
            lemma_text_before_chain(a.drop_first(), b.drop_first(), c.drop_first());
        }
    }
}

/// Whether `a` stands before `b` in a dictionary that orders characters by
/// their code.
pub fn text_less(a: &Vec<char>, b: &Vec<char>) -> (r: bool)
    ensures
        r == text_before(a@, b@),
{
    let mut i: usize = 0;
    assert(a@.skip(0) =~= a@ && b@.skip(0) =~= b@);
    while i < a.len() && i < b.len()
        invariant
            i <= a.len(),
            i <= b.len(),
            text_before(a@, b@) == text_before(a@.skip(i as int), b@.skip(i as int)),
        decreases a.len() - i,
    {
        let x = a[i];
        let y = b[i];
        proof {
            assert(a@.skip(i as int).first() == x);
            assert(b@.skip(i as int).first() == y);
            assert(a@.skip(i as int).drop_first() =~= a@.skip(i + 1));
            assert(b@.skip(i as int).drop_first() =~= b@.skip(i + 1));
        }
        if x != y {
            return x < y;
        }
        i += 1;
    }
    i < b.len()
}

} // verus!
