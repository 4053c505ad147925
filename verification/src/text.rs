use vstd::prelude::*;

verus! {

/// The characters of `s`, in order.
pub fn chars_of(s: &str) -> (v: Vec<char>)
    ensures
        v@ == s@,
{
    let mut v: Vec<char> = Vec::new();
    for c in it: s.chars()
        invariant
            v@ == it.seq().take(it.index() as int),
    {
        v.push(c);
    }
    v
}

} // verus!

verus! {

/// `a` and `b` agree on their first `i` characters, and both have at least `i`.
pub open spec fn agree_before(a: Seq<char>, b: Seq<char>, i: int) -> bool {
    &&& 0 <= i <= a.len()
    &&& i <= b.len()
    &&& forall|j: int| 0 <= j < i ==> a[j] == b[j]
}

/// `a` comes before `b`, the first difference being at position `i`
/// (or `a` ending there while `b` goes on).
pub open spec fn differs_first_at(a: Seq<char>, b: Seq<char>, i: int) -> bool {
    &&& agree_before(a, b, i)
    &&& i < b.len()
    &&& (i == a.len() || a[i] < b[i])
}

/// Lexicographic order on strings, character by character: the order in
/// which a sort of `String`s places them.
pub open spec fn text_lt(a: Seq<char>, b: Seq<char>) -> bool {
    exists|i: int| differs_first_at(a, b, i)
}

/// No text comes before itself.
pub proof fn lemma_text_lt_irreflexive(a: Seq<char>)
    ensures
        !text_lt(a, a),
{
}

/// The order on texts is transitive.
pub proof fn lemma_text_lt_transitive(a: Seq<char>, b: Seq<char>, c: Seq<char>)
    requires
        text_lt(a, b),
        text_lt(b, c),
    ensures
        text_lt(a, c),
{
    let i = choose|i: int| differs_first_at(a, b, i);
    let k = choose|k: int| differs_first_at(b, c, k);
    let m = if i <= k { i } else { k };
    assert(differs_first_at(a, c, m));
}

/// Two different texts are ordered one way or the other.
pub proof fn lemma_text_lt_total(a: Seq<char>, b: Seq<char>)
    requires
        a != b,
    ensures
        text_lt(a, b) || text_lt(b, a),
{
    lemma_total_from(a, b, 0);
}

proof fn lemma_total_from(a: Seq<char>, b: Seq<char>, i: int)
    requires
        a != b,
        agree_before(a, b, i),
    ensures
        text_lt(a, b) || text_lt(b, a),
    decreases a.len() - i,
{
    if i == a.len() && i == b.len() {
        assert(a =~= b);
    } else if i == a.len() {
        assert(differs_first_at(a, b, i));
    } else if i == b.len() {
        assert(differs_first_at(b, a, i));
    } else if a[i] < b[i] {
        assert(differs_first_at(a, b, i));
    } else if b[i] < a[i] {
        assert(differs_first_at(b, a, i));
    } else {
        lemma_total_from(a, b, i + 1);
    }
}

/// Law: a text comes before every longer text that starts with it, and
/// texts of one character are ordered as their characters.
pub proof fn law_text_lt_is_lexicographic(a: Seq<char>, c: char, x: char, y: char)
    ensures
        text_lt(a, a.push(c)),
        !text_lt(a.push(c), a),
        text_lt(seq![x], seq![y]) == (x < y),
{
    assert(differs_first_at(a, a.push(c), a.len() as int));
    if text_lt(a.push(c), a) {
        let i = choose|i: int| differs_first_at(a.push(c), a, i);
        assert(a.push(c)[i] == a[i]);
    }
    if x < y {
        assert(differs_first_at(seq![x], seq![y], 0));
    }
}

/// Whether `a` comes before `b` in lexicographic order.
pub fn text_less(a: &str, b: &str) -> (r: bool)
    ensures
        r == text_lt(a@, b@),
{
    let av = chars_of(a);
    let bv = chars_of(b);
    let mut i: usize = 0;
    while i < av.len() && i < bv.len()
        invariant
            av@ == a@,
            bv@ == b@,
            agree_before(a@, b@, i as int),
        decreases av.len() - i,
    {
        if av[i] < bv[i] {
            assert(differs_first_at(a@, b@, i as int));
            return true;
        }
        if bv[i] < av[i] {
            proof {
                assert forall|j: int| differs_first_at(a@, b@, j) implies false by {
                    if j < i {
                    } else if j > i {
                        assert(a@[i as int] == b@[i as int]);
                    }
                }
            }
            return false;
        }
        i = i + 1;
    }
    if i < bv.len() {
        assert(differs_first_at(a@, b@, i as int));
        true
    } else {
        proof {
            assert forall|j: int| differs_first_at(a@, b@, j) implies false by {
                if j < i {
                }
            }
        }
        false
    }
}

} // verus!

verus! {

/// Appends `c` to `s`: `String::push`.
#[verifier::external_body]
pub(crate) fn push_char(s: &mut String, c: char)
    ensures
        final(s)@ == old(s)@.push(c),
{
    s.push(c);
}

/// Removes and returns the last character of `s`, if any: `String::pop`.
#[verifier::external_body]
pub(crate) fn pop_char(s: &mut String) -> (c: Option<char>)
    ensures
        old(s)@.len() == 0 ==> c is None && final(s)@ == old(s)@,
        old(s)@.len() > 0 ==> c == Some(old(s)@.last()) && final(s)@ == old(s)@.drop_last(),
{
    s.pop()
}

/// The Unicode upper-case form of a text, as `str::to_uppercase` gives it.
pub uninterp spec fn uppercase_of(s: Seq<char>) -> Seq<char>;

/// `str::to_uppercase`, whose result is named `uppercase_of`.
#[verifier::external_body]
pub(crate) fn to_upper(s: &str) -> (r: String)
    ensures
        r@ == uppercase_of(s@),
{
    s.to_uppercase()
}

/// The decimal digit `d`.
pub open spec fn digit_char(d: nat) -> char {
    ((d + 48) as u8) as char
}

/// The decimal numeral of `n`, without leading zeros.
pub open spec fn decimal(n: nat) -> Seq<char>
    decreases n,
{
    if n < 10 {
        seq![digit_char(n)]
    } else {
        decimal(n / 10).push(digit_char(n % 10))
    }
}

/// The number a string of decimal digits stands for.
pub open spec fn numeral_value(s: Seq<char>) -> int
    decreases s.len(),
{
    if s.len() == 0 {
        0
    } else {
        numeral_value(s.drop_last()) * 10 + (s.last() as int - 48)
    }
}

/// Law: the decimal numeral of `n` reads back as `n`, is made of digits,
/// and so different numbers have different numerals.
pub proof fn law_decimal_reads_back(n: nat)
    ensures
        numeral_value(decimal(n)) == n,
        decimal(n).len() > 0,
        forall|i: int| 0 <= i < decimal(n).len() ==> '0' <= #[trigger] decimal(n)[i] <= '9',
    decreases n,
{
    let d = n % 10;
    assert(((d + 48) as u8) as int == d + 48);
    assert((digit_char(d) as int) == d + 48);
    if n >= 10 {
        law_decimal_reads_back(n / 10);
        let s = decimal(n);
        assert(s.drop_last() =~= decimal(n / 10));
        assert(s.last() == digit_char(d));
        vstd::arithmetic::div_mod::lemma_fundamental_div_mod(n as int, 10);
        assert(n == (n / 10) * 10 + d);
        assert(numeral_value(s) == numeral_value(s.drop_last()) * 10 + (s.last() as int - 48));
    } else {
        let s = decimal(n);
        assert(s.drop_last() =~= Seq::<char>::empty());
        assert(numeral_value(s.drop_last()) == 0);
        assert(d == n);
        assert(numeral_value(s) == numeral_value(s.drop_last()) * 10 + (s.last() as int - 48));
    }
}

/// Law: different numbers have different decimal numerals.
pub proof fn law_decimal_injective(n: nat, m: nat)
    requires
        n != m,
    ensures
        decimal(n) != decimal(m),
{
    law_decimal_reads_back(n);
    law_decimal_reads_back(m);
}

/// Appends the decimal numeral of `n` to `s`.
pub fn push_decimal(s: &mut String, n: u64)
    ensures
        final(s)@ == old(s)@ + decimal(n as nat),
    decreases n,
{
    let ghost start = s@;
    if n >= 10 {
        push_decimal(s, n / 10);
    }
    let d: u8 = (n % 10) as u8;
    let c: char = (d + 48) as char;
    push_char(s, c);
    assert(s@ =~= start + decimal(n as nat));
}

/// The decimal numeral of `n`.
pub fn decimal_string(n: u64) -> (s: String)
    ensures
        s@ == decimal(n as nat),
{
    let mut s = String::new();
    push_decimal(&mut s, n);
    assert(s@ =~= decimal(n as nat));
    s
}

/// `n` spaces.
pub open spec fn spaces(n: nat) -> Seq<char> {
    Seq::new(n, |i: int| ' ')
}

/// `s` followed by spaces up to `width` characters in all: what `{: <width}`
/// formats.
pub open spec fn padded(s: Seq<char>, width: nat) -> Seq<char> {
    if s.len() >= width {
        s
    } else {
        s + spaces((width - s.len()) as nat)
    }
}

/// `s` padded with spaces up to `width` characters.
pub fn pad_right(s: &str, width: usize) -> (r: String)
    ensures
        r@ == padded(s@, width as nat),
{
    let mut r = String::from_str(s);
    let n = chars_of(s).len();
    let mut k: usize = n;
    while k < width
        invariant
            n == s@.len(),
            k >= n,
            n < width ==> k <= width,
            n >= width ==> k == n,
            r@ == s@ + spaces((k - n) as nat),
        decreases width - k,
    {
        push_char(&mut r, ' ');
        k = k + 1;
        assert(r@ =~= s@ + spaces((k - n) as nat));
    }
    assert(s@ + spaces(0) =~= s@);
    if n < width {
        assert(k == width);
    }
    r
}

/// `s` with every underscore turned into a space.
pub open spec fn underscores_to_spaces(s: Seq<char>) -> Seq<char> {
    s.map_values(|c: char| if c == '_' { ' ' } else { c })
}

/// How a result key is shown: underscores become spaces, then the text is
/// put in upper case.
pub open spec fn shown_key(key: Seq<char>) -> Seq<char> {
    uppercase_of(underscores_to_spaces(key))
}

/// The title under which the results of a key are listed.
pub fn display_key(key: &str) -> (r: String)
    ensures
        r@ == shown_key(key@),
{
    let cs = chars_of(key);
    let mut spaced = String::new();
    let mut i: usize = 0;
    while i < cs.len()
        invariant
            cs@ == key@,
            i <= cs@.len(),
            spaced@ == underscores_to_spaces(key@.take(i as int)),
        decreases cs@.len() - i,
    {
        let c = cs[i];
        if c == '_' {
            push_char(&mut spaced, ' ');
        } else {
            push_char(&mut spaced, c);
        }
        i = i + 1;
        assert(spaced@ =~= underscores_to_spaces(key@.take(i as int)));
    }
    assert(key@.take(cs@.len() as int) =~= key@);
    to_upper(spaced.as_str())
}

} // verus!

verus! {

/// The number of bytes of the UTF-8 encoding of `s`, as `str::len` gives it.
pub open spec fn byte_count(s: Seq<char>) -> usize {
    vstd::utf8::encode_utf8(s).len() as usize
}

/// The length in bytes of `s`.
pub fn text_bytes(s: &String) -> (n: usize)
    ensures
        n == byte_count(s@),
{
    s.as_str().len()
}

} // verus!
