//! Character-level transformations of a single word.
use vstd::prelude::*;
use vstd::string::*;

verus! {

/// What `str::to_lowercase` returns for a word.
pub uninterp spec fn lower_of(s: Seq<char>) -> Seq<char>;

/// What `str::to_uppercase` returns for a word.
pub uninterp spec fn upper_of(s: Seq<char>) -> Seq<char>;

/// What `char::to_lowercase` yields for one character.
pub uninterp spec fn char_lower_of(c: char) -> Seq<char>;

/// What `char::to_uppercase` yields for one character.
pub uninterp spec fn char_upper_of(c: char) -> Seq<char>;

/// Whether `char::is_uppercase` holds of a character.
pub uninterp spec fn is_upper_char(c: char) -> bool;

/// Whether `char::is_lowercase` holds of a character.
pub uninterp spec fn is_lower_char(c: char) -> bool;

pub open spec fn is_ascii_char(c: char) -> bool {
    (c as u32) < 128
}

pub open spec fn is_ascii_upper(c: char) -> bool {
    'A' <= c && c <= 'Z'
}

pub open spec fn is_ascii_lower(c: char) -> bool {
    'a' <= c && c <= 'z'
}

/// Swaps the case of an ASCII letter; any other character is kept.
pub open spec fn flip_ascii(c: char) -> char {
    if is_ascii_upper(c) {
        ((c as u32) + 32) as char
    } else if is_ascii_lower(c) {
        ((c as u32) - 32) as char
    } else {
        c
    }
}

/// Relies on str::to_lowercase: the result depends on the characters alone.
#[verifier::external_body]
fn to_lower(s: &str) -> (r: String)
    ensures
        r@ == lower_of(s@),
{
    s.to_lowercase()
}

/// Relies on str::to_uppercase: the result depends on the characters alone.
#[verifier::external_body]
fn to_upper(s: &str) -> (r: String)
    ensures
        r@ == upper_of(s@),
{
    s.to_uppercase()
}

/// Relies on char::to_lowercase, collected into a string: an ASCII
/// uppercase letter maps to its lowercase letter.
#[verifier::external_body]
fn char_to_lower(c: char) -> (r: String)
    ensures
        r@ == char_lower_of(c),
        is_ascii_upper(c) ==> r@ == seq![flip_ascii(c)],
{
    c.to_lowercase().collect()
}

/// Relies on char::to_uppercase, collected into a string: an ASCII
/// lowercase letter maps to its uppercase letter.
#[verifier::external_body]
fn char_to_upper(c: char) -> (r: String)
    ensures
        r@ == char_upper_of(c),
        is_ascii_lower(c) ==> r@ == seq![flip_ascii(c)],
{
    c.to_uppercase().collect()
}

/// Relies on char::is_uppercase: among ASCII characters exactly `A`..=`Z`.
#[verifier::external_body]
fn char_is_upper(c: char) -> (r: bool)
    ensures
        r == is_upper_char(c),
        is_ascii_char(c) ==> (r <==> is_ascii_upper(c)),
{
    c.is_uppercase()
}

/// Relies on char::is_lowercase: among ASCII characters exactly `a`..=`z`.
#[verifier::external_body]
fn char_is_lower(c: char) -> (r: bool)
    ensures
        r == is_lower_char(c),
        is_ascii_char(c) ==> (r <==> is_ascii_lower(c)),
{
    c.is_lowercase()
}

/// Relies on String::push: appends one character.
#[verifier::external_body]
pub(crate) fn push_char(s: &mut String, c: char)
    ensures
        final(s)@ == old(s)@.push(c),
{
    s.push(c)
}

/// The characters of `s`, in order.
pub fn chars_of(s: &str) -> (r: Vec<char>)
    ensures
        r@ == s@,
{
    let n = s.unicode_len();
    let mut r: Vec<char> = Vec::new();
    let mut i: usize = 0;
    while i < n
        invariant
            n == s@.len(),
            i <= n,
            r@ == s@.take(i as int),
        decreases n - i,
    {
        r.push(s.get_char(i));
        i = i + 1;
        assert(r@ =~= s@.take(i as int));
    }
    assert(r@ =~= s@);
    r
}

/// Appends the characters `cs[from..]` to `out`.
fn push_chars_from(out: &mut String, cs: &Vec<char>, from: usize)
    requires
        from <= cs@.len(),
    ensures
        final(out)@ == old(out)@ + cs@.skip(from as int),
{
    let mut i: usize = from;
    while i < cs.len()
        invariant
            from <= i <= cs@.len(),
            out@ == old(out)@ + cs@.subrange(from as int, i as int),
        decreases cs@.len() - i,
    {
        push_char(out, cs[i]);
        i = i + 1;
        assert(out@ =~= old(out)@ + cs@.subrange(from as int, i as int));
    }
    assert(cs@.subrange(from as int, i as int) =~= cs@.skip(from as int));
}

/// `a` followed by `b`.
pub fn concat(a: &str, b: &str) -> (r: String)
    ensures
        r@ == a@ + b@,
{
    let mut r = String::from_str(a);
    r.append(b);
    r
}

/// The word with its characters in reverse order.
pub open spec fn reverse_of(w: Seq<char>) -> Seq<char> {
    Seq::new(w.len(), |i: int| w[w.len() - 1 - i])
}

/// The word with its first character uppercased; an empty word is kept.
pub open spec fn capitalize_of(w: Seq<char>) -> Seq<char> {
    if w.len() == 0 {
        w
    } else {
        char_upper_of(w[0]) + w.skip(1)
    }
}

/// What one character becomes when the case is swapped. An ASCII letter
/// changes case and other ASCII characters are kept (this is what std's
/// case functions do on ASCII); beyond ASCII an uppercase character is
/// lowercased, a lowercase one uppercased, and any other kept.
pub open spec fn swap_char(c: char) -> Seq<char> {
    if is_ascii_char(c) {
        seq![flip_ascii(c)]
    } else if is_upper_char(c) {
        char_lower_of(c)
    } else if is_lower_char(c) {
        char_upper_of(c)
    } else {
        seq![c]
    }
}

/// The word with the case of every character swapped.
pub open spec fn swap_case_of(w: Seq<char>) -> Seq<char>
    decreases w.len(),
{
    if w.len() == 0 {
        Seq::empty()
    } else {
        swap_case_of(w.drop_last()) + swap_char(w.last())
    }
}

/// The character of a decimal digit.
pub open spec fn digit_char(d: nat) -> char {
    (48 + d) as char
}

/// The decimal digits of `n`, without leading zeros.
pub open spec fn decimal_of(n: nat) -> Seq<char>
    decreases n,
{
    if n < 10 {
        seq![digit_char(n)]
    } else {
        decimal_of(n / 10).push(digit_char(n % 10))
    }
}

/// The word lowercased.
pub fn lowercase(w: &str) -> (r: String)
    ensures
        r@ == lower_of(w@),
{
    to_lower(w)
}

/// The word uppercased.
pub fn uppercase(w: &str) -> (r: String)
    ensures
        r@ == upper_of(w@),
{
    to_upper(w)
}

/// The word with its characters in reverse order.
pub fn reverse(w: &str) -> (r: String)
    ensures
        r@ == reverse_of(w@),
{
    let cs = chars_of(w);
    let mut r = String::new();
    let mut i: usize = cs.len();
    while i > 0
        invariant
            cs@ == w@,
            i <= cs@.len(),
            r@ == reverse_of(w@).take(cs@.len() - i),
        decreases i,
    {
        i = i - 1;
        push_char(&mut r, cs[i]);
        assert(r@ =~= reverse_of(w@).take(cs@.len() - i));
    }
    assert(r@ =~= reverse_of(w@));
    r
}

/// The word with its first character uppercased.
pub fn capitalize(w: &str) -> (r: String)
    ensures
        r@ == capitalize_of(w@),
{
    let cs = chars_of(w);
    if cs.len() == 0 {
        String::from_str(w)
    } else {
        let mut r = char_to_upper(cs[0]);
        push_chars_from(&mut r, &cs, 1);
        r
    }
}

/// The swapped form of one character.
fn swap_one(c: char) -> (r: String)
    ensures
        r@ == swap_char(c),
{
    if char_is_upper(c) {
        char_to_lower(c)
    } else if char_is_lower(c) {
        char_to_upper(c)
    } else {
        let mut r = String::new();
        push_char(&mut r, c);
        proof {
            if is_ascii_char(c) {
                assert(!is_ascii_upper(c) && !is_ascii_lower(c));
            }
        }
        r
    }
}

/// The word with the case of every character swapped.
pub fn swap_case(w: &str) -> (r: String)
    ensures
        r@ == swap_case_of(w@),
{
    let cs = chars_of(w);
    let mut r = String::new();
    let mut i: usize = 0;
    while i < cs.len()
        invariant
            cs@ == w@,
            i <= cs@.len(),
            r@ == swap_case_of(w@.take(i as int)),
        decreases cs@.len() - i,
    {
        let piece = swap_one(cs[i]);
        r.append(piece.as_str());
        proof {
            assert(w@.take(i + 1).drop_last() =~= w@.take(i as int));
        }
        i = i + 1;
    }
    assert(w@.take(i as int) =~= w@);
    r
}

/// Appends the decimal digits of `n` to `out`.
pub fn push_decimal(out: &mut String, n: u32)
    ensures
        final(out)@ == old(out)@ + decimal_of(n as nat),
    decreases n,
{
    if n >= 10 {
        push_decimal(out, n / 10);
    }
    let d: u32 = n % 10;
    let c = ((48 + d) as u8) as char;
    push_char(out, c);
    assert(out@ =~= old(out)@ + decimal_of(n as nat));
}

/// Reversing a word twice gives the word back.
pub proof fn lemma_reverse_twice(w: Seq<char>)
    ensures
        reverse_of(reverse_of(w)) == w,
{
    assert(reverse_of(reverse_of(w)) =~= w);
}

pub open spec fn is_ascii_letters(w: Seq<char>) -> bool {
    forall|i: int| 0 <= i < w.len() ==> is_ascii_upper(#[trigger] w[i]) || is_ascii_lower(w[i])
}

/// On ASCII characters, swapping the case flips each letter in place.
pub proof fn lemma_swap_case_ascii(w: Seq<char>)
    requires
        forall|i: int| 0 <= i < w.len() ==> is_ascii_char(#[trigger] w[i]),
    ensures
        swap_case_of(w) == w.map_values(|c: char| flip_ascii(c)),
    decreases w.len(),
{
    if w.len() > 0 {
        let p = w.drop_last();
        assert forall|i: int| 0 <= i < p.len() implies is_ascii_char(#[trigger] p[i]) by {
            assert(p[i] == w[i]);
        }
        lemma_swap_case_ascii(p);
        assert(is_ascii_char(w[w.len() - 1]));
        assert(swap_case_of(w) =~= w.map_values(|c: char| flip_ascii(c)));
    }
}

/// Swapping the case twice gives back a word made of ASCII letters.
pub proof fn lemma_swap_case_twice(w: Seq<char>)
    requires
        is_ascii_letters(w),
    ensures
        swap_case_of(swap_case_of(w)) == w,
{
    assert forall|i: int| 0 <= i < w.len() implies is_ascii_char(#[trigger] w[i]) by {
        assert(is_ascii_upper(w[i]) || is_ascii_lower(w[i]));
    }
    lemma_swap_case_ascii(w);
    let s = swap_case_of(w);
    assert forall|i: int| 0 <= i < s.len() implies is_ascii_char(#[trigger] s[i]) by {
        assert(is_ascii_upper(w[i]) || is_ascii_lower(w[i]));
    }
    lemma_swap_case_ascii(s);
    assert forall|i: int| 0 <= i < w.len() implies #[trigger] swap_case_of(s)[i] == w[i] by {
        assert(is_ascii_upper(w[i]) || is_ascii_lower(w[i]));
    }
    assert(swap_case_of(s) =~= w);
}

} // verus!
