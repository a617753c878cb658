//! The variants of one word under a configuration, in the order the
//! transformations are checked, with repeats removed.
use vstd::prelude::*;
use vstd::string::*;

use crate::dedup::{
    dedup, dedup_strings, lemma_dedup_contains, lemma_dedup_len, lemma_dedup_no_duplicates, views,
};
use crate::text::{
    capitalize, capitalize_of, concat, decimal_of, lower_of, lowercase, push_char, push_decimal, reverse,
    reverse_of, swap_case, swap_case_of, upper_of, uppercase,
};

verus! {

/// Which transformations are applied to each word.
#[derive(Clone, Copy, Debug, PartialEq, Eq, Structural)]
pub struct MangleConfig {
    /// The word written twice.
    pub double: bool,
    /// The word reversed.
    pub reverse: bool,
    /// The word with its first character uppercased.
    pub capital: bool,
    /// The word lowercased.
    pub lower: bool,
    /// The word uppercased.
    pub upper: bool,
    /// The word with its case swapped.
    pub swap: bool,
    /// The word followed by "ed".
    pub ed: bool,
    /// The word followed by "ing".
    pub ing: bool,
    /// The word prefixed and suffixed with "pw", "pwd", "admin" and "sys".
    pub common: bool,
    /// The word followed by each of `!@$%^&*()`.
    pub punctuation: bool,
    /// The word prefixed and suffixed with each year from 1990 to 2023.
    pub years: bool,
    /// The word prefixed with 01 to 09.
    pub pnb: bool,
    /// The word suffixed with 01 to 09.
    pub pna: bool,
    /// The word prefixed with 1 to 123.
    pub nb: bool,
    /// The word suffixed with 1 to 123.
    pub na: bool,
}

/// Every transformation is switched off.
pub open spec fn no_flags(c: MangleConfig) -> bool {
    !c.double && !c.reverse && !c.capital && !c.lower && !c.upper && !c.swap && !c.ed && !c.ing
        && !c.common && !c.punctuation && !c.years && !c.pnb && !c.pna && !c.nb && !c.na
}

impl MangleConfig {
    /// A configuration with every transformation switched off.
    pub fn none() -> (r: MangleConfig)
        ensures
            no_flags(r),
    {
        MangleConfig {
            double: false,
            reverse: false,
            capital: false,
            lower: false,
            upper: false,
            swap: false,
            ed: false,
            ing: false,
            common: false,
            punctuation: false,
            years: false,
            pnb: false,
            pna: false,
            nb: false,
            na: false,
        }
    }
}

/// `s` when `b` holds, else nothing.
pub open spec fn when(b: bool, s: Seq<Seq<char>>) -> Seq<Seq<char>> {
    if b {
        s
    } else {
        Seq::empty()
    }
}

pub open spec fn common_affixes(w: Seq<char>) -> Seq<Seq<char>> {
    seq![
        "pw"@ + w, w + "pw"@,
        "pwd"@ + w, w + "pwd"@,
        "admin"@ + w, w + "admin"@,
        "sys"@ + w, w + "sys"@,
    ]
}

pub open spec fn punctuation_marks() -> Seq<char> {
    seq!['!', '@', '$', '%', '^', '&', '*', '(', ')']
}

pub open spec fn punctuation_affixes(w: Seq<char>) -> Seq<Seq<char>> {
    punctuation_marks().map_values(|m: char| w.push(m))
}

pub open spec fn first_year() -> nat {
    1990
}

/// The word prefixed, then suffixed, with each of the first `n` years.
pub open spec fn years_upto(w: Seq<char>, n: nat) -> Seq<Seq<char>>
    decreases n,
{
    if n == 0 {
        Seq::empty()
    } else {
        let y = decimal_of(first_year() + (n - 1) as nat);
        years_upto(w, (n - 1) as nat) + seq![y + w, w + y]
    }
}

/// The word prefixed, then suffixed, with each year from 1990 to 2023.
pub open spec fn year_affixes(w: Seq<char>) -> Seq<Seq<char>> {
    years_upto(w, 34)
}

/// The decimal form of `k`, with a leading zero when `padded`.
pub open spec fn number_of(k: nat, padded: bool) -> Seq<char> {
    if padded {
        seq!['0'] + decimal_of(k)
    } else {
        decimal_of(k)
    }
}

/// For each `k` from 1 to `n`: the word prefixed with `k` when `pre`, then
/// suffixed with `k` when `suf`.
pub open spec fn numbered_affixes(w: Seq<char>, pre: bool, suf: bool, padded: bool, n: nat) -> Seq<
    Seq<char>,
>
    decreases n,
{
    if n == 0 {
        Seq::empty()
    } else {
        let k = number_of(n, padded);
        numbered_affixes(w, pre, suf, padded, (n - 1) as nat) + when(pre, seq![k + w]) + when(
            suf,
            seq![w + k],
        )
    }
}

/// The word doubled, reversed and capitalized.
pub open spec fn shape_variants(w: Seq<char>, c: MangleConfig) -> Seq<Seq<char>> {
    when(c.double, seq![w + w]) + when(c.reverse, seq![reverse_of(w)]) + when(
        c.capital,
        seq![capitalize_of(w)],
    )
}

/// The word lowercased, uppercased and with its case swapped.
pub open spec fn case_variants(w: Seq<char>, c: MangleConfig) -> Seq<Seq<char>> {
    when(c.lower, seq![lower_of(w)]) + when(c.upper, seq![upper_of(w)]) + when(
        c.swap,
        seq![swap_case_of(w)],
    )
}

/// The suffixes "ed" and "ing", the common tokens and the punctuation.
pub open spec fn token_variants(w: Seq<char>, c: MangleConfig) -> Seq<Seq<char>> {
    when(c.ed, seq![w + "ed"@]) + when(c.ing, seq![w + "ing"@]) + when(c.common, common_affixes(w))
        + when(c.punctuation, punctuation_affixes(w))
}

/// The years and the numbers.
pub open spec fn number_variants(w: Seq<char>, c: MangleConfig) -> Seq<Seq<char>> {
    when(c.years, year_affixes(w)) + numbered_affixes(w, c.pnb, c.pna, true, 9) + numbered_affixes(
        w,
        c.nb,
        c.na,
        false,
        123,
    )
}

/// Every variant that the configuration asks for, in order, repeats kept.
pub open spec fn variants(w: Seq<char>, c: MangleConfig) -> Seq<Seq<char>> {
    shape_variants(w, c) + case_variants(w, c) + token_variants(w, c) + number_variants(w, c)
}

/// The variants of a word: `variants` with repeats removed.
pub open spec fn mangled(w: Seq<char>, c: MangleConfig) -> Seq<Seq<char>> {
    dedup(variants(w, c))
}

fn push_variant(out: &mut Vec<String>, s: String)
    ensures
        views(final(out)@) == views(old(out)@).push(s@),
{
    let ghost prev = out@;
    let ghost v = s@;
    out.push(s);
    assert(views(out@) =~= views(prev).push(v));
}

fn push_affix_pair(out: &mut Vec<String>, token: &str, word: &str)
    ensures
        views(final(out)@) == views(old(out)@) + seq![token@ + word@, word@ + token@],
{
    let ghost start = views(out@);
    push_variant(out, concat(token, word));
    push_variant(out, concat(word, token));
    assert(views(out@) =~= start + seq![token@ + word@, word@ + token@]);
}

fn push_common(out: &mut Vec<String>, word: &str)
    ensures
        views(final(out)@) == views(old(out)@) + common_affixes(word@),
{
    let ghost start = views(out@);
    push_affix_pair(out, "pw", word);
    push_affix_pair(out, "pwd", word);
    push_affix_pair(out, "admin", word);
    push_affix_pair(out, "sys", word);
    assert(views(out@) =~= start + common_affixes(word@));
}

fn push_punctuation(out: &mut Vec<String>, word: &str)
    ensures
        views(final(out)@) == views(old(out)@) + punctuation_affixes(word@),
{
    let marks: [char; 9] = ['!', '@', '$', '%', '^', '&', '*', '(', ')'];
    assert(marks@ =~= punctuation_marks());
    let ghost start = views(out@);
    let mut i: usize = 0;
    while i < 9
        invariant
            i <= 9,
            marks@ == punctuation_marks(),
            views(out@) == start + punctuation_affixes(word@).take(i as int),
        decreases 9 - i,
    {
        let mut s = String::from_str(word);
        push_char(&mut s, marks[i]);
        push_variant(out, s);
        i = i + 1;
        assert(views(out@) =~= start + punctuation_affixes(word@).take(i as int));
    }
    assert(punctuation_affixes(word@).take(9) =~= punctuation_affixes(word@));
}

fn push_years(out: &mut Vec<String>, word: &str)
    ensures
        views(final(out)@) == views(old(out)@) + year_affixes(word@),
{
    let ghost start = views(out@);
    let mut year: u32 = 1990;
    while year <= 2023
        invariant
            1990 <= year <= 2024,
            views(out@) == start + years_upto(word@, (year - 1990) as nat),
        decreases 2024 - year,
    {
        let mut y = String::new();
        push_decimal(&mut y, year);
        assert(y@ == decimal_of(first_year() + (year - 1990) as nat));
        push_affix_pair(out, y.as_str(), word);
        year = year + 1;
        assert(views(out@) =~= start + years_upto(word@, (year - 1990) as nat));
    }
}

fn push_numbered(out: &mut Vec<String>, word: &str, pre: bool, suf: bool, padded: bool, limit: u32)
    requires
        limit < u32::MAX,
    ensures
        views(final(out)@) == views(old(out)@) + numbered_affixes(
            word@,
            pre,
            suf,
            padded,
            limit as nat,
        ),
{
    let ghost start = views(out@);
    let mut k: u32 = 1;
    while k <= limit
        invariant
            1 <= k <= limit + 1,
            limit < u32::MAX,
            views(out@) == start + numbered_affixes(word@, pre, suf, padded, (k - 1) as nat),
        decreases limit + 1 - k,
    {
        let ghost before = views(out@);
        let mut num = String::new();
        if padded {
            push_char(&mut num, '0');
        }
        push_decimal(&mut num, k);
        assert(num@ =~= number_of(k as nat, padded));
        if pre {
            push_variant(out, concat(num.as_str(), word));
        }
        if suf {
            push_variant(out, concat(word, num.as_str()));
        }
        assert(views(out@) =~= before + when(pre, seq![num@ + word@]) + when(
            suf,
            seq![word@ + num@],
        ));
        k = k + 1;
        assert(views(out@) =~= start + numbered_affixes(word@, pre, suf, padded, (k - 1) as nat));
    }
}

fn push_shape_variants(out: &mut Vec<String>, word: &str, c: MangleConfig)
    ensures
        views(final(out)@) == views(old(out)@) + shape_variants(word@, c),
{
    let ghost w = word@;
    let ghost acc = views(out@);
    if c.double {
        push_variant(out, concat(word, word));
    }
    assert(views(out@) =~= acc + when(c.double, seq![w + w]));
    proof { acc = views(out@); }
    if c.reverse {
        push_variant(out, reverse(word));
    }
    assert(views(out@) =~= acc + when(c.reverse, seq![reverse_of(w)]));
    proof { acc = views(out@); }
    if c.capital {
        push_variant(out, capitalize(word));
    }
    assert(views(out@) =~= acc + when(c.capital, seq![capitalize_of(w)]));
    assert(views(out@) =~= views(old(out)@) + shape_variants(w, c));
}

fn push_case_variants(out: &mut Vec<String>, word: &str, c: MangleConfig)
    ensures
        views(final(out)@) == views(old(out)@) + case_variants(word@, c),
{
    let ghost w = word@;
    let ghost acc = views(out@);
    if c.lower {
        push_variant(out, lowercase(word));
    }
    assert(views(out@) =~= acc + when(c.lower, seq![lower_of(w)]));
    proof { acc = views(out@); }
    if c.upper {
        push_variant(out, uppercase(word));
    }
    assert(views(out@) =~= acc + when(c.upper, seq![upper_of(w)]));
    proof { acc = views(out@); }
    if c.swap {
        push_variant(out, swap_case(word));
    }
    assert(views(out@) =~= acc + when(c.swap, seq![swap_case_of(w)]));
    assert(views(out@) =~= views(old(out)@) + case_variants(w, c));
}

fn push_token_variants(out: &mut Vec<String>, word: &str, c: MangleConfig)
    ensures
        views(final(out)@) == views(old(out)@) + token_variants(word@, c),
{
    let ghost w = word@;
    let ghost acc = views(out@);
    if c.ed {
        push_variant(out, concat(word, "ed"));
    }
    assert(views(out@) =~= acc + when(c.ed, seq![w + "ed"@]));
    proof { acc = views(out@); }
    if c.ing {
        push_variant(out, concat(word, "ing"));
    }
    assert(views(out@) =~= acc + when(c.ing, seq![w + "ing"@]));
    proof { acc = views(out@); }
    if c.common {
        push_common(out, word);
    }
    assert(views(out@) =~= acc + when(c.common, common_affixes(w)));
    proof { acc = views(out@); }
    if c.punctuation {
        push_punctuation(out, word);
    }
    assert(views(out@) =~= acc + when(c.punctuation, punctuation_affixes(w)));
    assert(views(out@) =~= views(old(out)@) + token_variants(w, c));
}

fn push_number_variants(out: &mut Vec<String>, word: &str, c: MangleConfig)
    ensures
        views(final(out)@) == views(old(out)@) + number_variants(word@, c),
{
    let ghost w = word@;
    let ghost acc = views(out@);
    if c.years {
        push_years(out, word);
    }
    assert(views(out@) =~= acc + when(c.years, year_affixes(w)));
    proof { acc = views(out@); }
    push_numbered(out, word, c.pnb, c.pna, true, 9);
    assert(views(out@) =~= acc + numbered_affixes(w, c.pnb, c.pna, true, 9));
    proof { acc = views(out@); }
    push_numbered(out, word, c.nb, c.na, false, 123);
    assert(views(out@) =~= acc + numbered_affixes(w, c.nb, c.na, false, 123));
    assert(views(out@) =~= views(old(out)@) + number_variants(w, c));
}

/// The variants of `word` under `config`, repeats removed, first
/// occurrence kept.
pub fn mangle(word: &str, config: &MangleConfig) -> (r: Vec<String>)
    ensures
        views(r@) == mangled(word@, *config),
{
    let c = *config;
    let mut work: Vec<String> = Vec::new();
    assert(views(work@) =~= Seq::empty());
    push_shape_variants(&mut work, word, c);
    push_case_variants(&mut work, word, c);
    push_token_variants(&mut work, word, c);
    push_number_variants(&mut work, word, c);
    assert(views(work@) =~= variants(word@, c));
    dedup_strings(work)
}

proof fn lemma_numbered_none(w: Seq<char>, padded: bool, n: nat)
    ensures
        numbered_affixes(w, false, false, padded, n) == Seq::<Seq<char>>::empty(),
    decreases n,
{
    if n > 0 {
        lemma_numbered_none(w, padded, (n - 1) as nat);
        assert(numbered_affixes(w, false, false, padded, n) =~= Seq::<Seq<char>>::empty());
    }
}

/// With no transformation switched on, a word has no variants.
pub proof fn lemma_no_flags_no_variants(w: Seq<char>, c: MangleConfig)
    requires
        no_flags(c),
    ensures
        mangled(w, c) == Seq::<Seq<char>>::empty(),
{
    lemma_numbered_none(w, true, 9);
    lemma_numbered_none(w, false, 123);
    assert(variants(w, c) =~= Seq::<Seq<char>>::empty());
}

proof fn lemma_years_upto_len(w: Seq<char>, n: nat)
    ensures
        years_upto(w, n).len() == 2 * n,
    decreases n,
{
    if n > 0 {
        lemma_years_upto_len(w, (n - 1) as nat);
    }
}

/// The years alone give 68 variants before repeats are removed, and at
/// most 68 after.
pub proof fn lemma_year_variant_count(w: Seq<char>, c: MangleConfig)
    requires
        c.years,
        !c.double && !c.reverse && !c.capital && !c.lower && !c.upper && !c.swap && !c.ed && !c.ing
            && !c.common && !c.punctuation && !c.pnb && !c.pna && !c.nb && !c.na,
    ensures
        variants(w, c) == year_affixes(w),
        year_affixes(w).len() == 68,
        mangled(w, c).len() <= 68,
{
    lemma_numbered_none(w, true, 9);
    lemma_numbered_none(w, false, 123);
    lemma_years_upto_len(w, 34);
    assert(variants(w, c) =~= year_affixes(w));
    lemma_dedup_len(variants(w, c));
}

/// The variants of a word hold no string twice, and hold each string that
/// some transformation produced: identical results of different
/// transformations become one entry.
pub proof fn lemma_mangled_distinct(w: Seq<char>, c: MangleConfig, x: Seq<char>)
    ensures
        mangled(w, c).no_duplicates(),
        mangled(w, c).contains(x) <==> variants(w, c).contains(x),
{
    lemma_dedup_no_duplicates(variants(w, c));
    lemma_dedup_contains(variants(w, c), x);
}

} // verus!
