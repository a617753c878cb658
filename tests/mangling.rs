use mangler::text::{capitalize, lowercase, reverse, swap_case, uppercase};
use mangler::{dedup_strings, mangle, MangleConfig};

fn strs(v: &[&str]) -> Vec<String> {
    v.iter().map(|s| s.to_string()).collect()
}

fn all_flags() -> MangleConfig {
    MangleConfig {
        double: true,
        reverse: true,
        capital: true,
        lower: true,
        upper: true,
        swap: true,
        ed: true,
        ing: true,
        common: true,
        punctuation: true,
        years: true,
        pnb: true,
        pna: true,
        nb: true,
        na: true,
    }
}

#[test]
fn no_flags_gives_nothing() {
    let c = MangleConfig::none();
    assert!(mangle("cat", &c).is_empty());
    assert!(mangle("", &c).is_empty());
    assert!(mangle("Ünïcödé", &c).is_empty());
}

#[test]
fn dedup_twice_same_as_once() {
    let items = strs(&["a", "b", "a", "c", "b", "a"]);
    let once = dedup_strings(items);
    assert_eq!(once, strs(&["a", "b", "c"]));
    let twice = dedup_strings(once.clone());
    assert_eq!(twice, once);
}

#[test]
fn dedup_keeps_first_occurrence_order() {
    let items = strs(&["z", "y", "z", "x", "y"]);
    assert_eq!(dedup_strings(items), strs(&["z", "y", "x"]));
    assert!(dedup_strings(Vec::new()).is_empty());
}

#[test]
fn reverse_twice_restores() {
    for w in ["", "a", "abc", "héllo", "日本語"] {
        assert_eq!(reverse(&reverse(w)), w);
    }
    assert_eq!(reverse("abc"), "cba");
    assert_eq!(reverse("héllo"), "olléh");
}

#[test]
fn swap_twice_restores_ascii_letters() {
    for w in ["", "Cat", "hELLo", "ABCxyz"] {
        assert_eq!(swap_case(&swap_case(w)), w);
    }
}

#[test]
fn years_give_sixty_eight() {
    let c = MangleConfig { years: true, ..MangleConfig::none() };
    let r = mangle("cat", &c);
    assert_eq!(r.len(), 68);
    assert_eq!(r[0], "1990cat");
    assert_eq!(r[1], "cat1990");
    assert_eq!(r[66], "2023cat");
    assert_eq!(r[67], "cat2023");
}

#[test]
fn years_with_repeats_give_fewer() {
    let c = MangleConfig { years: true, ..MangleConfig::none() };
    let r = mangle("1990", &c);
    assert_eq!(r.len(), 67);
    assert_eq!(r[0], "19901990");
    assert_eq!(r[1], "19911990");
}

#[test]
fn ed_then_ing() {
    let c = MangleConfig { ed: true, ing: true, ..MangleConfig::none() };
    assert_eq!(mangle("cat", &c), strs(&["cated", "cating"]));
}

#[test]
fn swap_scenario() {
    let c = MangleConfig { swap: true, ..MangleConfig::none() };
    assert_eq!(mangle("Cat", &c), strs(&["cAT"]));
}

#[test]
fn double_digit_prefix_only() {
    let c = MangleConfig { pnb: true, ..MangleConfig::none() };
    assert_eq!(
        mangle("x", &c),
        strs(&["01x", "02x", "03x", "04x", "05x", "06x", "07x", "08x", "09x"])
    );
}

#[test]
fn double_digit_suffix_only() {
    let c = MangleConfig { pna: true, ..MangleConfig::none() };
    assert_eq!(
        mangle("x", &c),
        strs(&["x01", "x02", "x03", "x04", "x05", "x06", "x07", "x08", "x09"])
    );
}

#[test]
fn double_digit_both_interleave() {
    let c = MangleConfig { pnb: true, pna: true, ..MangleConfig::none() };
    let r = mangle("x", &c);
    assert_eq!(r.len(), 18);
    assert_eq!(r[0], "01x");
    assert_eq!(r[1], "x01");
    assert_eq!(r[16], "09x");
    assert_eq!(r[17], "x09");
}

#[test]
fn triple_digit_prefix_and_suffix() {
    let c = MangleConfig { nb: true, ..MangleConfig::none() };
    let r = mangle("x", &c);
    assert_eq!(r.len(), 123);
    assert_eq!(r[0], "1x");
    assert_eq!(r[9], "10x");
    assert_eq!(r[122], "123x");
    let c = MangleConfig { na: true, ..MangleConfig::none() };
    let r = mangle("x", &c);
    assert_eq!(r.len(), 123);
    assert_eq!(r[99], "x100");
    let c = MangleConfig { nb: true, na: true, ..MangleConfig::none() };
    assert_eq!(mangle("x", &c).len(), 246);
    let r = mangle("1", &c);
    assert_eq!(r.len(), 233);
    assert_eq!(r[..6].to_vec(), strs(&["11", "21", "12", "31", "13", "41"]));
}

#[test]
fn empty_word_doubled() {
    let c = MangleConfig { double: true, ..MangleConfig::none() };
    assert_eq!(mangle("", &c), strs(&[""]));
}

#[test]
fn lower_and_upper_distinct() {
    let c = MangleConfig { lower: true, upper: true, ..MangleConfig::none() };
    assert_eq!(mangle("a", &c), strs(&["a", "A"]));
    assert_eq!(mangle("1", &c), strs(&["1"]));
    assert_eq!(mangle("", &c), strs(&[""]));
}

#[test]
fn common_tokens_in_order() {
    let c = MangleConfig { common: true, ..MangleConfig::none() };
    assert_eq!(
        mangle("x", &c),
        strs(&["pwx", "xpw", "pwdx", "xpwd", "adminx", "xadmin", "sysx", "xsys"])
    );
}

#[test]
fn punctuation_in_order() {
    let c = MangleConfig { punctuation: true, ..MangleConfig::none() };
    assert_eq!(
        mangle("x", &c),
        strs(&["x!", "x@", "x$", "x%", "x^", "x&", "x*", "x(", "x)"])
    );
}

#[test]
fn whole_word_variants_in_order() {
    let c = MangleConfig {
        double: true,
        reverse: true,
        capital: true,
        lower: true,
        upper: true,
        swap: true,
        ..MangleConfig::none()
    };
    assert_eq!(
        mangle("hEy", &c),
        strs(&["hEyhEy", "yEh", "HEy", "hey", "HEY", "HeY"])
    );
}

#[test]
fn all_flags_count() {
    assert_eq!(mangle("ab", &all_flags()).len(), 356);
    assert_eq!(mangle("", &all_flags()).len(), 182);
}

#[test]
fn case_functions_beyond_ascii() {
    assert_eq!(capitalize("ßa"), "SSa");
    assert_eq!(capitalize("cat"), "Cat");
    assert_eq!(capitalize(""), "");
    assert_eq!(capitalize("élan"), "Élan");
    assert_eq!(lowercase("ÀBC"), "àbc");
    assert_eq!(uppercase("straße"), "STRASSE");
    assert_eq!(swap_case("ßA1"), "SSa1");
    assert_eq!(swap_case("Ωω"), "ωΩ");
}
