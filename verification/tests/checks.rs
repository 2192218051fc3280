use registry::typosquat::cache::Config;
use registry::typosquat::checks::{
    check_names, check_pair, is_bitflip, is_confusable, is_omitted_character,
    is_repeated_character, is_separator_variation, is_substituted_character,
    is_swapped_characters, matches_at, one_bit_apart_chars, prefix_len, strip_separators,
    suffix_len, CheckKind, Confusable,
};
use registry::typosquat::names::{lower_char, normalize};
use registry::util::{is_whitespace_char, same_chars, to_chars, trim_bounds};

fn chars(text: &str) -> Vec<char> {
    text.chars().collect()
}

const ALL: [CheckKind; 7] = [
    CheckKind::OmittedCharacter,
    CheckKind::RepeatedCharacter,
    CheckKind::SwappedCharacters,
    CheckKind::SubstitutedCharacter,
    CheckKind::Separator,
    CheckKind::Confusable,
    CheckKind::Bitflip,
];

fn firing(candidate: &str, reference: &str) -> Vec<CheckKind> {
    let table = Config::standard().confusables;
    let mut kinds = Vec::new();
    for kind in ALL {
        if check_names(kind, candidate, reference, &table) {
            kinds.push(kind);
        }
    }
    kinds
}

#[test]
fn to_chars_gives_every_character() {
    assert_eq!(to_chars(""), chars(""));
    assert_eq!(to_chars("serde"), chars("serde"));
    assert_eq!(to_chars("a\u{6ca}-b"), vec!['a', '\u{6ca}', '-', 'b']);
}

#[test]
fn same_chars_compares_contents() {
    assert!(same_chars(&chars("abc"), &chars("abc")));
    assert!(!same_chars(&chars("abc"), &chars("abd")));
    assert!(!same_chars(&chars("abc"), &chars("ab")));
    assert!(same_chars(&chars(""), &chars("")));
}

#[test]
fn whitespace_is_what_std_calls_whitespace() {
    let mut code: u32 = 0;
    while code <= 0x3100 {
        if let Some(c) = char::from_u32(code) {
            assert_eq!(is_whitespace_char(c), c.is_whitespace(), "U+{:04X}", code);
        }
        code += 1;
    }
}

#[test]
fn trim_bounds_are_those_of_trim() {
    assert_eq!(trim_bounds(&chars("  serde \n")), (2, 7));
    assert_eq!(trim_bounds(&chars("serde")), (0, 5));
    assert_eq!(trim_bounds(&chars("   ")), (3, 3));
    assert_eq!(trim_bounds(&chars("")), (0, 0));
    assert_eq!(trim_bounds(&chars("a b")), (0, 3));
}

#[test]
fn lower_char_changes_ascii_capitals_only() {
    assert_eq!(lower_char('A'), 'a');
    assert_eq!(lower_char('Z'), 'z');
    assert_eq!(lower_char('q'), 'q');
    assert_eq!(lower_char('-'), '-');
    assert_eq!(lower_char('@'), '@');
    assert_eq!(lower_char('['), '[');
    assert_eq!(lower_char('\u{c9}'), '\u{c9}');
}

#[test]
fn normalize_trims_and_lowers() {
    assert_eq!(normalize("  Serde\t"), chars("serde"));
    assert_eq!(normalize("my-crate"), chars("my-crate"));
    assert_eq!(normalize("My_Crate"), chars("my_crate"));
    assert_eq!(normalize(" \n "), chars(""));
    assert_eq!(normalize("a B"), chars("a b"));
}

#[test]
fn prefix_and_suffix_lengths() {
    assert_eq!(prefix_len(&chars("serde"), &chars("serve")), 3);
    assert_eq!(suffix_len(&chars("serde"), &chars("serve")), 1);
    assert_eq!(prefix_len(&chars("abc"), &chars("abc")), 3);
    assert_eq!(suffix_len(&chars("abc"), &chars("abc")), 3);
    assert_eq!(prefix_len(&chars(""), &chars("abc")), 0);
    assert_eq!(suffix_len(&chars("xbc"), &chars("abc")), 2);
    assert_eq!(prefix_len(&chars("aaa"), &chars("aaaa")), 3);
    assert_eq!(suffix_len(&chars("aaa"), &chars("aaaa")), 3);
}

#[test]
fn omitted_character_fires_for_each_place() {
    for candidate in ["erde", "srde", "sede", "sere", "serd"] {
        assert!(is_omitted_character(&chars(candidate), &chars("serde")), "{}", candidate);
    }
    assert!(is_omitted_character(&chars("aa"), &chars("aaa")));
    assert!(is_omitted_character(&chars(""), &chars("a")));
}

#[test]
fn omitted_character_does_not_fire_otherwise() {
    assert!(!is_omitted_character(&chars("serde"), &chars("serde")));
    assert!(!is_omitted_character(&chars("serde"), &chars("serd")));
    assert!(!is_omitted_character(&chars("ser"), &chars("serde")));
    assert!(!is_omitted_character(&chars("sxrd"), &chars("serde")));
    assert!(!is_omitted_character(&chars("sedr"), &chars("serde")));
    assert!(!is_omitted_character(&chars(""), &chars("")));
}

#[test]
fn repeated_character_fires_where_one_is_doubled() {
    for candidate in ["sserde", "seerde", "serrde", "serdde", "serdee"] {
        assert!(is_repeated_character(&chars(candidate), &chars("serde")), "{}", candidate);
    }
    assert!(is_repeated_character(&chars("aa"), &chars("a")));
}

#[test]
fn repeated_character_does_not_fire_for_other_insertions() {
    assert!(!is_repeated_character(&chars("xserde"), &chars("serde")));
    assert!(!is_repeated_character(&chars("serdex"), &chars("serde")));
    assert!(!is_repeated_character(&chars("serxde"), &chars("serde")));
    assert!(!is_repeated_character(&chars("serde"), &chars("serde")));
    assert!(!is_repeated_character(&chars("a"), &chars("")));
    assert!(!is_repeated_character(&chars("serd"), &chars("serde")));
}

#[test]
fn swapped_characters_fires_for_adjacent_swaps() {
    for candidate in ["esrde", "srede", "sedre", "sered"] {
        assert!(is_swapped_characters(&chars(candidate), &chars("serde")), "{}", candidate);
    }
    assert!(is_swapped_characters(&chars("ba"), &chars("ab")));
}

#[test]
fn swapped_characters_does_not_fire_otherwise() {
    assert!(!is_swapped_characters(&chars("serde"), &chars("serde")));
    assert!(!is_swapped_characters(&chars("aab"), &chars("aab")));
    assert!(!is_swapped_characters(&chars("edres"), &chars("serde")));
    assert!(!is_swapped_characters(&chars("resde"), &chars("serde")));
    assert!(!is_swapped_characters(&chars("esrdx"), &chars("serde")));
    assert!(!is_swapped_characters(&chars("a"), &chars("b")));
    assert!(!is_swapped_characters(&chars(""), &chars("")));
}

#[test]
fn substituted_character_fires_for_one_change() {
    assert!(is_substituted_character(&chars("xerde"), &chars("serde")));
    assert!(is_substituted_character(&chars("serve"), &chars("serde")));
    assert!(is_substituted_character(&chars("serdx"), &chars("serde")));
    assert!(is_substituted_character(&chars("a"), &chars("b")));
}

#[test]
fn substituted_character_does_not_fire_otherwise() {
    assert!(!is_substituted_character(&chars("serde"), &chars("serde")));
    assert!(!is_substituted_character(&chars("sxrdx"), &chars("serde")));
    assert!(!is_substituted_character(&chars("serd"), &chars("serde")));
    assert!(!is_substituted_character(&chars(""), &chars("")));
}

#[test]
fn one_bit_apart_means_one_bit() {
    assert!(one_bit_apart_chars('a', 'c'));
    assert!(one_bit_apart_chars('a', 'A'));
    assert!(one_bit_apart_chars('b', 'c'));
    assert!(one_bit_apart_chars('a', '!'));
    assert!(!one_bit_apart_chars('a', 'a'));
    assert!(!one_bit_apart_chars('a', 'd'));
    assert!(!one_bit_apart_chars('a', '\u{e1}'));
    assert!(!one_bit_apart_chars('\u{100}', '\u{101}'));
}

#[test]
fn bitflip_fires_for_one_flipped_bit() {
    assert!(is_bitflip(&chars("ac"), &chars("ab")));
    assert!(is_bitflip(&chars("sgrde"), &chars("serde")));
    assert!(is_bitflip(&chars("ad"), &chars("ae")));
    assert!(!is_bitflip(&chars("ab"), &chars("ab")));
    assert!(!is_bitflip(&chars("serve"), &chars("serde")));
    assert!(!is_bitflip(&chars("cc"), &chars("ab")));
    assert!(!is_bitflip(&chars("ac"), &chars("abc")));
}

#[test]
fn strip_separators_keeps_the_rest() {
    assert_eq!(strip_separators(&chars("my-crate")), chars("mycrate"));
    assert_eq!(strip_separators(&chars("_a-b_")), chars("ab"));
    assert_eq!(strip_separators(&chars("serde")), chars("serde"));
    assert_eq!(strip_separators(&chars("--")), chars(""));
}

#[test]
fn separator_variation_fires_between_styles() {
    assert!(is_separator_variation(&chars("foo_bar"), &chars("foo-bar")));
    assert!(is_separator_variation(&chars("foobar"), &chars("foo-bar")));
    assert!(is_separator_variation(&chars("foo-bar"), &chars("foobar")));
    assert!(is_separator_variation(&chars("foo-bar"), &chars("foo_bar")));
    assert!(is_separator_variation(&chars("f-o-o"), &chars("foo")));
    assert!(is_separator_variation(&chars("mycrate"), &chars("my-crate")));
}

#[test]
fn separator_variation_does_not_fire_otherwise() {
    assert!(!is_separator_variation(&chars("foo-bar"), &chars("foo-bar")));
    assert!(!is_separator_variation(&chars("foo-baz"), &chars("foo_bar")));
    assert!(!is_separator_variation(&chars("bar-foo"), &chars("foo-bar")));
    assert!(!is_separator_variation(&chars("foo.bar"), &chars("foo-bar")));
}

#[test]
fn matches_at_finds_a_pattern_in_place() {
    assert!(matches_at(&chars("serde"), 1, &chars("er")));
    assert!(matches_at(&chars("serde"), 0, &chars("")));
    assert!(matches_at(&chars("serde"), 5, &chars("")));
    assert!(!matches_at(&chars("serde"), 6, &chars("")));
    assert!(!matches_at(&chars("serde"), 4, &chars("er")));
    assert!(!matches_at(&chars("serde"), 2, &chars("er")));
    assert!(!matches_at(&chars("serde"), usize::MAX, &chars("e")));
}

#[test]
fn confusable_fires_for_look_alikes() {
    let table = Config::standard().confusables;
    assert!(is_confusable(&chars("seria1"), &chars("serial"), &table));
    assert!(is_confusable(&chars("serial"), &chars("seria1"), &table));
    assert!(is_confusable(&chars("t0kio"), &chars("tokio"), &table));
    assert!(is_confusable(&chars("rnio"), &chars("mio"), &table));
    assert!(is_confusable(&chars("mio"), &chars("rnio"), &table));
    assert!(is_confusable(&chars("vvasm"), &chars("wasm"), &table));
    assert!(is_confusable(&chars("tirne"), &chars("time"), &table));
    assert!(is_confusable(&chars("lib1"), &chars("libi"), &table));
}

#[test]
fn confusable_does_not_fire_otherwise() {
    let table = Config::standard().confusables;
    assert!(!is_confusable(&chars("serde"), &chars("serde"), &table));
    assert!(!is_confusable(&chars("serve"), &chars("serde"), &table));
    assert!(!is_confusable(&chars("t0ki0"), &chars("tok10"), &table));
    assert!(!is_confusable(&chars("rnirn"), &chars("mim"), &table));
    assert!(!is_confusable(&chars("seria1"), &chars("serial"), &Vec::new()));
    assert!(!is_confusable(&chars("xrnio"), &chars("mio"), &table));
}

#[test]
fn confusable_takes_any_table() {
    let table = vec![Confusable::new("cl", "d"), Confusable::new("", "-")];
    assert!(is_confusable(&chars("sercle"), &chars("serde"), &table));
    assert!(is_confusable(&chars("serde"), &chars("sercle"), &table));
    assert!(is_confusable(&chars("foobar"), &chars("foo-bar"), &table));
    assert!(is_confusable(&chars("foo-bar"), &chars("foobar"), &table));
    assert!(!is_confusable(&chars("serial"), &chars("seria1"), &table));
}

#[test]
fn no_check_fires_for_a_name_against_itself() {
    let table = Config::standard().confusables;
    for name in ["serde", "my-crate", "a", "", "aa", "rn", "1l", "foo_bar-baz"] {
        for kind in ALL {
            assert!(!check_pair(kind, &chars(name), &chars(name), &table), "{:?} {}", kind, name);
        }
    }
    for kind in ALL {
        assert!(!check_names(kind, " Serde ", "serde", &table), "{:?}", kind);
    }
}

#[test]
fn each_omission_of_one_character_fires() {
    let table = Config::standard().confusables;
    for reference in ["serde", "tokio", "my-crate", "aab", "a"] {
        let all = chars(reference);
        for i in 0..all.len() {
            let mut candidate = all.clone();
            candidate.remove(i);
            assert!(
                check_pair(CheckKind::OmittedCharacter, &candidate, &all, &table),
                "{} without its character {}",
                reference,
                i
            );
        }
    }
}

#[test]
fn each_separator_style_fires() {
    let table = Config::standard().confusables;
    let styles = ["foo-bar", "foo_bar", "foobar"];
    for candidate in styles {
        for reference in styles {
            assert_eq!(
                check_names(CheckKind::Separator, candidate, reference, &table),
                candidate != reference,
                "{} against {}",
                candidate,
                reference
            );
        }
    }
}

#[test]
fn check_names_reads_names_trimmed_and_lowered() {
    let table = Config::standard().confusables;
    assert!(check_names(CheckKind::OmittedCharacter, " SERD ", "serde", &table));
    assert!(check_names(CheckKind::OmittedCharacter, "serd", " Serde\n", &table));
    assert!(!check_names(CheckKind::OmittedCharacter, "serde ", "serde", &table));
}

#[test]
fn checks_that_fire_for_some_pairs() {
    assert_eq!(firing("serd", "serde"), vec![CheckKind::OmittedCharacter]);
    assert_eq!(firing("serdee", "serde"), vec![CheckKind::RepeatedCharacter]);
    assert_eq!(firing("sedre", "serde"), vec![CheckKind::SwappedCharacters]);
    assert_eq!(firing("serve", "serde"), vec![CheckKind::SubstitutedCharacter]);
    assert_eq!(
        firing("mycrate", "my-crate"),
        vec![CheckKind::OmittedCharacter, CheckKind::Separator]
    );
    assert_eq!(
        firing("my_crate", "my-crate"),
        vec![CheckKind::SubstitutedCharacter, CheckKind::Separator]
    );
    assert_eq!(
        firing("seria1", "serial"),
        vec![CheckKind::SubstitutedCharacter, CheckKind::Confusable]
    );
    assert_eq!(
        firing("sgrde", "serde"),
        vec![CheckKind::SubstitutedCharacter, CheckKind::Bitflip]
    );
    assert_eq!(firing("rnio", "mio"), vec![CheckKind::Confusable]);
    assert_eq!(firing("totally-unrelated-name", "serde"), Vec::<CheckKind>::new());
    assert_eq!(firing("innocent-crate", "my-crate"), Vec::<CheckKind>::new());
}
