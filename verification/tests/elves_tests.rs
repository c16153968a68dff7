use festive_puzzles::elves::{count_bare_shelves, count_sequential, matches_at, ElfCount};
use festive_puzzles::text::chars_of;

fn counts(elf: usize, elf_on_a_shelf: usize, shelf: usize) -> ElfCount {
    ElfCount { elf, elf_on_a_shelf, shelf }
}

#[test]
fn three_elves_and_one_on_a_shelf() {
    assert_eq!(ElfCount::from_elf_string("elf elf elf on a shelf"), counts(4, 1, 0));
}

#[test]
fn elf_on_a_shelf_alone() {
    assert_eq!(ElfCount::from_elf_string("elf on a shelf"), counts(2, 1, 0));
}

#[test]
fn elf_on_a_shelf_in_a_sentence() {
    assert_eq!(ElfCount::from_elf_string("there is an elf on a shelf"), counts(2, 1, 0));
}

#[test]
fn bare_shelf_before_a_ridden_one() {
    assert_eq!(ElfCount::from_elf_string("shelf elf on a shelf"), counts(3, 1, 1));
}

#[test]
fn empty_text_has_nothing() {
    assert_eq!(ElfCount::from_elf_string(""), counts(0, 0, 0));
}

#[test]
fn short_lead_never_excludes_a_shelf() {
    assert_eq!(ElfCount::from_elf_string("lf on a shelf"), counts(1, 0, 1));
    assert_eq!(ElfCount::from_elf_string("on a shelf"), counts(1, 0, 1));
    assert_eq!(ElfCount::from_elf_string("shelf"), counts(1, 0, 1));
}

#[test]
fn overlapping_elves_on_shelves_are_counted_once() {
    assert_eq!(ElfCount::from_elf_string("elf on a shelf on a shelf"), counts(3, 1, 0));
}

#[test]
fn shelves_in_a_row() {
    assert_eq!(ElfCount::from_elf_string("shelfshelfshelf"), counts(3, 0, 3));
    assert_eq!(ElfCount::from_elf_string("elf on a shelfelf on a shelf"), counts(4, 2, 0));
}

#[test]
fn text_with_wide_characters() {
    assert_eq!(ElfCount::from_elf_string("é€ elf on a shelf — shelf ☃"), counts(3, 1, 1));
    assert_eq!(ElfCount::from_elf_string("€lf on a shelf"), counts(1, 0, 1));
}

#[test]
fn capital_letters_do_not_match() {
    assert_eq!(ElfCount::from_elf_string("Elf on a Shelf, ELF"), counts(1, 0, 0));
}

#[test]
fn sequential_search_consumes_its_match() {
    assert_eq!(count_sequential(&chars_of("aaaa"), &chars_of("aa")), 2);
    assert_eq!(count_sequential(&chars_of("aaaaa"), &chars_of("aa")), 2);
    assert_eq!(count_sequential(&chars_of("abababa"), &chars_of("aba")), 2);
    assert_eq!(count_sequential(&chars_of("abc"), &chars_of("abcd")), 0);
    assert_eq!(count_sequential(&chars_of("abc"), &chars_of("")), 0);
}

#[test]
fn sequential_count_agrees_with_std() {
    for text in ["", "elf", "selfless elf shelf", "elfelfelf", "eelff", "elf on a shelf on a shelf"] {
        for pat in ["elf", "elf on a shelf", "shelf", "ff", "e"] {
            assert_eq!(
                count_sequential(&chars_of(text), &chars_of(pat)),
                text.matches(pat).count(),
                "{:?} in {:?}",
                pat,
                text
            );
        }
    }
}

#[test]
fn matches_at_positions() {
    let text = chars_of("a shelf");
    let shelf = chars_of("shelf");
    assert!(matches_at(&text, &shelf, 2));
    assert!(!matches_at(&text, &shelf, 1));
    assert!(!matches_at(&text, &shelf, 3));
    assert!(!matches_at(&text, &shelf, 7));
    assert!(!matches_at(&text, &shelf, usize::MAX));
    assert!(matches_at(&text, &chars_of(""), 7));
}

#[test]
fn bare_shelves_only() {
    assert_eq!(count_bare_shelves(&chars_of("shelf, shelf and elf on a shelf")), 2);
    assert_eq!(count_bare_shelves(&chars_of("elf on  a shelf")), 1);
}
