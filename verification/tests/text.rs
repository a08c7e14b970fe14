use brew_tray::text::truncate_name;

fn width(s: &str) -> usize {
    s.chars().map(|c| if c.is_ascii() { 1 } else { 2 }).sum()
}

#[test]
fn short_ascii_name_is_padded_to_the_width() {
    let out = truncate_name("Kenya AA", 16);
    assert_eq!(out, "Kenya AA        ");
    assert_eq!(width(&out), 16);
}

#[test]
fn name_of_exact_width_is_left_alone() {
    assert_eq!(truncate_name("abcd", 4), "abcd");
}

#[test]
fn long_ascii_name_is_cut_and_marked() {
    let out = truncate_name("Ethiopia Yirgacheffe Natural", 16);
    assert_eq!(out, "Ethiopia Yirgach…");
    assert_eq!(width(&out), 16 + 2);
}

#[test]
fn wide_characters_count_two_columns() {
    let out = truncate_name("埃塞俄比亚", 16);
    assert_eq!(out, "埃塞俄比亚      ");
    assert_eq!(width(&out), 16);
}

#[test]
fn wide_name_is_cut_before_the_character_that_does_not_fit() {
    let out = truncate_name("埃塞俄比亚耶加雪菲水洗", 16);
    assert_eq!(out, "埃塞俄比亚耶加雪…");
}

#[test]
fn cut_leaves_a_blank_where_a_wide_character_would_overrun() {
    // Seven columns are used after "a" and three wide characters; the next
    // wide character needs two, so one blank follows the ellipsis.
    let out = truncate_name("a中中中中", 8);
    assert_eq!(out, "a中中中… ");
}

#[test]
fn width_zero_keeps_nothing() {
    assert_eq!(truncate_name("abc", 0), "…");
    assert_eq!(truncate_name("", 0), "");
}

#[test]
fn empty_name_is_all_blanks() {
    assert_eq!(truncate_name("", 3), "   ");
}

#[test]
fn a_name_that_fits_has_exactly_the_requested_width() {
    for name in ["", "a", "Kenya", "云南", "Brew 咖啡", "0123456789abcdef"] {
        for w in [16usize, 20, 32] {
            assert_eq!(width(&truncate_name(name, w)), w, "{name:?} at {w}");
        }
    }
}
