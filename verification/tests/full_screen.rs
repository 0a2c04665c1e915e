use qobine::full_screen::{
    artist_line, can_fit_text, can_plan, cover_bounds, ellipsize, entity_sizes, fit_text, icon_place, info_plan, info_rows,
    info_width, plain_title, position_labels, split_words, status_icon, title_sizes, wrap_big_text,
    BigTextSize, FittedText, PixelSize, Place, ICON_CHARS,
};
use qobine::models::Status;

fn lines(fitted: &FittedText) -> Vec<&str> {
    match fitted {
        FittedText::Big { lines, .. } => lines.iter().map(String::as_str).collect(),
        FittedText::Plain(_) => panic!("expected big text"),
    }
}

fn pixel_size(fitted: &FittedText) -> PixelSize {
    match fitted {
        FittedText::Big { size, .. } => size.pixel_size,
        FittedText::Plain(_) => panic!("expected big text"),
    }
}

#[test]
fn multi_word_title_falls_back_to_smaller_size_instead_of_overflowing() {
    let fitted = fit_text("Days of Candy", 50, 8, &title_sizes(), ICON_CHARS);

    assert_eq!(pixel_size(&fitted), PixelSize::Sextant);
    assert_eq!(lines(&fitted), ["Days of", "Candy"]);
}

#[test]
fn single_word_falls_back_instead_of_truncating() {
    let fitted = fit_text("Sparks", 50, 12, &title_sizes(), ICON_CHARS);

    assert_eq!(pixel_size(&fitted), PixelSize::Sextant);
    assert_eq!(lines(&fitted), ["Sparks"]);
}

#[test]
fn short_title_in_large_area_uses_the_largest_size() {
    let fitted = fit_text("Meddle", 200, 20, &title_sizes(), ICON_CHARS);

    assert_eq!(pixel_size(&fitted), PixelSize::HalfHeight);
    assert_eq!(lines(&fitted), ["Meddle"]);
}

#[test]
fn long_single_word_in_tiny_area_falls_back_to_plain_text() {
    let fitted = fit_text("Supermassive", 30, 6, &title_sizes(), ICON_CHARS);

    assert_eq!(fitted, FittedText::Plain("Supermassive".to_string()));
}

#[test]
fn plain_fallback_ellipsizes_with_a_single_character() {
    let fitted = fit_text("An Ending (Ascent)", 10, 2, &title_sizes(), ICON_CHARS);

    assert_eq!(fitted, FittedText::Plain("An Ending…".to_string()));
}

#[test]
fn entity_wraps_at_sextant() {
    let fitted = fit_text("Depression Cherry", 50, 8, &entity_sizes(), 0);

    assert_eq!(pixel_size(&fitted), PixelSize::Sextant);
    assert_eq!(lines(&fitted), ["Depression", "Cherry"]);
}

#[test]
fn wrap_never_splits_words_and_respects_width() {
    let wrapped = wrap_big_text("one two three four five", 9);

    assert_eq!(wrapped, ["one two", "three", "four five"]);
    assert!(wrapped.iter().all(|line| line.chars().count() <= 9));
}

#[test]
fn words_are_divided_by_any_white_space() {
    assert_eq!(split_words("  a\tbc \u{3000} d "), ["a", "bc", "d"]);
    assert!(split_words(" \n ").is_empty());
}

#[test]
fn a_text_that_fits_is_left_as_it_is() {
    assert_eq!(wrap_big_text("  two  words ", 13), ["  two  words "]);
    assert_eq!(wrap_big_text("   ", 2), Vec::<String>::new());
}

#[test]
fn a_word_that_is_too_long_stands_alone() {
    assert_eq!(wrap_big_text("a Supermassive b", 5), ["a", "Supermassive", "b"]);
}

#[test]
fn an_ellipsis_takes_the_last_place() {
    assert_eq!(ellipsize("abc", 3), "abc");
    assert_eq!(ellipsize("abcd", 3), "ab…");
    assert_eq!(ellipsize("abcd", 1), "…");
    assert_eq!(ellipsize("abcd", 0), "…");
    assert_eq!(ellipsize("", 0), "");
}

#[test]
fn a_big_text_has_rows_and_columns() {
    let size = BigTextSize { pixel_size: PixelSize::Sextant, char_width: 4, char_height: 3 };
    let text = FittedText::Big { size, lines: vec!["Days of".to_string(), "Candy".to_string()] };
    assert_eq!(text.height(), 6);
    assert_eq!(text.width(), 28);
    let plain = FittedText::Plain("An Ending…".to_string());
    assert_eq!(plain.height(), 1);
    assert_eq!(plain.width(), 10);
}

/// The fewest lines on which words can stand that are no longer than `width`, found by trying
/// every first line.
fn fewest_lines(words: &[&str], width: usize) -> usize {
    if words.is_empty() {
        return 0;
    }
    (1..=words.len())
        .filter(|&n| n == 1 || words[..n].join(" ").chars().count() <= width)
        .map(|n| 1 + fewest_lines(&words[n..], width))
        .min()
        .unwrap_or(0)
}

#[test]
fn wrapping_uses_the_fewest_lines() {
    let text = "a bb ccc dddd eeeee ffff ggg hh i";
    let words: Vec<&str> = text.split(' ').collect();
    for width in 1..40u16 {
        let wrapped = wrap_big_text(text, width);
        assert_eq!(wrapped.len(), fewest_lines(&words, usize::from(width)));
    }
}

#[test]
fn a_plain_text_is_no_longer_than_its_width() {
    for width in 1..20u16 {
        match fit_text("An Ending (Ascent)", width, 0, &title_sizes(), ICON_CHARS) {
            FittedText::Plain(text) => assert!(text.chars().count() <= usize::from(width)),
            FittedText::Big { .. } => panic!("there is no row"),
        }
    }
}

#[test]
fn too_many_rows_are_not_counted() {
    let short = "a ".repeat(30);
    let long = "a ".repeat(20_000);
    assert!(can_fit_text(&short, 24, 8, &title_sizes(), ICON_CHARS));
    assert!(!can_fit_text(&long, 24, 8, &title_sizes(), ICON_CHARS));
    assert!(can_fit_text(&long, 3, 8, &title_sizes(), ICON_CHARS));
    let flat = [BigTextSize { pixel_size: PixelSize::Sextant, char_width: 0, char_height: 3 }];
    assert!(!can_fit_text("a", 24, 8, &flat, 0));
    assert!(can_plan(&Some("Meddle".to_string()), "Echoes", 100, 40));
    assert!(can_plan(&None, &"a".repeat(17_000), 100, 40));
    assert!(!can_plan(&None, &long, 24, 40));
    assert!(!can_plan(&Some("a ".repeat(22_000)), "Echoes", 4, 40));
}

#[test]
fn the_texts_share_the_rows() {
    let plan = info_plan(&Some("Meddle".to_string()), "Echoes", 100, 40);
    assert_eq!(plan.entity_height, 3);
    assert_eq!(plan.title_height, 4);
    assert_eq!(plan.top_spacer, 12);
    assert_eq!(lines(&plan.title), ["Echoes"]);
    assert_eq!(pixel_size(plan.entity.as_ref().unwrap()), PixelSize::Sextant);

    let alone = info_plan(&None, "Echoes", 20, 7);
    assert!(alone.entity.is_none());
    assert_eq!(alone.entity_height, 0);
    assert_eq!(alone.title, FittedText::Plain("Echoes".to_string()));
    assert_eq!(alone.title_height, 1);
    assert_eq!(alone.top_spacer, 0);
}

#[test]
fn the_cover_leaves_room_for_the_text() {
    assert_eq!(cover_bounds(200, 50), (80, 45));
    assert_eq!(info_width(30, 200), 50);
    assert_eq!(info_width(80, 200), 80);
    assert_eq!(info_width(80, 120), 34);
    assert_eq!(info_width(80, 20), 0);
    assert_eq!(info_rows(3, 20), (4, 18));
    assert_eq!(info_rows(3, 1), (4, 0));
}

#[test]
fn the_icon_stands_before_the_title() {
    let size = BigTextSize { pixel_size: PixelSize::HalfHeight, char_width: 8, char_height: 4 };
    assert_eq!(icon_place(size, 30, 10, 8), Place { x: 12, y: 12, width: 16, height: 4 });
    assert_eq!(icon_place(size, 5, 10, 4), Place { x: 0, y: 10, width: 16, height: 4 });
}

#[test]
fn lines_of_the_whole_screen() {
    assert_eq!(status_icon(Status::Playing), ">");
    assert_eq!(status_icon(Status::Paused), "||");
    assert_eq!(status_icon(Status::Buffering), "~");
    assert_eq!(plain_title(Status::Paused, "Echoes", 20), "|| Echoes");
    assert_eq!(plain_title(Status::Paused, "Echoes", 6), "|| Ec…");
    assert_eq!(artist_line("Pink Floyd"), "by Pink Floyd");
    assert_eq!(position_labels(0, 12), (" 1 ".to_string(), " 12 ".to_string()));
}
