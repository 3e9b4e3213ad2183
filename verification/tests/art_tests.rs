use prometheus::art::{
    circle_mask, cut_text_into_lines, greeting_text, line_y, pick_background, pixel_transparent,
    wrap_measured, MeasuredWord, BACKGROUND_COUNT,
};

fn word(text: &str, width: u64) -> MeasuredWord {
    MeasuredWord {
        text: text.to_string(),
        width,
    }
}

#[test]
fn wrap_keeps_lines_under_the_limit() {
    let words = vec![word("aa", 10), word("bb", 20), word("cc", 30), word("dd", 40)];
    let lines = cut_text_into_lines(&words, 5, 40);
    let texts: Vec<&str> = lines.iter().map(|l| l.text.as_str()).collect();
    assert_eq!(texts, vec!["aa bb", "cc", "dd"]);

    // Every produced line measures within the limit here.
    let widths = [10u64, 20, 30, 40];
    for l in &lines {
        let line_width: u64 = widths[l.start..l.end].iter().sum::<u64>()
            + 5 * (l.end - l.start - 1) as u64;
        assert!(line_width <= 40);
    }
}

#[test]
fn wrap_leaves_an_overlong_word_alone() {
    // A single word wider than the limit is never split: it stands on
    // a line of its own, overflowing.
    let words = vec![word("gargantuan", 100), word("ok", 10)];
    let lines = cut_text_into_lines(&words, 5, 40);
    let texts: Vec<&str> = lines.iter().map(|l| l.text.as_str()).collect();
    assert_eq!(texts, vec!["gargantuan", "ok"]);
    assert_eq!((lines[0].start, lines[0].end), (0, 1));
}

#[test]
fn wrap_handles_the_edges() {
    let none: Vec<MeasuredWord> = vec![];
    assert!(cut_text_into_lines(&none, 5, 40).is_empty());

    let one = vec![word("solo", 12)];
    let lines = cut_text_into_lines(&one, 5, 40);
    assert_eq!(lines.len(), 1);
    assert_eq!(lines[0].text, "solo");

    // The exact-fit boundary: 10 + 5 + 25 == 40 stays on one line.
    let ranges = wrap_measured(&vec![10, 25], 5, 40);
    assert_eq!(ranges, vec![(0, 2)]);
    // One unit over the limit breaks.
    let ranges = wrap_measured(&vec![10, 26], 5, 40);
    assert_eq!(ranges, vec![(0, 1), (1, 2)]);
}

#[test]
fn mask_matches_the_circle_for_even_and_odd_sizes() {
    for size in [4u32, 5] {
        let mask = circle_mask(size);
        assert_eq!(mask.len(), size as usize);
        let h = (size / 2) as i64;
        for y in 0..size {
            assert_eq!(mask[y as usize].len(), size as usize);
            for x in 0..size {
                let dx = x as i64 - h;
                let dy = y as i64 - h;
                let outside = dx * dx + dy * dy > h * h;
                assert_eq!(mask[y as usize][x as usize], outside);
                assert_eq!(pixel_transparent(x, y, size), outside);
            }
        }
    }
}

#[test]
fn mask_keeps_the_quadrant_boundaries() {
    // The four axis points of the inscribed circle stay opaque, the
    // four corners go transparent, for an odd and an even size.
    for size in [5u32, 8] {
        let mask = circle_mask(size);
        let h = size / 2;
        for (x, y) in [(h, 0), (0, h), (size - 1, h), (h, size - 1)] {
            assert!(!mask[y as usize][x as usize]);
        }
        for (x, y) in [(0, 0), (size - 1, 0), (0, size - 1), (size - 1, size - 1)] {
            assert!(mask[y as usize][x as usize]);
        }
    }
}

#[test]
fn background_pick_stays_in_range() {
    for _ in 0..32 {
        assert!(pick_background() < BACKGROUND_COUNT);
    }
}

#[test]
fn greeting_interpolates_both_names() {
    assert_eq!(
        greeting_text("Amber", "the source code"),
        "Greetings and salutations, noble Sir Amber. With utmost reverence, I, as the devoted \
         steward of our realm, extend a gracious welcome to thee in the name of our cherished \
         domain, the source code."
    );
}

#[test]
fn lines_rise_from_the_baseline() {
    assert_eq!(line_y(0), 1250);
    assert_eq!(line_y(1), 1170);
    assert_eq!(line_y(2), 1090);
}
