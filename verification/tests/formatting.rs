use colored::control::set_override;
use mdstyle::mode::update_modes;
use mdstyle::mode::Mode;
use mdstyle::render::render_char_as_string;
use mdstyle::render::render_text;

fn initial() -> Mode {
    Mode {
        heading_level: 0,
        active_star_symbols: 0,
        last_char: '\0',
        bold: false,
        italic: false,
        quote: false,
    }
}

fn chars(s: &str) -> Vec<char> {
    s.chars().collect()
}

fn run(s: &str) -> Mode {
    let mut m = initial();
    for c in s.chars() {
        m = update_modes(m, c);
    }
    m
}

fn is_subsequence(needle: &str, hay: &str) -> bool {
    let mut it = hay.chars();
    needle.chars().all(|n| it.any(|h| h == n))
}

#[test]
fn plain_text_unchanged() {
    set_override(true);
    assert_eq!(render_text(&chars("plain text")), "plain text");
}

#[test]
fn plain_text_unchanged_colors_off() {
    set_override(false);
    assert_eq!(render_text(&chars("plain text")), "plain text");
}

#[test]
fn empty_input_gives_empty_output() {
    set_override(true);
    assert_eq!(render_text(&Vec::new()), "");
}

#[test]
fn heading_marker_and_space_suppressed() {
    set_override(false);
    assert_eq!(render_text(&chars("# Title\n")), "Title\n");
}

#[test]
fn heading_styled_as_level_one() {
    set_override(true);
    let out = render_text(&chars("# Title\n"));
    assert!(!out.contains('#'));
    assert!(out.contains("\x1b[1m"), "bold code missing: {:?}", out);
    assert!(out.contains("\x1b[4m"), "underline code missing: {:?}", out);
    assert!(is_subsequence("Title\n", &out));
}

#[test]
fn second_hash_run_suppressed_independently() {
    set_override(false);
    assert_eq!(render_text(&chars("# a\n## b\n")), "a\nb\n");
}

#[test]
fn newline_resets_heading_level() {
    let m = run("### x");
    assert_eq!(m.get_heading_level(), 3);
    let m = update_modes(m, '\n');
    assert_eq!(m.get_heading_level(), 0);
}

#[test]
fn newline_resets_deepest_heading() {
    let m = run("###### x\n");
    assert_eq!(m.get_heading_level(), 0);
}

#[test]
fn heading_level_saturates_at_six() {
    let m = run("#######");
    assert_eq!(m.get_heading_level(), 6);
    let mut m = m;
    m.incr_heading_level();
    assert_eq!(m.get_heading_level(), 6);
}

#[test]
fn quote_survives_single_newline() {
    let m = run("> a\nb");
    assert!(m.is_quote());
}

#[test]
fn quote_cleared_by_blank_line() {
    let m = run("> a\n\n");
    assert!(!m.is_quote());
    let m = update_modes(m, 'b');
    assert!(!m.is_quote());
}

#[test]
fn single_star_run_is_italic_only() {
    let m = run("*");
    assert!(m.is_italic() && !m.is_bold());
    let m = update_modes(m, 'a');
    assert!(m.is_italic() && !m.is_bold());
    let m = update_modes(m, '*');
    assert!(!m.is_italic() && !m.is_bold());
}

#[test]
fn double_star_run_is_bold_only() {
    let m = run("**");
    assert!(m.is_bold() && !m.is_italic());
    let m = update_modes(m, 'a');
    assert!(m.is_bold() && !m.is_italic());
    let m = update_modes(m, '*');
    assert!(m.is_bold() && !m.is_italic());
    let m = update_modes(m, '*');
    assert!(!m.is_bold() && !m.is_italic());
}

#[test]
fn four_star_run_clears_bold() {
    let mut m = initial();
    m = update_modes(m, '*');
    assert!(m.is_italic() && !m.is_bold());
    m = update_modes(m, '*');
    assert!(m.is_bold() && !m.is_italic());
    m = update_modes(m, '*');
    assert!(m.is_bold() && !m.is_italic());
    m = update_modes(m, '*');
    assert!(!m.is_bold() && !m.is_italic());
    m = update_modes(m, 'a');
    assert!(!m.is_bold() && !m.is_italic());
}

#[test]
fn star_run_length_survives_other_characters() {
    let m = run("*a");
    assert_eq!(m.active_star_symbols, 1);
    let m = run("**a*");
    assert_eq!(m.active_star_symbols, 3);
}

#[test]
fn render_suppresses_space_and_hash_in_heading() {
    let mut m = initial();
    m = update_modes(m, '#');
    assert_eq!(render_char_as_string(&m, ' '), "");
    assert_eq!(render_char_as_string(&m, '#'), "");
}

#[test]
fn render_bold_wraps_in_bold_code() {
    set_override(true);
    let mut m = initial();
    m.bold = true;
    assert_eq!(render_char_as_string(&m, 'x'), "\x1b[1mx\x1b[0m");
}

#[test]
fn render_italic_wraps_in_italic_code() {
    set_override(true);
    let mut m = initial();
    m.italic = true;
    assert_eq!(render_char_as_string(&m, 'x'), "\x1b[3mx\x1b[0m");
}

#[test]
fn render_quote_wraps_in_color_code() {
    set_override(true);
    let mut m = initial();
    m.quote = true;
    let out = render_char_as_string(&m, 'x');
    assert!(out.starts_with("\x1b["), "color prefix missing: {:?}", out);
    assert!(out.ends_with("\x1b[0m"));
    assert!(out.contains('x'));
}

#[test]
fn render_heading_four_has_no_underline() {
    set_override(true);
    let mut m = initial();
    m.heading_level = 4;
    let out = render_char_as_string(&m, 'x');
    assert!(out.contains("\x1b[1m"));
    assert!(!out.contains("\x1b[4m"));
}

#[test]
fn styling_disabled_leaves_characters_bare() {
    set_override(false);
    let mut m = initial();
    m.bold = true;
    m.italic = true;
    m.quote = true;
    assert_eq!(render_char_as_string(&m, 'x'), "x");
}

#[test]
fn quoted_text_keeps_characters_in_order() {
    set_override(true);
    let out = render_text(&chars("> quoted\n"));
    assert!(is_subsequence("> quoted\n", &out));
    assert!(out.contains("\x1b["), "quote styling missing: {:?}", out);
}
