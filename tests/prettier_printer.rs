use prettier_print::prettier_printer::{
    decorate, LineSparkles, PrettierPrintDisplayer, PrettierPrinter, Seed, Sparkle,
};
use rand::rngs::SmallRng;
use rand::SeedableRng;
use std::collections::HashMap;

#[derive(Debug, Clone)]
struct Type {
    a: String,
    b: Vec<i32>,
    c: HashMap<&'static str, &'static str>,
}

fn example_input() -> Type {
    Type {
        a: "a".to_string(),
        b: vec![0, 1],
        c: {
            let mut map = HashMap::new();
            map.insert("So", "pretty");
            map
        },
    }
}

fn seed_with_first_byte(first: u8) -> Seed {
    let mut seed = Seed::default();
    seed[0] = first;
    seed
}

#[test]
fn test() {
    let seed = seed_with_first_byte(170);
    {
        let result = PrettierPrinter::new_with_seed(seed).print(&0).to_string();
        assert!(result.starts_with("\u{1F308} \u{1F308}\n"));
        assert!(result.ends_with("\u{1F308} \u{1F308}\n"));
        assert!(result.contains(' '));
    }
    {
        let input = example_input();
        let displayer = PrettierPrinter::new_with_seed(seed).print(&input);
        let result = displayer.to_string();
        assert!(result.starts_with("\u{1F308}                         \u{1F308}\n"));
        assert!(result.ends_with("\u{1F308}                         \u{1F308}\n"));
        assert_eq!(result, displayer.clone().to_string());
    }
}

#[test]
fn prettier_printer() {
    let seed = seed_with_first_byte(180);
    {
        let result = PrettierPrinter::new_with_seed(seed).print(&0).to_string();
        assert!(result.starts_with("\u{1F308} \u{1F308}\n"));
        assert!(result.ends_with("\u{1F308} \u{1F308}\n"));
        assert!(result.contains(' '));
    }
    {
        let input = example_input();
        let displayer = PrettierPrinter::new_with_seed(seed).print(&input);
        let result = displayer.to_string();
        assert!(result.starts_with("\u{1F308}                         \u{1F308}\n"));
        assert!(result.ends_with("\u{1F308}                         \u{1F308}\n"));
        assert_eq!(result, displayer.clone().to_string());
        println!("{:#?}", &input);
        println!("{}", result);
    }
}

const STAR: char = '\u{2B50}';
const GLOWING_STAR: char = '\u{1F31F}';
const SUN: char = '\u{2600}';

fn long_text() -> String {
    let mut text = String::new();
    for i in 0..60 {
        text.push_str(&" ".repeat(4 + i % 7));
        text.push_str("field: value,\n");
    }
    text
}

#[test]
fn decorate_places_given_stars() {
    let sparkles = vec![LineSparkles {
        lead: Some(Sparkle { offset: 1, glyph: 0 }),
        trail: Some(Sparkle { offset: 0, glyph: 2 }),
    }];
    let result = decorate("  x", &sparkles);
    assert_eq!(
        result,
        "\u{1F308}   \u{1F308}\n  \u{2B50}x\u{2600}\n\u{1F308}   \u{1F308}\n"
    );
}

#[test]
fn decorate_trailing_star_after_blanks() {
    let sparkles = vec![LineSparkles {
        lead: None,
        trail: Some(Sparkle { offset: 1, glyph: 1 }),
    }];
    let result = decorate("ab", &sparkles);
    assert_eq!(
        result,
        "\u{1F308}  \u{1F308}\n ab \u{1F31F}\n\u{1F308}  \u{1F308}\n"
    );
}

#[test]
fn decorate_trims_trailing_spaces() {
    let sparkles = vec![LineSparkles { lead: None, trail: None }];
    assert_eq!(
        decorate("ab  \n", &sparkles),
        "\u{1F308}    \u{1F308}\n ab\n\u{1F308}    \u{1F308}\n"
    );
}

#[test]
fn decorate_splits_crlf_lines() {
    let none = LineSparkles { lead: None, trail: None };
    assert_eq!(
        decorate("a\r\nb", &vec![none, none]),
        "\u{1F308} \u{1F308}\n a\n b\n\u{1F308} \u{1F308}\n"
    );
}

#[test]
fn width_counts_bytes_and_adds_a_tenth() {
    let none = LineSparkles { lead: None, trail: None };
    let line = "x".repeat(20);
    let result = decorate(&line, &vec![none]);
    let first = result.lines().next().unwrap();
    // 20 + 2 + 2 = 24 columns: 22 spaces between the rainbows.
    assert_eq!(first.chars().filter(|&c| c == ' ').count(), 22);
    let accented = decorate("\u{e9}", &vec![none]);
    // two bytes: width 4, two spaces between the rainbows.
    assert!(accented.starts_with("\u{1F308}  \u{1F308}\n"));
}

#[test]
fn empty_text_gives_two_border_lines() {
    let result = PrettierPrintDisplayer::<i32>::output(Seed::default(), "");
    assert_eq!(result, "\u{1F308}\u{1F308}\n\u{1F308}\u{1F308}\n");
}

#[test]
fn output_is_deterministic() {
    let text = long_text();
    let seed = seed_with_first_byte(3);
    let a = PrettierPrintDisplayer::<i32>::output(seed, &text);
    let b = PrettierPrintDisplayer::<i32>::output(seed, &text);
    assert_eq!(a, b);
}

#[test]
fn output_differs_between_seeds() {
    let text = long_text();
    let a = PrettierPrintDisplayer::<i32>::output(seed_with_first_byte(1), &text);
    let b = PrettierPrintDisplayer::<i32>::output(seed_with_first_byte(2), &text);
    assert_ne!(a, b);
}

#[test]
fn output_keeps_every_line_and_places_stars_in_blanks() {
    let text = long_text();
    let result = PrettierPrintDisplayer::<i32>::output(seed_with_first_byte(9), &text);
    let out_lines: Vec<&str> = result.lines().collect();
    let in_lines: Vec<&str> = text.lines().collect();
    assert_eq!(out_lines.len(), in_lines.len() + 2);
    let mut stars = 0;
    for (out, inp) in out_lines[1..out_lines.len() - 1].iter().zip(in_lines.iter()) {
        let cleaned: String = out
            .chars()
            .map(|c| if c == STAR || c == GLOWING_STAR || c == SUN { ' ' } else { c })
            .collect();
        stars += out.chars().filter(|&c| c == STAR || c == GLOWING_STAR || c == SUN).count();
        assert_eq!(cleaned.trim(), inp.trim());
        assert!(out.starts_with(' '));
    }
    assert!(stars > 0);
}

#[test]
fn redecorating_adds_another_frame() {
    let text = "  a\n  b";
    let seed = seed_with_first_byte(5);
    let once = PrettierPrintDisplayer::<i32>::output(seed, text);
    let twice = PrettierPrintDisplayer::<i32>::output(seed, &once);
    assert_ne!(once, twice);
    assert_eq!(twice.lines().count(), once.lines().count() + 2);
}

#[test]
fn gen_seed_advances_the_generator() {
    let mut rng = SmallRng::from_seed([1u8; 32]);
    let a = PrettierPrinter::gen_seed(&mut rng);
    let b = PrettierPrinter::gen_seed(&mut rng);
    assert_ne!(a, b);
    let mut again = SmallRng::from_seed([1u8; 32]);
    assert_eq!(PrettierPrinter::gen_seed(&mut again), a);
}

#[test]
fn printer_draws_a_new_seed_per_print() {
    let mut printer = PrettierPrinter::new_with_seed(seed_with_first_byte(4));
    let first = printer.print(&1).seed;
    let second = printer.print(&1).seed;
    assert_ne!(first, second);
    let mut unseeded = PrettierPrinter::default();
    assert!(unseeded.print(&1).to_string().starts_with('\u{1F308}'));
    let mut fresh = PrettierPrinter::new();
    assert!(fresh.print(&1).to_string().ends_with("\u{1F308}\n"));
}
