use cli_utils::colors::{blue, green, red, reset, yellow, Color, ColorString};

#[test]
fn test_red_color() {
    let mut color_string = ColorString {
        color: Color::Red,
        string: "Red".to_string(),
        colorised: "".to_string(),
    };
    color_string.paint();

    let expected_output = "\x1b[31mRed\x1b[0m";
    assert_eq!(color_string.colorised, expected_output);
}

#[test]
fn each_color_has_its_own_prefix_and_the_reset_suffix() {
    let rendered = [red("x"), green("x"), yellow("x"), blue("x")];
    let prefixes = ["\x1b[31m", "\x1b[32m", "\x1b[33m", "\x1b[34m"];
    for (r, p) in rendered.iter().zip(prefixes.iter()) {
        assert!(r.starts_with(p));
        assert!(r.ends_with("\x1b[0m"));
        assert_eq!(r.len(), p.len() + 1 + 4);
    }
    assert_eq!(green("ok"), "\x1b[32mok\x1b[0m");
    assert_eq!(yellow("ok"), "\x1b[33mok\x1b[0m");
    assert_eq!(blue("ok"), "\x1b[34mok\x1b[0m");
}

#[test]
fn painting_twice_wraps_the_first_rendering() {
    let once = red("abc");
    let twice = red(&once);
    assert_eq!(twice, format!("\x1b[31m{}\x1b[0m", once));
    assert!(twice.ends_with("\x1b[0m"));
}

#[test]
fn reset_frames_with_reset_codes() {
    assert_eq!(reset("plain"), "\x1b[0mplain\x1b[0m");
    let mut cs = ColorString {
        color: Color::Blue,
        string: "t".to_string(),
        colorised: String::new(),
    };
    cs.reset();
    assert_eq!(cs.colorised, "\x1b[0mt\x1b[0m");
    cs.paint();
    assert_eq!(cs.colorised, "\x1b[34mt\x1b[0m");
    assert_eq!(cs.string, "t");
}

#[test]
fn painting_empty_text() {
    assert_eq!(red(""), "\x1b[31m\x1b[0m");
}
