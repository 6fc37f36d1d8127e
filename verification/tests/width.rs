use rustable::columns::column_widths;

fn measure(text: &str) -> usize {
    column_widths(&None, &vec![vec![text.to_string()]])[0]
}

fn is_plain(c: char) -> bool {
    (' '..='~').contains(&c) && !c.is_ascii_digit() && !"#*<=>".contains(c)
}

const CONTEXTS: [&str; 24] = [
    "",
    "a",
    "word",
    "中",
    "中文",
    "\u{fe0f}",
    "\u{fe0e}",
    "\u{200d}",
    "\u{338}",
    "e\u{301}",
    "\u{301}",
    "🇯🇵",
    "\u{1f1ef}",
    "👨\u{200d}👩\u{200d}👧",
    "\u{1f3fb}",
    "\u{20e3}",
    "\n",
    "\r",
    "\t",
    "1",
    "#",
    "<",
    "\u{644}",
    "\u{627}",
];

#[test]
fn plain_character_takes_one_column_wherever_it_stands() {
    for code in 0x20u8..=0x7e {
        let c = char::from(code);
        if !is_plain(c) {
            continue;
        }
        for before in CONTEXTS {
            for after in CONTEXTS {
                let text = format!("{}{}{}", before, c, after);
                assert_eq!(
                    measure(&text),
                    measure(before) + 1 + measure(after),
                    "{:?} between {:?} and {:?}",
                    c,
                    before,
                    after
                );
            }
        }
    }
}

#[test]
fn plain_text_is_as_wide_as_it_is_long() {
    assert_eq!(measure("Username"), 8);
    assert_eq!(measure("First name"), 10);
    assert_eq!(measure("a | b - c"), 9);
    assert_eq!(measure("~!@$%^&()_+[]{};':\",./?\\`"), 25);
    assert_eq!(measure(""), 0);
}

#[test]
fn digit_can_join_with_what_follows() {
    assert_eq!(measure("1"), 1);
    assert_eq!(measure("\u{fe0f}"), 0);
    assert_eq!(measure("1\u{fe0f}"), 2);
    assert_eq!(measure("#\u{fe0f}"), 2);
    assert_eq!(measure("*\u{fe0f}"), 2);
}

#[test]
fn comparison_sign_can_join_with_an_overlay() {
    for sign in ["<", "=", ">"] {
        assert_eq!(measure(sign), 1);
        assert_eq!(measure(&format!("{}\u{338}", sign)), 2);
    }
    assert_eq!(measure("\u{338}"), 0);
}

#[test]
fn wide_and_ambiguous_characters() {
    assert_eq!(measure("中"), 2);
    assert_eq!(measure("Ｈｅｌｌｏ"), 10);
    assert_eq!(measure("“"), 2);
    assert_eq!(measure("“𘀀”"), 6);
}
