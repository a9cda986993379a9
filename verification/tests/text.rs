use nemu::text::{chars_of, contains, is_space, join, same_text, split_whitespace, trim};
use nemu::ui::input_handler::InputHandler;
use nemu::ui::{welcome, TerminalUI};

#[test]
fn whitespace_is_the_unicode_set() {
    let spaces = [
        '\u{9}', '\u{a}', '\u{b}', '\u{c}', '\u{d}', ' ', '\u{85}', '\u{a0}', '\u{1680}',
        '\u{2000}', '\u{2005}', '\u{200a}', '\u{2028}', '\u{2029}', '\u{202f}', '\u{205f}',
        '\u{3000}',
    ];
    for c in spaces {
        assert!(is_space(c));
        assert!(c.is_whitespace());
    }
    for c in ['a', '0', '_', '\u{8}', '\u{e}', '\u{1f}', '\u{200b}', '\u{feff}', '\u{180e}'] {
        assert!(!is_space(c));
        assert!(!c.is_whitespace());
    }
}

#[test]
fn whitespace_agrees_with_the_standard_library_on_every_character() {
    let mut code: u32 = 0;
    while code <= 0x10FFFF {
        if let Some(c) = char::from_u32(code) {
            assert_eq!(is_space(c), c.is_whitespace());
        }
        code += 1;
    }
}

#[test]
fn characters_come_out_one_by_one() {
    assert_eq!(chars_of("a\u{e9}z"), vec!['a', '\u{e9}', 'z']);
    assert!(chars_of("").is_empty());
}

#[test]
fn splitting_yields_the_words_in_order() {
    assert_eq!(split_whitespace("go north"), vec!["go".to_string(), "north".to_string()]);
    assert_eq!(
        split_whitespace("  pick \t up\n coin  "),
        vec!["pick".to_string(), "up".to_string(), "coin".to_string()]
    );
    assert_eq!(split_whitespace("one"), vec!["one".to_string()]);
    assert!(split_whitespace("").is_empty());
    assert!(split_whitespace(" \t\n ").is_empty());
    assert_eq!(
        split_whitespace("caf\u{e9}\u{a0}noir"),
        vec!["caf\u{e9}".to_string(), "noir".to_string()]
    );
}

#[test]
fn splitting_agrees_with_the_standard_library() {
    for line in ["", " ", "a", " a", "a ", "a b", "a  b", "\ta\nb\r\nc ", "x\u{2003}y\u{3000}"] {
        let expected: Vec<String> = line.split_whitespace().map(|w| w.to_string()).collect();
        assert_eq!(split_whitespace(line), expected);
    }
}

#[test]
fn a_part_is_found_wherever_it_stands() {
    assert!(contains("leather-bound book", "book"));
    assert!(contains("leather-bound book", "leather"));
    assert!(contains("leather-bound book", "r-b"));
    assert!(contains("leather-bound book", "leather-bound book"));
    assert!(contains("leather-bound book", ""));
    assert!(contains("", ""));
    assert!(contains("aab", "ab"));
    assert!(!contains("leather-bound book", "books"));
    assert!(!contains("leather-bound book", "Book"));
    assert!(!contains("", "a"));
    assert!(!contains("ab", "ba"));
    assert!(!contains("abc", "abcd"));
}

#[test]
fn the_same_text_is_the_same_characters() {
    assert!(same_text("look", "look"));
    assert!(same_text("", ""));
    assert!(!same_text("look", "Look"));
    assert!(!same_text("look", "loo"));
    assert!(!same_text("loo", "look"));
    assert!(!same_text("look", "lock"));
}

#[test]
fn trimming_takes_the_whitespace_off_both_ends() {
    assert_eq!(trim("  go  north \n"), "go  north");
    assert_eq!(trim("quit"), "quit");
    assert_eq!(trim("\u{3000}a\u{a0}"), "a");
    assert_eq!(trim(" \t "), "");
    assert_eq!(trim(""), "");
    for line in ["", " ", " a", "a ", " a b ", "\n\na\tb\r\n"] {
        assert_eq!(trim(line), line.trim());
    }
}

#[test]
fn joining_puts_the_separator_between_the_parts() {
    let parts = vec!["north".to_string(), "south".to_string(), "east".to_string()];
    assert_eq!(join(&parts, ", "), "north, south, east");
    assert_eq!(join(&vec!["north".to_string()], ", "), "north");
    assert_eq!(join(&Vec::new(), ", "), "");
    assert_eq!(join(&vec!["".to_string(), "".to_string()], "-"), "-");
}

#[test]
fn the_welcome_stands_between_two_rules() {
    assert_eq!(
        welcome("House"),
        "=========================================\n    Welcome to: House\n========================================="
    );
}

#[test]
fn a_new_terminal_remembers_nothing() {
    let ui = TerminalUI::new().unwrap();
    assert!(ui.input_handler().history().is_empty());
    assert!(ui.input_handler().items().is_empty());
    assert!(ui.input_handler().npcs().is_empty());
    assert!(ui.input_handler().exits().is_empty());
}

#[test]
fn lines_that_are_not_empty_go_to_the_history() {
    let mut ui = TerminalUI::new().unwrap();
    assert_eq!(ui.accept_input("  look \n"), "look");
    assert_eq!(ui.accept_input(" \n"), "");
    assert_eq!(ui.accept_input("Go North\n"), "Go North");
    assert_eq!(
        ui.input_handler().history(),
        &vec!["look".to_string(), "Go North".to_string()]
    );
}

#[test]
fn the_context_is_replaced_and_the_history_stays() {
    let mut ui = TerminalUI::new().unwrap();
    ui.accept_input("look");
    ui.update_context(vec!["key".to_string()], vec!["cat".to_string()], vec!["north".to_string()]);
    ui.update_context(vec!["book".to_string()], Vec::new(), vec!["south".to_string()]);
    assert_eq!(ui.input_handler().items(), &vec!["book".to_string()]);
    assert!(ui.input_handler().npcs().is_empty());
    assert_eq!(ui.input_handler().exits(), &vec!["south".to_string()]);
    assert_eq!(ui.input_handler().history(), &vec!["look".to_string()]);
}

#[test]
fn the_handler_keeps_lines_in_order() {
    let mut handler = InputHandler::new();
    handler.add_to_history("a");
    handler.add_to_history("b");
    handler.update_context(Vec::new(), vec!["cat".to_string()], Vec::new());
    assert_eq!(handler.history(), &vec!["a".to_string(), "b".to_string()]);
    assert_eq!(handler.npcs(), &vec!["cat".to_string()]);
}
