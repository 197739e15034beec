use cognitive_core::cognition::{escape_quotes, has_memory, is_question};
use cognitive_core::models::{blob_file_name, priority_score};
use cognitive_core::text::{chars_of, eq_ignore_ascii_case, split_lines, split_whitespace, string_of_range, trim};

#[test]
fn trim_removes_surrounding_whitespace() {
    assert_eq!(trim("  hola mundo \t\n"), "hola mundo");
    assert_eq!(trim("\r\n"), "");
    assert_eq!(trim(""), "");
    assert_eq!(trim("sin espacios"), "sin espacios");
    assert_eq!(trim("\u{3000}ancho\u{3000}"), "ancho");
}

#[test]
fn split_whitespace_drops_empty_pieces() {
    assert_eq!(split_whitespace("  el gato\t negro \n"), vec!["el", "gato", "negro"]);
    assert!(split_whitespace("   ").is_empty());
    assert!(split_whitespace("").is_empty());
    assert_eq!(split_whitespace("uno"), vec!["uno"]);
}

#[test]
fn split_lines_keeps_empty_pieces() {
    assert_eq!(split_lines("a\nb\n"), vec!["a", "b", ""]);
    assert_eq!(split_lines(""), vec![""]);
    assert_eq!(split_lines("a\r\nb"), vec!["a\r", "b"]);
}

#[test]
fn characters_round_trip() {
    let v = chars_of("¿qué?");
    assert_eq!(v, vec!['¿', 'q', 'u', 'é', '?']);
    assert_eq!(string_of_range(&v, 1, 4), "qué");
    assert_eq!(string_of_range(&v, 2, 2), "");
}

#[test]
fn case_mapping_is_applied_before_matching() {
    // Lowercasing: an uppercase interrogative still opens a question.
    assert!(is_question("¿DÓNDE estás"));
    assert!(is_question("CÓMO funciona"));
    // Lowercasing of a model name before the family is recognised.
    assert_eq!(priority_score("QWEN"), 50);
}

#[test]
fn searching_and_replacing() {
    // Substring search decides whether the context is the "no memories" notice.
    assert!(!has_memory("x No hay recuerdos y"));
    assert!(has_memory("hay recuerdos"));
    // Replacement of every match, leftmost first.
    assert_eq!(escape_quotes("\"a\" y \"b\""), "'a' y 'b'");
    assert_eq!(blob_file_name("sha256:abc"), "sha256-abc");
    assert_eq!(blob_file_name("md5:abc"), "md5:abc");
}

#[test]
fn whitespace_set_and_ascii_case() {
    assert_eq!(trim("\u{85}\u{a0}x\u{2029}\u{202f}"), "x");
    // Zero width space is not White_Space.
    assert_eq!(trim("\u{200b}x"), "\u{200b}x");
    assert!(eq_ignore_ascii_case("ExIt", "exit"));
    assert!(!eq_ignore_ascii_case("exit", "exits"));
    assert!(!eq_ignore_ascii_case("Éxit", "éxit"));
    assert!(!eq_ignore_ascii_case("Éxit", "exit"));
}
