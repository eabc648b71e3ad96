use esa_cli::cli::confirm;
use esa_cli::tmp_file::format_post_content;
use esa_cli::tmp_file::tmp_file_default_value;
use esa_cli::tmp_file::Editor;

#[test]
fn unchanged_default_template_is_no_edit() {
    let editor = Editor::new();
    assert_eq!(editor.diff(tmp_file_default_value()), None);
}

#[test]
fn unchanged_prefill_is_no_edit() {
    let mut editor = Editor::new();
    let prefill = format_post_content("cat/Title #tag", "some body");
    editor.open(&prefill);
    assert_eq!(editor.diff(prefill), None);
}

#[test]
fn a_single_character_change_is_an_edit() {
    let mut editor = Editor::new();
    let prefill = format_post_content("Title", "some body");
    editor.open(&prefill);
    let changed = prefill.replace("some body", "some bodY");
    assert_eq!(editor.diff(changed.clone()), Some(changed));
}

#[test]
fn a_change_to_the_default_template_is_an_edit() {
    let editor = Editor::new();
    let mut text = tmp_file_default_value();
    text.push('x');
    assert_eq!(editor.diff(text.clone()), Some(text));
}

#[test]
fn reopening_moves_the_baseline() {
    let mut editor = Editor::new();
    editor.open("first");
    editor.open("second");
    assert_eq!(editor.diff(String::from("first")), Some(String::from("first")));
    assert_eq!(editor.diff(String::from("second")), None);
}

#[test]
fn affirmative_answers_confirm() {
    assert!(confirm("y"));
    assert!(confirm("Y"));
    assert!(confirm("yes"));
    assert!(confirm("YES"));
    assert!(confirm(" y \n"));
    assert!(confirm("Yes"));
}

#[test]
fn everything_else_declines() {
    assert!(!confirm(""));
    assert!(!confirm("n"));
    assert!(!confirm("no"));
    assert!(!confirm("maybe"));
    assert!(!confirm("  "));
    assert!(!confirm("yess"));
    assert!(!confirm("y e s"));
}
