use esa_cli::post::PostContent;
use esa_cli::tmp_file::format_post_content;
use esa_cli::tmp_file::parse_name_and_tags;
use esa_cli::tmp_file::parse_post;
use esa_cli::tmp_file::parse_title;
use esa_cli::tmp_file::tmp_file_default_value;
use esa_cli::tmp_file::ParseError;

#[test]
fn test_parse_new_post() {
    assert_eq!(
        PostContent {
            name: String::from("記事タイトル"),
            full_name: String::from("カテゴリ1/カテゴリ2/記事タイトル #tag1 #タグ2"),
            body_md: Some(String::from("記事 body")),
            category: Some(String::from("カテゴリ1/カテゴリ2")),
            tags: vec![String::from("tag1"), String::from("タグ2")],
        },
        parse_post(
            "<!-- ### input post name next line ### -->\nカテゴリ1/カテゴリ2/記事タイトル #tag1 #タグ2\n<!-- ### input body next and subsequent lines ### -->\n記事 body\n"
        )
        .unwrap()
    )
}

#[test]
fn tmp_file_test_parse_new_post() {
    assert_eq!(
        PostContent {
            name: String::from("記事タイトル"),
            full_name: String::from("カテゴリ1/カテゴリ2/記事タイトル #tag1 #タグ2"),
            body_md: Some(String::from("記事 body")),
            category: Some(String::from("カテゴリ1/カテゴリ2")),
            tags: vec![String::from("tag1"), String::from("タグ2")],
        },
        parse_post(
            "<!-- ### input post name next line ### -->\nカテゴリ1/カテゴリ2/記事タイトル #tag1 #タグ2\n<!-- ### input body next and subsequent lines ### -->\n記事 body\n"
        )
        .unwrap()
    )
}

#[test]
fn test_parse_name_and_tags() {
    assert_eq!(
        (
            String::from("記事タイトル"),
            vec![String::from("tag1"), String::from("タグ2")]
        ),
        parse_name_and_tags("記事タイトル #tag1 #タグ2")
    )
}

#[test]
fn tmp_file_test_parse_name_and_tags() {
    assert_eq!(
        (
            String::from("記事タイトル"),
            vec![String::from("tag1"), String::from("タグ2")]
        ),
        parse_name_and_tags("記事タイトル #tag1 #タグ2")
    )
}

#[test]
fn render_has_the_template_shape() {
    assert_eq!(
        format_post_content("My Title", "line one\nline two"),
        "<!-- ### input post name next line ### -->\nMy Title\n<!-- ### input body next and subsequent lines ### -->\nline one\nline two\n"
    );
}

#[test]
fn default_template_is_the_empty_rendering() {
    assert_eq!(
        tmp_file_default_value(),
        "<!-- ### input post name next line ### -->\n\n<!-- ### input body next and subsequent lines ### -->\n"
    );
}

#[test]
fn round_trip_recovers_name_and_body() {
    let rendered = format_post_content("My Title", "line one\nline two");
    let parsed = parse_post(&rendered).unwrap();
    assert_eq!(parsed.name, "My Title");
    assert_eq!(parsed.full_name, "My Title");
    assert_eq!(parsed.body_md, Some(String::from("line one\nline two")));
    assert_eq!(parsed.tags, Vec::<String>::new());
    assert_eq!(parsed.category, None);
}

#[test]
fn title_line_decomposes_into_category_name_and_tags() {
    let parsed = parse_title("cat1/cat2/My Title #tag1 #タグ2").unwrap();
    assert_eq!(parsed.category, Some(String::from("cat1/cat2")));
    assert_eq!(parsed.name, "My Title");
    assert_eq!(
        parsed.tags,
        vec![String::from("tag1"), String::from("タグ2")]
    );
}

#[test]
fn plain_title_line_has_no_category_and_no_tags() {
    let parsed = parse_title("Simple Title").unwrap();
    assert_eq!(parsed.category, None);
    assert_eq!(parsed.name, "Simple Title");
    assert_eq!(parsed.tags, Vec::<String>::new());
}

#[test]
fn short_texts_fail_with_the_shape_error() {
    assert_eq!(parse_post(""), Err(ParseError::ContentShape));
    assert_eq!(parse_post("one line"), Err(ParseError::ContentShape));
    assert_eq!(parse_post("one\ntwo"), Err(ParseError::ContentShape));
    assert_eq!(parse_post("one\ntwo\nthree"), Err(ParseError::ContentShape));
}

#[test]
fn four_lines_with_empty_fourth_line_parse_to_an_empty_body() {
    let parsed = parse_post("<!-- title -->\nA Title\n<!-- body -->\n\n").unwrap();
    assert_eq!(parsed.name, "A Title");
    assert_eq!(parsed.body_md, Some(String::new()));
}

#[test]
fn empty_title_line_fails_with_the_title_error() {
    assert_eq!(
        parse_post("<!-- title -->\n\n<!-- body -->\nbody text\n"),
        Err(ParseError::EmptyTitle)
    );
    assert_eq!(parse_title(""), Err(ParseError::EmptyTitle));
}

#[test]
fn a_title_that_parses_to_an_empty_name_fails_too() {
    assert_eq!(parse_title(" #tag"), Err(ParseError::EmptyTitle));
    assert_eq!(parse_title("/"), Err(ParseError::EmptyTitle));
    assert_eq!(parse_title("cat/ #t"), Err(ParseError::EmptyTitle));
    assert_eq!(
        parse_post("<!-- title -->\n #tag\n<!-- body -->\nbody text\n"),
        Err(ParseError::EmptyTitle)
    );
}

#[test]
fn carriage_returns_fall_with_their_line_endings() {
    // A line a newline terminated loses one trailing carriage return ...
    let parsed = parse_post("m1\nTitle\r\nm2\nbody\r\n").unwrap();
    assert_eq!(parsed.name, "Title");
    assert_eq!(parsed.body_md, Some(String::from("body")));
    // ... but a final line the text leaves unterminated keeps it.
    let tail = parse_post("m1\nTitle\nm2\nbody\r").unwrap();
    assert_eq!(tail.body_md, Some(String::from("body\r")));
}

#[test]
fn body_lines_are_kept_verbatim() {
    let parsed =
        parse_post("m1\nTitle\nm2\nfirst\n\nthird line\n").unwrap();
    assert_eq!(parsed.body_md, Some(String::from("first\n\nthird line")));
}

#[test]
fn leading_slash_alone_gives_no_category() {
    let parsed = parse_title("/Title").unwrap();
    assert_eq!(parsed.category, None);
    assert_eq!(parsed.name, "Title");
}
