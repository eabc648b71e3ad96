use esa_cli::config::Config;
use esa_cli::config::Env;
use esa_cli::esa::AccessToken;
use esa_cli::esa::ErrorResponse;
use esa_cli::esa::EsaError;
use esa_cli::esa::Team;
use esa_cli::esa::TeamId;
use esa_cli::post::Include;
use esa_cli::post::Order;
use esa_cli::post::Post;
use esa_cli::post::Kind;
use esa_cli::post::SearchQuery;
use esa_cli::post::Sort;
use esa_cli::post::Writer;

fn team(id: &str, token: &str) -> Team {
    Team {
        id: TeamId::new(String::from(id)),
        access_token: AccessToken::new(String::from(token)),
    }
}

#[test]
fn include_names_round_trip() {
    assert_eq!(Include::from_name("stargazers"), Include::Stargazers);
    assert_eq!(Include::from_name("comments"), Include::Comments);
    assert_eq!(
        Include::from_name("comments.stargazers"),
        Include::CommentStargazers
    );
    assert_eq!(Include::from_name("anything else"), Include::Unspecified);
    assert_eq!(Include::Stargazers.query_value(), "stargazers");
    assert_eq!(Include::Comments.query_value(), "comments");
    assert_eq!(
        Include::CommentStargazers.query_value(),
        "comments.stargazers"
    );
    assert_eq!(Include::Unspecified.query_value(), "");
}

#[test]
fn order_names_round_trip() {
    assert_eq!(Order::from_name("asc"), Order::Asc);
    assert_eq!(Order::from_name("desc"), Order::Desc);
    assert_eq!(Order::from_name("sideways"), Order::Desc);
    assert_eq!(Order::default(), Order::Desc);
    assert_eq!(Order::Asc.query_value(), "asc");
    assert_eq!(Order::Desc.query_value(), "desc");
}

#[test]
fn sort_names_round_trip() {
    assert_eq!(Sort::from_names("created", "asc"), Sort::Created(Order::Asc));
    assert_eq!(Sort::from_names("number", "desc"), Sort::Number(Order::Desc));
    assert_eq!(Sort::from_names("stars", ""), Sort::Stars(Order::Desc));
    assert_eq!(
        Sort::from_names("watchers", "asc"),
        Sort::Watchers(Order::Asc)
    );
    assert_eq!(
        Sort::from_names("comments", "asc"),
        Sort::Comments(Order::Asc)
    );
    assert_eq!(
        Sort::from_names("best_match", "asc"),
        Sort::BestMatch(Order::Asc)
    );
    assert_eq!(
        Sort::from_names("anything", "asc"),
        Sort::Updated(Order::Asc)
    );
    assert_eq!(
        Sort::Updated(Order::Desc).to_query(),
        (String::from("update"), String::from("desc"))
    );
    assert_eq!(
        Sort::BestMatch(Order::Asc).to_query(),
        (String::from("best_match"), String::from("asc"))
    );
}

#[test]
fn search_params_list_exactly_what_was_asked() {
    let sq = SearchQuery::new(
        Some(String::from("in:help")),
        Some(vec![Include::Comments, Include::Stargazers]),
        Some(Sort::Number(Order::Asc)),
    );
    assert_eq!(
        sq.to_params(),
        vec![
            (String::from("q"), String::from("in:help")),
            (String::from("include"), String::from("comments,stargazers")),
            (String::from("sort"), String::from("number")),
            (String::from("order"), String::from("asc")),
        ]
    );
    let empty = SearchQuery::new(None, None, None);
    assert_eq!(empty.to_params(), Vec::<(String, String)>::new());
}

#[test]
fn config_lookup_prefers_the_default_team() {
    let cfg = Config {
        default_team: Some(team("alpha", "token-a")),
        teams: Some(vec![team("alpha", "token-b"), team("beta", "token-c")]),
    };
    let hit = cfg.get(TeamId::new(String::from("alpha"))).unwrap();
    assert_eq!(hit.access_token.value().as_str(), "token-a");
    let other = cfg.get(TeamId::new(String::from("beta"))).unwrap();
    assert_eq!(other.access_token.value().as_str(), "token-c");
    assert!(cfg.get(TeamId::new(String::from("gamma"))).is_none());
    assert_eq!(cfg.default().unwrap().id.value().as_str(), "alpha");
}

#[test]
fn config_without_teams_finds_nothing() {
    let cfg = Config { default_team: None, teams: None };
    assert!(cfg.get(TeamId::new(String::from("alpha"))).is_none());
    assert!(cfg.default().is_none());
}

#[test]
fn edit_captures_the_original_revision() {
    let post = Post {
        number: 7,
        name: String::from("Title"),
        full_name: String::from("cat/Title #t"),
        wip: false,
        body_md: String::from("old body"),
        body_html: String::from("<p>old body</p>"),
        created_at: String::from("2021-01-01T00:00:00+09:00"),
        message: String::from("created"),
        url: String::from("https://example.test/posts/7"),
        updated_at: String::from("2021-01-02T00:00:00+09:00"),
        tags: vec![String::from("t")],
        category: Some(String::from("cat")),
        revision_number: 4,
        created_by: writer("alice"),
        updated_by: writer("bob"),
        kind: Kind::Stock,
        comments_count: 0,
        tasks_count: 0,
        done_tasks_count: 0,
        stargazers_count: 0,
        watchers_count: 0,
        star: false,
        watch: false,
    };
    let edited = post.edit(
        String::from("cat/Title #t"),
        Some(String::from("new body")),
        Some(vec![String::from("t")]),
        Some(String::from("cat")),
        true,
        None,
    );
    assert_eq!(edited.name, "cat/Title #t");
    assert_eq!(edited.body_md, Some(String::from("new body")));
    assert_eq!(edited.wip, true);
    let orig = edited.original_revision.unwrap();
    assert_eq!(orig.body_md, Some(String::from("old body")));
    assert_eq!(orig.number, Some(4));
    assert_eq!(orig.user, Some(String::from("bob")));
}

fn writer(handle: &str) -> Writer {
    Writer {
        myself: false,
        name: String::from(handle),
        screen_name: String::from(handle),
        icon: String::new(),
    }
}

#[test]
fn env_paths_derive_from_the_directory() {
    let env = Env::new(None, "/home/someone", String::from("vim"));
    assert_eq!(env.dir_path, "/home/someone/.esa");
    assert_eq!(env.config_file_path, "/home/someone/.esa/config.json");
    assert_eq!(env.tmp_file_path, "/home/someone/.esa/edit.md");
    assert_eq!(env.editor_path, "vim");
    let given = Env::new(Some(String::from("/etc/esa")), "/home/x", String::from("nano"));
    assert_eq!(given.dir_path, "/etc/esa");
    assert_eq!(given.config_file_path, "/etc/esa/config.json");
}

#[test]
fn service_errors_describe_code_and_message() {
    let resp = ErrorResponse::new(
        String::from("not_found"),
        String::from("the post does not exist"),
    );
    assert_eq!(
        resp.describe(),
        "error: not_found, message: the post does not exist"
    );
    let err = EsaError::Error(resp);
    assert_eq!(
        err.describe(),
        "error: not_found, message: the post does not exist"
    );
}
