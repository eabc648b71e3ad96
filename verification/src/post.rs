//! The post data model: snapshots read from the service, the content built
//! from edited text, the delta types sent back on create and edit, and the
//! search-query model with its wire encoding.

use vstd::prelude::*;

use crate::strutil::join_with;
use crate::strutil::lemma_join_push;
use crate::strutil::str_eq;

verus! {

/// A writer record attached to a post snapshot.
#[derive(Debug)]
pub struct Writer {
    pub myself: bool,
    pub name: String,
    pub screen_name: String,
    pub icon: String,
}

/// The two kinds of post the service distinguishes.
#[derive(Debug)]
pub enum Kind {
    Stock,
    Flow,
}

/// An immutable post snapshot as the service returns it. Timestamps are
/// carried as plain text; the library never computes on them.
#[derive(Debug)]
pub struct Post {
    pub number: i32,
    pub name: String,
    pub full_name: String,
    pub wip: bool,
    pub body_md: String,
    pub body_html: String,
    pub created_at: String,
    pub message: String,
    pub url: String,
    pub updated_at: String,
    pub tags: Vec<String>,
    pub category: Option<String>,
    pub revision_number: i32,
    pub created_by: Writer,
    pub updated_by: Writer,
    pub kind: Kind,
    pub comments_count: i32,
    pub tasks_count: i32,
    pub done_tasks_count: i32,
    pub stargazers_count: i32,
    pub watchers_count: i32,
    pub star: bool,
    pub watch: bool,
}

/// One page of posts returned by a listing or search call.
#[derive(Debug)]
pub struct Posts {
    pub posts: Vec<Post>,
    pub prev_page: Option<i32>,
    pub next_page: Option<i32>,
    pub total_count: i32,
    pub page: i32,
    pub per_page: i32,
    pub max_per_page: i32,
}

/// The content of a post as parsed back from an edited text buffer.
#[derive(Debug, PartialEq)]
pub struct PostContent {
    pub name: String,
    pub full_name: String,
    pub body_md: Option<String>,
    pub tags: Vec<String>,
    pub category: Option<String>,
}

/// The mathematical value of a `PostContent`.
pub struct PostContentView {
    pub name: Seq<char>,
    pub full_name: Seq<char>,
    pub body_md: Option<Seq<char>>,
    pub tags: Seq<Seq<char>>,
    pub category: Option<Seq<char>>,
}

impl View for PostContent {
    type V = PostContentView;

    open spec fn view(&self) -> PostContentView {
        PostContentView {
            name: self.name@,
            full_name: self.full_name@,
            body_md: match self.body_md {
                Option::Some(ref b) => Option::Some(b@),
                Option::None => Option::None,
            },
            tags: self.tags.deep_view(),
            category: match self.category {
                Option::Some(ref c) => Option::Some(c@),
                Option::None => Option::None,
            },
        }
    }
}

/// The body of a new post sent on creation.
#[derive(Debug, PartialEq)]
pub struct NewPost {
    pub name: String,
    pub body_md: Option<String>,
    pub tags: Vec<String>,
    pub category: Option<String>,
    pub wip: bool,
    pub message: Option<String>,
}

impl NewPost {
    /// Assembles the creation request from parsed editor content, the
    /// work-in-progress flag and an optional commit message.
    pub fn from_content(post: PostContent, wip: bool, message: Option<String>) -> (r: NewPost)
        ensures
            r.name == post.name,
            r.body_md == post.body_md,
            r.tags == post.tags,
            r.category == post.category,
            r.wip == wip,
            r.message == message,
    {
        NewPost {
            name: post.name,
            body_md: post.body_md,
            tags: post.tags,
            category: post.category,
            wip,
            message,
        }
    }
}

/// The snapshot the service returns for a freshly created post.
#[derive(Debug)]
pub struct NewPostCreated {
    pub number: i32,
    pub name: String,
    pub full_name: String,
    pub wip: bool,
    pub body_md: Option<String>,
    pub body_html: Option<String>,
    pub created_at: String,
    pub message: Option<String>,
    pub url: String,
    pub updated_at: String,
    pub tags: Vec<String>,
    pub category: Option<String>,
    pub revision_number: i32,
    pub created_by: Writer,
    pub updated_by: Writer,
    pub kind: Kind,
    pub comments_count: i32,
    pub tasks_count: i32,
    pub done_tasks_count: i32,
    pub stargazers_count: i32,
    pub watchers_count: i32,
    pub star: bool,
    pub watch: bool,
}

/// The delta sent to edit an existing post, carrying the revision the edit
/// was based on so the service can detect a conflicting concurrent edit.
#[derive(Debug)]
pub struct EditedPost {
    pub name: String,
    pub body_md: Option<String>,
    pub tags: Option<Vec<String>>,
    pub category: Option<String>,
    pub wip: bool,
    pub message: Option<String>,
    pub original_revision: Option<OriginalRevisionPost>,
}

/// The pre-edit body, revision number and editor handle captured when the
/// editing session began: the optimistic-concurrency token.
#[derive(Debug)]
pub struct OriginalRevisionPost {
    pub body_md: Option<String>,
    pub number: Option<i32>,
    pub user: Option<String>,
}

/// The snapshot the service returns after an edit, with the `overlapped`
/// flag set when the edit was based on a stale revision.
#[derive(Debug)]
pub struct PostEdited {
    pub number: i32,
    pub name: String,
    pub full_name: String,
    pub wip: bool,
    pub body_md: Option<String>,
    pub body_html: Option<String>,
    pub created_at: String,
    pub message: Option<String>,
    pub url: String,
    pub updated_at: String,
    pub tags: Vec<String>,
    pub category: Option<String>,
    pub revision_number: i32,
    pub created_by: Writer,
    pub updated_by: Writer,
    pub overlapped: bool,
    pub kind: Kind,
    pub comments_count: i32,
    pub tasks_count: i32,
    pub done_tasks_count: i32,
    pub stargazers_count: i32,
    pub watchers_count: i32,
    pub star: bool,
    pub watch: bool,
}

/// The optional data a post listing can be asked to include.
#[derive(Debug, Clone, Copy, PartialEq, Eq)]
pub enum Include {
    /// Stars on the posts.
    Stargazers,
    /// Comments on the posts.
    Comments,
    /// Stars on the comments.
    CommentStargazers,
    /// Nothing extra; an unrecognised name lands here.
    Unspecified,
}

/// The wire name of an include choice.
pub open spec fn include_name(i: Include) -> Seq<char> {
    match i {
        Include::Stargazers => "stargazers"@,
        Include::Comments => "comments"@,
        Include::CommentStargazers => "comments.stargazers"@,
        Include::Unspecified => Seq::<char>::empty(),
    }
}

/// The include choice a wire name denotes.
pub open spec fn include_of(s: Seq<char>) -> Include {
    if s == "stargazers"@ {
        Include::Stargazers
    } else if s == "comments"@ {
        Include::Comments
    } else if s == "comments.stargazers"@ {
        Include::CommentStargazers
    } else {
        Include::Unspecified
    }
}

impl Include {
    /// Reads an include choice from its wire name; an unknown name means
    /// nothing extra.
    pub fn from_name(s: &str) -> (r: Include)
        ensures
            r == include_of(s@),
    {
        if str_eq(s, "stargazers") {
            Include::Stargazers
        } else if str_eq(s, "comments") {
            Include::Comments
        } else if str_eq(s, "comments.stargazers") {
            Include::CommentStargazers
        } else {
            Include::Unspecified
        }
    }

    /// The wire name of this include choice.
    pub fn query_value(&self) -> (r: String)
        ensures
            r@ == include_name(*self),
    {
        match self {
            Include::Stargazers => "stargazers".to_owned(),
            Include::Comments => "comments".to_owned(),
            Include::CommentStargazers => "comments.stargazers".to_owned(),
            Include::Unspecified => String::new(),
        }
    }
}

/// The direction a listing is ordered in.
#[derive(Debug, Clone, Copy, PartialEq, Eq)]
pub enum Order {
    Desc,
    Asc,
}

/// The wire name of an ordering direction.
pub open spec fn order_str(o: Order) -> Seq<char> {
    match o {
        Order::Desc => "desc"@,
        Order::Asc => "asc"@,
    }
}

/// The direction a wire name denotes; anything but `asc` is descending.
pub open spec fn order_of(s: Seq<char>) -> Order {
    if s == "asc"@ {
        Order::Asc
    } else {
        Order::Desc
    }
}

impl Order {
    /// Reads a direction from its wire name; anything but `asc` descends.
    pub fn from_name(s: &str) -> (r: Order)
        ensures
            r == order_of(s@),
    {
        if str_eq(s, "asc") {
            Order::Asc
        } else {
            Order::Desc
        }
    }

    /// The wire name of this direction.
    pub fn query_value(&self) -> (r: String)
        ensures
            r@ == order_str(*self),
    {
        match self {
            Order::Asc => "asc".to_owned(),
            Order::Desc => "desc".to_owned(),
        }
    }
}

impl Default for Order {
    /// The direction used when none is asked for.
    fn default() -> (r: Order)
        ensures
            r == Order::Desc,
    {
        Order::Desc
    }
}

/// The key a listing is sorted by, each with its direction.
#[derive(Debug, Clone, Copy, PartialEq, Eq)]
pub enum Sort {
    /// By time of last update; what an unrecognised key falls back to.
    Updated(Order),
    /// By time of creation.
    Created(Order),
    /// By post number.
    Number(Order),
    /// By number of stars.
    Stars(Order),
    /// By number of watchers.
    Watchers(Order),
    /// By number of comments.
    Comments(Order),
    /// By overall match score.
    BestMatch(Order),
}

/// The sort key a pair of wire names denotes.
pub open spec fn sort_of(sort: Seq<char>, order: Seq<char>) -> Sort {
    if sort == "created"@ {
        Sort::Created(order_of(order))
    } else if sort == "number"@ {
        Sort::Number(order_of(order))
    } else if sort == "stars"@ {
        Sort::Stars(order_of(order))
    } else if sort == "watchers"@ {
        Sort::Watchers(order_of(order))
    } else if sort == "comments"@ {
        Sort::Comments(order_of(order))
    } else if sort == "best_match"@ {
        Sort::BestMatch(order_of(order))
    } else {
        Sort::Updated(order_of(order))
    }
}

/// The pair of wire names of a sort key.
pub open spec fn sort_query(s: Sort) -> (Seq<char>, Seq<char>) {
    match s {
        Sort::Updated(o) => ("update"@, order_str(o)),
        Sort::Created(o) => ("created"@, order_str(o)),
        Sort::Number(o) => ("number"@, order_str(o)),
        Sort::Stars(o) => ("stars"@, order_str(o)),
        Sort::Watchers(o) => ("watchers"@, order_str(o)),
        Sort::Comments(o) => ("comments"@, order_str(o)),
        Sort::BestMatch(o) => ("best_match"@, order_str(o)),
    }
}

impl Sort {
    /// Reads a sort key and direction from their wire names; an unknown key
    /// sorts by time of last update.
    pub fn from_names(sort: &str, order: &str) -> (r: Sort)
        ensures
            r == sort_of(sort@, order@),
    {
        let o = Order::from_name(order);
        if str_eq(sort, "created") {
            Sort::Created(o)
        } else if str_eq(sort, "number") {
            Sort::Number(o)
        } else if str_eq(sort, "stars") {
            Sort::Stars(o)
        } else if str_eq(sort, "watchers") {
            Sort::Watchers(o)
        } else if str_eq(sort, "comments") {
            Sort::Comments(o)
        } else if str_eq(sort, "best_match") {
            Sort::BestMatch(o)
        } else {
            Sort::Updated(o)
        }
    }

    /// The pair of wire names of this sort key.
    pub fn to_query(&self) -> (r: (String, String))
        ensures
            r.0@ == sort_query(*self).0,
            r.1@ == sort_query(*self).1,
    {
        match self {
            Sort::Updated(o) => ("update".to_owned(), o.query_value()),
            Sort::Created(o) => ("created".to_owned(), o.query_value()),
            Sort::Number(o) => ("number".to_owned(), o.query_value()),
            Sort::Stars(o) => ("stars".to_owned(), o.query_value()),
            Sort::Watchers(o) => ("watchers".to_owned(), o.query_value()),
            Sort::Comments(o) => ("comments".to_owned(), o.query_value()),
            Sort::BestMatch(o) => ("best_match".to_owned(), o.query_value()),
        }
    }
}

/// A post search: an optional query text, optional extra data to include,
/// and an optional sort key.
#[derive(Debug)]
pub struct SearchQuery {
    pub q: Option<String>,
    pub includes: Option<Vec<Include>>,
    pub sort: Option<Sort>,
}

/// The wire value of an include list: the names joined with commas.
pub open spec fn include_list_str(incs: Seq<Include>) -> Seq<char> {
    join_with(incs.map_values(|i: Include| include_name(i)), seq![','])
}

/// The key/value parameters a search sends: `q`, `include`, then `sort` and
/// `order`, each present exactly when asked for.
pub open spec fn spec_params(sq: &SearchQuery) -> Seq<(Seq<char>, Seq<char>)> {
    (match sq.q {
        Option::Some(q) => seq![("q"@, q@)],
        Option::None => Seq::<(Seq<char>, Seq<char>)>::empty(),
    }) + (match sq.includes {
        Option::Some(incs) => seq![("include"@, include_list_str(incs@))],
        Option::None => Seq::<(Seq<char>, Seq<char>)>::empty(),
    }) + (match sq.sort {
        Option::Some(s) => seq![("sort"@, sort_query(s).0), ("order"@, sort_query(s).1)],
        Option::None => Seq::<(Seq<char>, Seq<char>)>::empty(),
    })
}

impl SearchQuery {
    /// Wraps the parts of a search.
    pub fn new(q: Option<String>, includes: Option<Vec<Include>>, sort: Option<Sort>) -> (r:
        SearchQuery)
        ensures
            r.q == q,
            r.includes == includes,
            r.sort == sort,
    {
        SearchQuery { q, includes, sort }
    }

    /// The key/value parameters this search sends, as `spec_params` lists
    /// them.
    pub fn to_params(&self) -> (r: Vec<(String, String)>)
        ensures
            r@.len() == spec_params(self).len(),
            forall|i: int|
                0 <= i < r@.len() ==> (#[trigger] r@[i]).0@ == spec_params(self)[i].0 && r@[i].1@
                    == spec_params(self)[i].1,
    {
        let ghost sp = spec_params(self);
        let mut out: Vec<(String, String)> = Vec::new();
        if let Some(q) = &self.q {
            out.push(("q".to_owned(), q.clone()));
        }
        if let Some(incs) = &self.includes {
            let ghost m = incs@.map_values(|i: Include| include_name(i));
            let mut joined = String::new();
            let n: usize = incs.len();
            let mut i: usize = 0;
            while i < n
                invariant
                    i <= n,
                    n == incs@.len(),
                    m == incs@.map_values(|i: Include| include_name(i)),
                    i == 0 ==> joined@ == Seq::<char>::empty(),
                    i > 0 ==> joined@ == join_with(m.subrange(0, i as int), seq![',']),
                decreases n - i,
            {
                if i > 0 {
                    joined.append(",");
                    proof {
                        reveal_strlit(",");
                        assert(","@ =~= seq![',']);
                    }
                }
                let v = incs[i].query_value();
                joined.append(v.as_str());
                proof {
                    if i == 0 {
                        assert(m.subrange(0, 1) =~= seq![m[0]]);
                        assert(joined@ =~= join_with(m.subrange(0, 1), seq![',']));
                    } else {
                        lemma_join_push(m.subrange(0, i as int), seq![','], m[i as int]);
                        assert(m.subrange(0, i + 1 as int) =~= m.subrange(0, i as int).push(
                            m[i as int],
                        ));
                        assert(joined@ =~= join_with(m.subrange(0, i + 1 as int), seq![',']));
                    }
                }
                i = i + 1;
            }
            proof {
                if n > 0 {
                    assert(m.subrange(0, n as int) =~= m);
                } else {
                    assert(m =~= Seq::<Seq<char>>::empty());
                }
                assert(joined@ == include_list_str(incs@));
            }
            out.push(("include".to_owned(), joined));
        }
        if let Some(s) = &self.sort {
            let (sv, ov) = s.to_query();
            out.push(("sort".to_owned(), sv));
            out.push(("order".to_owned(), ov));
        }
        proof {
            assert forall|i: int|
                0 <= i < out@.len() implies (#[trigger] out@[i]).0@ == sp[i].0 && out@[i].1@
                == sp[i].1 by {}
            assert(out@.len() == sp.len());
        }
        out
    }
}

impl Post {
    /// Turns a snapshot into an edit request, capturing the snapshot's body,
    /// revision number and last editor as the original revision.
    pub fn edit(
        self,
        name: String,
        body_md: Option<String>,
        tags: Option<Vec<String>>,
        category: Option<String>,
        wip: bool,
        message: Option<String>,
    ) -> (r: EditedPost)
        ensures
            r.name == name,
            r.body_md == body_md,
            r.tags == tags,
            r.category == category,
            r.wip == wip,
            r.message == message,
            r.original_revision matches Some(orig) && orig.body_md == Some(self.body_md)
                && orig.number == Some(self.revision_number) && orig.user == Some(
                self.updated_by.screen_name,
            ),
    {
        EditedPost {
            name,
            body_md,
            tags,
            category,
            wip,
            message,
            original_revision: Some(
                OriginalRevisionPost {
                    body_md: Some(self.body_md),
                    number: Some(self.revision_number),
                    user: Some(self.updated_by.screen_name),
                },
            ),
        }
    }
}

} // verus!
