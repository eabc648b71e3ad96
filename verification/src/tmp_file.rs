//! The document text codec and the editing session.
//!
//! A post is rendered into a fixed four-section plain-text template (marker
//! line, title line, marker line, body), handed to an external editor, and
//! the edited buffer is parsed back into structured content. Rendering and
//! parsing are specified against one another; the editing session detects
//! byte-for-byte changes against the text it was opened with.

use vstd::prelude::*;

use crate::post::PostContent;
use crate::post::PostContentView;
use crate::strutil::chars_to_string;
use crate::strutil::contains_sub;
use crate::strutil::join_range;
use crate::strutil::join_with;
use crate::strutil::lemma_join_split_char;
use crate::strutil::lemma_single_char_contains;
use crate::strutil::lemma_split_char_concat;
use crate::strutil::lemma_split_char_trailing;
use crate::strutil::lemma_split_len_pos;
use crate::strutil::lemma_split_no_match;
use crate::strutil::lemma_split_pieces_free;
use crate::strutil::lines_vec;
use crate::strutil::spec_lines;
use crate::strutil::split_sub;
use crate::strutil::split_vec;
use crate::strutil::str_to_chars;
use crate::strutil::strip_cr;

verus! {

/// The marker line that introduces the title section.
pub open spec fn title_marker() -> Seq<char> {
    "<!-- ### input post name next line ### -->"@
}

/// The marker line that introduces the body section.
pub open spec fn body_marker() -> Seq<char> {
    "<!-- ### input body next and subsequent lines ### -->"@
}

/// The rendering of a title line and a body into the editable template.
pub open spec fn render_spec(title: Seq<char>, body: Seq<char>) -> Seq<char> {
    title_marker() + seq!['\n'] + title + seq!['\n'] + body_marker() + seq!['\n'] + body + seq![
        '\n',
    ]
}

/// The placeholder buffer used when creating a new post: the template with
/// an empty title line and no body, the baseline for cancel detection.
pub open spec fn default_template() -> Seq<char> {
    title_marker() + seq!['\n'] + seq!['\n'] + body_marker() + seq!['\n']
}

/// Renders a title line and a body into the editable template.
pub fn format_post_content(title: &str, body: &str) -> (r: String)
    ensures
        r@ == render_spec(title@, body@),
{
    let mut out = String::new();
    out.append("<!-- ### input post name next line ### -->");
    out.append("\n");
    out.append(title);
    out.append("\n");
    out.append("<!-- ### input body next and subsequent lines ### -->");
    out.append("\n");
    out.append(body);
    out.append("\n");
    proof {
        reveal_strlit("\n");
        assert("\n"@ =~= seq!['\n']);
        assert(out@ =~= render_spec(title@, body@));
    }
    out
}

/// The default buffer for creating a new post, matching `default_template`.
pub fn tmp_file_default_value() -> (r: String)
    ensures
        r@ == default_template(),
{
    let mut out = String::new();
    out.append("<!-- ### input post name next line ### -->");
    out.append("\n");
    out.append("\n");
    out.append("<!-- ### input body next and subsequent lines ### -->");
    out.append("\n");
    proof {
        reveal_strlit("\n");
        assert("\n"@ =~= seq!['\n']);
        assert(out@ =~= default_template());
    }
    out
}

/// How parsing an edited buffer can fail.
#[derive(Debug, PartialEq, Eq)]
pub enum ParseError {
    /// The text does not have the four-line template shape.
    ContentShape,
    /// The title line parses to an empty display name.
    EmptyTitle,
}

/// The title line split on `/`: every segment but the last belongs to the
/// category path, the last carries the display name and the tags.
pub open spec fn title_segments(title: Seq<char>) -> Seq<Seq<char>> {
    split_sub(title, seq!['/'])
}

/// The category of a title line: the segments before the last, rejoined;
/// none when that prefix is empty.
pub open spec fn category_of(title: Seq<char>) -> Option<Seq<char>> {
    let segs = title_segments(title);
    let cat = join_with(segs.subrange(0, segs.len() - 1), seq!['/']);
    if cat.len() == 0 {
        Option::None
    } else {
        Option::Some(cat)
    }
}

/// The last title segment split on the literal tag separator `" #"`: the
/// first chunk is the display name, the rest are the tags, in order.
pub open spec fn name_tag_parts(title: Seq<char>) -> Seq<Seq<char>> {
    let segs = title_segments(title);
    split_sub(segs[segs.len() - 1], seq![' ', '#'])
}

/// The display name of a title line.
pub open spec fn name_of(title: Seq<char>) -> Seq<char> {
    name_tag_parts(title)[0]
}

/// The tags of a title line, verbatim and in order.
pub open spec fn tags_of(title: Seq<char>) -> Seq<Seq<char>> {
    let parts = name_tag_parts(title);
    parts.subrange(1, parts.len() as int)
}

/// What parsing an edited buffer yields: the structured content, or the
/// error that the text's shape forces. The text must have at least four
/// lines and a title line that parses to a non-empty display name; the body
/// is every line from the fourth on, rejoined, and may be empty.
pub open spec fn parse_result(s: Seq<char>) -> Result<PostContentView, ParseError> {
    let ls = spec_lines(s);
    if ls.len() < 4 {
        Result::Err(ParseError::ContentShape)
    } else if name_of(ls[1]).len() == 0 {
        Result::Err(ParseError::EmptyTitle)
    } else {
        Result::Ok(
            PostContentView {
                name: name_of(ls[1]),
                full_name: ls[1],
                body_md: Option::Some(join_with(ls.subrange(3, ls.len() as int), seq!['\n'])),
                tags: tags_of(ls[1]),
                category: category_of(ls[1]),
            },
        )
    }
}

/// A title line split into category, display name and tags.
#[derive(Debug, PartialEq)]
pub struct ParsedTitle {
    pub category: Option<String>,
    pub name: String,
    pub tags: Vec<String>,
}

/// Splits a source on the literal tag separator `" #"`: the first chunk is
/// the display name, every later chunk is one tag, verbatim and in order.
pub fn parse_name_and_tags(source: &str) -> (r: (String, Vec<String>))
    ensures
        r.0@ == split_sub(source@, seq![' ', '#'])[0],
        r.1.deep_view() == split_sub(source@, seq![' ', '#']).subrange(
            1,
            split_sub(source@, seq![' ', '#']).len() as int,
        ),
{
    let chars = str_to_chars(source);
    let mut sep: Vec<char> = Vec::new();
    sep.push(' ');
    sep.push('#');
    proof {
        assert(sep@ =~= seq![' ', '#']);
    }
    let parts = split_vec(&chars, &sep);
    proof {
        lemma_split_len_pos(chars@, sep@);
    }
    let ghost pv = parts.deep_view();
    let name = chars_to_string(&parts[0]);
    proof {
        assert(pv[0] =~= parts@[0]@);
    }
    let mut tags: Vec<String> = Vec::new();
    let n: usize = parts.len();
    let mut i: usize = 1;
    while i < n
        invariant
            1 <= i <= n,
            n == pv.len(),
            pv == parts.deep_view(),
            tags.deep_view() == pv.subrange(1, i as int),
        decreases n - i,
    {
        let ghost tv = tags.deep_view();
        let t = chars_to_string(&parts[i]);
        proof {
            assert(pv[i as int] =~= parts@[i as int]@);
        }
        tags.push(t);
        proof {
            assert(tags.deep_view() =~~= tv.push(pv[i as int]));
            assert(pv.subrange(1, i + 1 as int) =~= pv.subrange(1, i as int).push(pv[i as int]));
        }
        i = i + 1;
    }
    proof {
        assert(tags.deep_view() =~= pv.subrange(1, pv.len() as int));
    }
    (name, tags)
}

/// Splits a title line into category, display name and tags; a line whose
/// display name comes out empty after all splitting is rejected, everything
/// else degrades to no category and no tags rather than failing.
pub fn parse_title(source: &str) -> (r: Result<ParsedTitle, ParseError>)
    ensures
        name_of(source@).len() == 0 <==> r is Err,
        r matches Err(e) ==> e == ParseError::EmptyTitle,
        r matches Ok(pt) ==> {
            &&& pt.name@ == name_of(source@)
            &&& pt.tags.deep_view() == tags_of(source@)
            &&& (match pt.category {
                Option::Some(c) => category_of(source@) == Option::Some(c@),
                Option::None => category_of(source@) is None,
            })
        },
{
    let chars = str_to_chars(source);
    let mut slash: Vec<char> = Vec::new();
    slash.push('/');
    proof {
        assert(slash@ =~= seq!['/']);
    }
    let segs = split_vec(&chars, &slash);
    proof {
        lemma_split_len_pos(chars@, slash@);
    }
    let ghost sv = segs.deep_view();
    let nsegs: usize = segs.len();
    let cat_chars = join_range(&segs, &slash, 0, nsegs - 1);
    let category = if cat_chars.len() == 0 {
        None
    } else {
        Some(chars_to_string(&cat_chars))
    };
    let last = chars_to_string(&segs[nsegs - 1]);
    proof {
        assert(sv[nsegs - 1] =~= segs@[nsegs - 1]@);
    }
    let (name, tags) = parse_name_and_tags(last.as_str());
    if name.as_str().is_empty() {
        return Err(ParseError::EmptyTitle);
    }
    Ok(ParsedTitle { category, name, tags })
}

/// Parses an edited buffer back into post content, exactly as
/// `parse_result` describes.
pub fn parse_post(content: &str) -> (r: Result<PostContent, ParseError>)
    ensures
        match r {
            Result::Ok(pc) => parse_result(content@) == Result::Ok::<
                PostContentView,
                ParseError,
            >(pc@),
            Result::Err(e) => parse_result(content@) == Result::Err::<
                PostContentView,
                ParseError,
            >(e),
        },
{
    let chars = str_to_chars(content);
    let lines = lines_vec(&chars);
    let ghost lv = lines.deep_view();
    let nlines: usize = lines.len();
    if nlines < 4 {
        return Err(ParseError::ContentShape);
    }
    let title = chars_to_string(&lines[1]);
    proof {
        assert(lv[1] =~= lines@[1]@);
    }
    let parsed = match parse_title(title.as_str()) {
        Ok(p) => p,
        Err(e) => {
            return Err(e);
        },
    };
    let mut nl: Vec<char> = Vec::new();
    nl.push('\n');
    proof {
        assert(nl@ =~= seq!['\n']);
    }
    let body_chars = join_range(&lines, &nl, 3, nlines);
    let body = chars_to_string(&body_chars);
    let pc = PostContent {
        name: parsed.name,
        full_name: title,
        body_md: Some(body),
        tags: parsed.tags,
        category: parsed.category,
    };
    proof {
        assert(pc@.category == category_of(lv[1]));
        assert(parse_result(content@) == Result::Ok::<PostContentView, ParseError>(pc@));
    }
    Ok(pc)
}

/// What change detection yields: nothing when the buffer is exactly the
/// text the session was opened with, else the buffer itself.
pub open spec fn spec_diff(baseline: Seq<char>, current: Seq<char>) -> Option<Seq<char>> {
    if current == baseline {
        Option::None
    } else {
        Option::Some(current)
    }
}

/// An editing session: it remembers the exact text the scratch buffer was
/// pre-filled with, and judges the buffer read back after the editor exits
/// against that baseline, byte for byte.
pub struct Editor {
    baseline: String,
}

impl View for Editor {
    type V = Seq<char>;

    closed spec fn view(&self) -> Seq<char> {
        self.baseline@
    }
}

impl Editor {
    /// A fresh session, with the new-post placeholder as its baseline.
    pub fn new() -> (e: Editor)
        ensures
            e@ == default_template(),
    {
        Editor { baseline: tmp_file_default_value() }
    }

    /// Begins an edit: the given text becomes the baseline that the buffer
    /// read back later is compared against.
    pub fn open(&mut self, initial_text: &str)
        ensures
            final(self)@ == initial_text@,
    {
        self.baseline = initial_text.to_owned();
    }

    /// Judges the buffer read back from the scratch file: `None` when it is
    /// exactly the baseline (the user made no change), else the buffer.
    pub fn diff(&self, current: String) -> (r: Option<String>)
        ensures
            r.deep_view() == spec_diff(self@, current@),
            r matches Some(t) ==> t@ == current@,
    {
        if self.baseline == current {
            None
        } else {
            Some(current)
        }
    }
}

/// Law: a buffer equal to the text the session was opened with is never an
/// edit, whatever that text was.
pub proof fn lemma_diff_unchanged_is_none(baseline: Seq<char>)
    ensures
        spec_diff(baseline, baseline) is None,
{
}

/// Law: a buffer that differs from the baseline in even one character is
/// always detected as an edit.
pub proof fn lemma_diff_changed_is_some(baseline: Seq<char>, current: Seq<char>, i: int)
    requires
        current.len() == baseline.len(),
        0 <= i < current.len(),
        current[i] != baseline[i],
    ensures
        spec_diff(baseline, current) == Option::Some(current),
{
    assert(current != baseline);
}

/// The marker lines hold no line break and no carriage return, so the
/// rendered template always has the title line as its second line.
proof fn lemma_markers_clean()
    ensures
        !title_marker().contains('\n'),
        !title_marker().contains('\r'),
        !body_marker().contains('\n'),
        !body_marker().contains('\r'),
{
    reveal_strlit("<!-- ### input post name next line ### -->");
    reveal_strlit("<!-- ### input body next and subsequent lines ### -->");
    assert forall|i: int| 0 <= i < title_marker().len() implies #[trigger] title_marker()[i]
        != '\n' && title_marker()[i] != '\r' by {}
    assert forall|i: int| 0 <= i < body_marker().len() implies #[trigger] body_marker()[i] != '\n'
        && body_marker()[i] != '\r' by {}
    if title_marker().contains('\n') {
        let i = choose|i: int| 0 <= i < title_marker().len() && title_marker()[i] == '\n';
        assert(false);
    }
    if title_marker().contains('\r') {
        let i = choose|i: int| 0 <= i < title_marker().len() && title_marker()[i] == '\r';
        assert(false);
    }
    if body_marker().contains('\n') {
        let i = choose|i: int| 0 <= i < body_marker().len() && body_marker()[i] == '\n';
        assert(false);
    }
    if body_marker().contains('\r') {
        let i = choose|i: int| 0 <= i < body_marker().len() && body_marker()[i] == '\r';
        assert(false);
    }
}

/// Law: rendering a title line and a body and parsing the result recovers
/// them exactly — the name and full name are the title, the body is kept
/// verbatim, and no category or tag appears — for any non-empty title free
/// of line breaks and of the `/` and `" #"` separators, and any body free
/// of carriage returns.
pub proof fn lemma_round_trip(title: Seq<char>, body: Seq<char>)
    requires
        title.len() > 0,
        !title.contains('\n'),
        !title.contains('\r'),
        !title.contains('/'),
        !contains_sub(title, seq![' ', '#']),
        !body.contains('\r'),
    ensures
        parse_result(render_spec(title, body)) == Result::Ok::<PostContentView, ParseError>(
            PostContentView {
                name: title,
                full_name: title,
                body_md: Option::Some(body),
                tags: Seq::<Seq<char>>::empty(),
                category: Option::None,
            },
        ),
{
    let nl = seq!['\n'];
    let m1 = title_marker();
    let m2 = body_marker();
    lemma_markers_clean();
    let s = render_spec(title, body);

    // The rendering splits on line breaks into the three fixed lines, the
    // lines of the body, and one empty piece from the final line break.
    let z = body + nl;
    let y = m2 + nl + z;
    let x = title + nl + y;
    assert(s =~= m1 + nl + x);
    lemma_split_char_concat(m1, '\n', x);
    lemma_split_char_concat(title, '\n', y);
    lemma_split_char_concat(m2, '\n', z);
    lemma_split_char_trailing(body, '\n');
    let pb = split_sub(body, nl);
    lemma_split_len_pos(body, nl);
    let p = split_sub(s, nl);
    assert(p == seq![m1] + split_sub(x, nl));
    assert(split_sub(x, nl) == seq![title] + split_sub(y, nl));
    assert(split_sub(y, nl) == seq![m2] + split_sub(z, nl));
    assert(split_sub(z, nl) == pb + seq![Seq::<char>::empty()]);
    assert(p =~= seq![m1, title, m2] + pb + seq![Seq::<char>::empty()]);

    // The empty piece is dropped again, and no line ends in a carriage
    // return, so the lines are the three fixed ones and the body's.
    assert(p[p.len() - 1].len() == 0);
    let q = p.drop_last();
    assert(q =~= seq![m1, title, m2] + pb);
    lemma_split_pieces_free(body, nl, '\r');
    assert forall|j: int| 0 <= j < q.len() implies strip_cr(#[trigger] q[j]) == q[j] by {
        if j == 0 {
            if m1.len() > 0 && m1[m1.len() - 1] == '\r' {
                assert(m1.contains('\r'));
            }
        } else if j == 1 {
            if title[title.len() - 1] == '\r' {
                assert(title.contains('\r'));
            }
        } else if j == 2 {
            if m2.len() > 0 && m2[m2.len() - 1] == '\r' {
                assert(m2.contains('\r'));
            }
        } else {
            assert(q[j] == pb[j - 3]);
            let l = pb[j - 3];
            assert(!l.contains('\r'));
            if l.len() > 0 && l[l.len() - 1] == '\r' {
                assert(l.contains('\r'));
            }
        }
    }
    let ls = spec_lines(s);
    assert(ls.len() == q.len());
    assert forall|j: int| 0 <= j < ls.len() implies #[trigger] ls[j] == q[j] by {
        assert(j < p.len() - 1);
        assert(ls[j] == strip_cr(q[j]));
    }
    assert(ls =~= q);
    assert(ls.len() == 3 + pb.len());
    assert(ls[1] == title);

    // The title has no separators: one segment, one part, no tags, and an
    // empty category prefix.
    lemma_single_char_contains(title, '/');
    lemma_split_no_match(title, seq!['/']);
    let segs = title_segments(title);
    assert(segs == seq![title]);
    assert(segs[segs.len() - 1] == title);
    lemma_split_no_match(title, seq![' ', '#']);
    let parts = name_tag_parts(title);
    assert(parts == seq![title]);
    assert(name_of(title) == title);
    assert(tags_of(title) =~= Seq::<Seq<char>>::empty());
    assert(segs.subrange(0, segs.len() - 1) =~= Seq::<Seq<char>>::empty());
    assert(join_with(segs.subrange(0, segs.len() - 1), seq!['/']).len() == 0);
    assert(category_of(title) is None);

    // The body lines rejoin to the body itself.
    assert(ls.subrange(3, ls.len() as int) =~= pb);
    lemma_join_split_char(body, '\n');
    assert(join_with(ls.subrange(3, ls.len() as int), nl) == body);
}

/// Law: text with fewer than four lines always fails with the shape error.
pub proof fn lemma_shape_failure(s: Seq<char>)
    requires
        spec_lines(s).len() < 4,
    ensures
        parse_result(s) == Result::Err::<PostContentView, ParseError>(ParseError::ContentShape),
{
}

/// Law: text with exactly four lines, a non-empty title line and an empty
/// fourth line parses, with an empty body.
pub proof fn lemma_minimal_shape(s: Seq<char>)
    requires
        spec_lines(s).len() == 4,
        name_of(spec_lines(s)[1]).len() > 0,
        spec_lines(s)[3].len() == 0,
    ensures
        parse_result(s) matches Ok(pc) && pc.body_md == Option::Some(Seq::<char>::empty()),
{
    let ls = spec_lines(s);
    assert(ls.subrange(3, 4) =~= seq![ls[3]]);
    assert(join_with(ls.subrange(3, 4), seq!['\n']) == ls[3]);
    assert(ls[3] =~= Seq::<char>::empty());
}

} // verus!
