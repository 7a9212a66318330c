use crate::domain::{opt_strings_view, PostMeta, PostMetaView};
use crate::errors::ParseError;
use crate::strutil::{
    join_seq, lemma_join_not_contains, lemma_join_take_step, lemma_split_join,
    lemma_trim_spaces_identity, push_char, split_on, split_seq, trim_spaces, trim_spaces_str,
};
use vstd::prelude::*;
use vstd::string::{StrSliceExecFns, StringExecFns};

verus! {

/// Whether `p` is a prefix of `s`.
pub open spec fn starts(s: Seq<char>, p: Seq<char>) -> bool {
    s.len() >= p.len() && s.take(p.len() as int) == p
}

/// A bracketed, comma-separated list: `[` pieces `]`, each piece trimmed
/// of the spaces around it. An empty interior is the empty list.
pub open spec fn parse_list(s: Seq<char>) -> Option<Seq<Seq<char>>> {
    if s.len() >= 2 && s[0] == '[' && s.last() == ']' {
        let inner = s.subrange(1, s.len() - 1);
        if inner.len() == 0 {
            Some(Seq::empty())
        } else {
            Some(split_seq(inner, ',').map_values(|p: Seq<char>| trim_spaces(p)))
        }
    } else {
        None
    }
}

/// What one front-matter line means.
pub enum LineVal {
    Title(Seq<char>),
    Date(Seq<char>),
    Slug(Seq<char>),
    Tags(Seq<Seq<char>>),
    Categories(Seq<Seq<char>>),
    Bad,
}

/// Classifies one front-matter line: a known `key: ` prefix followed by
/// the value, the list-valued keys with a bracketed list. Anything else
/// is malformed.
pub open spec fn parse_line_spec(line: Seq<char>) -> LineVal {
    if starts(line, "title: "@) {
        LineVal::Title(line.skip("title: "@.len() as int))
    } else if starts(line, "date: "@) {
        LineVal::Date(line.skip("date: "@.len() as int))
    } else if starts(line, "slug: "@) {
        LineVal::Slug(line.skip("slug: "@.len() as int))
    } else if starts(line, "tags: "@) {
        match parse_list(line.skip("tags: "@.len() as int)) {
            Some(items) => LineVal::Tags(items),
            None => LineVal::Bad,
        }
    } else if starts(line, "categories: "@) {
        match parse_list(line.skip("categories: "@.len() as int)) {
            Some(items) => LineVal::Categories(items),
            None => LineVal::Bad,
        }
    } else {
        LineVal::Bad
    }
}

/// The fields gathered while walking the front-matter lines.
pub struct MetaAcc {
    pub title: Option<Seq<char>>,
    pub date: Option<Seq<char>>,
    pub slug: Option<Seq<char>>,
    pub tags: Option<Seq<Seq<char>>>,
    pub categories: Option<Seq<Seq<char>>>,
}

/// The state before any line is read.
pub open spec fn empty_acc() -> MetaAcc {
    MetaAcc { title: None, date: None, slug: None, tags: None, categories: None }
}

/// Walks the front-matter lines in order, filling `acc`. A malformed
/// line or a repeated key fails at once; at the end, title, date and
/// slug must all be present.
pub open spec fn parse_lines_spec(lines: Seq<Seq<char>>, acc: MetaAcc) -> Result<
    PostMetaView,
    ParseError,
>
    decreases lines.len(),
{
    if lines.len() == 0 {
        match (acc.title, acc.date, acc.slug) {
            (Some(t), Some(d), Some(sl)) => Ok(
                PostMetaView {
                    title: t,
                    date: d,
                    slug: sl,
                    tags: acc.tags,
                    categories: acc.categories,
                },
            ),
            _ => Err(ParseError::MissingField),
        }
    } else {
        match parse_line_spec(lines[0]) {
            LineVal::Title(v) => if acc.title is Some {
                Err(ParseError::DuplicateKey)
            } else {
                parse_lines_spec(lines.drop_first(), MetaAcc { title: Some(v), ..acc })
            },
            LineVal::Date(v) => if acc.date is Some {
                Err(ParseError::DuplicateKey)
            } else {
                parse_lines_spec(lines.drop_first(), MetaAcc { date: Some(v), ..acc })
            },
            LineVal::Slug(v) => if acc.slug is Some {
                Err(ParseError::DuplicateKey)
            } else {
                parse_lines_spec(lines.drop_first(), MetaAcc { slug: Some(v), ..acc })
            },
            LineVal::Tags(v) => if acc.tags is Some {
                Err(ParseError::DuplicateKey)
            } else {
                parse_lines_spec(lines.drop_first(), MetaAcc { tags: Some(v), ..acc })
            },
            LineVal::Categories(v) => if acc.categories is Some {
                Err(ParseError::DuplicateKey)
            } else {
                parse_lines_spec(lines.drop_first(), MetaAcc { categories: Some(v), ..acc })
            },
            LineVal::Bad => Err(ParseError::MalformedLine),
        }
    }
}

/// What parsing a whole front-matter block (the text between the
/// delimiter lines) yields.
pub open spec fn fm_parse_spec(s: Seq<char>) -> Result<PostMetaView, ParseError> {
    parse_lines_spec(split_seq(s, '\n'), empty_acc())
}

/// The bracketed list text for `items`.
pub open spec fn list_text(items: Seq<Seq<char>>) -> Seq<char> {
    seq!['['] + join_seq(items, ',') + seq![']']
}

/// The serialized front-matter lines for `m`: title, date and slug, then
/// the tag and category lists where present.
pub open spec fn serialize_lines_spec(m: PostMetaView) -> Seq<Seq<char>> {
    let base = seq!["title: "@ + m.title, "date: "@ + m.date, "slug: "@ + m.slug];
    let with_tags = match m.tags {
        Some(ts) => base.push("tags: "@ + list_text(ts)),
        None => base,
    };
    match m.categories {
        Some(cs) => with_tags.push("categories: "@ + list_text(cs)),
        None => with_tags,
    }
}

/// The serialized front-matter block for `m`.
pub open spec fn fm_serialize_spec(m: PostMetaView) -> Seq<char> {
    join_seq(serialize_lines_spec(m), '\n')
}

/// A scalar field value the grammar can carry: free of line breaks.
pub open spec fn valid_scalar(s: Seq<char>) -> bool {
    !s.contains('\n')
}

/// A list item the grammar can carry faithfully: non-empty, free of
/// line breaks and commas, and neither beginning nor ending with a space
/// (the parser trims the spaces around each item).
pub open spec fn valid_item(s: Seq<char>) -> bool {
    s.len() > 0 && !s.contains('\n') && !s.contains(',') && s[0] != ' ' && s.last() != ' '
}

/// Every item of the list is a valid item.
pub open spec fn valid_items(items: Seq<Seq<char>>) -> bool {
    forall|i: int| 0 <= i < items.len() ==> valid_item(#[trigger] items[i])
}

/// A metadata value the front-matter grammar can represent faithfully.
pub open spec fn valid_meta(m: PostMetaView) -> bool {
    &&& valid_scalar(m.title)
    &&& valid_scalar(m.date)
    &&& valid_scalar(m.slug)
    &&& match m.tags {
        Some(ts) => valid_items(ts),
        None => true,
    }
    &&& match m.categories {
        Some(cs) => valid_items(cs),
        None => true,
    }
}

/// Whether `p` is a prefix of `s`.
fn starts_with_lit(s: &str, p: &str) -> (r: bool)
    ensures
        r == starts(s@, p@),
{
    let pn = p.unicode_len();
    let sn = s.unicode_len();
    if pn > sn {
        return false;
    }
    let mut i: usize = 0;
    while i < pn
        invariant
            i <= pn,
            pn == p@.len(),
            pn <= s@.len(),
            forall|j: int| 0 <= j < i ==> s@[j] == p@[j],
        decreases pn - i,
    {
        if s.get_char(i) != p.get_char(i) {
            proof {
                assert(s@.take(pn as int)[i as int] == s@[i as int]);
            }
            return false;
        }
        i += 1;
    }
    proof {
        assert(s@.take(pn as int) =~= p@);
    }
    true
}

/// The copy of `s` from character `k` on.
fn tail_from(s: &str, k: usize) -> (r: String)
    requires
        k <= s@.len(),
    ensures
        r@ == s@.skip(k as int),
{
    let n = s.unicode_len();
    let piece = s.substring_char(k, n);
    proof {
        assert(s@.subrange(k as int, n as int) =~= s@.skip(k as int));
    }
    piece.to_owned()
}

/// Reads a bracketed, comma-separated list, as [`parse_list`] describes.
fn parse_list_exec(s: &str) -> (r: Option<Vec<String>>)
    ensures
        match r {
            Some(v) => parse_list(s@) == Some(v@.map_values(|s: String| s@)),
            None => parse_list(s@) is None,
        },
{
    let n = s.unicode_len();
    if n >= 2 && s.get_char(0) == '[' && s.get_char(n - 1) == ']' {
        let inner = s.substring_char(1, n - 1);
        proof {
            assert(inner@ =~= s@.subrange(1, s@.len() - 1));
        }
        if inner.unicode_len() == 0 {
            let v: Vec<String> = Vec::new();
            proof {
                assert(v@.map_values(|s: String| s@) =~= Seq::<Seq<char>>::empty());
            }
            Some(v)
        } else {
            let raw = split_on(inner, ',');
            let mut items: Vec<String> = Vec::new();
            let mut i: usize = 0;
            while i < raw.len()
                invariant
                    i <= raw.len(),
                    items@.len() == i,
                    forall|t: int|
                        0 <= t < i ==> (#[trigger] items@[t])@ == trim_spaces(raw@[t]@),
                decreases raw.len() - i,
            {
                items.push(trim_spaces_str(raw[i].as_str()));
                i += 1;
            }
            proof {
                assert(items@.map_values(|s: String| s@) =~= raw@.map_values(
                    |s: String| s@,
                ).map_values(|p: Seq<char>| trim_spaces(p)));
            }
            Some(items)
        }
    } else {
        proof {
            if n >= 2 {
                assert(s@.last() == s@[n as int - 1]);
            }
        }
        None
    }
}

/// The accumulator that the executable parser's partial state stands for.
pub open spec fn acc_of(
    title: Option<String>,
    date: Option<String>,
    slug: Option<String>,
    tags: Option<Vec<String>>,
    categories: Option<Vec<String>>,
) -> MetaAcc {
    MetaAcc {
        title: match title {
            Some(s) => Some(s@),
            None => None,
        },
        date: match date {
            Some(s) => Some(s@),
            None => None,
        },
        slug: match slug {
            Some(s) => Some(s@),
            None => None,
        },
        tags: opt_strings_view(tags),
        categories: opt_strings_view(categories),
    }
}

/// Parses the given front-matter lines, as [`parse_lines_spec`] from the
/// empty state describes.
pub fn parse_meta_lines(lines: &Vec<String>) -> (r: Result<PostMeta, ParseError>)
    ensures
        match r {
            Ok(m) => parse_lines_spec(
                lines@.map_values(|s: String| s@),
                empty_acc(),
            ) == Ok::<PostMetaView, ParseError>(m@),
            Err(e) => parse_lines_spec(lines@.map_values(|s: String| s@), empty_acc()) == Err::<
                PostMetaView,
                ParseError,
            >(e),
        },
{
    let ghost views = lines@.map_values(|s: String| s@);
    let mut title: Option<String> = None;
    let mut date: Option<String> = None;
    let mut slug: Option<String> = None;
    let mut tags: Option<Vec<String>> = None;
    let mut categories: Option<Vec<String>> = None;
    let mut i: usize = 0;
    proof {
        assert(views.skip(0) =~= views);
    }
    while i < lines.len()
        invariant
            i <= lines.len(),
            views == lines@.map_values(|s: String| s@),
            parse_lines_spec(views, empty_acc()) == parse_lines_spec(
                views.skip(i as int),
                acc_of(title, date, slug, tags, categories),
            ),
        decreases lines.len() - i,
    {
        proof {
            assert(views.skip(i as int)[0] == views[i as int]);
            assert(views.skip(i as int).drop_first() =~= views.skip(i as int + 1));
            assert(views[i as int] == lines@[i as int]@);
        }
        let line = lines[i].as_str();
        if starts_with_lit(line, "title: ") {
            if title.is_some() {
                return Err(ParseError::DuplicateKey);
            }
            title = Some(tail_from(line, "title: ".unicode_len()));
        } else if starts_with_lit(line, "date: ") {
            if date.is_some() {
                return Err(ParseError::DuplicateKey);
            }
            date = Some(tail_from(line, "date: ".unicode_len()));
        } else if starts_with_lit(line, "slug: ") {
            if slug.is_some() {
                return Err(ParseError::DuplicateKey);
            }
            slug = Some(tail_from(line, "slug: ".unicode_len()));
        } else if starts_with_lit(line, "tags: ") {
            match parse_list_exec(tail_from(line, "tags: ".unicode_len()).as_str()) {
                Some(items) => {
                    if tags.is_some() {
                        return Err(ParseError::DuplicateKey);
                    }
                    tags = Some(items);
                },
                None => {
                    return Err(ParseError::MalformedLine);
                },
            }
        } else if starts_with_lit(line, "categories: ") {
            match parse_list_exec(tail_from(line, "categories: ".unicode_len()).as_str()) {
                Some(items) => {
                    if categories.is_some() {
                        return Err(ParseError::DuplicateKey);
                    }
                    categories = Some(items);
                },
                None => {
                    return Err(ParseError::MalformedLine);
                },
            }
        } else {
            return Err(ParseError::MalformedLine);
        }
        i += 1;
    }
    proof {
        assert(views.skip(i as int) =~= Seq::<Seq<char>>::empty());
    }
    match (title, date, slug) {
        (Some(t), Some(d), Some(sl)) => {
            let m = PostMeta { title: t, date: d, slug: sl, tags, categories };
            Ok(m)
        },
        _ => Err(ParseError::MissingField),
    }
}

/// Parses a front-matter block (the text between the delimiter lines),
/// as [`fm_parse_spec`] describes.
pub fn parse_front_matter(s: &str) -> (r: Result<PostMeta, ParseError>)
    ensures
        match r {
            Ok(m) => fm_parse_spec(s@) == Ok::<PostMetaView, ParseError>(m@),
            Err(e) => fm_parse_spec(s@) == Err::<PostMetaView, ParseError>(e),
        },
{
    let lines = split_on(s, '\n');
    parse_meta_lines(&lines)
}

/// Appends the bracketed list text for `items` to `out`.
fn append_list_text(out: &mut String, items: &Vec<String>)
    ensures
        final(out)@ == old(out)@ + list_text(items@.map_values(|s: String| s@)),
{
    let ghost views = items@.map_values(|s: String| s@);
    push_char(out, '[');
    let ghost head = out@;
    proof {
        assert(out@ =~= head + join_seq(views.take(0int), ','));
    }
    let mut i: usize = 0;
    while i < items.len()
        invariant
            i <= items.len(),
            views == items@.map_values(|s: String| s@),
            out@ == head + join_seq(views.take(i as int), ','),
        decreases items.len() - i,
    {
        if i > 0 {
            push_char(out, ',');
        }
        out.append(items[i].as_str());
        proof {
            lemma_join_take_step(views, i as int, ',');
            assert(views[i as int] == items@[i as int]@);
            assert(out@ =~= head + join_seq(views.take(i as int + 1), ','));
        }
        i += 1;
    }
    push_char(out, ']');
    proof {
        assert(views.take(items@.len() as int) =~= views);
        assert(out@ =~= old(out)@ + list_text(views));
    }
}

/// Serializes `meta` back to a front-matter block, as
/// [`fm_serialize_spec`] describes.
pub fn serialize_front_matter(meta: &PostMeta) -> (r: String)
    ensures
        r@ == fm_serialize_spec(meta@),
{
    let mut out = String::from_str("title: ");
    out.append(meta.title.as_str());
    out.append("\ndate: ");
    out.append(meta.date.as_str());
    out.append("\nslug: ");
    out.append(meta.slug.as_str());
    match &meta.tags {
        Some(items) => {
            out.append("\ntags: ");
            append_list_text(&mut out, items);
        },
        None => (),
    }
    match &meta.categories {
        Some(items) => {
            out.append("\ncategories: ");
            append_list_text(&mut out, items);
        },
        None => (),
    }
    proof {
        reveal_strlit("\ndate: ");
        reveal_strlit("\nslug: ");
        reveal_strlit("\ntags: ");
        reveal_strlit("\ncategories: ");
        reveal_strlit("date: ");
        reveal_strlit("slug: ");
        reveal_strlit("tags: ");
        reveal_strlit("categories: ");
        assert("\ndate: "@ =~= seq!['\n'] + "date: "@);
        assert("\nslug: "@ =~= seq!['\n'] + "slug: "@);
        assert("\ntags: "@ =~= seq!['\n'] + "tags: "@);
        assert("\ncategories: "@ =~= seq!['\n'] + "categories: "@);
        let m = meta@;
        let ls = serialize_lines_spec(m);
        lemma_join_lines_shape(m);
        assert(out@ =~= fm_serialize_spec(m));
    }
    out
}

/// The joined serialized lines, written out flat for each of the four
/// shapes the optional lists give.
proof fn lemma_join_lines_shape(m: PostMetaView)
    ensures
        fm_serialize_spec(m) == {
            let head = "title: "@ + m.title + seq!['\n'] + "date: "@ + m.date + seq!['\n']
                + "slug: "@ + m.slug;
            let with_tags = match m.tags {
                Some(ts) => head + seq!['\n'] + "tags: "@ + list_text(ts),
                None => head,
            };
            match m.categories {
                Some(cs) => with_tags + seq!['\n'] + "categories: "@ + list_text(cs),
                None => with_tags,
            }
        },
{
    let ls = serialize_lines_spec(m);
    let l0 = "title: "@ + m.title;
    let l1 = "date: "@ + m.date;
    let l2 = "slug: "@ + m.slug;
    match (m.tags, m.categories) {
        (None, None) => {
            assert(ls =~= seq![l0, l1, l2]);
            lemma_join3(l0, l1, l2, ls);
        },
        (Some(ts), None) => {
            let l3 = "tags: "@ + list_text(ts);
            assert(ls =~= seq![l0, l1, l2, l3]);
            lemma_join4(l0, l1, l2, l3, ls);
        },
        (None, Some(cs)) => {
            let l3 = "categories: "@ + list_text(cs);
            assert(ls =~= seq![l0, l1, l2, l3]);
            lemma_join4(l0, l1, l2, l3, ls);
        },
        (Some(ts), Some(cs)) => {
            let l3 = "tags: "@ + list_text(ts);
            let l4 = "categories: "@ + list_text(cs);
            assert(ls =~= seq![l0, l1, l2, l3, l4]);
            lemma_join5(l0, l1, l2, l3, l4, ls);
        },
    }
}

proof fn lemma_join3(l0: Seq<char>, l1: Seq<char>, l2: Seq<char>, ls: Seq<Seq<char>>)
    requires
        ls == seq![l0, l1, l2],
    ensures
        join_seq(ls, '\n') == l0 + seq!['\n'] + l1 + seq!['\n'] + l2,
{
    assert(ls.drop_first() =~= seq![l1, l2]);
    assert(seq![l1, l2].drop_first() =~= seq![l2]);
    assert(join_seq(seq![l2], '\n') == l2);
    assert(join_seq(seq![l1, l2], '\n') == l1 + seq!['\n'] + join_seq(seq![l2], '\n'));
    assert(join_seq(ls, '\n') == l0 + seq!['\n'] + join_seq(seq![l1, l2], '\n'));
    assert(join_seq(ls, '\n') =~= l0 + seq!['\n'] + l1 + seq!['\n'] + l2);
}

proof fn lemma_join4(
    l0: Seq<char>,
    l1: Seq<char>,
    l2: Seq<char>,
    l3: Seq<char>,
    ls: Seq<Seq<char>>,
)
    requires
        ls == seq![l0, l1, l2, l3],
    ensures
        join_seq(ls, '\n') == l0 + seq!['\n'] + l1 + seq!['\n'] + l2 + seq!['\n'] + l3,
{
    assert(ls.drop_first() =~= seq![l1, l2, l3]);
    assert(seq![l1, l2, l3].drop_first() =~= seq![l2, l3]);
    assert(seq![l2, l3].drop_first() =~= seq![l3]);
    assert(join_seq(seq![l3], '\n') == l3);
    assert(join_seq(seq![l2, l3], '\n') == l2 + seq!['\n'] + join_seq(seq![l3], '\n'));
    assert(join_seq(seq![l1, l2, l3], '\n') == l1 + seq!['\n'] + join_seq(seq![l2, l3], '\n'));
    assert(join_seq(ls, '\n') == l0 + seq!['\n'] + join_seq(seq![l1, l2, l3], '\n'));
    assert(join_seq(ls, '\n') =~= l0 + seq!['\n'] + l1 + seq!['\n'] + l2 + seq!['\n'] + l3);
}

proof fn lemma_join5(
    l0: Seq<char>,
    l1: Seq<char>,
    l2: Seq<char>,
    l3: Seq<char>,
    l4: Seq<char>,
    ls: Seq<Seq<char>>,
)
    requires
        ls == seq![l0, l1, l2, l3, l4],
    ensures
        join_seq(ls, '\n') == l0 + seq!['\n'] + l1 + seq!['\n'] + l2 + seq!['\n'] + l3 + seq!['\n']
            + l4,
{
    assert(ls.drop_first() =~= seq![l1, l2, l3, l4]);
    assert(seq![l1, l2, l3, l4].drop_first() =~= seq![l2, l3, l4]);
    assert(seq![l2, l3, l4].drop_first() =~= seq![l3, l4]);
    assert(seq![l3, l4].drop_first() =~= seq![l4]);
    assert(join_seq(seq![l4], '\n') == l4);
    assert(join_seq(seq![l3, l4], '\n') == l3 + seq!['\n'] + join_seq(seq![l4], '\n'));
    assert(join_seq(seq![l2, l3, l4], '\n') == l2 + seq!['\n'] + join_seq(seq![l3, l4], '\n'));
    assert(join_seq(seq![l1, l2, l3, l4], '\n') == l1 + seq!['\n'] + join_seq(
        seq![l2, l3, l4],
        '\n',
    ));
    assert(join_seq(ls, '\n') == l0 + seq!['\n'] + join_seq(seq![l1, l2, l3, l4], '\n'));
    assert(join_seq(ls, '\n') =~= l0 + seq!['\n'] + l1 + seq!['\n'] + l2 + seq!['\n'] + l3
        + seq!['\n'] + l4);
}

/// No occurrence of `x` in either part means none in the concatenation.
proof fn lemma_concat_no_char(a: Seq<char>, b: Seq<char>, x: char)
    requires
        !a.contains(x),
        !b.contains(x),
    ensures
        !(a + b).contains(x),
{
    if (a + b).contains(x) {
        let i = choose|i: int| 0 <= i < (a + b).len() && (a + b)[i] == x;
        if i < a.len() {
            assert(a[i] == x);
        } else {
            assert(b[i - a.len()] == x);
        }
    }
}

/// The bracketed list text for valid items is free of line breaks.
proof fn lemma_list_text_no_newline(items: Seq<Seq<char>>)
    requires
        valid_items(items),
    ensures
        !list_text(items).contains('\n'),
{
    assert(!seq!['['].contains('\n')) by {
        if seq!['['].contains('\n') {
            let i = choose|i: int| 0 <= i < 1 && seq!['['][i] == '\n';
        }
    }
    assert(!seq![']'].contains('\n')) by {
        if seq![']'].contains('\n') {
            let i = choose|i: int| 0 <= i < 1 && seq![']'][i] == '\n';
        }
    }
    lemma_join_not_contains(items, ',', '\n');
    lemma_concat_no_char(seq!['['], join_seq(items, ','), '\n');
    lemma_concat_no_char(seq!['['] + join_seq(items, ','), seq![']'], '\n');
}

/// A serialized scalar line is classified back to its key and value.
proof fn lemma_parse_scalar_lines(m: PostMetaView)
    ensures
        parse_line_spec("title: "@ + m.title) == LineVal::Title(m.title),
        parse_line_spec("date: "@ + m.date) == LineVal::Date(m.date),
        parse_line_spec("slug: "@ + m.slug) == LineVal::Slug(m.slug),
{
    reveal_strlit("title: ");
    reveal_strlit("date: ");
    reveal_strlit("slug: ");
    reveal_strlit("tags: ");
    reveal_strlit("categories: ");
    let lt = "title: "@ + m.title;
    assert(lt.take("title: "@.len() as int) =~= "title: "@);
    assert(lt.skip("title: "@.len() as int) =~= m.title);
    let ld = "date: "@ + m.date;
    assert(ld[0] == 'd');
    assert(!starts(ld, "title: "@)) by {
        if starts(ld, "title: "@) {
            assert(ld.take("title: "@.len() as int)[0] == 'd');
        }
    }
    assert(ld.take("date: "@.len() as int) =~= "date: "@);
    assert(ld.skip("date: "@.len() as int) =~= m.date);
    let ls = "slug: "@ + m.slug;
    assert(ls[0] == 's');
    assert(!starts(ls, "title: "@)) by {
        if starts(ls, "title: "@) {
            assert(ls.take("title: "@.len() as int)[0] == 's');
        }
    }
    assert(!starts(ls, "date: "@)) by {
        if starts(ls, "date: "@) {
            assert(ls.take("date: "@.len() as int)[0] == 's');
        }
    }
    assert(ls.take("slug: "@.len() as int) =~= "slug: "@);
    assert(ls.skip("slug: "@.len() as int) =~= m.slug);
}

/// A bracketed list text of valid items parses back to the items.
proof fn lemma_parse_list_text(items: Seq<Seq<char>>)
    requires
        valid_items(items),
    ensures
        parse_list(list_text(items)) == Some(items),
{
    let lt = list_text(items);
    let j = join_seq(items, ',');
    assert(lt[0] == '[');
    assert(lt.last() == ']');
    assert(lt.len() >= 2);
    let inner = lt.subrange(1, lt.len() - 1);
    assert(inner =~= j);
    if items.len() == 0 {
        assert(j.len() == 0);
        assert(Seq::<Seq<char>>::empty() =~= items);
    } else {
        assert(j.len() > 0) by {
            if items.len() == 1 {
                assert(j == items[0]);
                assert(items[0].len() > 0);
            } else {
                assert(j == items[0] + seq![','] + join_seq(items.drop_first(), ','));
            }
        }
        assert(forall|i: int| 0 <= i < items.len() ==> !(#[trigger] items[i]).contains(','));
        lemma_split_join(items, ',');
        let mapped = split_seq(j, ',').map_values(|p: Seq<char>| trim_spaces(p));
        assert forall|i: int| 0 <= i < items.len() implies #[trigger] mapped[i] == items[i] by {
            lemma_trim_spaces_identity(items[i]);
        }
        assert(mapped =~= items);
    }
}

/// A serialized list line is classified back to its key and items.
proof fn lemma_parse_list_lines(items: Seq<Seq<char>>)
    requires
        valid_items(items),
    ensures
        parse_line_spec("tags: "@ + list_text(items)) == LineVal::Tags(items),
        parse_line_spec("categories: "@ + list_text(items)) == LineVal::Categories(items),
{
    reveal_strlit("title: ");
    reveal_strlit("date: ");
    reveal_strlit("slug: ");
    reveal_strlit("tags: ");
    reveal_strlit("categories: ");
    lemma_parse_list_text(items);
    let lg = "tags: "@ + list_text(items);
    assert(lg[0] == 't' && lg[1] == 'a');
    assert(!starts(lg, "title: "@)) by {
        if starts(lg, "title: "@) {
            assert(lg.take("title: "@.len() as int)[1] == 'a');
        }
    }
    assert(!starts(lg, "date: "@)) by {
        if starts(lg, "date: "@) {
            assert(lg.take("date: "@.len() as int)[0] == 't');
        }
    }
    assert(!starts(lg, "slug: "@)) by {
        if starts(lg, "slug: "@) {
            assert(lg.take("slug: "@.len() as int)[0] == 't');
        }
    }
    assert(lg.take("tags: "@.len() as int) =~= "tags: "@);
    assert(lg.skip("tags: "@.len() as int) =~= list_text(items));
    let lc = "categories: "@ + list_text(items);
    assert(lc[0] == 'c');
    assert(!starts(lc, "title: "@)) by {
        if starts(lc, "title: "@) {
            assert(lc.take("title: "@.len() as int)[0] == 'c');
        }
    }
    assert(!starts(lc, "date: "@)) by {
        if starts(lc, "date: "@) {
            assert(lc.take("date: "@.len() as int)[0] == 'c');
        }
    }
    assert(!starts(lc, "slug: "@)) by {
        if starts(lc, "slug: "@) {
            assert(lc.take("slug: "@.len() as int)[0] == 'c');
        }
    }
    assert(!starts(lc, "tags: "@)) by {
        if starts(lc, "tags: "@) {
            assert(lc.take("tags: "@.len() as int)[0] == 'c');
        }
    }
    assert(lc.take("categories: "@.len() as int) =~= "categories: "@);
    assert(lc.skip("categories: "@.len() as int) =~= list_text(items));
}

/// Front-matter round-trip law: serializing any metadata value the
/// grammar can represent and parsing the result yields the value back,
/// field for field.
#[verifier::rlimit(60)]
pub proof fn lemma_front_matter_round_trip(m: PostMetaView)
    requires
        valid_meta(m),
    ensures
        fm_parse_spec(fm_serialize_spec(m)) == Ok::<PostMetaView, ParseError>(m),
{
    reveal_strlit("title: ");
    reveal_strlit("date: ");
    reveal_strlit("slug: ");
    reveal_strlit("tags: ");
    reveal_strlit("categories: ");
    let ls = serialize_lines_spec(m);
    let l0 = "title: "@ + m.title;
    let l1 = "date: "@ + m.date;
    let l2 = "slug: "@ + m.slug;
    assert(!l0.contains('\n')) by {
        lemma_concat_no_char("title: "@, m.title, '\n');
    }
    assert(!l1.contains('\n')) by {
        lemma_concat_no_char("date: "@, m.date, '\n');
    }
    assert(!l2.contains('\n')) by {
        lemma_concat_no_char("slug: "@, m.slug, '\n');
    }
    if m.tags is Some {
        lemma_list_text_no_newline(m.tags.unwrap());
        lemma_concat_no_char("tags: "@, list_text(m.tags.unwrap()), '\n');
        lemma_parse_list_lines(m.tags.unwrap());
    }
    if m.categories is Some {
        lemma_list_text_no_newline(m.categories.unwrap());
        lemma_concat_no_char("categories: "@, list_text(m.categories.unwrap()), '\n');
        lemma_parse_list_lines(m.categories.unwrap());
    }
    lemma_parse_scalar_lines(m);
    let acc0 = empty_acc();
    let acc1 = MetaAcc { title: Some(m.title), ..acc0 };
    let acc2 = MetaAcc { date: Some(m.date), ..acc1 };
    let acc3 = MetaAcc { slug: Some(m.slug), ..acc2 };
    match (m.tags, m.categories) {
        (None, None) => {
            assert(ls =~= seq![l0, l1, l2]);
            assert(forall|i: int| 0 <= i < ls.len() ==> !(#[trigger] ls[i]).contains('\n'));
            lemma_split_join(ls, '\n');
            assert(seq![l0, l1, l2].drop_first() =~= seq![l1, l2]);
            assert(seq![l1, l2].drop_first() =~= seq![l2]);
            assert(seq![l2].drop_first() =~= Seq::<Seq<char>>::empty());
            assert(parse_lines_spec(ls, acc0) == parse_lines_spec(seq![l1, l2], acc1));
            assert(parse_lines_spec(seq![l1, l2], acc1) == parse_lines_spec(seq![l2], acc2));
            assert(parse_lines_spec(seq![l2], acc2) == parse_lines_spec(
                Seq::<Seq<char>>::empty(),
                acc3,
            ));
            assert(parse_lines_spec(ls, acc0) == Ok::<PostMetaView, ParseError>(m));
        },
        (Some(ts), None) => {
            let l3 = "tags: "@ + list_text(ts);
            let acc4 = MetaAcc { tags: Some(ts), ..acc3 };
            assert(ls =~= seq![l0, l1, l2, l3]);
            assert(forall|i: int| 0 <= i < ls.len() ==> !(#[trigger] ls[i]).contains('\n'));
            lemma_split_join(ls, '\n');
            assert(seq![l0, l1, l2, l3].drop_first() =~= seq![l1, l2, l3]);
            assert(seq![l1, l2, l3].drop_first() =~= seq![l2, l3]);
            assert(seq![l2, l3].drop_first() =~= seq![l3]);
            assert(seq![l3].drop_first() =~= Seq::<Seq<char>>::empty());
            assert(parse_lines_spec(ls, acc0) == parse_lines_spec(seq![l1, l2, l3], acc1));
            assert(parse_lines_spec(seq![l1, l2, l3], acc1) == parse_lines_spec(
                seq![l2, l3],
                acc2,
            ));
            assert(parse_lines_spec(seq![l2, l3], acc2) == parse_lines_spec(seq![l3], acc3));
            assert(parse_lines_spec(seq![l3], acc3) == parse_lines_spec(
                Seq::<Seq<char>>::empty(),
                acc4,
            ));
            assert(parse_lines_spec(ls, acc0) == Ok::<PostMetaView, ParseError>(m));
        },
        (None, Some(cs)) => {
            let l3 = "categories: "@ + list_text(cs);
            let acc4 = MetaAcc { categories: Some(cs), ..acc3 };
            assert(ls =~= seq![l0, l1, l2, l3]);
            assert(forall|i: int| 0 <= i < ls.len() ==> !(#[trigger] ls[i]).contains('\n'));
            lemma_split_join(ls, '\n');
            assert(seq![l0, l1, l2, l3].drop_first() =~= seq![l1, l2, l3]);
            assert(seq![l1, l2, l3].drop_first() =~= seq![l2, l3]);
            assert(seq![l2, l3].drop_first() =~= seq![l3]);
            assert(seq![l3].drop_first() =~= Seq::<Seq<char>>::empty());
            assert(parse_lines_spec(ls, acc0) == parse_lines_spec(seq![l1, l2, l3], acc1));
            assert(parse_lines_spec(seq![l1, l2, l3], acc1) == parse_lines_spec(
                seq![l2, l3],
                acc2,
            ));
            assert(parse_lines_spec(seq![l2, l3], acc2) == parse_lines_spec(seq![l3], acc3));
            assert(parse_lines_spec(seq![l3], acc3) == parse_lines_spec(
                Seq::<Seq<char>>::empty(),
                acc4,
            ));
            assert(parse_lines_spec(ls, acc0) == Ok::<PostMetaView, ParseError>(m));
        },
        (Some(ts), Some(cs)) => {
            let l3 = "tags: "@ + list_text(ts);
            let l4 = "categories: "@ + list_text(cs);
            let acc4 = MetaAcc { tags: Some(ts), ..acc3 };
            let acc5 = MetaAcc { categories: Some(cs), ..acc4 };
            assert(ls =~= seq![l0, l1, l2, l3, l4]);
            assert(forall|i: int| 0 <= i < ls.len() ==> !(#[trigger] ls[i]).contains('\n'));
            lemma_split_join(ls, '\n');
            assert(seq![l0, l1, l2, l3, l4].drop_first() =~= seq![l1, l2, l3, l4]);
            assert(seq![l1, l2, l3, l4].drop_first() =~= seq![l2, l3, l4]);
            assert(seq![l2, l3, l4].drop_first() =~= seq![l3, l4]);
            assert(seq![l3, l4].drop_first() =~= seq![l4]);
            assert(seq![l4].drop_first() =~= Seq::<Seq<char>>::empty());
            assert(parse_lines_spec(ls, acc0) == parse_lines_spec(seq![l1, l2, l3, l4], acc1));
            assert(parse_lines_spec(seq![l1, l2, l3, l4], acc1) == parse_lines_spec(
                seq![l2, l3, l4],
                acc2,
            ));
            assert(parse_lines_spec(seq![l2, l3, l4], acc2) == parse_lines_spec(
                seq![l3, l4],
                acc3,
            ));
            assert(parse_lines_spec(seq![l3, l4], acc3) == parse_lines_spec(seq![l4], acc4));
            assert(parse_lines_spec(seq![l4], acc4) == parse_lines_spec(
                Seq::<Seq<char>>::empty(),
                acc5,
            ));
            assert(parse_lines_spec(ls, acc0) == Ok::<PostMetaView, ParseError>(m));
        },
    }
}

} // verus!
