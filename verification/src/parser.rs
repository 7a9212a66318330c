use crate::domain::{Post, PostMetaView};
use crate::errors::ParseError;
use crate::front_matter::{empty_acc, parse_lines_spec, parse_meta_lines};
use crate::markdown::{html_of, markdown_to_html};
use crate::strutil::{join_seq, lemma_join_take_step, push_char, split_on, split_seq};
use vstd::prelude::*;
use vstd::string::{StrSliceExecFns, StringExecFns};

verus! {

/// The index of the first line at or after `from` that is exactly the
/// front-matter delimiter `---`, if any.
pub open spec fn find_close(lines: Seq<Seq<char>>, from: int) -> Option<int>
    decreases lines.len() - from,
{
    if from < 0 || from >= lines.len() {
        None
    } else if lines[from] == "---"@ {
        Some(from)
    } else {
        find_close(lines, from + 1)
    }
}

/// How a whole document is read: it must open with a `---` line, the
/// front matter runs to the next `---` line and must parse, and the body
/// is everything after that line, with the rendered HTML left to the
/// markdown renderer.
pub open spec fn doc_parse_spec(content: Seq<char>) -> Result<
    (PostMetaView, Seq<char>),
    ParseError,
> {
    let lines = split_seq(content, '\n');
    if lines[0] != "---"@ {
        Err(ParseError::MissingFrontMatter)
    } else {
        match find_close(lines, 1) {
            None => Err(ParseError::UnclosedFrontMatter),
            Some(k) => match parse_lines_spec(lines.subrange(1, k), empty_acc()) {
                Ok(meta) => Ok((meta, join_seq(lines.skip(k + 1), '\n'))),
                Err(e) => Err(e),
            },
        }
    }
}

/// Finds the closing `---` line, as [`find_close`] from line 1 describes.
fn find_close_exec(lines: &Vec<String>, marker: &String) -> (r: Option<usize>)
    requires
        marker@ == "---"@,
        lines@.len() >= 1,
    ensures
        match r {
            Some(k) => 1 <= k < lines@.len() && find_close(
                lines@.map_values(|s: String| s@),
                1,
            ) == Some(k as int),
            None => find_close(lines@.map_values(|s: String| s@), 1) is None,
        },
{
    let ghost views = lines@.map_values(|s: String| s@);
    let mut k: usize = 1;
    while k < lines.len()
        invariant
            1 <= k <= lines@.len(),
            views == lines@.map_values(|s: String| s@),
            marker@ == "---"@,
            find_close(views, 1) == find_close(views, k as int),
        decreases lines.len() - k,
    {
        proof {
            assert(views[k as int] == lines@[k as int]@);
        }
        if lines[k] == *marker {
            return Some(k);
        }
        k += 1;
    }
    None
}

/// Parses one source document: front matter into metadata, the markdown
/// body into HTML, exactly as [`doc_parse_spec`] describes, with the
/// body handed to the markdown renderer.
pub fn parse_markdown(content: &str) -> (r: Result<Post, ParseError>)
    ensures
        match r {
            Ok(p) => doc_parse_spec(content@) matches Ok(mb) && p.meta@ == mb.0 && p.content@
                == html_of(mb.1),
            Err(e) => doc_parse_spec(content@) == Err::<(PostMetaView, Seq<char>), ParseError>(e),
        },
{
    let ghost views = split_seq(content@, '\n');
    let lines = split_on(content, '\n');
    let marker = String::from_str("---");
    proof {
        assert(views[0] == lines@[0]@);
    }
    if !(lines[0] == marker) {
        return Err(ParseError::MissingFrontMatter);
    }
    let k = match find_close_exec(&lines, &marker) {
        Some(k) => k,
        None => {
            return Err(ParseError::UnclosedFrontMatter);
        },
    };
    // The front-matter lines, between the delimiter lines.
    let mut meta_lines: Vec<String> = Vec::new();
    let mut j: usize = 1;
    while j < k
        invariant
            1 <= j <= k < lines@.len(),
            views == lines@.map_values(|s: String| s@),
            meta_lines@.len() == j - 1,
            forall|t: int| 0 <= t < j - 1 ==> (#[trigger] meta_lines@[t])@ == views[t + 1],
        decreases k - j,
    {
        meta_lines.push(lines[j].clone());
        proof {
            assert(views[j as int] == lines@[j as int]@);
        }
        j += 1;
    }
    proof {
        assert(meta_lines@.map_values(|s: String| s@) =~= views.subrange(1, k as int));
    }
    let meta = match parse_meta_lines(&meta_lines) {
        Ok(m) => m,
        Err(e) => {
            return Err(e);
        },
    };
    // The body: every line after the closing delimiter, joined back.
    let ghost tail = views.skip(k as int + 1);
    let mut body = String::new();
    let n = lines.len();
    let mut t: usize = k + 1;
    proof {
        assert(join_seq(tail.take(0int), '\n') == Seq::<char>::empty());
    }
    while t < lines.len()
        invariant
            k + 1 <= t <= lines@.len(),
            views == lines@.map_values(|s: String| s@),
            tail == views.skip(k as int + 1),
            body@ == join_seq(tail.take(t - k - 1), '\n'),
        decreases lines.len() - t,
    {
        if t > k + 1 {
            push_char(&mut body, '\n');
        }
        body.append(lines[t].as_str());
        proof {
            assert(tail[t - k - 1] == views[t as int]);
            assert(views[t as int] == lines@[t as int]@);
            lemma_join_take_step(tail, t - k - 1, '\n');
        }
        t += 1;
    }
    proof {
        assert(tail.take(tail.len() as int) =~= tail);
    }
    let html = markdown_to_html(body.as_str());
    Ok(Post { meta, content: html })
}

} // verus!
