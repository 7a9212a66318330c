use vstd::prelude::*;
use vstd::string::StrSliceExecFns;

verus! {

/// Relies on `String::push`: appends exactly the one character to the
/// end of the string.
#[verifier::external_body]
pub fn push_char(s: &mut String, c: char)
    ensures
        final(s)@ == old(s)@.push(c),
{
    s.push(c);
}

/// Length of `s` once every trailing `'/'` is removed.
pub open spec fn trimmed_len(s: Seq<char>) -> int
    decreases s.len(),
{
    if s.len() == 0 {
        0
    } else if s.last() == '/' {
        trimmed_len(s.drop_last())
    } else {
        s.len() as int
    }
}

/// `s` with every trailing `'/'` removed.
pub open spec fn trim_slashes(s: Seq<char>) -> Seq<char> {
    s.take(trimmed_len(s))
}

proof fn lemma_trimmed_len_bounds(s: Seq<char>)
    ensures
        0 <= trimmed_len(s) <= s.len(),
    decreases s.len(),
{
    if s.len() > 0 && s.last() == '/' {
        lemma_trimmed_len_bounds(s.drop_last());
    }
}

/// Copy of `s` with every trailing `'/'` removed, as the site
/// configuration's base URL is normalized before URLs are formed from it.
pub fn trim_trailing_slashes(s: &str) -> (r: String)
    ensures
        r@ == trim_slashes(s@),
{
    let n = s.unicode_len();
    let mut k = n;
    proof {
        assert(s@.take(n as int) =~= s@);
    }
    while k > 0 && s.get_char(k - 1) == '/'
        invariant
            k <= n,
            n == s@.len(),
            trim_slashes(s@) == trim_slashes(s@.take(k as int)),
        decreases k,
    {
        proof {
            assert(s@.take(k as int).last() == s@[k as int - 1]);
            assert(s@.take(k as int).drop_last() =~= s@.take(k as int - 1));
            lemma_trimmed_len_bounds(s@.take(k as int - 1));
        }
        k -= 1;
    }
    proof {
        if k == 0 {
            assert(s@.take(0int) =~= Seq::<char>::empty());
            assert(trimmed_len(Seq::<char>::empty()) == 0);
        } else {
            assert(s@.take(k as int).last() == s@[k as int - 1]);
            assert(trimmed_len(s@.take(k as int)) == k as int);
        }
        assert(trim_slashes(s@.take(k as int)) =~= s@.take(k as int));
    }
    let piece = s.substring_char(0, k);
    proof {
        assert(s@.subrange(0, k as int) =~= s@.take(k as int));
    }
    piece.to_owned()
}

/// `s` split at every occurrence of `sep`: the pieces between separators,
/// in order. The empty text yields one empty piece; `n` separators yield
/// `n + 1` pieces.
pub open spec fn split_seq(s: Seq<char>, sep: char) -> Seq<Seq<char>>
    decreases s.len(),
{
    if s.len() == 0 {
        seq![Seq::<char>::empty()]
    } else {
        let rest = split_seq(s.drop_first(), sep);
        if s[0] == sep {
            seq![Seq::<char>::empty()] + rest
        } else {
            seq![seq![s[0]] + rest[0]] + rest.drop_first()
        }
    }
}

/// The pieces of `lines`, joined with `sep` between consecutive pieces.
pub open spec fn join_seq(lines: Seq<Seq<char>>, sep: char) -> Seq<char>
    decreases lines.len(),
{
    if lines.len() == 0 {
        Seq::empty()
    } else if lines.len() == 1 {
        lines[0]
    } else {
        lines[0] + seq![sep] + join_seq(lines.drop_first(), sep)
    }
}

pub proof fn lemma_split_seq_len(s: Seq<char>, sep: char)
    ensures
        split_seq(s, sep).len() >= 1,
    decreases s.len(),
{
    if s.len() > 0 {
        lemma_split_seq_len(s.drop_first(), sep);
    }
}

/// Splitting a separator-free piece prepended to `s` keeps the piece
/// glued to the first piece of `s`'s own split.
pub proof fn lemma_split_prepend(a: Seq<char>, s: Seq<char>, sep: char)
    requires
        !a.contains(sep),
    ensures
        split_seq(a + s, sep) == seq![a + split_seq(s, sep)[0]] + split_seq(s, sep).drop_first(),
    decreases a.len(),
{
    lemma_split_seq_len(s, sep);
    if a.len() == 0 {
        assert(a + s =~= s);
        assert(a + split_seq(s, sep)[0] =~= split_seq(s, sep)[0]);
        assert(seq![split_seq(s, sep)[0]] + split_seq(s, sep).drop_first() =~= split_seq(s, sep));
    } else {
        assert(a[0] != sep) by {
            assert(a.contains(a[0]));
        }
        assert((a + s)[0] == a[0]);
        assert((a + s).drop_first() =~= a.drop_first() + s);
        assert(!a.drop_first().contains(sep)) by {
            if a.drop_first().contains(sep) {
                let i = choose|i: int|
                    0 <= i < a.drop_first().len() && a.drop_first()[i] == sep;
                assert(a[i + 1] == sep);
                assert(a.contains(sep));
            }
        }
        lemma_split_prepend(a.drop_first(), s, sep);
        lemma_split_seq_len(a.drop_first() + s, sep);
        let tail_split = split_seq(a.drop_first() + s, sep);
        assert(tail_split[0] == a.drop_first() + split_seq(s, sep)[0]);
        assert(tail_split.drop_first() =~= split_seq(s, sep).drop_first());
        assert(seq![a[0]] + (a.drop_first() + split_seq(s, sep)[0]) =~= a + split_seq(s, sep)[0]);
        assert(split_seq(a + s, sep) =~= seq![a + split_seq(s, sep)[0]] + split_seq(
            s,
            sep,
        ).drop_first());
    }
}

/// Splitting after a leading separator yields a leading empty piece.
pub proof fn lemma_split_sep_first(s: Seq<char>, sep: char)
    ensures
        split_seq(seq![sep] + s, sep) == seq![Seq::<char>::empty()] + split_seq(s, sep),
{
    assert((seq![sep] + s)[0] == sep);
    assert((seq![sep] + s).drop_first() =~= s);
    assert(split_seq(seq![sep] + s, sep) =~= seq![Seq::<char>::empty()] + split_seq(s, sep));
}

/// Joining pieces that are free of the separator and splitting the result
/// gives the pieces back: split is a left inverse of join.
pub proof fn lemma_split_join(lines: Seq<Seq<char>>, sep: char)
    requires
        lines.len() >= 1,
        forall|i: int| 0 <= i < lines.len() ==> !(#[trigger] lines[i]).contains(sep),
    ensures
        split_seq(join_seq(lines, sep), sep) == lines,
    decreases lines.len(),
{
    if lines.len() == 1 {
        let a = lines[0];
        assert(split_seq(Seq::<char>::empty(), sep) == seq![Seq::<char>::empty()]);
        lemma_split_prepend(a, Seq::<char>::empty(), sep);
        assert(a + Seq::<char>::empty() =~= a);
        assert(a + split_seq(Seq::<char>::empty(), sep)[0] =~= a);
        assert(split_seq(a, sep) =~= seq![a]);
        assert(join_seq(lines, sep) == a);
        assert(lines =~= seq![a]);
    } else {
        let rest = lines.drop_first();
        assert(forall|i: int| 0 <= i < rest.len() ==> (#[trigger] rest[i]) == lines[i + 1]);
        lemma_split_join(rest, sep);
        let jr = join_seq(rest, sep);
        lemma_split_sep_first(jr, sep);
        lemma_split_prepend(lines[0], seq![sep] + jr, sep);
        assert(join_seq(lines, sep) =~= lines[0] + (seq![sep] + jr));
        let inner = split_seq(seq![sep] + jr, sep);
        assert(inner == seq![Seq::<char>::empty()] + split_seq(jr, sep));
        assert(inner[0] =~= Seq::<char>::empty());
        assert(lines[0] + inner[0] =~= lines[0]);
        assert(inner.drop_first() =~= rest);
        assert(split_seq(join_seq(lines, sep), sep) =~= lines);
    }
}

/// If no piece holds `x` and `sep` is not `x`, the joined text does not
/// hold `x` either.
pub proof fn lemma_join_not_contains(lines: Seq<Seq<char>>, sep: char, x: char)
    requires
        sep != x,
        forall|i: int| 0 <= i < lines.len() ==> !(#[trigger] lines[i]).contains(x),
    ensures
        !join_seq(lines, sep).contains(x),
    decreases lines.len(),
{
    if lines.len() == 0 {
    } else if lines.len() == 1 {
        assert(!lines[0].contains(x));
    } else {
        let rest = lines.drop_first();
        assert(forall|i: int| 0 <= i < rest.len() ==> (#[trigger] rest[i]) == lines[i + 1]);
        lemma_join_not_contains(rest, sep, x);
        let j = join_seq(lines, sep);
        if j.contains(x) {
            let i = choose|i: int| 0 <= i < j.len() && j[i] == x;
            let n0 = lines[0].len() as int;
            if i < n0 {
                assert(lines[0].contains(x));
            } else if i == n0 {
                assert(j[i] == sep);
            } else {
                assert(join_seq(rest, sep)[i - n0 - 1] == x);
                assert(join_seq(rest, sep).contains(x));
            }
        }
    }
}

/// Splits `s` at every occurrence of `sep`, as [`split_seq`] describes.
pub fn split_on(s: &str, sep: char) -> (r: Vec<String>)
    ensures
        r@.map_values(|s: String| s@) == split_seq(s@, sep),
        r@.len() >= 1,
{
    let n = s.unicode_len();
    let mut done: Vec<String> = Vec::new();
    let mut cur = String::new();
    let mut i: usize = 0;
    proof {
        assert(s@.skip(0) =~= s@);
        lemma_split_seq_len(s@, sep);
    }
    while i < n
        invariant
            i <= n,
            n == s@.len(),
            split_seq(s@, sep) == done@.map_values(|s: String| s@) + seq![
                cur@ + split_seq(s@.skip(i as int), sep)[0],
            ] + split_seq(s@.skip(i as int), sep).drop_first(),
        decreases n - i,
    {
        let c = s.get_char(i);
        proof {
            lemma_split_seq_len(s@.skip(i as int + 1), sep);
            assert(s@.skip(i as int)[0] == s@[i as int]);
            assert(s@.skip(i as int).drop_first() =~= s@.skip(i as int + 1));
        }
        let ghost pre = done@.map_values(|s: String| s@);
        let ghost cur_old = cur@;
        let ghost tail0 = split_seq(s@.skip(i as int), sep);
        let ghost tail1 = split_seq(s@.skip(i as int + 1), sep);
        if c == sep {
            done.push(cur);
            cur = String::new();
            proof {
                assert(done@.map_values(|s: String| s@) =~= pre.push(cur_old));
                assert(tail0 =~= seq![Seq::<char>::empty()] + tail1);
                assert(tail0[0] =~= Seq::<char>::empty());
                assert(cur_old + tail0[0] =~= cur_old);
                assert(tail0.drop_first() =~= tail1);
                assert(tail1 =~= seq![tail1[0]] + tail1.drop_first());
                assert(cur@ + tail1[0] =~= tail1[0]);
                assert(split_seq(s@, sep) =~= done@.map_values(|s: String| s@) + seq![
                    cur@ + tail1[0],
                ] + tail1.drop_first());
            }
        } else {
            push_char(&mut cur, c);
            proof {
                assert(tail0 =~= seq![seq![s@[i as int]] + tail1[0]] + tail1.drop_first());
                assert(tail0[0] =~= seq![s@[i as int]] + tail1[0]);
                assert(tail0.drop_first() =~= tail1.drop_first());
                assert(cur_old + tail0[0] =~= cur@ + tail1[0]);
                assert(split_seq(s@, sep) =~= done@.map_values(|s: String| s@) + seq![
                    cur@ + tail1[0],
                ] + tail1.drop_first());
            }
        }
        i += 1;
    }
    proof {
        assert(s@.skip(n as int) =~= Seq::<char>::empty());
        assert(split_seq(Seq::<char>::empty(), sep) == seq![Seq::<char>::empty()]);
        assert(cur@ + Seq::<char>::empty() =~= cur@);
    }
    done.push(cur);
    proof {
        assert(done@.map_values(|s: String| s@) =~= split_seq(s@, sep));
    }
    done
}

/// Joining one more piece appends a separator (except before the first
/// piece) and the piece.
pub proof fn lemma_join_take_step(items: Seq<Seq<char>>, i: int, sep: char)
    requires
        0 <= i < items.len(),
    ensures
        join_seq(items.take(i + 1), sep) == if i == 0 {
            items[0]
        } else {
            join_seq(items.take(i), sep) + seq![sep] + items[i]
        },
    decreases i,
{
    if i == 0 {
        assert(items.take(1int) =~= seq![items[0]]);
        assert(join_seq(seq![items[0]], sep) == items[0]);
    } else {
        assert(items.take(i + 1).drop_first() =~= items.drop_first().take(i));
        assert(items.take(i).drop_first() =~= items.drop_first().take(i - 1));
        assert(items.take(i + 1)[0] == items[0]);
        assert(items.take(i)[0] == items[0]);
        assert(items.drop_first()[i - 1] == items[i]);
        lemma_join_take_step(items.drop_first(), i - 1, sep);
        if i == 1 {
            assert(items.drop_first().take(1int) =~= seq![items[1]]);
            assert(join_seq(items.take(2int), sep) =~= join_seq(items.take(1int), sep) + seq![sep]
                + items[1]);
        } else {
            assert(join_seq(items.take(i + 1), sep) =~= join_seq(items.take(i), sep) + seq![sep]
                + items[i]);
        }
    }
}

/// Number of leading spaces of `s`.
pub open spec fn lead_spaces(s: Seq<char>) -> int
    decreases s.len(),
{
    if s.len() == 0 {
        0
    } else if s[0] == ' ' {
        1 + lead_spaces(s.drop_first())
    } else {
        0
    }
}

/// Length of `s` once every trailing space is removed.
pub open spec fn no_trail_spaces_len(s: Seq<char>) -> int
    decreases s.len(),
{
    if s.len() == 0 {
        0
    } else if s.last() == ' ' {
        no_trail_spaces_len(s.drop_last())
    } else {
        s.len() as int
    }
}

/// `s` with every leading and trailing space removed.
pub open spec fn trim_spaces(s: Seq<char>) -> Seq<char> {
    let t = s.skip(lead_spaces(s));
    t.take(no_trail_spaces_len(t))
}

pub proof fn lemma_lead_spaces_bounds(s: Seq<char>)
    ensures
        0 <= lead_spaces(s) <= s.len(),
    decreases s.len(),
{
    if s.len() > 0 && s[0] == ' ' {
        lemma_lead_spaces_bounds(s.drop_first());
    }
}

pub proof fn lemma_no_trail_spaces_len_bounds(s: Seq<char>)
    ensures
        0 <= no_trail_spaces_len(s) <= s.len(),
    decreases s.len(),
{
    if s.len() > 0 && s.last() == ' ' {
        lemma_no_trail_spaces_len_bounds(s.drop_last());
    }
}

/// Trimming a text that neither begins nor ends with a space leaves it
/// unchanged.
pub proof fn lemma_trim_spaces_identity(s: Seq<char>)
    requires
        s.len() == 0 || (s[0] != ' ' && s.last() != ' '),
    ensures
        trim_spaces(s) == s,
{
    if s.len() == 0 {
        assert(lead_spaces(s) == 0);
        assert(s.skip(0) =~= s);
        assert(no_trail_spaces_len(s) == 0);
        assert(trim_spaces(s) =~= s);
    } else {
        assert(lead_spaces(s) == 0);
        assert(s.skip(0) =~= s);
        assert(no_trail_spaces_len(s) == s.len());
        assert(trim_spaces(s) =~= s);
    }
}

/// Copy of `s` with every leading and trailing space removed.
pub fn trim_spaces_str(s: &str) -> (r: String)
    ensures
        r@ == trim_spaces(s@),
{
    let n = s.unicode_len();
    proof {
        assert(s@.skip(0) =~= s@);
    }
    let mut a: usize = 0;
    while a < n && s.get_char(a) == ' '
        invariant
            a <= n,
            n == s@.len(),
            lead_spaces(s@) == a + lead_spaces(s@.skip(a as int)),
        decreases n - a,
    {
        proof {
            assert(s@.skip(a as int)[0] == s@[a as int]);
            assert(s@.skip(a as int).drop_first() =~= s@.skip(a as int + 1));
        }
        a += 1;
    }
    proof {
        if a == n {
            assert(s@.skip(a as int) =~= Seq::<char>::empty());
        } else {
            assert(s@.skip(a as int)[0] == s@[a as int]);
        }
        assert(lead_spaces(s@.skip(a as int)) == 0);
        assert(lead_spaces(s@) == a as int);
    }
    let ghost t = s@.skip(a as int);
    let mut k = n;
    proof {
        assert(t.take(n as int - a as int) =~= t);
    }
    while k > a && s.get_char(k - 1) == ' '
        invariant
            a <= k <= n,
            n == s@.len(),
            t == s@.skip(a as int),
            no_trail_spaces_len(t) == no_trail_spaces_len(t.take(k as int - a as int)),
        decreases k,
    {
        proof {
            assert(t.take(k as int - a as int).last() == s@[k as int - 1]);
            assert(t.take(k as int - a as int).drop_last() =~= t.take(k as int - 1 - a as int));
            lemma_no_trail_spaces_len_bounds(t.take(k as int - 1 - a as int));
        }
        k -= 1;
    }
    proof {
        if k == a {
            assert(t.take(0int) =~= Seq::<char>::empty());
            assert(no_trail_spaces_len(t) == 0);
        } else {
            assert(t.take(k as int - a as int).last() == s@[k as int - 1]);
            assert(no_trail_spaces_len(t.take(k as int - a as int)) == k as int - a as int);
        }
        assert(t.take(no_trail_spaces_len(t)) =~= s@.subrange(a as int, k as int));
    }
    let piece = s.substring_char(a, k);
    piece.to_owned()
}

} // verus!
