use crate::domain::{Post, PostView};
use vstd::prelude::*;

verus! {

/// The classification axis a taxonomy is built over: a post's tags or its
/// categories.
pub open spec fn axis_of(p: PostView, use_tags: bool) -> Option<Seq<Seq<char>>> {
    if use_tags {
        p.meta.tags
    } else {
        p.meta.categories
    }
}

/// Whether `p` carries `key` on the given axis. A post with no list on
/// that axis carries no key at all.
pub open spec fn has_key(p: PostView, key: Seq<char>, use_tags: bool) -> bool {
    match axis_of(p, use_tags) {
        Some(keys) => keys.contains(key),
        None => false,
    }
}

/// Whether `p` carries `key` as a tag.
pub open spec fn has_tag(p: PostView, key: Seq<char>) -> bool {
    has_key(p, key, true)
}

/// Whether `p` carries `key` as a category.
pub open spec fn has_category(p: PostView, key: Seq<char>) -> bool {
    has_key(p, key, false)
}

/// The posts of `posts` that carry `key` on the given axis, in their
/// original order, each post once even if it repeats the key.
pub open spec fn group_spec(posts: Seq<PostView>, key: Seq<char>, use_tags: bool) -> Seq<PostView>
    decreases posts.len(),
{
    if posts.len() == 0 {
        Seq::empty()
    } else {
        let prefix = group_spec(posts.drop_last(), key, use_tags);
        if has_key(posts.last(), key, use_tags) {
            prefix.push(posts.last())
        } else {
            prefix
        }
    }
}

/// Looks `key` up among `groups` by exact string equality: the first
/// entry whose name is `key`, if any.
pub open spec fn lookup_spec(groups: Seq<(Seq<char>, Seq<PostView>)>, key: Seq<char>) -> Option<
    Seq<PostView>,
>
    decreases groups.len(),
{
    if groups.len() == 0 {
        None
    } else if groups[0].0 == key {
        Some(groups[0].1)
    } else {
        lookup_spec(groups.drop_first(), key)
    }
}

/// A taxonomy: group names mapped to the ordered list of posts carrying
/// that name, keyed by exact string equality (no normalization). The
/// order of the groups themselves is not part of any contract.
pub struct TaxonomyIndex {
    groups: Vec<(String, Vec<Post>)>,
}

impl View for TaxonomyIndex {
    type V = Seq<(Seq<char>, Seq<PostView>)>;

    closed spec fn view(&self) -> Seq<(Seq<char>, Seq<PostView>)> {
        self.groups@.map_values(
            |g: (String, Vec<Post>)| (g.0@, g.1@.map_values(|p: Post| p@)),
        )
    }
}

impl TaxonomyIndex {
    /// Group names are pairwise distinct.
    pub open spec fn wf(&self) -> bool {
        self@.map_values(|g: (Seq<char>, Seq<PostView>)| g.0).no_duplicates()
    }

    /// Number of groups.
    pub fn len(&self) -> (n: usize)
        ensures
            n == self@.len(),
    {
        self.groups.len()
    }

    /// The group named `key`, if one exists.
    pub fn get(&self, key: &str) -> (r: Option<&Vec<Post>>)
        ensures
            match r {
                Some(v) => lookup_spec(self@, key@) == Some(v@.map_values(|p: Post| p@)),
                None => lookup_spec(self@, key@) is None,
            },
    {
        let owned_key = key.to_owned();
        proof {
            assert(self@.skip(0) =~= self@);
        }
        let mut i: usize = 0;
        while i < self.groups.len()
            invariant
                i <= self.groups.len(),
                owned_key@ == key@,
                lookup_spec(self@, key@) == lookup_spec(self@.skip(i as int), key@),
            decreases self.groups.len() - i,
        {
            proof {
                assert(self@.skip(i as int)[0] == self@[i as int]);
                assert(self@.skip(i as int).drop_first() =~= self@.skip(i as int + 1));
            }
            if self.groups[i].0 == owned_key {
                return Some(&self.groups[i].1);
            }
            i += 1;
        }
        proof {
            assert(self@.skip(i as int) =~= Seq::<(Seq<char>, Seq<PostView>)>::empty());
        }
        None
    }

    /// The names of all groups, in the index's own (unspecified) order.
    pub fn keys(&self) -> (r: Vec<String>)
        ensures
            r@.map_values(|s: String| s@) == self@.map_values(
                |g: (Seq<char>, Seq<PostView>)| g.0,
            ),
    {
        let mut out: Vec<String> = Vec::new();
        let mut i: usize = 0;
        while i < self.groups.len()
            invariant
                i <= self.groups.len(),
                out@.len() == i,
                forall|u: int| 0 <= u < i ==> (#[trigger] out@[u])@ == self@[u].0,
            decreases self.groups.len() - i,
        {
            out.push(self.groups[i].0.clone());
            proof {
                assert(self@[i as int].0 == self.groups@[i as int].0@);
            }
            i += 1;
        }
        proof {
            assert(out@.map_values(|s: String| s@) =~= self@.map_values(
                |g: (Seq<char>, Seq<PostView>)| g.0,
            ));
        }
        out
    }
}

/// Whether some string of `keys` views as `key`.
spec fn keys_contain(keys: Seq<String>, key: Seq<char>) -> bool {
    exists|u: int| 0 <= u < keys.len() && (#[trigger] keys[u])@ == key
}

/// The strings of `keys` view pairwise differently.
spec fn distinct_views(keys: Seq<String>) -> bool {
    forall|a: int, b: int|
        0 <= a < b < keys.len() ==> (#[trigger] keys[a])@ != (#[trigger] keys[b])@
}

/// Membership in a viewed string list equals membership among the
/// strings themselves.
proof fn lemma_strings_contain(list: Seq<String>, k: Seq<char>)
    ensures
        list.map_values(|s: String| s@).contains(k) <==> keys_contain(list, k),
{
    let mapped = list.map_values(|s: String| s@);
    if mapped.contains(k) {
        let i = choose|i: int| 0 <= i < mapped.len() && #[trigger] mapped[i] == k;
        assert((list[i])@ == k);
    }
    if keys_contain(list, k) {
        let u = choose|u: int| 0 <= u < list.len() && (#[trigger] list[u])@ == k;
        assert(mapped[u] == k);
    }
}

/// Pushes the keys of `p`'s axis list onto `found`, skipping ones
/// already present, so that `found` stays duplicate-free and afterwards
/// contains exactly the old keys plus `p`'s keys.
fn collect_keys_of(found: &mut Vec<String>, p: &Post, use_tags: bool)
    requires
        distinct_views(old(found)@),
    ensures
        distinct_views(final(found)@),
        forall|k: Seq<char>|
            keys_contain(final(found)@, k) <==> (keys_contain(old(found)@, k) || has_key(
                p@,
                k,
                use_tags,
            )),
{
    let list = if use_tags {
        &p.meta.tags
    } else {
        &p.meta.categories
    };
    match list {
        None => {
            proof {
                assert(forall|k: Seq<char>| !has_key(p@, k, use_tags));
            }
        },
        Some(keys) => {
            let mut j: usize = 0;
            while j < keys.len()
                invariant
                    j <= keys.len(),
                    distinct_views(found@),
                    forall|k: Seq<char>|
                        keys_contain(found@, k) <==> (keys_contain(old(found)@, k)
                            || keys_contain(keys@.take(j as int), k)),
                decreases keys.len() - j,
            {
                let mut present = false;
                let mut t: usize = 0;
                while t < found.len()
                    invariant
                        t <= found.len(),
                        j < keys@.len(),
                        present <==> exists|u: int|
                            0 <= u < t && (#[trigger] found@[u])@ == keys@[j as int]@,
                    decreases found.len() - t,
                {
                    let hit = found[t] == keys[j];
                    if hit {
                        present = true;
                    }
                    proof {
                        if hit {
                            assert((found@[t as int])@ == keys@[j as int]@);
                        } else {
                            assert((found@[t as int])@ != keys@[j as int]@);
                        }
                    }
                    t += 1;
                }
                let ghost before = found@;
                if !present {
                    found.push(keys[j].clone());
                    proof {
                        assert(found@.drop_last() =~= before);
                        assert((found@.last())@ == keys@[j as int]@);
                        assert forall|a: int, b: int|
                            0 <= a < b < found@.len() implies (#[trigger] found@[a])@ != (
                        #[trigger] found@[b])@ by {
                            if b == before.len() {
                                assert(found@[a] == before[a]);
                                assert(!keys_contain(before, keys@[j as int]@));
                                assert((before[a])@ != keys@[j as int]@);
                            } else {
                                assert(found@[a] == before[a] && found@[b] == before[b]);
                            }
                        }
                    }
                }
                proof {
                    if !present {
                        assert(found@.drop_last() =~= before);
                        assert(forall|u: int|
                            0 <= u < before.len() ==> (#[trigger] found@[u]) == before[u]);
                        assert((found@[before.len() as int])@ == keys@[j as int]@);
                    } else {
                        assert(found@ == before);
                    }
                    assert forall|k: Seq<char>|
                        keys_contain(found@, k) <==> (keys_contain(old(found)@, k) || keys_contain(
                            keys@.take(j as int + 1),
                            k,
                        )) by {
                        let t1 = keys@.take(j as int + 1);
                        let t0 = keys@.take(j as int);
                        assert(forall|u: int| 0 <= u <= j ==> (#[trigger] t1[u]) == keys@[u]);
                        assert(forall|u: int| 0 <= u < j ==> (#[trigger] t0[u]) == keys@[u]);
                        if keys_contain(found@, k) {
                            let u = choose|u: int|
                                0 <= u < found@.len() && (#[trigger] found@[u])@ == k;
                            if !present && u == before.len() {
                                assert((t1[j as int])@ == k);
                                assert(keys_contain(t1, k));
                            } else {
                                assert((before[u])@ == k);
                                assert(keys_contain(before, k));
                                if keys_contain(t0, k) {
                                    let w = choose|w: int|
                                        0 <= w < t0.len() && (#[trigger] t0[w])@ == k;
                                    assert((t1[w])@ == k);
                                    assert(keys_contain(t1, k));
                                }
                            }
                        }
                        if keys_contain(old(found)@, k) {
                            assert(keys_contain(before, k));
                            let w = choose|w: int|
                                0 <= w < before.len() && (#[trigger] before[w])@ == k;
                            assert((found@[w])@ == k);
                            assert(keys_contain(found@, k));
                        }
                        if keys_contain(t1, k) {
                            let u = choose|u: int| 0 <= u < t1.len() && (#[trigger] t1[u])@ == k;
                            if u < j {
                                assert((t0[u])@ == k);
                                assert(keys_contain(t0, k));
                                assert(keys_contain(before, k));
                                let w = choose|w: int|
                                    0 <= w < before.len() && (#[trigger] before[w])@ == k;
                                assert((found@[w])@ == k);
                            } else {
                                assert((keys@[j as int])@ == k);
                                if present {
                                    assert(keys_contain(before, keys@[j as int]@));
                                    let w = choose|w: int|
                                        0 <= w < before.len() && (#[trigger] before[w])@ == k;
                                    assert((found@[w])@ == k);
                                } else {
                                    assert((found@[before.len() as int])@ == k);
                                }
                            }
                            assert(keys_contain(found@, k));
                        }
                    }
                }
                j += 1;
            }
            proof {
                assert(keys@.take(keys@.len() as int) =~= keys@);
                assert forall|k: Seq<char>|
                    keys_contain(final(found)@, k) <==> (keys_contain(old(found)@, k) || has_key(
                        p@,
                        k,
                        use_tags,
                    )) by {
                    lemma_strings_contain(keys@, k);
                }
            }
        },
    }
}

/// Groups `posts` by the given axis. The contract pins every lookup
/// down: a name maps to a group exactly when some post carries it, and
/// that group is exactly the posts carrying the name, in input order.
fn group_by_axis(posts: &Vec<Post>, use_tags: bool) -> (r: TaxonomyIndex)
    ensures
        r.wf(),
        forall|k: Seq<char>| #![trigger lookup_spec(r@, k)]
            lookup_spec(r@, k) == if group_spec(posts@.map_values(|p: Post| p@), k, use_tags).len()
                > 0 {
                Some(group_spec(posts@.map_values(|p: Post| p@), k, use_tags))
            } else {
                None::<Seq<PostView>>
            },
{
    let ghost post_views = posts@.map_values(|p: Post| p@);
    // Phase 1: every distinct key, in first-appearance order.
    let mut keys: Vec<String> = Vec::new();
    let mut i: usize = 0;
    while i < posts.len()
        invariant
            i <= posts.len(),
            post_views == posts@.map_values(|p: Post| p@),
            distinct_views(keys@),
            forall|k: Seq<char>|
                keys_contain(keys@, k) <==> exists|u: int|
                    0 <= u < i && has_key(#[trigger] post_views[u], k, use_tags),
        decreases posts.len() - i,
    {
        let ghost prev = keys@;
        collect_keys_of(&mut keys, &posts[i], use_tags);
        proof {
            assert(post_views[i as int] == posts@[i as int]@);
            assert forall|k: Seq<char>|
                keys_contain(keys@, k) <==> exists|u: int|
                    0 <= u < i + 1 && has_key(#[trigger] post_views[u], k, use_tags) by {
                if keys_contain(keys@, k) {
                    if keys_contain(prev, k) {
                        let u = choose|u: int|
                            0 <= u < i && has_key(#[trigger] post_views[u], k, use_tags);
                        assert(has_key(post_views[u], k, use_tags));
                    } else {
                        assert(has_key(post_views[i as int], k, use_tags));
                    }
                }
                if exists|u: int| 0 <= u < i + 1 && has_key(#[trigger] post_views[u], k, use_tags) {
                    let u = choose|u: int|
                        0 <= u < i + 1 && has_key(#[trigger] post_views[u], k, use_tags);
                    if u < i {
                        assert(keys_contain(prev, k));
                    }
                }
            }
        }
        i += 1;
    }
    // Phase 2: one group per key, holding the posts that carry it.
    let mut groups: Vec<(String, Vec<Post>)> = Vec::new();
    let mut g: usize = 0;
    while g < keys.len()
        invariant
            g <= keys.len(),
            post_views == posts@.map_values(|p: Post| p@),
            distinct_views(keys@),
            forall|k: Seq<char>|
                keys_contain(keys@, k) <==> exists|u: int|
                    0 <= u < post_views.len() && has_key(#[trigger] post_views[u], k, use_tags),
            groups@.len() == g,
            forall|t: int|
                0 <= t < g ==> {
                    &&& (#[trigger] groups@[t]).0@ == keys@[t]@
                    &&& groups@[t].1@.map_values(|p: Post| p@) == group_spec(
                        post_views,
                        keys@[t]@,
                        use_tags,
                    )
                },
        decreases keys.len() - g,
    {
        let key = keys[g].clone();
        let mut members: Vec<Post> = Vec::new();
        let mut i2: usize = 0;
        while i2 < posts.len()
            invariant
                i2 <= posts.len(),
                post_views == posts@.map_values(|p: Post| p@),
                key@ == keys@[g as int]@,
                members@.map_values(|p: Post| p@) == group_spec(
                    post_views.take(i2 as int),
                    key@,
                    use_tags,
                ),
            decreases posts.len() - i2,
        {
            let ghost before = members@;
            let on_axis = if use_tags {
                &posts[i2].meta.tags
            } else {
                &posts[i2].meta.categories
            };
            let mut carries = false;
            match on_axis {
                None => {},
                Some(list) => {
                    let mut t: usize = 0;
                    while t < list.len()
                        invariant
                            t <= list.len(),
                            carries <==> exists|u: int|
                                0 <= u < t && (#[trigger] list@[u])@ == key@,
                        decreases list.len() - t,
                    {
                        let hit = list[t] == key;
                        if hit {
                            carries = true;
                        }
                        proof {
                            if hit {
                                assert((list@[t as int])@ == key@);
                            } else {
                                assert((list@[t as int])@ != key@);
                            }
                        }
                        t += 1;
                    }
                    proof {
                        lemma_strings_contain(list@, key@);
                    }
                },
            }
            proof {
                assert(post_views[i2 as int] == posts@[i2 as int]@);
                assert(carries == has_key(post_views[i2 as int], key@, use_tags));
            }
            if carries {
                members.push(posts[i2].duplicate());
            }
            proof {
                assert(post_views.take(i2 as int + 1).drop_last() =~= post_views.take(i2 as int));
                assert(post_views.take(i2 as int + 1).last() == post_views[i2 as int]);
                if carries {
                    assert(members@.map_values(|p: Post| p@) =~= before.map_values(
                        |p: Post| p@,
                    ).push(post_views[i2 as int]));
                }
            }
            i2 += 1;
        }
        proof {
            assert(post_views.take(post_views.len() as int) =~= post_views);
        }
        groups.push((key, members));
        g += 1;
    }
    let r = TaxonomyIndex { groups };
    proof {
        assert(r@ =~= groups@.map_values(
            |gr: (String, Vec<Post>)| (gr.0@, gr.1@.map_values(|p: Post| p@)),
        ));
        let names = r@.map_values(|gr: (Seq<char>, Seq<PostView>)| gr.0);
        assert(forall|t: int| 0 <= t < r@.len() ==> (#[trigger] names[t]) == r@[t].0);
        assert(forall|t: int| 0 <= t < r@.len() ==> (#[trigger] r@[t]).0 == keys@[t]@);
        assert forall|a: int, b: int|
            0 <= a < names.len() && 0 <= b < names.len() && a != b implies names[a] != names[b] by {
            if a < b {
                assert(keys@[a]@ != keys@[b]@);
            } else {
                assert(keys@[b]@ != keys@[a]@);
            }
        }
        lemma_group_nonempty_iff_carried(post_views, use_tags);
        assert forall|k: Seq<char>| #![trigger lookup_spec(r@, k)]
            lookup_spec(r@, k) == if group_spec(post_views, k, use_tags).len() > 0 {
                Some(group_spec(post_views, k, use_tags))
            } else {
                None::<Seq<PostView>>
            } by {
            if keys_contain(keys@, k) {
                let u = choose|u: int| 0 <= u < keys@.len() && (#[trigger] keys@[u])@ == k;
                assert(r@[u].0 == k);
                lemma_lookup_finds(r@, k);
                let t = choose|t: int|
                    0 <= t < r@.len() && (#[trigger] r@[t]).0 == k && lookup_spec(r@, k) == Some(
                        r@[t].1,
                    );
                assert(r@[t].1 == group_spec(post_views, k, use_tags));
            } else {
                assert(forall|t: int| 0 <= t < r@.len() ==> (#[trigger] r@[t]).0 != k);
                lemma_lookup_misses(r@, k);
                assert(group_spec(post_views, k, use_tags).len() == 0);
            }
        }
    }
    r
}

/// A group is non-empty exactly when some post carries its key.
proof fn lemma_group_nonempty_iff_carried(posts: Seq<PostView>, use_tags: bool)
    ensures
        forall|k: Seq<char>|
            #![trigger group_spec(posts, k, use_tags)]
            group_spec(posts, k, use_tags).len() > 0 <==> exists|u: int|
                0 <= u < posts.len() && has_key(#[trigger] posts[u], k, use_tags),
{
    assert forall|k: Seq<char>| #![trigger group_spec(posts, k, use_tags)]
        group_spec(posts, k, use_tags).len() > 0 <==> exists|u: int|
            0 <= u < posts.len() && has_key(#[trigger] posts[u], k, use_tags) by {
        lemma_group_members(posts, k, use_tags);
        let g = group_spec(posts, k, use_tags);
        if g.len() > 0 {
            assert(g.contains(g[0]));
            let u = choose|u: int| 0 <= u < posts.len() && posts[u] == g[0];
            assert(has_key(posts[u], k, use_tags));
        }
        if exists|u: int| 0 <= u < posts.len() && has_key(#[trigger] posts[u], k, use_tags) {
            let u = choose|u: int| 0 <= u < posts.len() && has_key(#[trigger] posts[u], k, use_tags);
            lemma_group_collects(posts, k, use_tags, u);
            assert(g.contains(posts[u]));
        }
    }
}

/// If some group of `groups` is named `k` and group names are distinct,
/// the lookup returns that group.
proof fn lemma_lookup_finds(groups: Seq<(Seq<char>, Seq<PostView>)>, k: Seq<char>)
    requires
        groups.map_values(|g: (Seq<char>, Seq<PostView>)| g.0).no_duplicates(),
        exists|t: int| 0 <= t < groups.len() && (#[trigger] groups[t]).0 == k,
    ensures
        exists|t: int|
            0 <= t < groups.len() && (#[trigger] groups[t]).0 == k && lookup_spec(groups, k)
                == Some(groups[t].1),
    decreases groups.len(),
{
    if groups[0].0 == k {
        assert(lookup_spec(groups, k) == Some(groups[0].1));
    } else {
        let rest = groups.drop_first();
        assert(rest.map_values(|g: (Seq<char>, Seq<PostView>)| g.0) =~= groups.map_values(
            |g: (Seq<char>, Seq<PostView>)| g.0,
        ).drop_first());
        let t0 = choose|t: int| 0 <= t < groups.len() && (#[trigger] groups[t]).0 == k;
        assert(rest[t0 - 1] == groups[t0]);
        lemma_lookup_finds(rest, k);
        let t = choose|t: int|
            0 <= t < rest.len() && (#[trigger] rest[t]).0 == k && lookup_spec(rest, k) == Some(
                rest[t].1,
            );
        assert(groups[t + 1] == rest[t]);
    }
}

/// If no group of `groups` is named `k`, the lookup returns nothing.
proof fn lemma_lookup_misses(groups: Seq<(Seq<char>, Seq<PostView>)>, k: Seq<char>)
    requires
        forall|t: int| 0 <= t < groups.len() ==> (#[trigger] groups[t]).0 != k,
    ensures
        lookup_spec(groups, k) is None,
    decreases groups.len(),
{
    if groups.len() > 0 {
        let rest = groups.drop_first();
        assert(forall|t: int| 0 <= t < rest.len() ==> (#[trigger] rest[t]) == groups[t + 1]);
        lemma_lookup_misses(rest, k);
    }
}

/// Groups `posts` by tag: a name maps to a group exactly when some post
/// carries it as a tag, and the group holds exactly those posts, in
/// input order. A post with no tag list lands in no group.
pub fn group_by_tag(posts: &Vec<Post>) -> (r: TaxonomyIndex)
    ensures
        r.wf(),
        forall|k: Seq<char>| #![trigger lookup_spec(r@, k)]
            lookup_spec(r@, k) == if group_spec(posts@.map_values(|p: Post| p@), k, true).len()
                > 0 {
                Some(group_spec(posts@.map_values(|p: Post| p@), k, true))
            } else {
                None::<Seq<PostView>>
            },
{
    group_by_axis(posts, true)
}

/// Groups `posts` by category, as [`group_by_tag`] does for tags.
pub fn group_by_category(posts: &Vec<Post>) -> (r: TaxonomyIndex)
    ensures
        r.wf(),
        forall|k: Seq<char>| #![trigger lookup_spec(r@, k)]
            lookup_spec(r@, k) == if group_spec(posts@.map_values(|p: Post| p@), k, false).len()
                > 0 {
                Some(group_spec(posts@.map_values(|p: Post| p@), k, false))
            } else {
                None::<Seq<PostView>>
            },
{
    group_by_axis(posts, false)
}

/// Taxonomy membership law: a post of `posts` stands in the tag group
/// named `k` exactly when it carries `k` as a tag, and in the category
/// group named `k` exactly when it carries `k` as a category. In
/// particular a post with tags `a` and `b` appears in exactly the tag
/// groups `a` and `b`, and a post without tags appears in no tag group.
pub proof fn lemma_taxonomy_membership(posts: Seq<PostView>, p: PostView, k: Seq<char>)
    requires
        posts.contains(p),
    ensures
        group_spec(posts, k, true).contains(p) <==> has_tag(p, k),
        group_spec(posts, k, false).contains(p) <==> has_category(p, k),
{
    lemma_membership_axis(posts, p, k, true);
    lemma_membership_axis(posts, p, k, false);
}

/// A post of `posts` stands in the group named `k` exactly when it
/// carries `k` on that axis.
proof fn lemma_membership_axis(posts: Seq<PostView>, p: PostView, k: Seq<char>, use_tags: bool)
    requires
        posts.contains(p),
    ensures
        group_spec(posts, k, use_tags).contains(p) <==> has_key(p, k, use_tags),
{
    lemma_group_members(posts, k, use_tags);
    if has_key(p, k, use_tags) {
        let u = choose|u: int| 0 <= u < posts.len() && posts[u] == p;
        lemma_group_collects(posts, k, use_tags, u);
    }
}

/// Every member of a group carries the group's key.
proof fn lemma_group_members(posts: Seq<PostView>, k: Seq<char>, use_tags: bool)
    ensures
        forall|q: PostView|
            #[trigger] group_spec(posts, k, use_tags).contains(q) ==> has_key(q, k, use_tags)
                && posts.contains(q),
    decreases posts.len(),
{
    if posts.len() > 0 {
        lemma_group_members(posts.drop_last(), k, use_tags);
        assert forall|q: PostView| #[trigger]
            group_spec(posts, k, use_tags).contains(q) implies has_key(q, k, use_tags)
            && posts.contains(q) by {
            let g = group_spec(posts, k, use_tags);
            let prefix = group_spec(posts.drop_last(), k, use_tags);
            if prefix.contains(q) {
                let u = choose|u: int| 0 <= u < posts.drop_last().len() && posts.drop_last()[u] == q;
                assert(posts[u] == q);
            } else {
                assert(q == posts.last());
                assert(posts[posts.len() - 1] == q);
            }
        }
    }
}

/// A post that carries the key stands in the group.
proof fn lemma_group_collects(posts: Seq<PostView>, k: Seq<char>, use_tags: bool, u: int)
    requires
        0 <= u < posts.len(),
        has_key(posts[u], k, use_tags),
    ensures
        group_spec(posts, k, use_tags).contains(posts[u]),
    decreases posts.len(),
{
    if u == posts.len() - 1 {
        let g = group_spec(posts, k, use_tags);
        assert(g.last() == posts.last());
    } else {
        assert(posts.drop_last()[u] == posts[u]);
        lemma_group_collects(posts.drop_last(), k, use_tags, u);
        let prefix = group_spec(posts.drop_last(), k, use_tags);
        let w = choose|w: int| 0 <= w < prefix.len() && prefix[w] == posts[u];
        if has_key(posts.last(), k, use_tags) {
            assert(group_spec(posts, k, use_tags)[w] == posts[u]);
        }
    }
}

} // verus!
