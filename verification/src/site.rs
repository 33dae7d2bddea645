use vstd::prelude::*;

use crate::corpus::{lex_le, lemma_lex_le_total, lemma_lex_le_trans};
use crate::model::{pair_views, seq_contains_str, Error, Recipe, RecipePartial};
use crate::views::{
    HomeView, LinkListView, OembedJsonView, OembedView, RecipeView, SearchView, SiteMapView,
    SiteView,
};

verus! {

/// What the `url` crate makes of joining a relative reference onto a base:
/// a function of the two texts alone.
pub uninterp spec fn url_joined(base: Seq<char>, rel: Seq<char>) -> Seq<char>;

/// Whether the `url` crate accepts joining a relative reference onto a
/// base: also a function of the two texts alone.
pub uninterp spec fn url_join_ok(base: Seq<char>, rel: Seq<char>) -> bool;

/// Relies on url::Url::parse followed by url::Url::join: whether the pair
/// is accepted, and what the joined URL reads as, both depend on the two
/// texts alone.
#[verifier::external_body]
fn url_join(base: &str, rel: &str) -> (r: Option<String>)
    ensures
        r is Some <==> url_join_ok(base@, rel@),
        r matches Some(s) ==> s@ == url_joined(base@, rel@),
{
    match url::Url::parse(base).and_then(|u| u.join(rel)) {
        Ok(u) => Some(u.to_string()),
        Err(_) => None,
    }
}

/// What `char::to_uppercase` maps one character to: a function of the
/// character alone.
pub uninterp spec fn upper_of(c: char) -> Seq<char>;

/// Relies on char::to_uppercase: the uppercase mapping depends on the
/// character alone.
#[verifier::external_body]
fn char_upper(c: char) -> (r: String)
    ensures
        r@ == upper_of(c),
{
    c.to_uppercase().collect()
}

/// A text with its first character uppercased.
pub open spec fn title_view(s: Seq<char>) -> Seq<char> {
    if s.len() == 0 {
        Seq::<char>::empty()
    } else {
        upper_of(s[0]) + s.skip(1)
    }
}

/// Title-cases a text: uppercases the first character, keeps the rest.
pub fn title(s: &str) -> (r: String)
    ensures
        r@ == title_view(s@),
{
    let n = s.unicode_len();
    if n == 0 {
        return String::new();
    }
    let first = s.get_char(0);
    let mut out = char_upper(first);
    let rest = s.substring_char(1, n);
    out.append(rest);
    proof {
        assert(rest@ =~= s@.skip(1));
        assert(out@ =~= title_view(s@));
    }
    out
}

/// What one output page holds: the view handed to the renderer, or the data
/// of a machine-readable document.
pub enum PageContent {
    /// A recipe page.
    RecipePage(RecipeView),
    /// The machine-readable per-recipe document: the raw recipe, all
    /// locales.
    RecipeDocument(Recipe),
    /// The embeddable recipe page.
    OembedPage(OembedView),
    /// The fixed-shape embed descriptor.
    OembedDocument(OembedJsonView),
    /// A titled link list (locale index, category or cuisine tree).
    LinkList(LinkListView),
    /// A per-locale search index.
    SearchIndex(Vec<SearchView>),
    /// The home page.
    Home(HomeView),
    /// The about page.
    About(HomeView),
    /// The sitemap.
    Sitemap(SiteMapView),
}

/// One file the build will write: its path segments below the output
/// directory, and what it holds.
pub struct PlannedPage {
    pub path: Vec<String>,
    pub content: PageContent,
}

/// One recipe image to copy into the output tree.
pub struct ImageCopy {
    pub source_name: String,
    pub dest_path: Vec<String>,
}

/// Everything one build writes: pages, image copies, every link that was
/// produced (for the sitemap), and the identifiers of recipes that were
/// skipped as duplicates, for the caller to surface as warnings.
pub struct BuildPlan {
    pub pages: Vec<PlannedPage>,
    pub image_copies: Vec<ImageCopy>,
    pub links: Vec<String>,
    pub skipped_ids: Vec<String>,
}

/// No two links read the same.
pub open spec fn links_unique(s: Seq<String>) -> bool {
    forall|i: int, j: int| 0 <= i < j < s.len() ==> s[i]@ != s[j]@
}

/// Adds a link unless it is already present: the link list behaves as a set.
pub fn links_insert(links: &mut Vec<String>, link: String)
    ensures
        seq_contains_str(old(links)@, link@) ==> final(links)@ == old(links)@,
        !seq_contains_str(old(links)@, link@) ==> final(links)@ == old(links)@.push(link),
        forall|x: Seq<char>|
            #[trigger] seq_contains_str(final(links)@, x) <==> (seq_contains_str(old(links)@, x)
                || x == link@),
        links_unique(old(links)@) ==> links_unique(final(links)@),
{
    let ghost links0 = links@;
    if !crate::model::contains_string(links, &link) {
        links.push(link);
        proof {
            assert forall|x: Seq<char>| #[trigger] seq_contains_str(links@, x) <==> (
            seq_contains_str(links0, x) || x == link@) by {
                if seq_contains_str(links0, x) {
                    let i = choose|i: int| 0 <= i < links0.len() && links0[i]@ == x;
                    assert(links@[i]@ == x);
                }
                if seq_contains_str(links@, x) {
                    let i = choose|i: int| 0 <= i < links@.len() && links@[i]@ == x;
                    if i < links0.len() {
                        assert(links0[i]@ == x);
                    }
                }
                if x == link@ {
                    assert(links@[links0.len() as int]@ == x);
                }
            }
        }
    } else {
        proof {
            assert forall|x: Seq<char>| #[trigger] seq_contains_str(links@, x) <==> (
            seq_contains_str(links0, x) || x == link@) by {}
        }
    }
}

/// The index of the first group keyed `key`; `groups.len()` when none is.
pub open spec fn group_index(groups: Seq<(String, Vec<(String, String)>)>, key: Seq<char>) -> int
    decreases groups.len(),
{
    if groups.len() == 0 {
        0
    } else if groups[0].0@ == key {
        0
    } else {
        1 + group_index(groups.drop_first(), key)
    }
}

pub proof fn lemma_group_index(groups: Seq<(String, Vec<(String, String)>)>, key: Seq<char>)
    ensures
        0 <= group_index(groups, key) <= groups.len(),
        group_index(groups, key) < groups.len() ==> groups[group_index(groups, key)].0@ == key,
        forall|j: int| 0 <= j < group_index(groups, key) ==> groups[j].0@ != key,
        forall|j: int|
            0 <= j < groups.len() && groups[j].0@ == key ==> group_index(groups, key) <= j,
    decreases groups.len(),
{
    if groups.len() > 0 && groups[0].0@ != key {
        lemma_group_index(groups.drop_first(), key);
        assert forall|j: int| 0 <= j < groups.len() && groups[j].0@ == key implies group_index(
            groups,
            key,
        ) <= j by {
            assert(groups.drop_first()[j - 1] == groups[j]);
        }
        assert forall|j: int| 0 <= j < group_index(groups, key) implies groups[j].0@ != key by {
            if j > 0 {
                assert(groups.drop_first()[j - 1] == groups[j]);
            }
        }
    }
}

/// Some group is keyed `key`.
pub open spec fn group_has(groups: Seq<(String, Vec<(String, String)>)>, key: Seq<char>) -> bool {
    group_index(groups, key) < groups.len()
}

/// The entries of the group keyed `key`, as texts.
pub open spec fn group_entries(groups: Seq<(String, Vec<(String, String)>)>, key: Seq<char>) -> Seq<
    (Seq<char>, Seq<char>),
> {
    pair_views(groups[group_index(groups, key)].1@)
}

/// Group keys are strictly ascending.
pub open spec fn sorted_unique_keys(groups: Seq<(String, Vec<(String, String)>)>) -> bool {
    forall|i: int, j: int|
        0 <= i < j < groups.len() ==> lex_le(groups[i].0@, groups[j].0@) && groups[i].0@
            != groups[j].0@
}

/// Files `entry` under `key`: appended to the existing group when one is
/// keyed `key`, else in a fresh group placed so that keys stay sorted. No
/// other group changes.
pub fn group_insert(
    groups: &mut Vec<(String, Vec<(String, String)>)>,
    key: &String,
    entry: (String, String),
)
    requires
        sorted_unique_keys(old(groups)@),
    ensures
        sorted_unique_keys(final(groups)@),
        forall|x: Seq<char>|
            #[trigger] group_has(final(groups)@, x) <==> (group_has(old(groups)@, x) || x
                == key@),
        group_entries(final(groups)@, key@) == (if group_has(old(groups)@, key@) {
            group_entries(old(groups)@, key@)
        } else {
            Seq::<(Seq<char>, Seq<char>)>::empty()
        }).push((entry.0@, entry.1@)),
        forall|x: Seq<char>|
            group_has(old(groups)@, x) && x != key@ ==> #[trigger] group_entries(
                final(groups)@,
                x,
            ) == group_entries(old(groups)@, x),
        final(groups)@.len() == old(groups)@.len() + (if group_has(old(groups)@, key@) {
            0int
        } else {
            1int
        }),
{
    proof {
        lemma_group_index(old(groups)@, key@);
    }
    let ghost groups0 = groups@;
    let mut i: usize = 0;
    let n = groups.len();
    while i < n
        invariant
            groups@ == groups0,
            n == groups0.len(),
            0 <= i <= n,
            sorted_unique_keys(groups0),
            groups0 == old(groups)@,
            forall|j: int| 0 <= j < i ==> groups0[j].0@ != key@,
        decreases n - i,
    {
        if groups[i].0 == *key {
            proof {
                lemma_group_index(groups0, key@);
                assert(group_index(groups0, key@) == i);
            }
            let mut grp = groups.remove(i);
            grp.1.push(entry);
            groups.insert(i, grp);
            proof {
                assert(groups@ =~= groups0.update(
                    i as int,
                    (groups0[i as int].0, groups@[i as int].1),
                ));
                lemma_group_swap_facts(groups0, groups@, i as int, key@);
                assert(pair_views(groups@[i as int].1@) =~= pair_views(
                    groups0[i as int].1@,
                ).push((entry.0@, entry.1@)));
            }
            return ;
        }
        i += 1;
    }
    let p = key_insert_pos(groups, key);
    let mut fresh: Vec<(String, String)> = Vec::new();
    fresh.push(entry);
    groups.insert(p, (key.clone(), fresh));
    proof {
        assert(!group_has(groups0, key@));
        lemma_group_insert_fresh(groups0, groups@, p as int, key@);
        assert(pair_views(groups@[p as int].1@) =~= Seq::<(Seq<char>, Seq<char>)>::empty().push(
            (entry.0@, entry.1@),
        ));
    }
}

/// The position where a fresh group keyed `key` keeps the keys sorted.
fn key_insert_pos(groups: &Vec<(String, Vec<(String, String)>)>, key: &String) -> (p: usize)
    ensures
        0 <= p <= groups@.len(),
        forall|k: int| 0 <= k < p ==> lex_le(groups@[k].0@, key@),
        p < groups@.len() ==> !lex_le(groups@[p as int].0@, key@),
{
    let mut p: usize = 0;
    while p < groups.len()
        invariant
            0 <= p <= groups@.len(),
            forall|k: int| 0 <= k < p ==> lex_le(groups@[k].0@, key@),
        decreases groups@.len() - p,
    {
        if !crate::corpus::str_le(&groups[p].0, key) {
            return p;
        }
        p += 1;
    }
    p
}

/// After replacing the group at the key's index with one that has the same
/// key, every lookup behaves as before except that group's entries.
proof fn lemma_group_swap_facts(
    g0: Seq<(String, Vec<(String, String)>)>,
    g1: Seq<(String, Vec<(String, String)>)>,
    i: int,
    key: Seq<char>,
)
    requires
        0 <= i < g0.len(),
        g1.len() == g0.len(),
        g0[i].0@ == key,
        g1[i].0@ == key,
        forall|j: int| 0 <= j < g0.len() && j != i ==> g1[j] == g0[j],
        group_index(g0, key) == i,
        sorted_unique_keys(g0),
    ensures
        sorted_unique_keys(g1),
        forall|x: Seq<char>| #[trigger] group_has(g1, x) <==> (group_has(g0, x) || x == key),
        group_index(g1, key) == i,
        forall|x: Seq<char>|
            group_has(g0, x) && x != key ==> #[trigger] group_entries(g1, x) == group_entries(
                g0,
                x,
            ),
{
    assert forall|j: int| 0 <= j < g1.len() implies g1[j].0@ == g0[j].0@ by {}
    assert forall|x: Seq<char>| #[trigger] group_has(g1, x) <==> (group_has(g0, x) || x
        == key) by {
        lemma_group_index(g0, x);
        lemma_group_index(g1, x);
        if group_has(g0, x) {
            let j = group_index(g0, x);
            assert(g1[j].0@ == x);
        }
        if group_has(g1, x) {
            let j = group_index(g1, x);
            assert(g0[j].0@ == x);
        }
        if x == key {
            assert(g1[i].0@ == x);
        }
    }
    lemma_group_index(g1, key);
    assert(g1[i].0@ == key);
    assert forall|j: int| 0 <= j < i implies g1[j].0@ != key by {
        lemma_group_index(g0, key);
    }
    assert(group_index(g1, key) == i);
    assert forall|x: Seq<char>|
        group_has(g0, x) && x != key implies #[trigger] group_entries(g1, x) == group_entries(
        g0,
        x,
    ) by {
        lemma_group_index(g0, x);
        lemma_group_index(g1, x);
        let j = group_index(g0, x);
        assert(g1[j].0@ == x);
        assert(group_index(g1, x) <= j);
        let j1 = group_index(g1, x);
        assert(g0[j1].0@ == x);
        assert(group_index(g0, x) <= j1);
        assert(j1 == j);
        assert(j != i);
        assert(g1[j] == g0[j]);
    }
}

/// After inserting a fresh group at a position that keeps keys sorted, every
/// lookup behaves as before except the fresh key.
proof fn lemma_group_insert_fresh(
    g0: Seq<(String, Vec<(String, String)>)>,
    g1: Seq<(String, Vec<(String, String)>)>,
    p: int,
    key: Seq<char>,
)
    requires
        sorted_unique_keys(g0),
        !group_has(g0, key),
        0 <= p <= g0.len(),
        g1.len() == g0.len() + 1,
        g1[p].0@ == key,
        forall|k: int| 0 <= k < p ==> g1[k] == g0[k],
        forall|k: int| p < k < g1.len() ==> g1[k] == g0[k - 1],
        forall|k: int| 0 <= k < p ==> lex_le(g0[k].0@, key),
        p < g0.len() ==> !lex_le(g0[p].0@, key),
    ensures
        sorted_unique_keys(g1),
        forall|x: Seq<char>| #[trigger] group_has(g1, x) <==> (group_has(g0, x) || x == key),
        group_index(g1, key) == p,
        forall|x: Seq<char>|
            group_has(g0, x) && x != key ==> #[trigger] group_entries(g1, x) == group_entries(
                g0,
                x,
            ),
{
    assert forall|i: int, j: int| 0 <= i < j < g1.len() implies lex_le(g1[i].0@, g1[j].0@)
        && g1[i].0@ != g1[j].0@ by {
        if i < p && j < p {
        } else if i < p && j == p {
            assert(lex_le(g0[i].0@, key));
            if g0[i].0@ == key {
                assert(group_has(g0, key)) by {
                    lemma_group_index(g0, key);
                }
            }
        } else if i < p && j > p {
            assert(g1[j] == g0[j - 1]);
        } else if i == p && j > p {
            assert(g1[j] == g0[j - 1]);
            assert(j - 1 >= p);
            if p < g0.len() {
                lemma_lex_le_total(g0[p].0@, key);
                assert(lex_le(key, g0[p].0@));
                if j - 1 > p {
                    lemma_lex_le_trans(key, g0[p].0@, g0[j - 1].0@);
                } else {
                }
                if g0[j - 1].0@ == key {
                    assert(group_has(g0, key)) by {
                        lemma_group_index(g0, key);
                    }
                }
            }
        } else {
            assert(g1[i] == g0[i - 1]);
            assert(g1[j] == g0[j - 1]);
        }
    }
    assert forall|x: Seq<char>| #[trigger] group_has(g1, x) <==> (group_has(g0, x) || x
        == key) by {
        lemma_group_index(g0, x);
        lemma_group_index(g1, x);
        if group_has(g0, x) {
            let j = group_index(g0, x);
            if j < p {
                assert(g1[j].0@ == x);
            } else {
                assert(g1[j + 1] == g0[j]);
                assert(g1[j + 1].0@ == x);
            }
        }
        if group_has(g1, x) {
            let j = group_index(g1, x);
            if j < p {
                assert(g0[j].0@ == x);
            } else if j == p {
            } else {
                assert(g1[j] == g0[j - 1]);
                assert(g0[j - 1].0@ == x);
            }
        }
        if x == key {
            assert(g1[p].0@ == x);
        }
    }
    lemma_group_index(g1, key);
    assert forall|j: int| 0 <= j < p implies g1[j].0@ != key by {
        if g0[j].0@ == key {
            lemma_group_index(g0, key);
        }
    }
    assert(g1[p].0@ == key);
    assert(group_index(g1, key) == p);
    assert forall|x: Seq<char>|
        group_has(g0, x) && x != key implies #[trigger] group_entries(g1, x) == group_entries(
        g0,
        x,
    ) by {
        lemma_group_index(g0, x);
        lemma_group_index(g1, x);
        let j = group_index(g0, x);
        let j1 = group_index(g1, x);
        assert(g0[j].0@ == x);
        if j < p {
            assert(g1[j].0@ == x);
            assert(j1 <= j);
            assert(g1[j1].0@ == x);
            assert(j1 < p || j1 == p || j1 > p);
            if j1 == p {
            } else if j1 > p {
                assert(g0[j1 - 1].0@ == x);
                assert(j <= j1 - 1);
                assert(j1 - 1 < j);
            } else {
                assert(g0[j1].0@ == x);
                assert(j <= j1);
                assert(j1 == j);
                assert(g1[j1] == g0[j]);
            }
        } else {
            assert(g1[j + 1] == g0[j]);
            assert(g1[j + 1].0@ == x);
            assert(j1 <= j + 1);
            assert(g1[j1].0@ == x);
            if j1 < p {
                assert(g0[j1].0@ == x);
                assert(j <= j1);
            } else if j1 == p {
            } else {
                assert(g0[j1 - 1].0@ == x);
                assert(j <= j1 - 1);
                assert(j1 - 1 == j);
                assert(g1[j1] == g0[j]);
            }
        }
    }
}

/// The social-media metadata pairs of one recipe page: the fixed card
/// entries, the page's own URL and title, cuisine and category, then the
/// description when present and the image entries when an image URL is
/// given.
pub open spec fn meta_views(
    name: Seq<char>,
    locale: Seq<char>,
    cuisine: Seq<char>,
    category: Seq<char>,
    self_url: Seq<char>,
    desc: Option<Seq<char>>,
    thumb: Option<Seq<char>>,
) -> Seq<(Seq<char>, Seq<char>)> {
    (seq![
        ("twitter:card"@, "summary"@),
        ("twitter:site"@, "@justrecipesblog"@),
        ("og:url"@, self_url),
        ("twitter:url"@, self_url),
        ("og:title"@, name),
        ("og:locale"@, locale),
        ("og:site_name"@, "Just Recipes Blog"@),
        ("twitter:label1"@, "Cuisine"@),
        ("twitter:data1"@, cuisine),
        ("twitter:label2"@, "Category"@),
        ("twitter:data2"@, category),
    ]) + (match desc {
        Some(d) => seq![("og:description"@, d)],
        None => Seq::<(Seq<char>, Seq<char>)>::empty(),
    }) + (match thumb {
        Some(t) => seq![
            ("og:image"@, t),
            ("og:image:type"@, "image/jpeg"@),
            ("og:image:width"@, "200"@),
            ("og:image:height "@, "200"@),
        ],
        None => Seq::<(Seq<char>, Seq<char>)>::empty(),
    })
}

/// Builds the metadata pairs of one recipe page, exactly as `meta_views`
/// describes.
fn build_meta(
    name: &String,
    locale: &String,
    cuisine: &String,
    category: &String,
    self_url: &String,
    desc: &Option<String>,
    thumb: &Option<String>,
) -> (r: Vec<(String, String)>)
    ensures
        pair_views(r@) == meta_views(
            name@,
            locale@,
            cuisine@,
            category@,
            self_url@,
            crate::model::opt_text_view(*desc),
            crate::model::opt_text_view(*thumb),
        ),
{
    let mut m: Vec<(String, String)> = Vec::new();
    m.push((String::from_str("twitter:card"), String::from_str("summary")));
    m.push((String::from_str("twitter:site"), String::from_str("@justrecipesblog")));
    m.push((String::from_str("og:url"), self_url.clone()));
    m.push((String::from_str("twitter:url"), self_url.clone()));
    m.push((String::from_str("og:title"), name.clone()));
    m.push((String::from_str("og:locale"), locale.clone()));
    m.push((String::from_str("og:site_name"), String::from_str("Just Recipes Blog")));
    m.push((String::from_str("twitter:label1"), String::from_str("Cuisine")));
    m.push((String::from_str("twitter:data1"), cuisine.clone()));
    m.push((String::from_str("twitter:label2"), String::from_str("Category")));
    m.push((String::from_str("twitter:data2"), category.clone()));
    match desc {
        Some(d) => {
            m.push((String::from_str("og:description"), d.clone()));
        },
        None => {},
    }
    match thumb {
        Some(t) => {
            m.push((String::from_str("og:image"), t.clone()));
            m.push((String::from_str("og:image:type"), String::from_str("image/jpeg")));
            m.push((String::from_str("og:image:width"), String::from_str("200")));
            m.push((String::from_str("og:image:height "), String::from_str("200")));
        },
        None => {},
    }
    proof {
        assert(pair_views(m@) =~= meta_views(
            name@,
            locale@,
            cuisine@,
            category@,
            self_url@,
            crate::model::opt_text_view(*desc),
            crate::model::opt_text_view(*thumb),
        ));
    }
    m
}

/// A copy of `s` with `"/"` appended.
fn with_slash(s: &str) -> (r: String)
    ensures
        r@ == s@ + "/"@,
{
    String::from_str(s).concat("/")
}

/// A three-segment output path.
fn path3(a: &String, b: &String, c: &str) -> (r: Vec<String>)
    ensures
        r@.len() == 3,
        r@[0]@ == a@,
        r@[1]@ == b@,
        r@[2]@ == c@,
{
    let mut p: Vec<String> = Vec::new();
    p.push(a.clone());
    p.push(b.clone());
    p.push(String::from_str(c));
    p
}

/// The iframe markup of the embed descriptor, pointing at the embeddable
/// page.
pub open spec fn oembed_iframe(oembed_page_url: Seq<char>) -> Seq<char> {
    "<iframe width=\"100%\" height=\"270\" scrolling=\"no\" frameborder=\"no\" src=\""@
        + oembed_page_url + "\"></iframe>"@
}

/// The four output files of one recipe in one locale, with their exact
/// contents: the recipe page (with its flattened steps and metadata), the
/// machine-readable recipe document, the embeddable page, and the
/// fixed-shape embed descriptor.
#[verifier::rlimit(40)]
fn assemble_recipe_pages(
    partial: RecipePartial,
    recipe: &Recipe,
    site_locale: &String,
    site: &SiteView,
    slug_root: &String,
    self_url: &String,
    oembed_url: &String,
    oembed_page_url: &String,
    thumb_url: &Option<String>,
) -> (r: Vec<PlannedPage>)
    ensures
        r@.len() == 4,
        ({
            &&& r@[0].path@.len() == 3 && r@[0].path@[0]@ == site_locale@ && r@[0].path@[1]@
                == slug_root@ && r@[0].path@[2]@ == "index.html"@
            &&& r@[0].content matches PageContent::RecipePage(v) && {
                &&& v.locale@ == site_locale@
                &&& v.title@ == "Just Recipes - "@ + partial.name@
                &&& v.recipe == partial
                &&& v.site == *site
                &&& crate::model::str_views(v.flat_steps@) == crate::model::str_views(
                    crate::model::flat_steps_of(partial.stages@),
                )
                &&& v.self_url@ == self_url@
                &&& v.oembed_url@ == oembed_url@
                &&& pair_views(v.meta@) == meta_views(
                    partial.name@,
                    site_locale@,
                    partial.cuisine@,
                    partial.category@,
                    self_url@,
                    crate::model::opt_text_view(partial.description),
                    crate::model::opt_text_view(*thumb_url),
                )
            }
        }),
        ({
            &&& r@[1].path@.len() == 3 && r@[1].path@[0]@ == site_locale@ && r@[1].path@[1]@
                == slug_root@ && r@[1].path@[2]@ == "index.json"@
            &&& r@[1].content matches PageContent::RecipeDocument(d) && crate::model::recipe_like(
                d,
                *recipe,
            )
        }),
        ({
            &&& r@[2].path@.len() == 3 && r@[2].path@[0]@ == site_locale@ && r@[2].path@[1]@
                == slug_root@ && r@[2].path@[2]@ == "oembed.html"@
            &&& r@[2].content matches PageContent::OembedPage(w) && {
                &&& w.locale@ == site_locale@
                &&& w.title@ == partial.name@
                &&& crate::model::partial_like(w.recipe, partial)
                &&& w.site == *site
                &&& w.recipe_url@ == self_url@
                &&& crate::model::opt_text_view(w.image_url) == crate::model::opt_text_view(
                    *thumb_url,
                )
            }
        }),
        ({
            &&& r@[3].path@.len() == 3 && r@[3].path@[0]@ == site_locale@ && r@[3].path@[1]@
                == slug_root@ && r@[3].path@[2]@ == "oembed.json"@
            &&& r@[3].content matches PageContent::OembedDocument(o) && {
                &&& o.response_type@ == "rich"@
                &&& o.version@ == "1.0"@
                &&& crate::model::opt_text_view(o.title) == Some("A recipe"@)
                &&& crate::model::opt_text_view(o.author_name) == Some("Anonymous"@)
                &&& crate::model::opt_text_view(o.author_url) == Some("https://justrecipes.blog/"@)
                &&& crate::model::opt_text_view(o.provider_name) == Some("Just Recipes Blog"@)
                &&& crate::model::opt_text_view(o.provider_url) == Some("https://justrecipes.blog/"@)
                &&& crate::model::opt_text_view(o.cache_age) == Some("3153600000"@)
                &&& crate::model::opt_text_view(o.thumbnail_url) == Some("3153600000"@)
                &&& o.thumbnail_width == Some(200i32)
                &&& o.thumbnail_height == Some(200i32)
                &&& o.html@ == oembed_iframe(oembed_page_url@)
                &&& o.width == Some(550i32)
                &&& o.height == Some(270i32)
            }
        }),
{
    let flat = partial.flat_steps();
    let meta = build_meta(
        &partial.name,
        site_locale,
        &partial.cuisine,
        &partial.category,
        self_url,
        &partial.description,
        thumb_url,
    );
    let title_text = String::from_str("Just Recipes - ").concat(partial.name.as_str());
    let oembed_title = partial.name.clone();
    let oembed_partial = partial.duplicate();

    let mut pages: Vec<PlannedPage> = Vec::new();
    pages.push(
        PlannedPage {
            path: path3(site_locale, slug_root, "index.html"),
            content: PageContent::RecipePage(
                RecipeView {
                    locale: site_locale.clone(),
                    title: title_text,
                    recipe: partial,
                    site: site.duplicate(),
                    flat_steps: flat,
                    self_url: self_url.clone(),
                    oembed_url: oembed_url.clone(),
                    meta,
                },
            ),
        },
    );
    pages.push(
        PlannedPage {
            path: path3(site_locale, slug_root, "index.json"),
            content: PageContent::RecipeDocument(recipe.duplicate()),
        },
    );
    pages.push(
        PlannedPage {
            path: path3(site_locale, slug_root, "oembed.html"),
            content: PageContent::OembedPage(
                OembedView {
                    locale: site_locale.clone(),
                    title: oembed_title,
                    recipe: oembed_partial,
                    site: site.duplicate(),
                    recipe_url: self_url.clone(),
                    image_url: crate::model::clone_opt_string(thumb_url),
                },
            ),
        },
    );
    let iframe_html = String::from_str(
        "<iframe width=\"100%\" height=\"270\" scrolling=\"no\" frameborder=\"no\" src=\"",
    ).concat(oembed_page_url.as_str()).concat("\"></iframe>");
    pages.push(
        PlannedPage {
            path: path3(site_locale, slug_root, "oembed.json"),
            content: PageContent::OembedDocument(
                OembedJsonView {
                    response_type: String::from_str("rich"),
                    version: String::from_str("1.0"),
                    title: Some(String::from_str("A recipe")),
                    author_name: Some(String::from_str("Anonymous")),
                    author_url: Some(String::from_str("https://justrecipes.blog/")),
                    provider_name: Some(String::from_str("Just Recipes Blog")),
                    provider_url: Some(String::from_str("https://justrecipes.blog/")),
                    cache_age: Some(String::from_str("3153600000")),
                    thumbnail_url: Some(String::from_str("3153600000")),
                    thumbnail_width: Some(200),
                    thumbnail_height: Some(200),
                    html: iframe_html,
                    width: Some(550),
                    height: Some(270),
                },
            ),
        },
    );
    pages
}

/// What planning one recipe in one locale contributes: its four output
/// files, its image copies, its link (URL and display name), its search
/// entry, and its category and cuisine labels for grouping.
pub struct RecipeLocaleOut {
    pub pages: Vec<PlannedPage>,
    pub image_copies: Vec<ImageCopy>,
    pub link: (String, String),
    pub search: SearchView,
    pub category: String,
    pub cuisine: String,
}

/// Every URL join one recipe's pages need for one locale is accepted.
pub open spec fn recipe_joins_ok(
    r: Recipe,
    locale: Seq<char>,
    public: Seq<char>,
    has_images: bool,
) -> bool {
    let locale_url = url_joined(public, locale + "/"@);
    let self_url = url_joined(locale_url, r.slug.resolved(Some(locale)) + "/"@);
    &&& url_join_ok(public, locale + "/"@)
    &&& url_join_ok(locale_url, r.slug.resolved(Some(locale)) + "/"@)
    &&& url_join_ok(self_url, "oembed.json"@)
    &&& url_join_ok(self_url, "oembed.html"@)
    &&& (has_images ==> url_join_ok(self_url, r.id@ + "_thumbnail.jpg"@))
}

/// Plans one recipe's outputs for one site locale it is published in:
/// resolves the slug, projects the recipe, joins the page URLs onto the
/// site's base URL, and lays out the four files, the image copies and the
/// search and grouping entries. Succeeds exactly when the projection
/// succeeds and every join is accepted; fails with `MissingLocale` exactly
/// when the projection fails, and with `ParseError` exactly when it
/// succeeds but the URL crate refuses a join.
#[verifier::rlimit(100)]
#[verifier::spinoff_prover]
fn plan_recipe_for_locale(
    recipe: &Recipe,
    has_images: bool,
    site_locale: &String,
    site_locales: &Vec<String>,
    site: &SiteView,
) -> (r: Result<RecipeLocaleOut, Error>)
    requires
        recipe.cook_total() + recipe.prep_total() <= u64::MAX,
    ensures
        r is Ok <==> (recipe.projectable(Some(site_locale@), site_locales@) && recipe_joins_ok(
            *recipe,
            site_locale@,
            site.public_url@,
            has_images,
        )),
        !recipe.projectable(Some(site_locale@), site_locales@) ==> (r matches Err(e) && e
            is MissingLocale),
        (recipe.projectable(Some(site_locale@), site_locales@) && !recipe_joins_ok(
            *recipe,
            site_locale@,
            site.public_url@,
            has_images,
        )) ==> (r matches Err(e) && e is ParseError),
        r matches Ok(out) ==> ({
            let lv = Some(site_locale@);
            let slug_root = recipe.slug.resolved(lv);
            let locale_url = url_joined(site.public_url@, site_locale@ + "/"@);
            let self_url = url_joined(locale_url, slug_root + "/"@);
            &&& recipe.projectable(lv, site_locales@)
            &&& out.pages@.len() == 4
            &&& (forall|p: int|
                0 <= p < out.pages@.len() ==> (#[trigger] out.pages@[p]).path@.len() == 3
                    && out.pages@[p].path@[0]@ == site_locale@ && out.pages@[p].path@[1]@
                    == slug_root)
            &&& out.pages@[0].path@[2]@ == "index.html"@
            &&& out.pages@[1].path@[2]@ == "index.json"@
            &&& out.pages@[2].path@[2]@ == "oembed.html"@
            &&& out.pages@[3].path@[2]@ == "oembed.json"@
            &&& out.pages@[0].content matches PageContent::RecipePage(v) && {
                &&& crate::model::is_recipe_projection(v.recipe, *recipe, lv, site_locales@)
                &&& v.locale@ == site_locale@
                &&& v.self_url@ == self_url
                &&& v.oembed_url@ == url_joined(self_url, "oembed.json"@)
                &&& v.site == *site
                &&& pair_views(v.recipe.images@) == (if has_images {
                    seq![
                        (recipe.id@ + "_thumbnail.jpg"@, recipe.id@ + ".jpg"@),
                    ]
                } else {
                    Seq::<(Seq<char>, Seq<char>)>::empty()
                })
            }
            &&& out.pages@[1].content matches PageContent::RecipeDocument(d)
                && crate::model::recipe_like(d, *recipe)
            &&& out.pages@[2].content matches PageContent::OembedPage(w) && {
                &&& w.locale@ == site_locale@
                &&& w.title@ == recipe.name.resolved(lv)
                &&& w.recipe_url@ == self_url
                &&& crate::model::opt_text_view(w.image_url) == (if has_images {
                    Some(url_joined(self_url, recipe.id@ + "_thumbnail.jpg"@))
                } else {
                    None
                })
            }
            &&& out.pages@[3].content matches PageContent::OembedDocument(o) && o.html@
                == oembed_iframe(url_joined(self_url, "oembed.html"@))
            &&& out.link.0@ == self_url
            &&& out.link.1@ == recipe.name.resolved(lv)
            &&& out.search.name@ == recipe.name.resolved(lv)
            &&& out.search.link@ == site.public_url@ + site_locale@ + "/"@ + slug_root + "/"@
            &&& out.category@ == recipe.category.resolved(lv)
            &&& out.cuisine@ == recipe.cuisine.resolved(lv)
            &&& (has_images ==> out.image_copies@.len() == 2 && {
                &&& out.image_copies@[0].source_name@ == recipe.id@ + ".jpg"@
                &&& crate::model::str_views(out.image_copies@[0].dest_path@) == seq![
                    site_locale@,
                    slug_root,
                    recipe.id@ + ".jpg"@,
                ]
                &&& out.image_copies@[1].source_name@ == recipe.id@ + "_thumbnail.jpg"@
                &&& crate::model::str_views(out.image_copies@[1].dest_path@) == seq![
                    site_locale@,
                    slug_root,
                    recipe.id@ + "_thumbnail.jpg"@,
                ]
            })
            &&& (!has_images ==> out.image_copies@.len() == 0)
        }),
        r matches Err(e) ==> (e is MissingLocale || e is ParseError),
        (r matches Err(e) && e is MissingLocale) ==> !recipe.projectable(
            Some(site_locale@),
            site_locales@,
        ),
{
    let slug_root = match recipe.slug.localized(Some(site_locale.clone())) {
        Ok(s) => s,
        Err(e) => {
            return Err(e);
        },
    };

    let image_name = recipe.id.clone().concat(".jpg");
    let thumb_name = recipe.id.clone().concat("_thumbnail.jpg");
    let mut images: Vec<(String, String)> = Vec::new();
    let mut image_copies: Vec<ImageCopy> = Vec::new();
    if has_images {
        images.push((thumb_name.clone(), image_name.clone()));
        image_copies.push(
            ImageCopy {
                source_name: image_name.clone(),
                dest_path: path3(site_locale, &slug_root, image_name.as_str()),
            },
        );
        image_copies.push(
            ImageCopy {
                source_name: thumb_name.clone(),
                dest_path: path3(site_locale, &slug_root, thumb_name.as_str()),
            },
        );
    }

    let partial = match recipe.to_partial(Some(site_locale.clone()), site_locales, images) {
        Ok(p) => p,
        Err(e) => {
            return Err(e);
        },
    };

    let locale_url = match url_join(site.public_url.as_str(), with_slash(site_locale).as_str()) {
        Some(u) => u,
        None => {
            return Err(Error::ParseError(site.public_url.clone()));
        },
    };
    let self_url = match url_join(locale_url.as_str(), with_slash(slug_root.as_str()).as_str()) {
        Some(u) => u,
        None => {
            return Err(Error::ParseError(locale_url));
        },
    };
    let oembed_url = match url_join(self_url.as_str(), "oembed.json") {
        Some(u) => u,
        None => {
            return Err(Error::ParseError(self_url));
        },
    };
    let oembed_page_url = match url_join(self_url.as_str(), "oembed.html") {
        Some(u) => u,
        None => {
            return Err(Error::ParseError(self_url));
        },
    };
    let thumb_url: Option<String> = if has_images {
        match url_join(self_url.as_str(), thumb_name.as_str()) {
            Some(u) => Some(u),
            None => {
                return Err(Error::ParseError(self_url));
            },
        }
    } else {
        None
    };

    let link = (self_url.clone(), partial.name.clone());
    let search = SearchView {
        name: partial.name.clone(),
        link: site.public_url.clone().concat(site_locale.as_str()).concat("/").concat(
            slug_root.as_str(),
        ).concat("/"),
    };
    let category = partial.category.clone();
    let cuisine = partial.cuisine.clone();

    let ghost partial0 = partial;
    let pages = assemble_recipe_pages(
        partial,
        recipe,
        site_locale,
        site,
        &slug_root,
        &self_url,
        &oembed_url,
        &oembed_page_url,
        &thumb_url,
    );
    proof {
        let lv = Some(site_locale@);
        assert(crate::model::is_recipe_projection(partial0, *recipe, lv, site_locales@));
        assert(slug_root@ == recipe.slug.resolved(lv));
        assert(locale_url@ == url_joined(site.public_url@, site_locale@ + "/"@));
        assert(self_url@ == url_joined(locale_url@, slug_root@ + "/"@));
        if has_images {
            assert(pair_views(partial0.images@) =~= seq![
                (recipe.id@ + "_thumbnail.jpg"@, recipe.id@ + ".jpg"@),
            ]);
            assert(crate::model::str_views(image_copies@[0].dest_path@) =~= seq![
                site_locale@,
                recipe.slug.resolved(lv),
                recipe.id@ + ".jpg"@,
            ]);
            assert(crate::model::str_views(image_copies@[1].dest_path@) =~= seq![
                site_locale@,
                recipe.slug.resolved(lv),
                recipe.id@ + "_thumbnail.jpg"@,
            ]);
        } else {
            assert(pair_views(partial0.images@) =~= Seq::<(Seq<char>, Seq<char>)>::empty());
        }
    }

    Ok(RecipeLocaleOut { pages, image_copies, link, search, category, cuisine })
}

/// The links of a group-of-groups index: each group's joined URL with its
/// label.
pub open spec fn group_link_views(
    groups: Seq<(String, Vec<(String, String)>)>,
    base: Seq<char>,
) -> Seq<(Seq<char>, Seq<char>)> {
    groups.map(
        |i: int, g: (String, Vec<(String, String)>)|
            (url_joined(base, crate::model::slug_of(g.0@) + "/"@), g.0@),
    )
}

/// A four-segment output path.
fn path4(a: &String, b: &str, c: &String, d: &str) -> (r: Vec<String>)
    ensures
        r@.len() == 4,
        r@[0]@ == a@,
        r@[1]@ == b@,
        r@[2]@ == c@,
        r@[3]@ == d@,
{
    let mut p: Vec<String> = Vec::new();
    p.push(a.clone());
    p.push(String::from_str(b));
    p.push(c.clone());
    p.push(String::from_str(d));
    p
}

/// Joining every group's slug onto the tree's base URL is accepted.
pub open spec fn group_joins_ok(
    groups: Seq<(String, Vec<(String, String)>)>,
    base: Seq<char>,
) -> bool {
    forall|g: int|
        0 <= g < groups.len() ==> url_join_ok(
            base,
            crate::model::slug_of((#[trigger] groups[g]).0@) + "/"@,
        )
}

/// Plans one grouped index tree (categories or cuisines): one page per
/// group, each keyed by the slug of its untranslated label and listing that
/// group's recipe links, plus a page listing the groups themselves; also
/// hands back every link these pages produce. Succeeds exactly when every
/// group's join is accepted; fails with `ParseError` otherwise.
#[verifier::rlimit(100)]
fn plan_group_indexes(
    groups: &Vec<(String, Vec<(String, String)>)>,
    group_type: &str,
    base_url: &String,
    site: &SiteView,
    locale: &String,
) -> (r: Result<(Vec<PlannedPage>, Vec<String>), Error>)
    ensures
        r is Ok <==> group_joins_ok(groups@, base_url@),
        r matches Ok(out) ==> ({
            &&& out.0@.len() == groups@.len() + 1
            &&& (forall|g: int|
                0 <= g < groups@.len() ==> {
                    let key = groups@[g].0@;
                    let gurl = url_joined(base_url@, crate::model::slug_of(key) + "/"@);
                    &&& crate::model::str_views((#[trigger] out.0@[g]).path@) == seq![
                        locale@,
                        group_type@,
                        crate::model::slug_of(key),
                        "index.html"@,
                    ]
                    &&& out.0@[g].content matches PageContent::LinkList(v) && {
                        &&& v.locale@ == locale@
                        &&& v.title@ == "Just Recipes - "@ + title_view(group_type@) + " - "@
                            + title_view(key)
                        &&& v.links_label@ == title_view(key)
                        &&& pair_views(v.links@) == pair_views(groups@[g].1@)
                        &&& v.site == *site
                        &&& v.self_url@ == gurl
                    }
                })
            &&& crate::model::str_views(out.0@[groups@.len() as int].path@) == seq![
                locale@,
                group_type@,
                "index.html"@,
            ]
            &&& out.0@[groups@.len() as int].content matches PageContent::LinkList(v) && {
                &&& v.locale@ == locale@
                &&& v.title@ == "Just Recipes - "@ + title_view(group_type@)
                &&& v.links_label@ == title_view(group_type@)
                &&& pair_views(v.links@) == group_link_views(groups@, base_url@)
                &&& v.site == *site
                &&& v.self_url@ == base_url@
            }
            &&& crate::model::str_views(out.1@) == group_link_views(groups@, base_url@).map(
                |i: int, e: (Seq<char>, Seq<char>)| e.0,
            ).push(base_url@)
        }),
        r matches Err(e) ==> e is ParseError,
{
    let mut pages: Vec<PlannedPage> = Vec::new();
    let mut group_links: Vec<(String, String)> = Vec::new();
    let mut links: Vec<String> = Vec::new();
    let type_title = title(group_type);
    let mut g: usize = 0;
    while g < groups.len()
        invariant
            0 <= g <= groups@.len(),
            type_title@ == title_view(group_type@),
            forall|j: int|
                0 <= j < g ==> url_join_ok(
                    base_url@,
                    crate::model::slug_of((#[trigger] groups@[j]).0@) + "/"@,
                ),
            pages@.len() == g,
            group_links@.len() == g,
            links@.len() == g,
            forall|j: int|
                0 <= j < g ==> {
                    let key = groups@[j].0@;
                    let gurl = url_joined(base_url@, crate::model::slug_of(key) + "/"@);
                    &&& crate::model::str_views((#[trigger] pages@[j]).path@) == seq![
                        locale@,
                        group_type@,
                        crate::model::slug_of(key),
                        "index.html"@,
                    ]
                    &&& pages@[j].content matches PageContent::LinkList(v) && {
                        &&& v.locale@ == locale@
                        &&& v.title@ == "Just Recipes - "@ + title_view(group_type@) + " - "@
                            + title_view(key)
                        &&& v.links_label@ == title_view(key)
                        &&& pair_views(v.links@) == pair_views(groups@[j].1@)
                        &&& v.site == *site
                        &&& v.self_url@ == gurl
                    }
                },
            forall|j: int|
                0 <= j < g ==> #[trigger] group_links@[j].0@ == url_joined(
                    base_url@,
                    crate::model::slug_of(groups@[j].0@) + "/"@,
                ) && group_links@[j].1@ == groups@[j].0@,
            forall|j: int|
                0 <= j < g ==> #[trigger] links@[j]@ == url_joined(
                    base_url@,
                    crate::model::slug_of(groups@[j].0@) + "/"@,
                ),
        decreases groups@.len() - g,
    {
        let key = &groups[g].0;
        let group_slug = crate::model::slugify_text(key.as_str());
        let self_url = match url_join(base_url.as_str(), with_slash(group_slug.as_str()).as_str())
        {
            Some(u) => u,
            None => {
                proof {
                    assert(!url_join_ok(
                        base_url@,
                        crate::model::slug_of(groups@[g as int].0@) + "/"@,
                    ));
                    assert(!group_joins_ok(groups@, base_url@));
                }
                return Err(Error::ParseError(base_url.clone()));
            },
        };
        proof {
            assert(url_join_ok(base_url@, crate::model::slug_of(groups@[g as int].0@) + "/"@));
        }
        let page_title = String::from_str("Just Recipes - ").concat(type_title.as_str()).concat(
            " - ",
        ).concat(title(key.as_str()).as_str());
        pages.push(
            PlannedPage {
                path: path4(locale, group_type, &group_slug, "index.html"),
                content: PageContent::LinkList(
                    LinkListView {
                        locale: locale.clone(),
                        title: page_title,
                        links_label: title(key.as_str()),
                        links: crate::model::clone_pair_vec(&groups[g].1),
                        site: site.duplicate(),
                        self_url: self_url.clone(),
                    },
                ),
            },
        );
        let ghost gl0 = group_links@;
        let ghost lk0 = links@;
        group_links.push((self_url.clone(), key.clone()));
        links.push(self_url);
        proof {
            assert forall|j: int| 0 <= j <= g implies #[trigger] group_links@[j].0@ == url_joined(
                base_url@,
                crate::model::slug_of(groups@[j].0@) + "/"@,
            ) && group_links@[j].1@ == groups@[j].0@ by {
                if j < g {
                    assert(group_links@[j] == gl0[j]);
                } else {
                    assert(group_links@[j] == (group_links@[g as int]));
                }
            }
            assert forall|j: int| 0 <= j <= g implies #[trigger] links@[j]@ == url_joined(
                base_url@,
                crate::model::slug_of(groups@[j].0@) + "/"@,
            ) by {
                if j < g {
                    assert(links@[j] == lk0[j]);
                }
            }
        }
        g += 1;
    }
    links.push(base_url.clone());
    let index_title = String::from_str("Just Recipes - ").concat(type_title.as_str());
    let mut index_path: Vec<String> = Vec::new();
    index_path.push(locale.clone());
    index_path.push(String::from_str(group_type));
    index_path.push(String::from_str("index.html"));
    pages.push(
        PlannedPage {
            path: index_path,
            content: PageContent::LinkList(
                LinkListView {
                    locale: locale.clone(),
                    title: index_title,
                    links_label: type_title,
                    links: group_links,
                    site: site.duplicate(),
                    self_url: base_url.clone(),
                },
            ),
        },
    );
    proof {
        assert forall|j: int| 0 <= j < groups@.len() implies crate::model::str_views(
            (#[trigger] pages@[j]).path@,
        ) == seq![locale@, group_type@, crate::model::slug_of(groups@[j].0@), "index.html"@] by {
            assert(crate::model::str_views(pages@[j].path@) =~= seq![
                locale@,
                group_type@,
                crate::model::slug_of(groups@[j].0@),
                "index.html"@,
            ]);
        }
        assert(crate::model::str_views(pages@[groups@.len() as int].path@) =~= seq![
            locale@,
            group_type@,
            "index.html"@,
        ]);
        let lastv = pages@[groups@.len() as int];
        assert(lastv.content matches PageContent::LinkList(v) ==> pair_views(v.links@)
            =~= group_link_views(groups@, base_url@));
        assert(crate::model::str_views(links@) =~= group_link_views(groups@, base_url@).map(
            |i: int, e: (Seq<char>, Seq<char>)| e.0,
        ).push(base_url@));
    }
    Ok((pages, links))
}

/// Plans one recipe for one matching locale and folds its outputs into the
/// build's accumulators: its four pages and its image copies are appended,
/// its link is added to the link set and to the locale's recipe list, its
/// category and cuisine entries are filed, and its search entry is
/// recorded. Succeeds exactly when the projection succeeds and every join
/// is accepted; on failure nothing is touched. Every accumulator property a
/// build relies on is preserved.
#[verifier::rlimit(100)]
#[verifier::spinoff_prover]
fn plan_one_match(
    recipe: &Recipe,
    has_images: bool,
    site_locale: &String,
    site_locales: &Vec<String>,
    site: &SiteView,
    pages: &mut Vec<PlannedPage>,
    image_copies: &mut Vec<ImageCopy>,
    links: &mut Vec<String>,
    recipe_links: &mut Vec<(String, String)>,
    categorized: &mut Vec<(String, Vec<(String, String)>)>,
    cuisines: &mut Vec<(String, Vec<(String, String)>)>,
    search_views: &mut Vec<SearchView>,
) -> (r: Result<(), Error>)
    requires
        recipe.cook_total() + recipe.prep_total() <= u64::MAX,
        seq_contains_str(site_locales@, site_locale@),
        forall|p: int|
            0 <= p < old(pages)@.len() ==> page_rooted(#[trigger] old(pages)@[p], site_locales@),
        forall|c: int|
            0 <= c < old(image_copies)@.len() ==> copy_rooted(
                #[trigger] old(image_copies)@[c],
                site_locales@,
            ),
        links_unique(old(links)@),
        sorted_unique_keys(old(categorized)@),
        sorted_unique_keys(old(cuisines)@),
    ensures
        forall|p: int|
            0 <= p < final(pages)@.len() ==> page_rooted(#[trigger] final(pages)@[p], site_locales@),
        forall|c: int|
            0 <= c < final(image_copies)@.len() ==> copy_rooted(
                #[trigger] final(image_copies)@[c],
                site_locales@,
            ),
        links_unique(final(links)@),
        forall|x: Seq<char>|
            seq_contains_str(old(links)@, x) ==> #[trigger] seq_contains_str(final(links)@, x),
        sorted_unique_keys(final(categorized)@),
        sorted_unique_keys(final(cuisines)@),
        r is Ok <==> (recipe.projectable(Some(site_locale@), site_locales@) && recipe_joins_ok(
            *recipe,
            site_locale@,
            site.public_url@,
            has_images,
        )),
        !recipe.projectable(Some(site_locale@), site_locales@) ==> (r matches Err(e) && e
            is MissingLocale),
        (recipe.projectable(Some(site_locale@), site_locales@) && !recipe_joins_ok(
            *recipe,
            site_locale@,
            site.public_url@,
            has_images,
        )) ==> (r matches Err(e) && e is ParseError),
        r is Err ==> final(pages)@ == old(pages)@ && final(image_copies)@ == old(image_copies)@
            && final(links)@ == old(links)@ && final(recipe_links)@ == old(recipe_links)@
            && final(categorized)@ == old(categorized)@ && final(cuisines)@ == old(cuisines)@
            && final(search_views)@ == old(search_views)@,
        r is Ok ==> ({
            let lv = Some(site_locale@);
            let slug_root = recipe.slug.resolved(lv);
            let locale_url = url_joined(site.public_url@, site_locale@ + "/"@);
            let self_url = url_joined(locale_url, slug_root + "/"@);
            let entry_name = recipe.name.resolved(lv);
            let np = old(pages)@.len() as int;
            &&& final(pages)@.len() == np + 4
            &&& (forall|p: int| 0 <= p < np ==> final(pages)@[p] == old(pages)@[p])
            &&& (forall|p: int|
                np <= p < final(pages)@.len() ==> (#[trigger] final(pages)@[p]).path@.len() == 3
                    && final(pages)@[p].path@[0]@ == site_locale@ && final(pages)@[p].path@[1]@
                    == slug_root)
            &&& final(pages)@[np].path@[2]@ == "index.html"@
            &&& final(pages)@[np].content matches PageContent::RecipePage(v) && {
                &&& crate::model::is_recipe_projection(v.recipe, *recipe, lv, site_locales@)
                &&& v.locale@ == site_locale@
                &&& v.self_url@ == self_url
                &&& v.oembed_url@ == url_joined(self_url, "oembed.json"@)
            }
            &&& final(pages)@[np + 1].path@[2]@ == "index.json"@
            &&& final(pages)@[np + 1].content matches PageContent::RecipeDocument(d)
                && crate::model::recipe_like(d, *recipe)
            &&& final(pages)@[np + 2].path@[2]@ == "oembed.html"@
            &&& final(pages)@[np + 2].content matches PageContent::OembedPage(w) && {
                &&& w.locale@ == site_locale@
                &&& w.title@ == entry_name
                &&& w.recipe_url@ == self_url
            }
            &&& final(pages)@[np + 3].path@[2]@ == "oembed.json"@
            &&& final(pages)@[np + 3].content matches PageContent::OembedDocument(o) && o.html@
                == oembed_iframe(url_joined(self_url, "oembed.html"@))
            &&& (forall|c: int|
                0 <= c < old(image_copies)@.len() ==> final(image_copies)@[c]
                    == old(image_copies)@[c])
            &&& (has_images ==> {
                let nc = old(image_copies)@.len() as int;
                &&& final(image_copies)@.len() == nc + 2
                &&& final(image_copies)@[nc].source_name@ == recipe.id@ + ".jpg"@
                &&& crate::model::str_views(final(image_copies)@[nc].dest_path@) == seq![
                    site_locale@,
                    slug_root,
                    recipe.id@ + ".jpg"@,
                ]
                &&& final(image_copies)@[nc + 1].source_name@ == recipe.id@ + "_thumbnail.jpg"@
                &&& crate::model::str_views(final(image_copies)@[nc + 1].dest_path@) == seq![
                    site_locale@,
                    slug_root,
                    recipe.id@ + "_thumbnail.jpg"@,
                ]
            })
            &&& (!has_images ==> final(image_copies)@ == old(image_copies)@)
            &&& (forall|x: Seq<char>|
                #[trigger] seq_contains_str(final(links)@, x) <==> (seq_contains_str(
                    old(links)@,
                    x,
                ) || x == self_url))
            &&& final(recipe_links)@.len() == old(recipe_links)@.len() + 1
            &&& (forall|p: int|
                0 <= p < old(recipe_links)@.len() ==> final(recipe_links)@[p]
                    == old(recipe_links)@[p])
            &&& final(recipe_links)@[old(recipe_links)@.len() as int].0@ == self_url
            &&& final(recipe_links)@[old(recipe_links)@.len() as int].1@ == entry_name
            &&& (forall|x: Seq<char>|
                #[trigger] group_has(final(categorized)@, x) <==> (group_has(old(categorized)@, x)
                    || x == recipe.category.resolved(lv)))
            &&& group_entries(final(categorized)@, recipe.category.resolved(lv)) == (if group_has(
                old(categorized)@,
                recipe.category.resolved(lv),
            ) {
                group_entries(old(categorized)@, recipe.category.resolved(lv))
            } else {
                Seq::<(Seq<char>, Seq<char>)>::empty()
            }).push((self_url, entry_name))
            &&& (forall|x: Seq<char>|
                group_has(old(categorized)@, x) && x != recipe.category.resolved(lv)
                    ==> #[trigger] group_entries(final(categorized)@, x) == group_entries(
                    old(categorized)@,
                    x,
                ))
            &&& (forall|x: Seq<char>|
                #[trigger] group_has(final(cuisines)@, x) <==> (group_has(old(cuisines)@, x) || x
                    == recipe.cuisine.resolved(lv)))
            &&& group_entries(final(cuisines)@, recipe.cuisine.resolved(lv)) == (if group_has(
                old(cuisines)@,
                recipe.cuisine.resolved(lv),
            ) {
                group_entries(old(cuisines)@, recipe.cuisine.resolved(lv))
            } else {
                Seq::<(Seq<char>, Seq<char>)>::empty()
            }).push((self_url, entry_name))
            &&& (forall|x: Seq<char>|
                group_has(old(cuisines)@, x) && x != recipe.cuisine.resolved(lv) ==> #[trigger]
                group_entries(final(cuisines)@, x) == group_entries(old(cuisines)@, x))
            &&& final(search_views)@.len() == old(search_views)@.len() + 1
            &&& (forall|p: int|
                0 <= p < old(search_views)@.len() ==> final(search_views)@[p]
                    == old(search_views)@[p])
            &&& final(search_views)@[old(search_views)@.len() as int].name@ == entry_name
            &&& final(search_views)@[old(search_views)@.len() as int].link@ == site.public_url@
                + site_locale@ + "/"@ + slug_root + "/"@
        }),
{
    let out = match plan_recipe_for_locale(recipe, has_images, site_locale, site_locales, site) {
        Ok(o) => o,
        Err(e) => {
            return Err(e);
        },
    };
    let mut out_pages = out.pages;
    let mut out_copies = out.image_copies;
    let ghost pages0 = pages@;
    let ghost copies0 = image_copies@;
    let ghost out_pages0 = out_pages@;
    let ghost out_copies0 = out_copies@;
    pages.append(&mut out_pages);
    image_copies.append(&mut out_copies);
    proof {
        assert forall|p: int| 0 <= p < pages@.len() implies page_rooted(
            #[trigger] pages@[p],
            site_locales@,
        ) by {
            if p >= pages0.len() {
                assert(pages@[p] == out_pages0[p - pages0.len()]);
            }
        }
        assert forall|c: int| 0 <= c < image_copies@.len() implies copy_rooted(
            #[trigger] image_copies@[c],
            site_locales@,
        ) by {
            if c >= copies0.len() {
                let d = c - copies0.len();
                assert(image_copies@[c] == out_copies0[d]);
                assert(d == 0 || d == 1);
                assert(crate::model::str_views(out_copies0[d].dest_path@).len() == 3);
                assert(out_copies0[d].dest_path@.len() == 3);
                assert(out_copies0[d].dest_path@[0]@ == crate::model::str_views(
                    out_copies0[d].dest_path@,
                )[0]);
                assert(out_copies0[d].dest_path@[0]@ == site_locale@);
            }
        }
    }
    let ghost links0 = links@;
    links_insert(links, out.link.0.clone());
    proof {
        assert forall|x: Seq<char>| seq_contains_str(links0, x) implies #[trigger] seq_contains_str(
            links@,
            x,
        ) by {}
    }
    recipe_links.push((out.link.0.clone(), out.link.1.clone()));
    group_insert(categorized, &out.category, (out.link.0.clone(), out.link.1.clone()));
    group_insert(cuisines, &out.cuisine, (out.link.0.clone(), out.link.1.clone()));
    search_views.push(out.search);
    Ok(())
}

/// The two per-locale summary files, with their exact contents: the flat
/// recipe index listing every recipe link of the locale, and the search
/// index listing every search entry.
fn locale_index_pages(
    locale: &String,
    public_url: &String,
    recipe_links: Vec<(String, String)>,
    search_views: Vec<SearchView>,
    site: &SiteView,
) -> (r: Vec<PlannedPage>)
    ensures
        r@.len() == 2,
        ({
            &&& r@[0].path@.len() == 2 && r@[0].path@[0]@ == locale@ && r@[0].path@[1]@
                == "index.html"@
            &&& r@[0].content matches PageContent::LinkList(v) && {
                &&& v.locale@ == locale@
                &&& v.title@ == "Just Recipes - Home"@
                &&& v.links_label@ == "All Recipes"@
                &&& v.links == recipe_links
                &&& v.site == *site
                &&& v.self_url@ == public_url@ + locale@ + "/"@
            }
        }),
        ({
            &&& r@[1].path@.len() == 2 && r@[1].path@[0]@ == locale@ && r@[1].path@[1]@
                == "search.json"@
            &&& r@[1].content matches PageContent::SearchIndex(entries) && entries == search_views
        }),
{
    let locale_self_url = public_url.clone().concat(locale.as_str()).concat("/");
    let mut index_path: Vec<String> = Vec::new();
    index_path.push(locale.clone());
    index_path.push(String::from_str("index.html"));
    let mut search_path: Vec<String> = Vec::new();
    search_path.push(locale.clone());
    search_path.push(String::from_str("search.json"));
    let mut pages: Vec<PlannedPage> = Vec::new();
    pages.push(
        PlannedPage {
            path: index_path,
            content: PageContent::LinkList(
                LinkListView {
                    locale: locale.clone(),
                    title: String::from_str("Just Recipes - Home"),
                    links_label: String::from_str("All Recipes"),
                    links: recipe_links,
                    site: site.duplicate(),
                    self_url: locale_self_url,
                },
            ),
        },
    );
    pages.push(
        PlannedPage { path: search_path, content: PageContent::SearchIndex(search_views) },
    );
    pages
}

/// The page sits under a published locale's tree or is one of the three
/// site-wide files.
pub open spec fn page_rooted(p: PlannedPage, locales: Seq<String>) -> bool {
    p.path@.len() > 0 && (seq_contains_str(locales, p.path@[0]@) || p.path@[0]@ == "index.html"@
        || p.path@[0]@ == "about"@ || p.path@[0]@ == "sitemap.xml"@)
}

/// The copy lands under a published locale's tree.
pub open spec fn copy_rooted(c: ImageCopy, locales: Seq<String>) -> bool {
    c.dest_path@.len() > 0 && seq_contains_str(locales, c.dest_path@[0]@)
}

/// The root link of one locale's tree.
pub open spec fn locale_root_link(site: SiteView, locale: Seq<char>) -> Seq<char> {
    site.public_url@ + locale + "/"@
}

/// The recipe lists the locale among those it is published in.
pub open spec fn published_in(r: Recipe, locale: Seq<char>) -> bool {
    seq_contains_str(r.locales@, locale)
}

/// The deduplicated, name-sorted corpus one build renders.
pub open spec fn corpus_spec(recipes: Seq<Recipe>) -> Seq<Recipe> {
    crate::corpus::sort_spec(crate::corpus::dedup_spec(recipes))
}

/// The published page URL of one recipe in one locale.
pub open spec fn recipe_page_url(r: Recipe, locale: Seq<char>, public: Seq<char>) -> Seq<char> {
    url_joined(url_joined(public, locale + "/"@), r.slug.resolved(Some(locale)) + "/"@)
}

/// The label one recipe is grouped under: its resolved cuisine or category.
pub open spec fn group_key_of(r: Recipe, locale: Seq<char>, cuisine: bool) -> Seq<char> {
    if cuisine {
        r.cuisine.resolved(Some(locale))
    } else {
        r.category.resolved(Some(locale))
    }
}

/// The page is the recipe's rendered page in this locale: right path, right
/// view, right projection.
pub open spec fn page_is_recipe_page(
    pg: PlannedPage,
    r: Recipe,
    locale: Seq<char>,
    public: Seq<char>,
    site_locales: Seq<String>,
) -> bool {
    &&& pg.path@.len() == 3
    &&& pg.path@[0]@ == locale
    &&& pg.path@[1]@ == r.slug.resolved(Some(locale))
    &&& pg.path@[2]@ == "index.html"@
    &&& pg.content matches PageContent::RecipePage(v) && {
        &&& crate::model::is_recipe_projection(v.recipe, r, Some(locale), site_locales)
        &&& v.locale@ == locale
        &&& v.self_url@ == recipe_page_url(r, locale, public)
    }
}

/// The recipe's page for this locale was planned and its URL collected for
/// the sitemap.
pub open spec fn has_recipe_page(
    pages: Seq<PlannedPage>,
    links: Seq<String>,
    r: Recipe,
    locale: Seq<char>,
    public: Seq<char>,
    site_locales: Seq<String>,
) -> bool {
    &&& exists|p: int|
        0 <= p < pages.len() && page_is_recipe_page(#[trigger] pages[p], r, locale, public, site_locales)
    &&& seq_contains_str(links, recipe_page_url(r, locale, public))
}

/// Every URL join one locale's grouped index trees need is accepted.
pub open spec fn locale_group_joins_ok(
    corpus: Seq<Recipe>,
    locale: Seq<char>,
    public: Seq<char>,
) -> bool {
    let locale_url = url_joined(public, locale + "/"@);
    &&& url_join_ok(public, locale + "/"@)
    &&& url_join_ok(locale_url, "categories/"@)
    &&& url_join_ok(locale_url, "cuisines/"@)
    &&& (forall|ri: int|
        0 <= ri < corpus.len() && published_in(#[trigger] corpus[ri], locale) ==> url_join_ok(
            url_joined(locale_url, "categories/"@),
            crate::model::slug_of(group_key_of(corpus[ri], locale, false)) + "/"@,
        ) && url_join_ok(
            url_joined(locale_url, "cuisines/"@),
            crate::model::slug_of(group_key_of(corpus[ri], locale, true)) + "/"@,
        ))
}

/// Everything one whole build needs to succeed: every name in the
/// deduplicated corpus resolves for the default locale, every published
/// (recipe, site-locale) pair can be projected with its page joins
/// accepted, and every grouped tree's joins are accepted.
pub open spec fn plan_ok(
    recipes: Seq<Recipe>,
    ids_with_images: Seq<String>,
    site_locales: Seq<String>,
    public: Seq<char>,
) -> bool {
    &&& (forall|i: int|
        0 <= i < crate::corpus::dedup_spec(recipes).len() ==> (#[trigger] crate::corpus::dedup_spec(
            recipes,
        )[i]).name.resolvable(None))
    &&& pairs_plannable(
        corpus_spec(recipes),
        site_locales,
        site_locales.len() as int,
        public,
        ids_with_images,
    )
    &&& (forall|li: int|
        0 <= li < site_locales.len() ==> locale_group_joins_ok(
            corpus_spec(recipes),
            (#[trigger] site_locales[li])@,
            public,
        ))
}

/// Every published pair among the first `upto` site locales can be planned:
/// projectable, with every page join accepted.
pub open spec fn pairs_plannable(
    corpus: Seq<Recipe>,
    site_locales: Seq<String>,
    upto: int,
    public: Seq<char>,
    ids: Seq<String>,
) -> bool {
    forall|k: int, ri: int|
        0 <= k < upto && 0 <= ri < corpus.len() && published_in(
            #[trigger] corpus[ri],
            (#[trigger] site_locales[k])@,
        ) ==> corpus[ri].projectable(Some(site_locales[k]@), site_locales) && recipe_joins_ok(
            corpus[ri],
            site_locales[k]@,
            public,
            seq_contains_str(ids, corpus[ri].id@),
        )
}

/// Every published pair among the first `upto` site locales has its page
/// planned and its link collected.
pub open spec fn pairs_paged(
    pages: Seq<PlannedPage>,
    links: Seq<String>,
    corpus: Seq<Recipe>,
    site_locales: Seq<String>,
    upto: int,
    public: Seq<char>,
) -> bool {
    forall|k: int, ri: int|
        0 <= k < upto && 0 <= ri < corpus.len() && published_in(
            #[trigger] corpus[ri],
            (#[trigger] site_locales[k])@,
        ) ==> has_recipe_page(pages, links, corpus[ri], site_locales[k]@, public, site_locales)
}

/// Every one of the first `upto` corpus recipes published in `locale` can
/// be planned.
pub open spec fn locale_pairs_plannable(
    corpus: Seq<Recipe>,
    locale: Seq<char>,
    upto: int,
    site_locales: Seq<String>,
    public: Seq<char>,
    ids: Seq<String>,
) -> bool {
    forall|rj: int|
        0 <= rj < upto && published_in(#[trigger] corpus[rj], locale) ==> corpus[rj].projectable(
            Some(locale),
            site_locales,
        ) && recipe_joins_ok(corpus[rj], locale, public, seq_contains_str(ids, corpus[rj].id@))
}

/// Every one of the first `upto` corpus recipes published in `locale` has
/// its page planned and its link collected.
pub open spec fn locale_pairs_paged(
    pages: Seq<PlannedPage>,
    links: Seq<String>,
    corpus: Seq<Recipe>,
    locale: Seq<char>,
    upto: int,
    site_locales: Seq<String>,
    public: Seq<char>,
) -> bool {
    forall|rj: int|
        0 <= rj < upto && published_in(#[trigger] corpus[rj], locale) ==> has_recipe_page(
            pages,
            links,
            corpus[rj],
            locale,
            public,
            site_locales,
        )
}

/// Every group key comes from some published recipe's label.
pub open spec fn keys_sound(
    groups: Seq<(String, Vec<(String, String)>)>,
    corpus: Seq<Recipe>,
    locale: Seq<char>,
    cuisine: bool,
) -> bool {
    forall|x: Seq<char>|
        #[trigger] group_has(groups, x) ==> exists|rj: int|
            0 <= rj < corpus.len() && published_in(corpus[rj], locale) && x == group_key_of(
                corpus[rj],
                locale,
                cuisine,
            )
}

/// Every published recipe among the first `upto` has its label filed.
pub open spec fn keys_complete(
    groups: Seq<(String, Vec<(String, String)>)>,
    corpus: Seq<Recipe>,
    locale: Seq<char>,
    upto: int,
    cuisine: bool,
) -> bool {
    forall|rj: int|
        0 <= rj < upto && published_in(#[trigger] corpus[rj], locale) ==> group_has(
            groups,
            group_key_of(corpus[rj], locale, cuisine),
        )
}

/// How often the locale occurs in a recipe's published-locale list.
pub open spec fn occ_count(locales: Seq<String>, locale: Seq<char>) -> int
    decreases locales.len(),
{
    if locales.len() == 0 {
        0
    } else {
        occ_count(locales.drop_last(), locale) + if locales.last()@ == locale {
            1int
        } else {
            0int
        }
    }
}

pub proof fn lemma_occ_count_nonneg(locales: Seq<String>, locale: Seq<char>)
    ensures
        occ_count(locales, locale) >= 0,
    decreases locales.len(),
{
    if locales.len() > 0 {
        lemma_occ_count_nonneg(locales.drop_last(), locale);
    }
}

/// The same link entry, `n` times over.
pub open spec fn repeat_entry(e: (Seq<char>, Seq<char>), n: int) -> Seq<(Seq<char>, Seq<char>)>
    decreases n,
{
    if n <= 0 {
        Seq::<(Seq<char>, Seq<char>)>::empty()
    } else {
        repeat_entry(e, n - 1).push(e)
    }
}

/// The link list of one locale's index page: each corpus recipe in corpus
/// (name-sorted) order, its page URL paired with its resolved name, once
/// per occurrence of the locale in its published list.
pub open spec fn locale_links_spec(
    corpus: Seq<Recipe>,
    locale: Seq<char>,
    public: Seq<char>,
) -> Seq<(Seq<char>, Seq<char>)>
    decreases corpus.len(),
{
    if corpus.len() == 0 {
        Seq::<(Seq<char>, Seq<char>)>::empty()
    } else {
        locale_links_spec(corpus.drop_last(), locale, public) + repeat_entry(
            (
                recipe_page_url(corpus.last(), locale, public),
                corpus.last().name.resolved(Some(locale)),
            ),
            occ_count(corpus.last().locales@, locale),
        )
    }
}

/// The texts of a list of search entries.
pub open spec fn search_view_views(s: Seq<SearchView>) -> Seq<(Seq<char>, Seq<char>)> {
    s.map(|i: int, e: SearchView| (e.name@, e.link@))
}

/// One recipe's search entry for one locale: its resolved name and its page
/// link, written by plain concatenation.
pub open spec fn search_entry_of(r: Recipe, locale: Seq<char>, public: Seq<char>) -> (
    Seq<char>,
    Seq<char>,
) {
    (
        r.name.resolved(Some(locale)),
        public + locale + "/"@ + r.slug.resolved(Some(locale)) + "/"@,
    )
}

/// The search index of one locale: each corpus recipe in corpus order, once
/// per occurrence of the locale in its published list.
pub open spec fn locale_search_spec(
    corpus: Seq<Recipe>,
    locale: Seq<char>,
    public: Seq<char>,
) -> Seq<(Seq<char>, Seq<char>)>
    decreases corpus.len(),
{
    if corpus.len() == 0 {
        Seq::<(Seq<char>, Seq<char>)>::empty()
    } else {
        locale_search_spec(corpus.drop_last(), locale, public) + repeat_entry(
            search_entry_of(corpus.last(), locale, public),
            occ_count(corpus.last().locales@, locale),
        )
    }
}

/// The page is the locale's search index, listing exactly the corpus
/// entries in corpus order.
pub open spec fn locale_search_page_at(
    pg: PlannedPage,
    corpus: Seq<Recipe>,
    locale: Seq<char>,
    public: Seq<char>,
) -> bool {
    &&& pg.path@.len() == 2
    &&& pg.path@[0]@ == locale
    &&& pg.path@[1]@ == "search.json"@
    &&& pg.content matches PageContent::SearchIndex(entries) && search_view_views(entries@)
        == locale_search_spec(corpus, locale, public)
}

/// Some planned page is this locale's search index.
pub open spec fn has_locale_search_page(
    pages: Seq<PlannedPage>,
    corpus: Seq<Recipe>,
    locale: Seq<char>,
    public: Seq<char>,
) -> bool {
    exists|p: int|
        0 <= p < pages.len() && locale_search_page_at(#[trigger] pages[p], corpus, locale, public)
}

/// The page is the locale's flat recipe index, listing exactly the corpus
/// links in corpus order.
pub open spec fn locale_index_page_at(
    pg: PlannedPage,
    corpus: Seq<Recipe>,
    locale: Seq<char>,
    public: Seq<char>,
) -> bool {
    &&& pg.path@.len() == 2
    &&& pg.path@[0]@ == locale
    &&& pg.path@[1]@ == "index.html"@
    &&& pg.content matches PageContent::LinkList(v) && pair_views(v.links@) == locale_links_spec(
        corpus,
        locale,
        public,
    )
}

/// Some planned page is this locale's index page.
pub open spec fn has_locale_index_page(
    pages: Seq<PlannedPage>,
    corpus: Seq<Recipe>,
    locale: Seq<char>,
    public: Seq<char>,
) -> bool {
    exists|p: int|
        0 <= p < pages.len() && locale_index_page_at(#[trigger] pages[p], corpus, locale, public)
}

/// The first `upto` site locales each have their index page and their
/// search index planned.
pub open spec fn summaries_paged(
    pages: Seq<PlannedPage>,
    corpus: Seq<Recipe>,
    site_locales: Seq<String>,
    upto: int,
    public: Seq<char>,
) -> bool {
    forall|k: int|
        0 <= k < upto ==> has_locale_index_page(
            pages,
            corpus,
            (#[trigger] site_locales[k])@,
            public,
        ) && has_locale_search_page(pages, corpus, (site_locales[k])@, public)
}

/// Pages only grew, so every planned index page of the finished locales
/// stays.
proof fn lemma_summaries_grow(
    pages0: Seq<PlannedPage>,
    pages1: Seq<PlannedPage>,
    corpus: Seq<Recipe>,
    site_locales: Seq<String>,
    upto: int,
    public: Seq<char>,
)
    requires
        summaries_paged(pages0, corpus, site_locales, upto, public),
        pages0.len() <= pages1.len(),
        forall|p: int| 0 <= p < pages0.len() ==> pages1[p] == pages0[p],
    ensures
        summaries_paged(pages1, corpus, site_locales, upto, public),
{
    assert forall|k: int| 0 <= k < upto implies has_locale_index_page(
        pages1,
        corpus,
        (#[trigger] site_locales[k])@,
        public,
    ) && has_locale_search_page(pages1, corpus, (site_locales[k])@, public) by {
        assert(has_locale_index_page(pages0, corpus, (site_locales[k])@, public));
        let p = choose|p: int|
            0 <= p < pages0.len() && locale_index_page_at(
                #[trigger] pages0[p],
                corpus,
                (site_locales[k])@,
                public,
            );
        assert(locale_index_page_at(pages1[p], corpus, (site_locales[k])@, public));
        assert(has_locale_search_page(pages0, corpus, (site_locales[k])@, public));
        let q = choose|q: int|
            0 <= q < pages0.len() && locale_search_page_at(
                #[trigger] pages0[q],
                corpus,
                (site_locales[k])@,
                public,
            );
        assert(locale_search_page_at(pages1[q], corpus, (site_locales[k])@, public));
    }
}

/// The two group-index base links of each finished locale were collected.
pub open spec fn group_index_links_collected(
    links: Seq<String>,
    site_locales: Seq<String>,
    upto: int,
    public: Seq<char>,
) -> bool {
    forall|k: int|
        0 <= k < upto ==> seq_contains_str(
            links,
            url_joined(url_joined(public, (#[trigger] site_locales[k])@ + "/"@), "categories/"@),
        ) && seq_contains_str(
            links,
            url_joined(url_joined(public, (site_locales[k])@ + "/"@), "cuisines/"@),
        )
}

/// Each published pair's category and cuisine group-page links were
/// collected, for each finished locale.
pub open spec fn group_page_links_collected(
    links: Seq<String>,
    corpus: Seq<Recipe>,
    site_locales: Seq<String>,
    upto: int,
    public: Seq<char>,
) -> bool {
    forall|k: int, ri: int|
        0 <= k < upto && 0 <= ri < corpus.len() && published_in(
            #[trigger] corpus[ri],
            (#[trigger] site_locales[k])@,
        ) ==> seq_contains_str(
            links,
            url_joined(
                url_joined(url_joined(public, site_locales[k]@ + "/"@), "categories/"@),
                crate::model::slug_of(group_key_of(corpus[ri], site_locales[k]@, false)) + "/"@,
            ),
        ) && seq_contains_str(
            links,
            url_joined(
                url_joined(url_joined(public, site_locales[k]@ + "/"@), "cuisines/"@),
                crate::model::slug_of(group_key_of(corpus[ri], site_locales[k]@, true)) + "/"@,
            ),
        )
}

/// Links only grew, so every collected group link stays.
proof fn lemma_group_links_grow(
    links0: Seq<String>,
    links1: Seq<String>,
    corpus: Seq<Recipe>,
    site_locales: Seq<String>,
    upto: int,
    public: Seq<char>,
)
    requires
        group_index_links_collected(links0, site_locales, upto, public),
        group_page_links_collected(links0, corpus, site_locales, upto, public),
        forall|x: Seq<char>| seq_contains_str(links0, x) ==> #[trigger] seq_contains_str(links1, x),
    ensures
        group_index_links_collected(links1, site_locales, upto, public),
        group_page_links_collected(links1, corpus, site_locales, upto, public),
{
}

/// Pages and links only grew, so every planned page and collected link of
/// the finished locales stays.
proof fn lemma_pairs_paged_grow(
    pages0: Seq<PlannedPage>,
    pages1: Seq<PlannedPage>,
    links0: Seq<String>,
    links1: Seq<String>,
    corpus: Seq<Recipe>,
    site_locales: Seq<String>,
    upto: int,
    public: Seq<char>,
)
    requires
        pairs_paged(pages0, links0, corpus, site_locales, upto, public),
        pages0.len() <= pages1.len(),
        forall|p: int| 0 <= p < pages0.len() ==> pages1[p] == pages0[p],
        forall|x: Seq<char>| seq_contains_str(links0, x) ==> #[trigger] seq_contains_str(links1, x),
    ensures
        pairs_paged(pages1, links1, corpus, site_locales, upto, public),
{
    assert forall|k: int, ri: int|
        0 <= k < upto && 0 <= ri < corpus.len() && published_in(
            #[trigger] corpus[ri],
            (#[trigger] site_locales[k])@,
        ) implies has_recipe_page(pages1, links1, corpus[ri], site_locales[k]@, public, site_locales) by {
        assert(has_recipe_page(pages0, links0, corpus[ri], site_locales[k]@, public, site_locales));
        let p = choose|p: int|
            0 <= p < pages0.len() && page_is_recipe_page(
                #[trigger] pages0[p],
                corpus[ri],
                site_locales[k]@,
                public,
                site_locales,
            );
        assert(page_is_recipe_page(pages1[p], corpus[ri], site_locales[k]@, public, site_locales));
        assert(seq_contains_str(links1, recipe_page_url(corpus[ri], site_locales[k]@, public)));
    }
}

/// The same, for the current locale's finished prefix.
proof fn lemma_locale_pairs_paged_grow(
    pages0: Seq<PlannedPage>,
    pages1: Seq<PlannedPage>,
    links0: Seq<String>,
    links1: Seq<String>,
    corpus: Seq<Recipe>,
    locale: Seq<char>,
    upto: int,
    site_locales: Seq<String>,
    public: Seq<char>,
)
    requires
        locale_pairs_paged(pages0, links0, corpus, locale, upto, site_locales, public),
        pages0.len() <= pages1.len(),
        forall|p: int| 0 <= p < pages0.len() ==> pages1[p] == pages0[p],
        forall|x: Seq<char>| seq_contains_str(links0, x) ==> #[trigger] seq_contains_str(links1, x),
    ensures
        locale_pairs_paged(pages1, links1, corpus, locale, upto, site_locales, public),
{
    assert forall|rj: int|
        0 <= rj < upto && published_in(#[trigger] corpus[rj], locale) implies has_recipe_page(
        pages1,
        links1,
        corpus[rj],
        locale,
        public,
        site_locales,
    ) by {
        assert(has_recipe_page(pages0, links0, corpus[rj], locale, public, site_locales));
        let p = choose|p: int|
            0 <= p < pages0.len() && page_is_recipe_page(
                #[trigger] pages0[p],
                corpus[rj],
                locale,
                public,
                site_locales,
            );
        assert(page_is_recipe_page(pages1[p], corpus[rj], locale, public, site_locales));
        assert(seq_contains_str(links1, recipe_page_url(corpus[rj], locale, public)));
    }
}

/// Plans one whole build: deduplicates the corpus by identifier (first in
/// wins), sorts it by resolved default-locale name, plans every recipe's
/// pages for every site locale it is published in, the per-locale index and
/// search pages, the category and cuisine trees, and the site-wide home,
/// about and sitemap pages — the sitemap listing exactly the collected
/// links. Nothing is planned outside the published locales' trees and the
/// three site-wide files. Succeeds exactly when `plan_ok` holds of the
/// inputs; every published (recipe, locale) pair of the deduplicated,
/// name-sorted corpus then has its page planned with its projected view and
/// its URL collected. Fails with `MissingLocale` when a needed resolution
/// fails and with `ParseError` when the URL crate refuses a join; a
/// duplicate identifier never fails the build.
#[verifier::rlimit(100)]
#[verifier::spinoff_prover]
pub fn plan_site(
    recipes: Vec<Recipe>,
    ids_with_images: &Vec<String>,
    site_locales: &Vec<String>,
    site: &SiteView,
) -> (r: Result<BuildPlan, Error>)
    requires
        forall|i: int|
            0 <= i < recipes@.len() ==> (#[trigger] recipes@[i]).cook_total()
                + recipes@[i].prep_total() <= u64::MAX,
    ensures
        r is Ok <==> plan_ok(recipes@, ids_with_images@, site_locales@, site.public_url@),
        r matches Ok(plan) ==> pairs_paged(
            plan.pages@,
            plan.links@,
            corpus_spec(recipes@),
            site_locales@,
            site_locales@.len() as int,
            site.public_url@,
        ),
        r matches Ok(plan) ==> summaries_paged(
            plan.pages@,
            corpus_spec(recipes@),
            site_locales@,
            site_locales@.len() as int,
            site.public_url@,
        ),
        r matches Ok(plan) ==> group_index_links_collected(
            plan.links@,
            site_locales@,
            site_locales@.len() as int,
            site.public_url@,
        ) && group_page_links_collected(
            plan.links@,
            corpus_spec(recipes@),
            site_locales@,
            site_locales@.len() as int,
            site.public_url@,
        ),
        r matches Ok(plan) ==> ({
            &&& plan.pages@.len() >= 3
            &&& (forall|p: int|
                0 <= p < plan.pages@.len() ==> page_rooted(
                    #[trigger] plan.pages@[p],
                    site_locales@,
                ))
            &&& (forall|c: int|
                0 <= c < plan.image_copies@.len() ==> copy_rooted(
                    #[trigger] plan.image_copies@[c],
                    site_locales@,
                ))
            &&& links_unique(plan.links@)
            &&& seq_contains_str(plan.links@, site.public_url@)
            &&& (forall|k: int|
                0 <= k < site_locales@.len() ==> seq_contains_str(
                    plan.links@,
                    locale_root_link(*site, #[trigger] site_locales@[k]@),
                ))
            &&& ({
                let n = plan.pages@.len() as int;
                &&& plan.pages@[n - 3].path@.len() == 1 && plan.pages@[n - 3].path@[0]@
                    == "index.html"@
                &&& plan.pages@[n - 3].content matches PageContent::Home(h) && {
                    &&& crate::model::str_views(h.locales@) == crate::model::str_views(
                        site_locales@,
                    )
                    &&& h.title@ == "Just Recipes - Home"@
                    &&& h.site == *site
                    &&& h.self_url@ == site.public_url@
                }
                &&& plan.pages@[n - 2].path@.len() == 2 && plan.pages@[n - 2].path@[0]@ == "about"@
                    && plan.pages@[n - 2].path@[1]@ == "index.html"@
                &&& plan.pages@[n - 2].content matches PageContent::About(h) && {
                    &&& crate::model::str_views(h.locales@) == crate::model::str_views(
                        site_locales@,
                    )
                    &&& h.title@ == "Just Recipes Blog - About"@
                    &&& h.site == *site
                    &&& h.self_url@ == site.public_url@ + "about/"@
                }
                &&& plan.pages@[n - 1].path@.len() == 1 && plan.pages@[n - 1].path@[0]@
                    == "sitemap.xml"@
                &&& plan.pages@[n - 1].content matches PageContent::Sitemap(sm) && {
                    &&& crate::model::str_views(sm.links@) == crate::model::str_views(plan.links@)
                    &&& sm.site == *site
                }
            })
        }),
        r matches Err(e) ==> (e is MissingLocale || e is ParseError),
{
    let ghost public = site.public_url@;
    let (sorted, skipped_ids) = {
        let (deduped, skipped_ids) = crate::corpus::dedup_recipes(recipes);
        proof {
            broadcast use vstd::seq_lib::group_to_multiset_ensures;

            crate::corpus::lemma_dedup_subset(recipes@);
        }
        let ghost deduped0 = deduped@;
        let sorted = match crate::corpus::sort_recipes_by_name(deduped) {
            Ok(v) => v,
            Err(e) => {
                proof {
                    assert(!plan_ok(recipes@, ids_with_images@, site_locales@, public)) by {
                        if plan_ok(recipes@, ids_with_images@, site_locales@, public) {
                            assert forall|i: int|
                                0 <= i < deduped0.len() implies (
                            #[trigger] deduped0[i]).name.resolvable(None) by {
                                assert(deduped0[i] == crate::corpus::dedup_spec(recipes@)[i]);
                            }
                        }
                    }
                }
                return Err(e);
            },
        };
        proof {
            assert(sorted@ == corpus_spec(recipes@));
            assert forall|i: int| 0 <= i < sorted@.len() implies (
            #[trigger] sorted@[i]).cook_total() + sorted@[i].prep_total() <= u64::MAX by {
                sorted@.to_multiset_ensures();
                deduped0.to_multiset_ensures();
                assert(sorted@.contains(sorted@[i]));
                assert(sorted@.to_multiset().count(sorted@[i]) > 0);
                assert(deduped0.to_multiset().count(sorted@[i]) > 0);
                assert(deduped0.contains(sorted@[i]));
                let j = choose|j: int| 0 <= j < deduped0.len() && deduped0[j] == sorted@[i];
                assert(recipes@.contains(deduped0[j]));
                let k = choose|k: int| 0 <= k < recipes@.len() && recipes@[k] == deduped0[j];
                assert(recipes@[k].cook_total() + recipes@[k].prep_total() <= u64::MAX);
            }
        }
        (sorted, skipped_ids)
    };

    let mut pages: Vec<PlannedPage> = Vec::new();
    let mut image_copies: Vec<ImageCopy> = Vec::new();
    let mut links: Vec<String> = Vec::new();
    links_insert(&mut links, site.public_url.clone());

    let mut li: usize = 0;
    while li < site_locales.len()
        invariant
            0 <= li <= site_locales@.len(),
            sorted@ == corpus_spec(recipes@),
            forall|i: int|
                0 <= i < crate::corpus::dedup_spec(recipes@).len() ==> (
                #[trigger] crate::corpus::dedup_spec(recipes@)[i]).name.resolvable(None),
            forall|i: int|
                0 <= i < sorted@.len() ==> (#[trigger] sorted@[i]).cook_total()
                    + sorted@[i].prep_total() <= u64::MAX,
            forall|p: int|
                0 <= p < pages@.len() ==> page_rooted(#[trigger] pages@[p], site_locales@),
            forall|c: int|
                0 <= c < image_copies@.len() ==> copy_rooted(
                    #[trigger] image_copies@[c],
                    site_locales@,
                ),
            links_unique(links@),
            seq_contains_str(links@, site.public_url@),
            forall|k: int|
                0 <= k < li ==> seq_contains_str(
                    links@,
                    locale_root_link(*site, #[trigger] site_locales@[k]@),
                ),
            pairs_plannable(sorted@, site_locales@, li as int, public, ids_with_images@),
            pairs_paged(pages@, links@, sorted@, site_locales@, li as int, public),
            summaries_paged(pages@, sorted@, site_locales@, li as int, public),
            group_index_links_collected(links@, site_locales@, li as int, public),
            group_page_links_collected(links@, sorted@, site_locales@, li as int, public),
            forall|k: int|
                0 <= k < li ==> locale_group_joins_ok(
                    sorted@,
                    (#[trigger] site_locales@[k])@,
                    public,
                ),
            public == site.public_url@,
        decreases site_locales@.len() - li,
    {
        let site_locale = &site_locales[li];
        let ghost locale = site_locales@[li as int]@;
        let root_link = site.public_url.clone().concat(site_locale.as_str()).concat("/");
        let ghost lk_root = links@;
        links_insert(&mut links, root_link);
        proof {
            lemma_pairs_paged_grow(
                pages@,
                pages@,
                lk_root,
                links@,
                sorted@,
                site_locales@,
                li as int,
                public,
            );
            lemma_group_links_grow(lk_root, links@, sorted@, site_locales@, li as int, public);
        }

        let mut search_views: Vec<SearchView> = Vec::new();
        let mut recipe_links: Vec<(String, String)> = Vec::new();
        let mut categorized: Vec<(String, Vec<(String, String)>)> = Vec::new();
        let mut cuisines: Vec<(String, Vec<(String, String)>)> = Vec::new();
        proof {
            assert(sorted@.subrange(0, 0) =~= Seq::<Recipe>::empty());
            assert(pair_views(recipe_links@) =~= locale_links_spec(
                sorted@.subrange(0, 0),
                locale,
                public,
            ));
            assert(search_view_views(search_views@) =~= locale_search_spec(
                sorted@.subrange(0, 0),
                locale,
                public,
            ));
        }

        let mut ri: usize = 0;
        while ri < sorted.len()
            invariant
                0 <= ri <= sorted@.len(),
                0 <= li < site_locales@.len(),
                site_locale == &site_locales[li as int],
                locale == site_locales@[li as int]@,
                public == site.public_url@,
                sorted@ == corpus_spec(recipes@),
                forall|i: int|
                    0 <= i < sorted@.len() ==> (#[trigger] sorted@[i]).cook_total()
                        + sorted@[i].prep_total() <= u64::MAX,
                forall|p: int|
                    0 <= p < pages@.len() ==> page_rooted(#[trigger] pages@[p], site_locales@),
                forall|c: int|
                    0 <= c < image_copies@.len() ==> copy_rooted(
                        #[trigger] image_copies@[c],
                        site_locales@,
                    ),
                links_unique(links@),
                seq_contains_str(links@, site.public_url@),
                forall|k: int|
                    0 <= k <= li ==> seq_contains_str(
                        links@,
                        locale_root_link(*site, #[trigger] site_locales@[k]@),
                    ),
                sorted_unique_keys(categorized@),
                sorted_unique_keys(cuisines@),
                pairs_plannable(sorted@, site_locales@, li as int, public, ids_with_images@),
                pairs_paged(pages@, links@, sorted@, site_locales@, li as int, public),
                forall|k: int|
                    0 <= k < li ==> locale_group_joins_ok(
                        sorted@,
                        (#[trigger] site_locales@[k])@,
                        public,
                    ),
                locale_pairs_plannable(
                    sorted@,
                    locale,
                    ri as int,
                    site_locales@,
                    public,
                    ids_with_images@,
                ),
                locale_pairs_paged(
                    pages@,
                    links@,
                    sorted@,
                    locale,
                    ri as int,
                    site_locales@,
                    public,
                ),
                keys_sound(categorized@, sorted@, locale, false),
                keys_sound(cuisines@, sorted@, locale, true),
                keys_complete(categorized@, sorted@, locale, ri as int, false),
                keys_complete(cuisines@, sorted@, locale, ri as int, true),
                summaries_paged(pages@, sorted@, site_locales@, li as int, public),
                pair_views(recipe_links@) == locale_links_spec(
                    sorted@.subrange(0, ri as int),
                    locale,
                    public,
                ),
                search_view_views(search_views@) == locale_search_spec(
                    sorted@.subrange(0, ri as int),
                    locale,
                    public,
                ),
                group_index_links_collected(links@, site_locales@, li as int, public),
                group_page_links_collected(links@, sorted@, site_locales@, li as int, public),
            decreases sorted@.len() - ri,
        {
            let recipe = &sorted[ri];
            let has_images = crate::model::contains_string(ids_with_images, &recipe.id);
            proof {
                assert(recipe.locales@.subrange(0, 0) =~= Seq::<String>::empty());
                assert(occ_count(recipe.locales@.subrange(0, 0), locale) == 0);
                assert(pair_views(recipe_links@) =~= locale_links_spec(
                    sorted@.subrange(0, ri as int),
                    locale,
                    public,
                ) + repeat_entry(
                    (recipe_page_url(*recipe, locale, public), recipe.name.resolved(Some(locale))),
                    0,
                ));
                assert(search_view_views(search_views@) =~= locale_search_spec(
                    sorted@.subrange(0, ri as int),
                    locale,
                    public,
                ) + repeat_entry(search_entry_of(*recipe, locale, public), 0));
            }
            let mut lj: usize = 0;
            while lj < recipe.locales.len()
                invariant
                    0 <= lj <= recipe.locales@.len(),
                    0 <= li < site_locales@.len(),
                    0 <= ri < sorted@.len(),
                    site_locale == &site_locales[li as int],
                    locale == site_locales@[li as int]@,
                    public == site.public_url@,
                    sorted@ == corpus_spec(recipes@),
                    recipe == &sorted[ri as int],
                    recipe.cook_total() + recipe.prep_total() <= u64::MAX,
                    has_images == seq_contains_str(ids_with_images@, recipe.id@),
                    forall|p: int|
                        0 <= p < pages@.len() ==> page_rooted(#[trigger] pages@[p], site_locales@),
                    forall|c: int|
                        0 <= c < image_copies@.len() ==> copy_rooted(
                            #[trigger] image_copies@[c],
                            site_locales@,
                        ),
                    links_unique(links@),
                    seq_contains_str(links@, site.public_url@),
                    forall|k: int|
                        0 <= k <= li ==> seq_contains_str(
                            links@,
                            locale_root_link(*site, #[trigger] site_locales@[k]@),
                        ),
                    sorted_unique_keys(categorized@),
                    sorted_unique_keys(cuisines@),
                    pairs_plannable(sorted@, site_locales@, li as int, public, ids_with_images@),
                    pairs_paged(pages@, links@, sorted@, site_locales@, li as int, public),
                    locale_pairs_plannable(
                        sorted@,
                        locale,
                        ri as int,
                        site_locales@,
                        public,
                        ids_with_images@,
                    ),
                    locale_pairs_paged(
                        pages@,
                        links@,
                        sorted@,
                        locale,
                        ri as int,
                        site_locales@,
                        public,
                    ),
                    keys_sound(categorized@, sorted@, locale, false),
                    keys_sound(cuisines@, sorted@, locale, true),
                    keys_complete(categorized@, sorted@, locale, ri as int, false),
                    keys_complete(cuisines@, sorted@, locale, ri as int, true),
                    summaries_paged(pages@, sorted@, site_locales@, li as int, public),
                    pair_views(recipe_links@) == locale_links_spec(
                        sorted@.subrange(0, ri as int),
                        locale,
                        public,
                    ) + repeat_entry(
                        (
                            recipe_page_url(*recipe, locale, public),
                            recipe.name.resolved(Some(locale)),
                        ),
                        occ_count(recipe.locales@.subrange(0, lj as int), locale),
                    ),
                    search_view_views(search_views@) == locale_search_spec(
                        sorted@.subrange(0, ri as int),
                        locale,
                        public,
                    ) + repeat_entry(
                        search_entry_of(*recipe, locale, public),
                        occ_count(recipe.locales@.subrange(0, lj as int), locale),
                    ),
                    group_index_links_collected(links@, site_locales@, li as int, public),
                    group_page_links_collected(links@, sorted@, site_locales@, li as int, public),
                    (exists|o: int|
                        0 <= o < lj && (#[trigger] recipe.locales@[o])@ == locale) ==> ({
                        &&& recipe.projectable(Some(locale), site_locales@)
                        &&& recipe_joins_ok(
                            *recipe,
                            locale,
                            public,
                            seq_contains_str(ids_with_images@, recipe.id@),
                        )
                        &&& has_recipe_page(pages@, links@, *recipe, locale, public, site_locales@)
                        &&& group_has(categorized@, group_key_of(*recipe, locale, false))
                        &&& group_has(cuisines@, group_key_of(*recipe, locale, true))
                    }),
                decreases recipe.locales@.len() - lj,
            {
                if recipe.locales[lj] == *site_locale {
                    let ghost pagesb = pages@;
                    let ghost linksb = links@;
                    let ghost catsb = categorized@;
                    let ghost cuisb = cuisines@;
                    let ghost rlinksb = recipe_links@;
                    let ghost searchb = search_views@;
                    match plan_one_match(
                        recipe,
                        has_images,
                        site_locale,
                        site_locales,
                        site,
                        &mut pages,
                        &mut image_copies,
                        &mut links,
                        &mut recipe_links,
                        &mut categorized,
                        &mut cuisines,
                        &mut search_views,
                    ) {
                        Ok(_) => {
                            proof {
                                assert(page_is_recipe_page(
                                    pages@[pagesb.len() as int],
                                    *recipe,
                                    locale,
                                    public,
                                    site_locales@,
                                ));
                                assert(seq_contains_str(
                                    links@,
                                    recipe_page_url(*recipe, locale, public),
                                ));
                                assert(has_recipe_page(
                                    pages@,
                                    links@,
                                    *recipe,
                                    locale,
                                    public,
                                    site_locales@,
                                ));
                                lemma_pairs_paged_grow(
                                    pagesb,
                                    pages@,
                                    linksb,
                                    links@,
                                    sorted@,
                                    site_locales@,
                                    li as int,
                                    public,
                                );
                                lemma_locale_pairs_paged_grow(
                                    pagesb,
                                    pages@,
                                    linksb,
                                    links@,
                                    sorted@,
                                    locale,
                                    ri as int,
                                    site_locales@,
                                    public,
                                );
                                lemma_summaries_grow(
                                    pagesb,
                                    pages@,
                                    sorted@,
                                    site_locales@,
                                    li as int,
                                    public,
                                );
                                lemma_group_links_grow(
                                    linksb,
                                    links@,
                                    sorted@,
                                    site_locales@,
                                    li as int,
                                    public,
                                );
                                assert(recipe.locales@.subrange(0, lj + 1).drop_last()
                                    =~= recipe.locales@.subrange(0, lj as int));
                                assert(recipe.locales@.subrange(0, lj + 1).last()
                                    == recipe.locales@[lj as int]);
                                assert(occ_count(recipe.locales@.subrange(0, lj + 1), locale)
                                    == occ_count(recipe.locales@.subrange(0, lj as int), locale)
                                    + 1);
                                assert(pair_views(recipe_links@) =~= pair_views(rlinksb).push(
                                    (
                                        recipe_page_url(*recipe, locale, public),
                                        recipe.name.resolved(Some(locale)),
                                    ),
                                ));
                                lemma_occ_count_nonneg(
                                    recipe.locales@.subrange(0, lj as int),
                                    locale,
                                );
                                let e = (
                                    recipe_page_url(*recipe, locale, public),
                                    recipe.name.resolved(Some(locale)),
                                );
                                let occ = occ_count(
                                    recipe.locales@.subrange(0, lj as int),
                                    locale,
                                );
                                assert(repeat_entry(e, occ + 1) == repeat_entry(e, occ).push(e));
                                assert((locale_links_spec(
                                    sorted@.subrange(0, ri as int),
                                    locale,
                                    public,
                                ) + repeat_entry(e, occ)).push(e) =~= locale_links_spec(
                                    sorted@.subrange(0, ri as int),
                                    locale,
                                    public,
                                ) + repeat_entry(e, occ).push(e));
                                assert(pair_views(recipe_links@) =~= locale_links_spec(
                                    sorted@.subrange(0, ri as int),
                                    locale,
                                    public,
                                ) + repeat_entry(
                                    e,
                                    occ_count(recipe.locales@.subrange(0, lj + 1), locale),
                                ));
                                let se = search_entry_of(*recipe, locale, public);
                                assert(search_view_views(search_views@) =~= search_view_views(
                                    searchb,
                                ).push(se));
                                assert(repeat_entry(se, occ + 1) == repeat_entry(se, occ).push(se));
                                assert((locale_search_spec(
                                    sorted@.subrange(0, ri as int),
                                    locale,
                                    public,
                                ) + repeat_entry(se, occ)).push(se) =~= locale_search_spec(
                                    sorted@.subrange(0, ri as int),
                                    locale,
                                    public,
                                ) + repeat_entry(se, occ).push(se));
                                assert(search_view_views(search_views@) =~= locale_search_spec(
                                    sorted@.subrange(0, ri as int),
                                    locale,
                                    public,
                                ) + repeat_entry(
                                    se,
                                    occ_count(recipe.locales@.subrange(0, lj + 1), locale),
                                ));
                                assert forall|x: Seq<char>|
                                    #[trigger] group_has(categorized@, x) implies exists|rj: int|
                                    0 <= rj < sorted@.len() && published_in(sorted@[rj], locale)
                                        && x == group_key_of(sorted@[rj], locale, false) by {
                                    if group_has(catsb, x) {
                                    } else {
                                        assert(x == group_key_of(*recipe, locale, false));
                                        assert((recipe.locales@[lj as int])@ == locale);
                                        assert(published_in(sorted@[ri as int], locale));
                                        assert(0 <= ri < sorted@.len() && published_in(
                                            sorted@[ri as int],
                                            locale,
                                        ) && x == group_key_of(sorted@[ri as int], locale, false));
                                    }
                                }
                                assert forall|x: Seq<char>|
                                    #[trigger] group_has(cuisines@, x) implies exists|rj: int|
                                    0 <= rj < sorted@.len() && published_in(sorted@[rj], locale)
                                        && x == group_key_of(sorted@[rj], locale, true) by {
                                    if group_has(cuisb, x) {
                                    } else {
                                        assert(x == group_key_of(*recipe, locale, true));
                                        assert((recipe.locales@[lj as int])@ == locale);
                                        assert(published_in(sorted@[ri as int], locale));
                                        assert(0 <= ri < sorted@.len() && published_in(
                                            sorted@[ri as int],
                                            locale,
                                        ) && x == group_key_of(sorted@[ri as int], locale, true));
                                    }
                                }
                                assert forall|rj: int|
                                    0 <= rj < ri && published_in(
                                        #[trigger] sorted@[rj],
                                        locale,
                                    ) implies group_has(
                                    categorized@,
                                    group_key_of(sorted@[rj], locale, false),
                                ) && group_has(cuisines@, group_key_of(sorted@[rj], locale, true)) by {
                                    assert(group_has(catsb, group_key_of(sorted@[rj], locale, false)));
                                    assert(group_has(cuisb, group_key_of(sorted@[rj], locale, true)));
                                }
                            }
                        },
                        Err(e) => {
                            proof {
                                assert((recipe.locales@[lj as int])@ == locale);
                                assert(published_in(sorted@[ri as int], locale));
                                assert(!plan_ok(
                                    recipes@,
                                    ids_with_images@,
                                    site_locales@,
                                    public,
                                )) by {
                                    if plan_ok(recipes@, ids_with_images@, site_locales@, public) {
                                        assert(corpus_spec(recipes@)[ri as int] == sorted@[ri as int]);
                                        assert(published_in(
                                            corpus_spec(recipes@)[ri as int],
                                            (site_locales@[li as int])@,
                                        ));
                                        assert(corpus_spec(recipes@)[ri as int].projectable(
                                            Some(site_locales@[li as int]@),
                                            site_locales@,
                                        ) && recipe_joins_ok(
                                            corpus_spec(recipes@)[ri as int],
                                            site_locales@[li as int]@,
                                            public,
                                            seq_contains_str(
                                                ids_with_images@,
                                                corpus_spec(recipes@)[ri as int].id@,
                                            ),
                                        ));
                                    }
                                }
                            }
                            return Err(e);
                        },
                    }
                }
                proof {
                    assert(recipe.locales@.subrange(0, lj + 1).drop_last()
                        =~= recipe.locales@.subrange(0, lj as int));
                    assert(recipe.locales@.subrange(0, lj + 1).last()
                        == recipe.locales@[lj as int]);
                }
                lj += 1;
            }
            proof {
                assert(recipe.locales@.subrange(0, recipe.locales@.len() as int)
                    =~= recipe.locales@);
                assert(sorted@.subrange(0, ri + 1).drop_last() =~= sorted@.subrange(0, ri as int));
                assert(sorted@.subrange(0, ri + 1).last() == sorted@[ri as int]);
                assert(pair_views(recipe_links@) =~= locale_links_spec(
                    sorted@.subrange(0, ri + 1),
                    locale,
                    public,
                ));
                assert(search_view_views(search_views@) =~= locale_search_spec(
                    sorted@.subrange(0, ri + 1),
                    locale,
                    public,
                ));
                assert forall|rj: int|
                    0 <= rj < ri + 1 && published_in(#[trigger] sorted@[rj], locale) implies (
                sorted@[rj].projectable(Some(locale), site_locales@) && recipe_joins_ok(
                    sorted@[rj],
                    locale,
                    public,
                    seq_contains_str(ids_with_images@, sorted@[rj].id@),
                ) && has_recipe_page(pages@, links@, sorted@[rj], locale, public, site_locales@)
                    && group_has(categorized@, group_key_of(sorted@[rj], locale, false))
                    && group_has(cuisines@, group_key_of(sorted@[rj], locale, true))) by {
                    if rj == ri {
                        assert(published_in(*recipe, locale));
                        let o = choose|o: int|
                            0 <= o < recipe.locales@.len() && (recipe.locales@[o])@ == locale;
                        assert(0 <= o < recipe.locales@.len() && (#[trigger] recipe.locales@[o])@
                            == locale);
                    }
                }
            }
            ri += 1;
        }

        proof {
            assert(sorted@.subrange(0, sorted@.len() as int) =~= sorted@);
            assert(pair_views(recipe_links@) == locale_links_spec(sorted@, locale, public));
            assert(search_view_views(search_views@) == locale_search_spec(
                sorted@,
                locale,
                public,
            ));
        }
        let mut summary_pages = locale_index_pages(
            site_locale,
            &site.public_url,
            recipe_links,
            search_views,
            site,
        );
        let ghost pages_a = pages@;
        let ghost links_a = links@;
        let ghost summary0 = summary_pages@;
        pages.append(&mut summary_pages);
        proof {
            assert(seq_contains_str(site_locales@, site_locales@[li as int]@));
            assert forall|p: int| 0 <= p < pages@.len() implies page_rooted(
                #[trigger] pages@[p],
                site_locales@,
            ) by {
                if p >= pages_a.len() {
                }
            }
            lemma_pairs_paged_grow(
                pages_a,
                pages@,
                links_a,
                links@,
                sorted@,
                site_locales@,
                li as int,
                public,
            );
            lemma_locale_pairs_paged_grow(
                pages_a,
                pages@,
                links_a,
                links@,
                sorted@,
                locale,
                sorted@.len() as int,
                site_locales@,
                public,
            );
            lemma_summaries_grow(pages_a, pages@, sorted@, site_locales@, li as int, public);
            assert(pages@[pages_a.len() as int] == summary0[0]);
            assert(locale_index_page_at(pages@[pages_a.len() as int], sorted@, locale, public));
            assert(has_locale_index_page(pages@, sorted@, locale, public));
            assert(pages@[pages_a.len() as int + 1] == summary0[1]);
            assert(locale_search_page_at(
                pages@[pages_a.len() as int + 1],
                sorted@,
                locale,
                public,
            ));
            assert(has_locale_search_page(pages@, sorted@, locale, public));
            assert forall|k: int| 0 <= k < li + 1 implies has_locale_index_page(
                pages@,
                sorted@,
                (#[trigger] site_locales@[k])@,
                public,
            ) && has_locale_search_page(pages@, sorted@, (site_locales@[k])@, public) by {}
            assert(summaries_paged(pages@, sorted@, site_locales@, li + 1, public));
        }

        let locale_url = match url_join(site.public_url.as_str(), with_slash(site_locale).as_str())
        {
            Some(u) => u,
            None => {
                proof {
                    assert(!url_join_ok(public, locale + "/"@));
                    assert(!plan_ok(recipes@, ids_with_images@, site_locales@, public)) by {
                        if plan_ok(recipes@, ids_with_images@, site_locales@, public) {
                            assert(locale_group_joins_ok(
                                corpus_spec(recipes@),
                                (site_locales@[li as int])@,
                                public,
                            ));
                        }
                    }
                }
                return Err(Error::ParseError(site.public_url.clone()));
            },
        };
        proof {
            assert(url_join_ok(public, locale + "/"@));
            assert(locale_url@ == url_joined(public, locale + "/"@));
        }
        let categories_url = match url_join(locale_url.as_str(), "categories/") {
            Some(u) => u,
            None => {
                proof {
                    reveal_strlit("categories/");
                    assert(!url_join_ok(url_joined(public, locale + "/"@), "categories/"@));
                    assert(!plan_ok(recipes@, ids_with_images@, site_locales@, public)) by {
                        if plan_ok(recipes@, ids_with_images@, site_locales@, public) {
                            assert(locale_group_joins_ok(
                                corpus_spec(recipes@),
                                (site_locales@[li as int])@,
                                public,
                            ));
                        }
                    }
                }
                return Err(Error::ParseError(locale_url));
            },
        };
        let (mut cat_pages, cat_links) = match plan_group_indexes(
            &categorized,
            "categories",
            &categories_url,
            site,
            site_locale,
        ) {
            Ok(o) => o,
            Err(e) => {
                proof {
                    assert(exists|g: int|
                        0 <= g < categorized@.len() && !url_join_ok(
                            categories_url@,
                            crate::model::slug_of((#[trigger] categorized@[g]).0@) + "/"@,
                        ));
                    let g = choose|g: int|
                        0 <= g < categorized@.len() && !url_join_ok(
                            categories_url@,
                            crate::model::slug_of((#[trigger] categorized@[g]).0@) + "/"@,
                        );
                    let x = categorized@[g].0@;
                    lemma_group_index(categorized@, x);
                    assert(group_has(categorized@, x));
                    let rj = choose|rj: int|
                        0 <= rj < sorted@.len() && published_in(sorted@[rj], locale) && x
                            == group_key_of(sorted@[rj], locale, false);
                    assert(!plan_ok(recipes@, ids_with_images@, site_locales@, public)) by {
                        if plan_ok(recipes@, ids_with_images@, site_locales@, public) {
                            assert(locale_group_joins_ok(
                                corpus_spec(recipes@),
                                (site_locales@[li as int])@,
                                public,
                            ));
                            assert(corpus_spec(recipes@)[rj] == sorted@[rj]);
                            assert(published_in(corpus_spec(recipes@)[rj], locale));
                            assert(url_join_ok(
                                url_joined(url_joined(public, locale + "/"@), "categories/"@),
                                crate::model::slug_of(
                                    group_key_of(corpus_spec(recipes@)[rj], locale, false),
                                ) + "/"@,
                            ));
                        }
                    }
                }
                return Err(e);
            },
        };
        let ghost pages1 = pages@;
        let ghost links1 = links@;
        let ghost cat_pages0 = cat_pages@;
        pages.append(&mut cat_pages);
        proof {
            assert forall|p: int| 0 <= p < pages@.len() implies page_rooted(
                #[trigger] pages@[p],
                site_locales@,
            ) by {
                if p >= pages1.len() {
                    assert(pages@[p] == cat_pages0[p - pages1.len()]);
                    assert(crate::model::str_views(cat_pages0[p - pages1.len()].path@).len() > 0);
                    assert(cat_pages0[p - pages1.len()].path@[0]@ == site_locales@[li as int]@);
                    assert(seq_contains_str(site_locales@, site_locales@[li as int]@));
                }
            }
            lemma_pairs_paged_grow(
                pages1,
                pages@,
                links1,
                links@,
                sorted@,
                site_locales@,
                li as int,
                public,
            );
            lemma_locale_pairs_paged_grow(
                pages1,
                pages@,
                links1,
                links@,
                sorted@,
                locale,
                sorted@.len() as int,
                site_locales@,
                public,
            );
            lemma_summaries_grow(pages1, pages@, sorted@, site_locales@, li + 1, public);
        }

        let cuisines_url = match url_join(locale_url.as_str(), "cuisines/") {
            Some(u) => u,
            None => {
                proof {
                    reveal_strlit("cuisines/");
                    assert(!url_join_ok(url_joined(public, locale + "/"@), "cuisines/"@));
                    assert(!plan_ok(recipes@, ids_with_images@, site_locales@, public)) by {
                        if plan_ok(recipes@, ids_with_images@, site_locales@, public) {
                            assert(locale_group_joins_ok(
                                corpus_spec(recipes@),
                                (site_locales@[li as int])@,
                                public,
                            ));
                        }
                    }
                }
                return Err(Error::ParseError(locale_url));
            },
        };
        let (mut cui_pages, cui_links) = match plan_group_indexes(
            &cuisines,
            "cuisines",
            &cuisines_url,
            site,
            site_locale,
        ) {
            Ok(o) => o,
            Err(e) => {
                proof {
                    assert(exists|g: int|
                        0 <= g < cuisines@.len() && !url_join_ok(
                            cuisines_url@,
                            crate::model::slug_of((#[trigger] cuisines@[g]).0@) + "/"@,
                        ));
                    let g = choose|g: int|
                        0 <= g < cuisines@.len() && !url_join_ok(
                            cuisines_url@,
                            crate::model::slug_of((#[trigger] cuisines@[g]).0@) + "/"@,
                        );
                    let x = cuisines@[g].0@;
                    lemma_group_index(cuisines@, x);
                    assert(group_has(cuisines@, x));
                    let rj = choose|rj: int|
                        0 <= rj < sorted@.len() && published_in(sorted@[rj], locale) && x
                            == group_key_of(sorted@[rj], locale, true);
                    assert(!plan_ok(recipes@, ids_with_images@, site_locales@, public)) by {
                        if plan_ok(recipes@, ids_with_images@, site_locales@, public) {
                            assert(locale_group_joins_ok(
                                corpus_spec(recipes@),
                                (site_locales@[li as int])@,
                                public,
                            ));
                            assert(corpus_spec(recipes@)[rj] == sorted@[rj]);
                            assert(published_in(corpus_spec(recipes@)[rj], locale));
                            assert(url_join_ok(
                                url_joined(url_joined(public, locale + "/"@), "cuisines/"@),
                                crate::model::slug_of(
                                    group_key_of(corpus_spec(recipes@)[rj], locale, true),
                                ) + "/"@,
                            ));
                        }
                    }
                }
                return Err(e);
            },
        };
        let ghost pages2 = pages@;
        let ghost links2 = links@;
        let ghost cui_pages0 = cui_pages@;
        pages.append(&mut cui_pages);
        proof {
            assert forall|p: int| 0 <= p < pages@.len() implies page_rooted(
                #[trigger] pages@[p],
                site_locales@,
            ) by {
                if p >= pages2.len() {
                    assert(pages@[p] == cui_pages0[p - pages2.len()]);
                    assert(crate::model::str_views(cui_pages0[p - pages2.len()].path@).len() > 0);
                    assert(cui_pages0[p - pages2.len()].path@[0]@ == site_locales@[li as int]@);
                    assert(seq_contains_str(site_locales@, site_locales@[li as int]@));
                }
            }
            lemma_pairs_paged_grow(
                pages2,
                pages@,
                links2,
                links@,
                sorted@,
                site_locales@,
                li as int,
                public,
            );
            lemma_locale_pairs_paged_grow(
                pages2,
                pages@,
                links2,
                links@,
                sorted@,
                locale,
                sorted@.len() as int,
                site_locales@,
                public,
            );
            lemma_summaries_grow(pages2, pages@, sorted@, site_locales@, li + 1, public);
        }

        let ghost links3 = links@;
        let mut ci: usize = 0;
        while ci < cat_links.len()
            invariant
                0 <= ci <= cat_links@.len(),
                0 <= li < site_locales@.len(),
                links_unique(links@),
                seq_contains_str(links@, site.public_url@),
                forall|k: int|
                    0 <= k <= li ==> seq_contains_str(
                        links@,
                        locale_root_link(*site, #[trigger] site_locales@[k]@),
                    ),
                forall|x: Seq<char>|
                    seq_contains_str(links3, x) ==> #[trigger] seq_contains_str(links@, x),
                forall|j: int|
                    0 <= j < ci ==> seq_contains_str(links@, (#[trigger] cat_links@[j])@),
            decreases cat_links@.len() - ci,
        {
            links_insert(&mut links, cat_links[ci].clone());
            proof {
                assert forall|j: int| 0 <= j < ci + 1 implies seq_contains_str(
                    links@,
                    (#[trigger] cat_links@[j])@,
                ) by {}
            }
            ci += 1;
        }
        let ghost links4 = links@;
        let mut cj: usize = 0;
        while cj < cui_links.len()
            invariant
                0 <= cj <= cui_links@.len(),
                0 <= li < site_locales@.len(),
                links_unique(links@),
                seq_contains_str(links@, site.public_url@),
                forall|k: int|
                    0 <= k <= li ==> seq_contains_str(
                        links@,
                        locale_root_link(*site, #[trigger] site_locales@[k]@),
                    ),
                forall|x: Seq<char>|
                    seq_contains_str(links3, x) ==> #[trigger] seq_contains_str(links@, x),
                forall|x: Seq<char>|
                    seq_contains_str(links4, x) ==> #[trigger] seq_contains_str(links@, x),
                forall|j: int|
                    0 <= j < cj ==> seq_contains_str(links@, (#[trigger] cui_links@[j])@),
            decreases cui_links@.len() - cj,
        {
            links_insert(&mut links, cui_links[cj].clone());
            proof {
                assert forall|j: int| 0 <= j < cj + 1 implies seq_contains_str(
                    links@,
                    (#[trigger] cui_links@[j])@,
                ) by {}
            }
            cj += 1;
        }
        proof {
            assert forall|j: int| 0 <= j < cat_links@.len() implies seq_contains_str(
                links@,
                (#[trigger] cat_links@[j])@,
            ) by {
                assert(seq_contains_str(links4, cat_links@[j]@));
            }
        }
        proof {
            lemma_pairs_paged_grow(
                pages@,
                pages@,
                links3,
                links@,
                sorted@,
                site_locales@,
                li as int,
                public,
            );
            lemma_locale_pairs_paged_grow(
                pages@,
                pages@,
                links3,
                links@,
                sorted@,
                locale,
                sorted@.len() as int,
                site_locales@,
                public,
            );
            reveal_strlit("categories/");
            reveal_strlit("cuisines/");
            assert forall|ri2: int|
                0 <= ri2 < sorted@.len() && published_in(#[trigger] sorted@[ri2], locale) implies (
            url_join_ok(
                url_joined(url_joined(public, locale + "/"@), "categories/"@),
                crate::model::slug_of(group_key_of(sorted@[ri2], locale, false)) + "/"@,
            ) && url_join_ok(
                url_joined(url_joined(public, locale + "/"@), "cuisines/"@),
                crate::model::slug_of(group_key_of(sorted@[ri2], locale, true)) + "/"@,
            )) by {
                let xc = group_key_of(sorted@[ri2], locale, false);
                assert(group_has(categorized@, xc));
                lemma_group_index(categorized@, xc);
                assert(categorized@[group_index(categorized@, xc)].0@ == xc);
                assert(url_join_ok(
                    categories_url@,
                    crate::model::slug_of(
                        (categorized@[group_index(categorized@, xc)]).0@,
                    ) + "/"@,
                ));
                let xu = group_key_of(sorted@[ri2], locale, true);
                assert(group_has(cuisines@, xu));
                lemma_group_index(cuisines@, xu);
                assert(cuisines@[group_index(cuisines@, xu)].0@ == xu);
                assert(url_join_ok(
                    cuisines_url@,
                    crate::model::slug_of((cuisines@[group_index(cuisines@, xu)]).0@) + "/"@,
                ));
            }
            assert(locale_group_joins_ok(sorted@, locale, public));
            lemma_group_links_grow(links3, links@, sorted@, site_locales@, li as int, public);
            assert(crate::model::str_views(cat_links@).len() == categorized@.len() + 1);
            assert(cat_links@.len() == categorized@.len() + 1);
            assert(crate::model::str_views(cat_links@)[categorized@.len() as int]
                == categories_url@);
            assert(cat_links@[categorized@.len() as int]@ == categories_url@);
            assert(seq_contains_str(links@, categories_url@));
            assert(crate::model::str_views(cui_links@).len() == cuisines@.len() + 1);
            assert(cui_links@.len() == cuisines@.len() + 1);
            assert(crate::model::str_views(cui_links@)[cuisines@.len() as int] == cuisines_url@);
            assert(cui_links@[cuisines@.len() as int]@ == cuisines_url@);
            assert(seq_contains_str(links@, cui_links@[cuisines@.len() as int]@));
            assert(seq_contains_str(links@, cuisines_url@));
            assert forall|ri2: int|
                0 <= ri2 < sorted@.len() && published_in(#[trigger] sorted@[ri2], locale) implies (
            seq_contains_str(
                links@,
                url_joined(
                    categories_url@,
                    crate::model::slug_of(group_key_of(sorted@[ri2], locale, false)) + "/"@,
                ),
            ) && seq_contains_str(
                links@,
                url_joined(
                    cuisines_url@,
                    crate::model::slug_of(group_key_of(sorted@[ri2], locale, true)) + "/"@,
                ),
            )) by {
                let xc = group_key_of(sorted@[ri2], locale, false);
                assert(group_has(categorized@, xc));
                lemma_group_index(categorized@, xc);
                let g = group_index(categorized@, xc);
                assert(categorized@[g].0@ == xc);
                assert(crate::model::str_views(cat_links@)[g] == group_link_views(
                    categorized@,
                    categories_url@,
                ).map(|i: int, e: (Seq<char>, Seq<char>)| e.0).push(categories_url@)[g]);
                assert(group_link_views(categorized@, categories_url@)[g] == (
                    url_joined(categories_url@, crate::model::slug_of(categorized@[g].0@) + "/"@),
                    categorized@[g].0@,
                ));
                assert(cat_links@[g]@ == url_joined(
                    categories_url@,
                    crate::model::slug_of(xc) + "/"@,
                ));
                assert(seq_contains_str(links@, cat_links@[g]@));
                let xu = group_key_of(sorted@[ri2], locale, true);
                assert(group_has(cuisines@, xu));
                lemma_group_index(cuisines@, xu);
                let h = group_index(cuisines@, xu);
                assert(cuisines@[h].0@ == xu);
                assert(crate::model::str_views(cui_links@)[h] == group_link_views(
                    cuisines@,
                    cuisines_url@,
                ).map(|i: int, e: (Seq<char>, Seq<char>)| e.0).push(cuisines_url@)[h]);
                assert(group_link_views(cuisines@, cuisines_url@)[h] == (
                    url_joined(cuisines_url@, crate::model::slug_of(cuisines@[h].0@) + "/"@),
                    cuisines@[h].0@,
                ));
                assert(cui_links@[h]@ == url_joined(
                    cuisines_url@,
                    crate::model::slug_of(xu) + "/"@,
                ));
                assert(seq_contains_str(links@, cui_links@[h]@));
            }
            assert(group_index_links_collected(links@, site_locales@, li + 1, public)) by {
                assert forall|k: int| 0 <= k < li + 1 implies seq_contains_str(
                    links@,
                    url_joined(
                        url_joined(public, (#[trigger] site_locales@[k])@ + "/"@),
                        "categories/"@,
                    ),
                ) && seq_contains_str(
                    links@,
                    url_joined(
                        url_joined(public, (site_locales@[k])@ + "/"@),
                        "cuisines/"@,
                    ),
                ) by {
                    if k == li {
                        assert(categories_url@ == url_joined(
                            url_joined(public, locale + "/"@),
                            "categories/"@,
                        ));
                        assert(cuisines_url@ == url_joined(
                            url_joined(public, locale + "/"@),
                            "cuisines/"@,
                        ));
                    }
                }
            }
            assert(group_page_links_collected(links@, sorted@, site_locales@, li + 1, public)) by {
                assert forall|k: int, ri2: int|
                    0 <= k < li + 1 && 0 <= ri2 < sorted@.len() && published_in(
                        #[trigger] sorted@[ri2],
                        (#[trigger] site_locales@[k])@,
                    ) implies seq_contains_str(
                    links@,
                    url_joined(
                        url_joined(url_joined(public, site_locales@[k]@ + "/"@), "categories/"@),
                        crate::model::slug_of(group_key_of(sorted@[ri2], site_locales@[k]@, false))
                            + "/"@,
                    ),
                ) && seq_contains_str(
                    links@,
                    url_joined(
                        url_joined(url_joined(public, site_locales@[k]@ + "/"@), "cuisines/"@),
                        crate::model::slug_of(group_key_of(sorted@[ri2], site_locales@[k]@, true))
                            + "/"@,
                    ),
                ) by {
                    if k == li {
                        assert(categories_url@ == url_joined(
                            url_joined(public, locale + "/"@),
                            "categories/"@,
                        ));
                        assert(cuisines_url@ == url_joined(
                            url_joined(public, locale + "/"@),
                            "cuisines/"@,
                        ));
                    }
                }
            }
            assert forall|k: int, ri2: int|
                0 <= k < li + 1 && 0 <= ri2 < sorted@.len() && published_in(
                    #[trigger] sorted@[ri2],
                    (#[trigger] site_locales@[k])@,
                ) implies sorted@[ri2].projectable(Some(site_locales@[k]@), site_locales@)
                && recipe_joins_ok(
                sorted@[ri2],
                site_locales@[k]@,
                public,
                seq_contains_str(ids_with_images@, sorted@[ri2].id@),
            ) by {}
            assert forall|k: int, ri2: int|
                0 <= k < li + 1 && 0 <= ri2 < sorted@.len() && published_in(
                    #[trigger] sorted@[ri2],
                    (#[trigger] site_locales@[k])@,
                ) implies has_recipe_page(
                pages@,
                links@,
                sorted@[ri2],
                site_locales@[k]@,
                public,
                site_locales@,
            ) by {}
        }

        li += 1;
    }

    let ghost pages_f = pages@;
    let ghost links_f = links@;
    let mut home_path: Vec<String> = Vec::new();
    home_path.push(String::from_str("index.html"));
    pages.push(
        PlannedPage {
            path: home_path,
            content: PageContent::Home(
                HomeView {
                    locales: crate::model::clone_string_vec(site_locales),
                    title: String::from_str("Just Recipes - Home"),
                    site: site.duplicate(),
                    self_url: site.public_url.clone(),
                },
            ),
        },
    );
    let mut about_path: Vec<String> = Vec::new();
    about_path.push(String::from_str("about"));
    about_path.push(String::from_str("index.html"));
    pages.push(
        PlannedPage {
            path: about_path,
            content: PageContent::About(
                HomeView {
                    locales: crate::model::clone_string_vec(site_locales),
                    title: String::from_str("Just Recipes Blog - About"),
                    site: site.duplicate(),
                    self_url: site.public_url.clone().concat("about/"),
                },
            ),
        },
    );
    let mut sitemap_path: Vec<String> = Vec::new();
    sitemap_path.push(String::from_str("sitemap.xml"));
    pages.push(
        PlannedPage {
            path: sitemap_path,
            content: PageContent::Sitemap(
                SiteMapView {
                    links: crate::model::clone_string_vec(&links),
                    site: site.duplicate(),
                },
            ),
        },
    );

    proof {
        lemma_pairs_paged_grow(
            pages_f,
            pages@,
            links_f,
            links@,
            sorted@,
            site_locales@,
            site_locales@.len() as int,
            public,
        );
        lemma_summaries_grow(
            pages_f,
            pages@,
            sorted@,
            site_locales@,
            site_locales@.len() as int,
            public,
        );
        assert(summaries_paged(
            pages@,
            corpus_spec(recipes@),
            site_locales@,
            site_locales@.len() as int,
            public,
        ));
        assert(group_page_links_collected(
            links@,
            corpus_spec(recipes@),
            site_locales@,
            site_locales@.len() as int,
            public,
        ));
        assert(pairs_paged(
            pages@,
            links@,
            corpus_spec(recipes@),
            site_locales@,
            site_locales@.len() as int,
            public,
        ));
        assert(plan_ok(recipes@, ids_with_images@, site_locales@, public)) by {
            assert(pairs_plannable(
                corpus_spec(recipes@),
                site_locales@,
                site_locales@.len() as int,
                public,
                ids_with_images@,
            ));
            assert forall|k: int| 0 <= k < site_locales@.len() implies locale_group_joins_ok(
                corpus_spec(recipes@),
                (#[trigger] site_locales@[k])@,
                public,
            ) by {
                assert(locale_group_joins_ok(sorted@, site_locales@[k]@, public));
            }
        }
    }
    Ok(BuildPlan { pages, image_copies, links, skipped_ids })
}

} // verus!
