//! The article query layer: slugs, creation, search, the feed, favorites, updates, deletion
//! and the tag listing.

use vstd::prelude::*;
use vstd::string::*;
use crate::config::{DEFAULT_LIMIT, SUFFIX_LEN};
use crate::db::article_proofs::{
    lemma_delete_keeps_wf, lemma_favorite_keeps_wf, lemma_insert_keeps_wf, lemma_replace_keeps_wf,
    lemma_tag_among_next, lemma_tag_in_next, lemma_unfavorite_keeps_wf,
};
use crate::db::pagination::{page, OffsetLimit};
use crate::db::seqs::{
    lemma_filter_kept, lemma_filter_none, lemma_without_pair, not_for, pair_index, without_pair,
};
use crate::db::users::{profile_for, to_profile_for};
use crate::db::{views, Conn, ConnModel};
use crate::models::comment::{Comment, CommentModel};
use crate::models::article::{attach_article, Article, ArticleJson, ArticleJsonModel, ArticleModel};
use crate::text::{clone_texts, push_char, texts_contain};
use crate::time::Timestamp;

verus! {

/// The slug that `slug::slugify` makes of a title: its lowercase transliteration, the
/// words joined by hyphens.
pub uninterp spec fn slug_of(title: Seq<char>) -> Seq<char>;

/// Whether `c` is a lowercase ASCII letter, a digit or a hyphen.
pub open spec fn is_slug_char(c: char) -> bool {
    ('a' <= c && c <= 'z') || ('0' <= c && c <= '9') || c == '-'
}

/// Whether `text` is made of lowercase ASCII letters, digits and hyphens, with no hyphen
/// at either end and no two hyphens in a row.
pub open spec fn is_slug_text(text: Seq<char>) -> bool {
    &&& forall|i: int| 0 <= i < text.len() ==> is_slug_char(#[trigger] text[i])
    &&& text.len() > 0 ==> text[0] != '-' && text[text.len() - 1] != '-'
    &&& forall|i: int| 0 <= i < text.len() - 1 ==> !(#[trigger] text[i] == '-' && text[i + 1] == '-')
}

/// `slug::slugify`.
///
/// Trusted: the result is the text named by [`slug_of`], and it is made as the outside
/// function documents: of lowercase letters, digits and single hyphens between them.
#[verifier::external_body]
fn transliterate(title: &str) -> (slug: String)
    ensures
        slug@ == slug_of(title@),
        is_slug_text(slug@),
{
    slug::slugify(title)
}

/// Whether `c` is an ASCII letter or digit.
pub open spec fn is_alphanumeric(c: char) -> bool {
    ('a' <= c && c <= 'z') || ('A' <= c && c <= 'Z') || ('0' <= c && c <= '9')
}

/// One draw of `rand::distributions::Alphanumeric` from `rand::thread_rng`.
///
/// Trusted: whatever is drawn is an ASCII letter or digit.
#[verifier::external_body]
fn random_alphanumeric() -> (c: char)
    ensures
        is_alphanumeric(c),
{
    char::from(rand::Rng::sample(&mut rand::thread_rng(), rand::distributions::Alphanumeric))
}

/// Whether `text` is made of ASCII letters and digits only.
pub open spec fn all_alphanumeric(text: Seq<char>) -> bool {
    forall|i: int| 0 <= i < text.len() ==> is_alphanumeric(#[trigger] text[i])
}

/// A random text of `len` ASCII letters and digits.
pub fn generate_suffix(len: usize) -> (suffix: String)
    ensures
        suffix@.len() == len,
        all_alphanumeric(suffix@),
{
    let mut suffix = String::new();
    let mut i: usize = 0;
    while i < len
        invariant
            i <= len,
            suffix@.len() == i,
            all_alphanumeric(suffix@),
        decreases len - i,
    {
        let c = random_alphanumeric();
        push_char(&mut suffix, c);
        i += 1;
    }
    suffix
}

/// The slug `base` followed by a hyphen and `suffix`.
pub open spec fn suffixed(base: Seq<char>, suffix: Seq<char>) -> Seq<char> {
    base + seq!['-'] + suffix
}

/// Appends a hyphen and `suffix` to the slug `base`.
pub fn with_suffix(base: String, suffix: &str) -> (slug: String)
    ensures
        slug@ == suffixed(base@, suffix@),
{
    let mut slug = base;
    push_char(&mut slug, '-');
    slug.append(suffix);
    assert(slug@ =~= suffixed(base@, suffix@));
    slug
}

/// Whether `text` can stand in a URL as it is: ASCII letters, digits and hyphens only.
pub open spec fn url_safe(text: Seq<char>) -> bool {
    forall|i: int| 0 <= i < text.len() ==> is_alphanumeric(#[trigger] text[i]) || text[i] == '-'
}

/// Whether `slug` is a slug that [`slugify`] can make of `title`.
pub open spec fn is_slug_for(slug: Seq<char>, title: Seq<char>, random_suffix: bool) -> bool {
    if random_suffix {
        exists|suffix: Seq<char>|
            #![trigger suffixed(slug_of(title), suffix)]
            suffix.len() == SUFFIX_LEN && all_alphanumeric(suffix) && slug == suffixed(
                slug_of(title),
                suffix,
            )
    } else {
        slug == slug_of(title)
    }
}

/// The slug of a title. With `random_suffix`, a hyphen and [`SUFFIX_LEN`] random letters
/// and digits follow the transliteration, so that two articles of one title seldom collide.
pub fn slugify(title: &str, random_suffix: bool) -> (slug: String)
    ensures
        is_slug_for(slug@, title@, random_suffix),
        slug_of(title@).is_prefix_of(slug@),
        url_safe(slug@),
{
    let base = transliterate(title);
    if random_suffix {
        let suffix = generate_suffix(SUFFIX_LEN);
        let slug = with_suffix(base, suffix.as_str());
        assert(slug@ == suffixed(slug_of(title@), suffix@));
        assert(slug@.subrange(0, slug_of(title@).len() as int) =~= slug_of(title@));
        assert forall|i: int| 0 <= i < slug@.len() implies is_alphanumeric(#[trigger] slug@[i])
            || slug@[i] == '-' by {
            let n = slug_of(title@).len() as int;
            if i < n {
                assert(is_slug_char(slug_of(title@)[i]));
            } else if i > n {
                assert(slug@[i] == suffix@[i - n - 1]);
            }
        }
        slug
    } else {
        assert forall|i: int| 0 <= i < base@.len() implies is_alphanumeric(#[trigger] base@[i])
            || base@[i] == '-' by {
            assert(is_slug_char(base@[i]));
        }
        assert(base@.subrange(0, base@.len() as int) =~= base@);
        base
    }
}

/// An article about to be stored.
pub struct NewArticle<'a> {
    pub title: &'a str,
    pub description: &'a str,
    pub body: &'a str,
    pub slug: &'a str,
    pub author: i32,
    pub tag_list: &'a Vec<String>,
}

/// Mathematical value of a [`NewArticle`].
pub ghost struct NewArticleModel {
    pub title: Seq<char>,
    pub description: Seq<char>,
    pub body: Seq<char>,
    pub slug: Seq<char>,
    pub author: i32,
    pub tag_list: Seq<Seq<char>>,
}

impl<'a> View for NewArticle<'a> {
    type V = NewArticleModel;

    open spec fn view(&self) -> NewArticleModel {
        NewArticleModel {
            title: self.title@,
            description: self.description@,
            body: self.body@,
            slug: self.slug@,
            author: self.author,
            tag_list: self.tag_list.deep_view(),
        }
    }
}

/// The article to store that is made of these parts.
pub open spec fn new_article_of(
    title: Seq<char>,
    description: Seq<char>,
    body: Seq<char>,
    slug: Seq<char>,
    author: i32,
    tag_list: Seq<Seq<char>>,
) -> NewArticleModel {
    NewArticleModel { title, description, body, slug, author, tag_list }
}

/// Why an article could not be stored.
#[derive(Debug, PartialEq, Eq, Structural, Clone, Copy)]
pub enum ArticleCreationError {
    /// The title leaves nothing to make a slug of.
    BlankSlug,
    /// The author is no user.
    UnknownAuthor,
    /// Another article has the slug.
    SlugTaken,
    /// No identifier is left.
    IdsExhausted,
    /// The system clock reads outside the years that an instant can hold.
    ClockOutOfRange,
}

/// What stands in the way of storing `new`, if anything does.
pub open spec fn insert_obstacle(m: ConnModel, new: NewArticleModel) -> Option<ArticleCreationError> {
    if new.slug.len() == 0 {
        Some(ArticleCreationError::BlankSlug)
    } else if !m.has_user(new.author) {
        Some(ArticleCreationError::UnknownAuthor)
    } else if m.has_slug(new.slug) {
        Some(ArticleCreationError::SlugTaken)
    } else if m.next_article_id == i32::MAX {
        Some(ArticleCreationError::IdsExhausted)
    } else {
        None
    }
}

/// The article that a store in state `m` makes of `new` at the instant `now`.
pub open spec fn new_article_model(m: ConnModel, new: NewArticleModel, now: int) -> ArticleModel {
    ArticleModel {
        id: m.next_article_id,
        slug: new.slug,
        title: new.title,
        description: new.description,
        body: new.body,
        author: new.author,
        tag_list: new.tag_list,
        created_at: now,
        updated_at: now,
        favorites_count: 0,
    }
}

/// Where an article created at `now` goes in `articles`: behind every article that is as
/// recent or more recent.
pub open spec fn slot_for(articles: Seq<ArticleModel>, now: int) -> int
    decreases articles.len(),
{
    if articles.len() == 0 || articles[0].created_at < now {
        0
    } else {
        1 + slot_for(articles.drop_first(), now)
    }
}

/// The store `m` after `article` was added under the next identifier.
pub open spec fn with_article(m: ConnModel, article: ArticleModel) -> ConnModel {
    ConnModel {
        articles: m.articles.insert(slot_for(m.articles, article.created_at), article),
        next_article_id: (m.next_article_id + 1) as i32,
        ..m
    }
}

/// The article `a` as the viewer `viewer` sees it in the store `m`: with the author's
/// profile, and favorited where the viewer has favorited it.
pub open spec fn article_json(m: ConnModel, a: ArticleModel, viewer: Option<i32>) -> ArticleJsonModel {
    attach_article(
        a,
        profile_for(m, m.user(a.author), viewer),
        viewer is Some && m.favorited(viewer->0, a.id),
    )
}

/// Whether the user `user_id` has favorited `article`.
pub fn is_favorite(conn: &Conn, article: &Article, user_id: i32) -> (b: bool)
    ensures
        b == conn@.favorited(user_id, article@.id),
{
    pair_index(&conn.favorites, (user_id, article.id)).is_some()
}

/// Shows `article` to `viewer`: joins it with its author's profile and the viewer's
/// favorite flag.
pub fn populate(conn: &Conn, article: Article, viewer: Option<i32>) -> (r: ArticleJson)
    requires
        conn.wf(),
        conn@.has_user(article@.author),
    ensures
        r@ == article_json(conn@, article@, viewer),
{
    let favorited = match viewer {
        Some(v) => is_favorite(conn, &article, v),
        None => false,
    };
    let i = conn.user_index(article.author).unwrap();
    proof {
        conn@.lemma_user_at(i as int);
    }
    let author = to_profile_for(conn, &conn.users[i], viewer);
    article.attach(author, favorited)
}

/// Stores an article whose slug and instant of creation are given.
pub fn insert(conn: &mut Conn, new_article: NewArticle, now: Timestamp) -> (r: Result<
    ArticleJson,
    ArticleCreationError,
>)
    requires
        old(conn).wf(),
    ensures
        final(conn).wf(),
        match insert_obstacle(old(conn)@, new_article@) {
            Some(e) => r == Err::<ArticleJson, ArticleCreationError>(e) && final(conn)@ == old(
                conn,
            )@,
            None => {
                let a = new_article_model(old(conn)@, new_article@, now@);
                &&& r matches Ok(json)
                &&& json@ == article_json(final(conn)@, a, None)
                &&& final(conn)@ == with_article(old(conn)@, a)
            },
        },
{
    if new_article.slug.is_empty() {
        return Err(ArticleCreationError::BlankSlug);
    }
    if conn.user_index(new_article.author).is_none() {
        return Err(ArticleCreationError::UnknownAuthor);
    }
    let slug = new_article.slug.to_owned();
    if conn.slug_index(&slug).is_some() {
        return Err(ArticleCreationError::SlugTaken);
    }
    if conn.next_article_id == i32::MAX {
        return Err(ArticleCreationError::IdsExhausted);
    }
    let article = Article {
        id: conn.next_article_id,
        slug,
        title: new_article.title.to_owned(),
        description: new_article.description.to_owned(),
        body: new_article.body.to_owned(),
        author: new_article.author,
        tag_list: clone_texts(new_article.tag_list),
        created_at: now,
        updated_at: now,
        favorites_count: 0,
    };
    let ghost a = article@;
    let ghost before = conn@;
    assert(a == new_article_model(before, new_article@, now@));
    let mut slot: usize = 0;
    assert(before.articles.skip(0) =~= before.articles);
    while slot < conn.articles.len() && !conn.articles[slot].created_at.is_before(&now)
        invariant
            slot <= conn.articles.len(),
            conn@ == before,
            slot_for(before.articles, now@) == slot + slot_for(
                before.articles.skip(slot as int),
                now@,
            ),
        decreases conn.articles.len() - slot,
    {
        proof {
            let rest = before.articles.skip(slot as int);
            assert(rest[0] == before.articles[slot as int]);
            assert(rest.drop_first() =~= before.articles.skip(slot + 1));
        }
        slot += 1;
    }
    proof {
        let rest = before.articles.skip(slot as int);
        if slot < conn.articles.len() {
            assert(rest[0] == before.articles[slot as int]);
        }
        assert(slot_for(before.articles, now@) == slot);
    }
    let stored = article.clone();
    conn.articles.insert(slot, stored);
    conn.next_article_id = conn.next_article_id + 1;
    proof {
        let after = conn@;
        assert(after.articles =~= before.articles.insert(slot as int, a));
        assert(after == with_article(before, a));
        lemma_insert_keeps_wf(before, a);
    }
    Ok(populate(conn, article, None))
}

/// Whether `after` and `json` are what storing `new` at the instant `now` makes of `before`.
pub open spec fn created(
    before: ConnModel,
    after: ConnModel,
    json: ArticleJsonModel,
    new: NewArticleModel,
    now: int,
) -> bool {
    let a = new_article_model(before, new, now);
    after == with_article(before, a) && json == article_json(after, a, None)
}

/// Creates an article of `author`: derives the slug from the title, reads the clock, and
/// stores the article under the next identifier.
///
/// A slug that is taken is not drawn again: the creation fails with
/// [`ArticleCreationError::SlugTaken`] and the store stays as it was.
pub fn create(
    conn: &mut Conn,
    author: i32,
    title: &str,
    description: &str,
    body: &str,
    tag_list: &Vec<String>,
) -> (r: Result<ArticleJson, ArticleCreationError>)
    requires
        old(conn).wf(),
    ensures
        final(conn).wf(),
        r is Err ==> final(conn)@ == old(conn)@,
        slug_of(title@).len() == 0 ==> r == Err::<ArticleJson, ArticleCreationError>(
            ArticleCreationError::BlankSlug,
        ),
        slug_of(title@).len() > 0 && !old(conn)@.has_user(author) ==> r == Err::<
            ArticleJson,
            ArticleCreationError,
        >(ArticleCreationError::UnknownAuthor),
        r matches Err(e) ==> match e {
            ArticleCreationError::BlankSlug => slug_of(title@).len() == 0,
            ArticleCreationError::UnknownAuthor => !old(conn)@.has_user(author),
            ArticleCreationError::SlugTaken => exists|slug: Seq<char>|
                #![trigger old(conn)@.has_slug(slug)]
                is_slug_for(slug, title@, old(conn)@.random_suffix) && old(conn)@.has_slug(slug),
            ArticleCreationError::IdsExhausted => old(conn)@.next_article_id == i32::MAX,
            ArticleCreationError::ClockOutOfRange => true,
        },
        r matches Ok(json) ==> {
            &&& slug_of(title@).is_prefix_of(json@.slug)
            &&& is_slug_for(json@.slug, title@, old(conn)@.random_suffix)
            &&& url_safe(json@.slug)
            &&& exists|now: int|
                #![trigger Timestamp::valid_millis(now)]
                Timestamp::valid_millis(now) && created(
                    old(conn)@,
                    final(conn)@,
                    json@,
                    new_article_of(
                        title@,
                        description@,
                        body@,
                        json@.slug,
                        author,
                        tag_list.deep_view(),
                    ),
                    now,
                )
        },
{
    let base = transliterate(title);
    if base.as_str().is_empty() {
        return Err(ArticleCreationError::BlankSlug);
    }
    if conn.user_index(author).is_none() {
        return Err(ArticleCreationError::UnknownAuthor);
    }
    let slug = slugify(title, conn.random_suffix);
    let now = match Timestamp::now() {
        Some(now) => now,
        None => {
            return Err(ArticleCreationError::ClockOutOfRange);
        },
    };
    let new_article = NewArticle {
        title,
        description,
        body,
        slug: slug.as_str(),
        author,
        tag_list,
    };
    let r = insert(conn, new_article, now);
    proof {
        if r is Ok {
            let json = r->Ok_0;
            assert(Timestamp::valid_millis(now@));
            assert(created(old(conn)@, conn@, json@, new_article@, now@));
        } else {
            assert(old(conn)@.has_slug(slug@) || old(conn)@.next_article_id == i32::MAX);
        }
    }
    r
}

/// What a search asks for. Each filter that is given must hold of an article.
pub struct FindArticles {
    /// The article carries this tag.
    pub tag: Option<String>,
    /// The author is called so.
    pub author: Option<String>,
    /// The user called so has favorited the article.
    pub favorited: Option<String>,
    pub limit: Option<i64>,
    pub offset: Option<i64>,
}

impl Default for FindArticles {
    fn default() -> (r: Self)
        ensures
            r@ == no_filter(),
    {
        FindArticles { tag: None, author: None, favorited: None, limit: None, offset: None }
    }
}

/// Mathematical value of a [`FindArticles`].
pub ghost struct FindModel {
    pub tag: Option<Seq<char>>,
    pub author: Option<Seq<char>>,
    pub favorited: Option<Seq<char>>,
    pub limit: Option<i64>,
    pub offset: Option<i64>,
}

impl View for FindArticles {
    type V = FindModel;

    open spec fn view(&self) -> FindModel {
        FindModel {
            tag: self.tag.deep_view(),
            author: self.author.deep_view(),
            favorited: self.favorited.deep_view(),
            limit: self.limit,
            offset: self.offset,
        }
    }
}

/// The search that filters nothing and asks for the first page.
pub open spec fn no_filter() -> FindModel {
    FindModel { tag: None, author: None, favorited: None, limit: None, offset: None }
}

/// The limit in force: the one given, else [`DEFAULT_LIMIT`].
pub open spec fn limit_of(limit: Option<i64>) -> int {
    if limit is Some {
        limit->0 as int
    } else {
        DEFAULT_LIMIT as int
    }
}

/// The offset in force: the one given, else zero.
pub open spec fn offset_of(offset: Option<i64>) -> int {
    if offset is Some {
        offset->0 as int
    } else {
        0
    }
}

/// Whether the article `a` passes every filter of `p` that is given.
pub open spec fn matches(m: ConnModel, a: ArticleModel, p: FindModel) -> bool {
    &&& p.author is Some ==> m.user(a.author).username == p.author->0
    &&& p.tag is Some ==> a.tag_list.contains(p.tag->0)
    &&& p.favorited is Some ==> m.has_username(p.favorited->0) && m.favorited(
        m.user_named(p.favorited->0).id,
        a.id,
    )
}

/// The test that a search applies to each article.
pub open spec fn find_filter(m: ConnModel, p: FindModel) -> spec_fn(ArticleModel) -> bool {
    |a: ArticleModel| matches(m, a, p)
}

/// All articles that pass the filters of `p`, most recent first.
pub open spec fn matching(m: ConnModel, p: FindModel) -> Seq<ArticleModel> {
    m.articles.filter(find_filter(m, p))
}

/// The way from a stored article to what `viewer` sees of it.
pub open spec fn enrich(m: ConnModel, viewer: Option<i32>) -> spec_fn(ArticleModel) -> ArticleJsonModel {
    |a: ArticleModel| article_json(m, a, viewer)
}

/// The articles at the positions `hits`.
pub open spec fn rows_at(articles: Seq<ArticleModel>, hits: Seq<usize>) -> Seq<ArticleModel> {
    hits.map_values(|h: usize| articles[h as int])
}

/// Shows the articles at the positions `hits` to `viewer`.
fn load_rows(conn: &Conn, hits: &Vec<usize>, viewer: Option<i32>) -> (out: Vec<ArticleJson>)
    requires
        conn.wf(),
        forall|j: int| 0 <= j < hits.len() ==> hits[j] < conn.articles.len(),
    ensures
        views(out@) == rows_at(conn@.articles, hits@).map_values(enrich(conn@, viewer)),
{
    let mut out: Vec<ArticleJson> = Vec::new();
    let mut j: usize = 0;
    while j < hits.len()
        invariant
            j <= hits.len(),
            conn.wf(),
            forall|k: int| 0 <= k < hits.len() ==> hits[k] < conn.articles.len(),
            out.len() == j,
            forall|k: int|
                0 <= k < j ==> (#[trigger] out[k])@ == article_json(
                    conn@,
                    conn@.articles[hits[k] as int],
                    viewer,
                ),
        decreases hits.len() - j,
    {
        let h = hits[j];
        let article = conn.articles[h].clone();
        assert(conn@.has_user(conn@.articles[h as int].author));
        out.push(populate(conn, article, viewer));
        j += 1;
    }
    assert(views(out@) =~= rows_at(conn@.articles, hits@).map_values(enrich(conn@, viewer)));
    out
}

/// Whether the article at position `k` passes the filters, the user named by the
/// favorite filter being already looked up.
fn matches_at(conn: &Conn, k: usize, params: &FindArticles, favorited_by: Option<i32>) -> (b: bool)
    requires
        conn.wf(),
        k < conn.articles.len(),
        params@.favorited is Some ==> conn@.has_username(params@.favorited->0) && favorited_by
            == Some(conn@.user_named(params@.favorited->0).id),
    ensures
        b == matches(conn@, conn@.articles[k as int], params@),
{
    let article = &conn.articles[k];
    assert(article@ == conn@.articles[k as int]);
    match &params.author {
        Some(name) => {
            assert(conn@.has_user(article@.author));
            let i = conn.user_index(article.author).unwrap();
            proof {
                conn@.lemma_user_at(i as int);
            }
            if !(conn.users[i].username == *name) {
                return false;
            }
        },
        None => {},
    }
    match &params.tag {
        Some(tag) => {
            if !texts_contain(&article.tag_list, tag) {
                return false;
            }
        },
        None => {},
    }
    match &params.favorited {
        Some(_) => {
            let user = favorited_by.unwrap();
            if pair_index(&conn.favorites, (user, article.id)).is_none() {
                return false;
            }
        },
        None => {},
    }
    true
}

/// Searches the articles: those that pass every given filter, most recent first, cut to
/// the page asked for, each as `user_id` sees it; and beside the page the number of all
/// articles that pass, whatever the page.
///
/// A favorite filter that names no user matches nothing. A negative limit or offset counts
/// as zero.
pub fn find(conn: &Conn, params: &FindArticles, user_id: Option<i32>) -> (r: (
    Vec<ArticleJson>,
    i64,
))
    requires
        conn.wf(),
    ensures
        views(r.0@) == page(
            matching(conn@, params@),
            offset_of(params@.offset),
            limit_of(params@.limit),
        ).map_values(enrich(conn@, user_id)),
        r.1 == matching(conn@, params@).len(),
{
    let ghost m = conn@;
    let ghost p = params@;
    let favorited_by: Option<i32> = match &params.favorited {
        Some(name) => match conn.username_index(name) {
            Some(i) => {
                proof {
                    m.lemma_user_at(i as int);
                }
                Some(conn.users[i].id)
            },
            None => {
                proof {
                    lemma_filter_none(m.articles, find_filter(m, p));
                    assert(views(Seq::<ArticleJson>::empty()) =~= page(
                        matching(m, p),
                        offset_of(p.offset),
                        limit_of(p.limit),
                    ).map_values(enrich(m, user_id)));
                }
                return (Vec::new(), 0);
            },
        },
        None => None,
    };
    let mut hits: Vec<usize> = Vec::new();
    let mut k: usize = 0;
    assert(m.articles.take(0) =~= Seq::<ArticleModel>::empty());
    while k < conn.articles.len()
        invariant
            k <= conn.articles.len(),
            conn.wf(),
            m == conn@,
            p == params@,
            p.favorited is Some ==> m.has_username(p.favorited->0) && favorited_by == Some(
                m.user_named(p.favorited->0).id,
            ),
            hits.len() <= k,
            forall|j: int| 0 <= j < hits.len() ==> hits[j] < conn.articles.len(),
            rows_at(m.articles, hits@) == m.articles.take(k as int).filter(find_filter(m, p)),
        decreases conn.articles.len() - k,
    {
        let hit = matches_at(conn, k, params, favorited_by);
        proof {
            let next = m.articles.take(k + 1);
            assert(next.drop_last() =~= m.articles.take(k as int));
            assert(next.last() == m.articles[k as int]);
            reveal(Seq::filter);
            if hit {
                assert(rows_at(m.articles, hits@.push(k)) =~= rows_at(m.articles, hits@).push(
                    m.articles[k as int],
                ));
            }
        }
        if hit {
            hits.push(k);
        }
        k += 1;
    }
    assert(m.articles.take(k as int) =~= m.articles);
    let ghost all = hits@;
    let offset = match params.offset {
        Some(o) => o,
        None => 0,
    };
    let limit = match params.limit {
        Some(l) => l,
        None => DEFAULT_LIMIT,
    };
    let (page_hits, total) = hits.offset_and_limit(offset, limit).load_and_count();
    let out = load_rows(conn, &page_hits, user_id);
    proof {
        assert(rows_at(m.articles, page_hits@) =~= page(
            rows_at(m.articles, all),
            offset as int,
            limit as int,
        ));
    }
    (out, total)
}

/// The article with the slug `slug`, as `user_id` sees it.
pub fn find_one(conn: &Conn, slug: &str, user_id: Option<i32>) -> (r: Option<ArticleJson>)
    requires
        conn.wf(),
    ensures
        r is Some <==> conn@.has_slug(slug@),
        r matches Some(json) ==> json@ == article_json(
            conn@,
            conn@.article_with_slug(slug@),
            user_id,
        ),
{
    let slug = slug.to_owned();
    match conn.slug_index(&slug) {
        Some(i) => {
            proof {
                conn@.lemma_article_at(i as int);
            }
            Some(populate(conn, conn.articles[i].clone(), user_id))
        },
        None => None,
    }
}

/// Which page of the feed is asked for.
pub struct FeedArticles {
    pub limit: Option<i64>,
    pub offset: Option<i64>,
}

impl Default for FeedArticles {
    fn default() -> (r: Self)
        ensures
            r.limit is None,
            r.offset is None,
    {
        FeedArticles { limit: None, offset: None }
    }
}

/// The test that the feed of `viewer` applies to each article: the viewer follows the
/// author.
pub open spec fn feed_filter(m: ConnModel, viewer: i32) -> spec_fn(ArticleModel) -> bool {
    |a: ArticleModel| m.following(viewer, a.author)
}

/// All articles by authors whom `viewer` follows, most recent first.
pub open spec fn feed_of(m: ConnModel, viewer: i32) -> Seq<ArticleModel> {
    m.articles.filter(feed_filter(m, viewer))
}

/// The feed of `user_id`: the articles by authors whom the user follows, most recent
/// first, cut to the page asked for, each as the user sees it.
pub fn feed(conn: &Conn, params: &FeedArticles, user_id: i32) -> (r: Vec<ArticleJson>)
    requires
        conn.wf(),
    ensures
        views(r@) == page(
            feed_of(conn@, user_id),
            offset_of(params.offset),
            limit_of(params.limit),
        ).map_values(enrich(conn@, Some(user_id))),
{
    let ghost m = conn@;
    let mut hits: Vec<usize> = Vec::new();
    let mut k: usize = 0;
    assert(m.articles.take(0) =~= Seq::<ArticleModel>::empty());
    while k < conn.articles.len()
        invariant
            k <= conn.articles.len(),
            conn.wf(),
            m == conn@,
            hits.len() <= k,
            forall|j: int| 0 <= j < hits.len() ==> hits[j] < conn.articles.len(),
            rows_at(m.articles, hits@) == m.articles.take(k as int).filter(
                feed_filter(m, user_id),
            ),
        decreases conn.articles.len() - k,
    {
        let hit = pair_index(&conn.follows, (user_id, conn.articles[k].author)).is_some();
        proof {
            let next = m.articles.take(k + 1);
            assert(next.drop_last() =~= m.articles.take(k as int));
            assert(next.last() == m.articles[k as int]);
            reveal(Seq::filter);
            if hit {
                assert(rows_at(m.articles, hits@.push(k)) =~= rows_at(m.articles, hits@).push(
                    m.articles[k as int],
                ));
            }
        }
        if hit {
            hits.push(k);
        }
        k += 1;
    }
    assert(m.articles.take(k as int) =~= m.articles);
    let ghost all = hits@;
    let offset = match params.offset {
        Some(o) => o,
        None => 0,
    };
    let limit = match params.limit {
        Some(l) => l,
        None => DEFAULT_LIMIT,
    };
    let (page_hits, _) = hits.offset_and_limit(offset, limit).load_and_count();
    let out = load_rows(conn, &page_hits, Some(user_id));
    proof {
        assert(rows_at(m.articles, page_hits@) =~= page(
            rows_at(m.articles, all),
            offset as int,
            limit as int,
        ));
    }
    out
}

/// The article `a` with another favorite counter.
pub open spec fn with_count(a: ArticleModel, count: int) -> ArticleModel {
    ArticleModel { favorites_count: count, ..a }
}

/// The store `m` with `a` in the place of the article at `i`, and with the favorite table
/// `favorites`.
pub open spec fn replaced(m: ConnModel, i: int, a: ArticleModel, favorites: Seq<(i32, i32)>) -> ConnModel {
    ConnModel { articles: m.articles.update(i, a), favorites, ..m }
}

/// Whether the user `user` can favorite the article with the slug `slug`: both exist.
pub open spec fn can_favorite(m: ConnModel, slug: Seq<char>, user: i32) -> bool {
    m.has_slug(slug) && m.has_user(user)
}

/// The store `m` after `user` favorited the article with the slug `slug`: the pair is
/// added and the counter raised, unless the pair stood there already.
pub open spec fn after_favorite(m: ConnModel, slug: Seq<char>, user: i32) -> ConnModel {
    let a = m.article_with_slug(slug);
    if m.favorited(user, a.id) {
        m
    } else {
        replaced(
            m,
            m.slug_position(slug),
            with_count(a, a.favorites_count + 1),
            m.favorites.push((user, a.id)),
        )
    }
}

/// The store `m` after `user` took the article with the slug `slug` out of the favorites:
/// the pair is removed and the counter lowered, if the pair stood there.
pub open spec fn after_unfavorite(m: ConnModel, slug: Seq<char>, user: i32) -> ConnModel {
    let a = m.article_with_slug(slug);
    if m.favorited(user, a.id) {
        replaced(
            m,
            m.slug_position(slug),
            with_count(a, a.favorites_count - 1),
            without_pair(m.favorites, (user, a.id)),
        )
    } else {
        m
    }
}

/// Puts the article with the slug `slug` among the favorites of `user_id`, in one step:
/// the pair and the counter change together or not at all. Favoriting twice changes
/// nothing the second time. `None` where the article or the user is unknown.
pub fn favorite(conn: &mut Conn, slug: &str, user_id: i32) -> (r: Option<ArticleJson>)
    requires
        old(conn).wf(),
    ensures
        final(conn).wf(),
        r is Some <==> can_favorite(old(conn)@, slug@, user_id),
        r is None ==> final(conn)@ == old(conn)@,
        r matches Some(json) ==> {
            &&& final(conn)@ == after_favorite(old(conn)@, slug@, user_id)
            &&& json@ == article_json(
                final(conn)@,
                final(conn)@.article_with_slug(slug@),
                Some(user_id),
            )
            &&& json@.favorited
        },
{
    let ghost before = conn@;
    let slug = slug.to_owned();
    let i = match conn.slug_index(&slug) {
        Some(i) => i,
        None => {
            return None;
        },
    };
    if conn.user_index(user_id).is_none() {
        return None;
    }
    proof {
        before.lemma_article_at(i as int);
        lemma_favorite_keeps_wf(before, slug@, user_id);
    }
    let mut article = conn.articles[i].clone();
    if pair_index(&conn.favorites, (user_id, article.id)).is_none() {
        proof {
            before.lemma_count_bounded(article.id);
        }
        article.favorites_count = article.favorites_count + 1;
        let stored = article.clone();
        conn.articles.set(i, stored);
        conn.favorites.push((user_id, article.id));
        proof {
            assert(conn@.articles =~= before.articles.update(i as int, article@));
            assert(conn@ == after_favorite(before, slug@, user_id));
        }
    }
    proof {
        conn@.lemma_article_at(i as int);
    }
    Some(populate(conn, article, Some(user_id)))
}

/// Takes the article with the slug `slug` out of the favorites of `user_id`, in one step.
/// Where it was not among them, nothing changes. `None` where the article is unknown.
pub fn unfavorite(conn: &mut Conn, slug: &str, user_id: i32) -> (r: Option<ArticleJson>)
    requires
        old(conn).wf(),
    ensures
        final(conn).wf(),
        r is Some <==> old(conn)@.has_slug(slug@),
        r is None ==> final(conn)@ == old(conn)@,
        r matches Some(json) ==> {
            &&& final(conn)@ == after_unfavorite(old(conn)@, slug@, user_id)
            &&& json@ == article_json(
                final(conn)@,
                final(conn)@.article_with_slug(slug@),
                Some(user_id),
            )
            &&& !json@.favorited
        },
{
    let ghost before = conn@;
    let slug = slug.to_owned();
    let i = match conn.slug_index(&slug) {
        Some(i) => i,
        None => {
            return None;
        },
    };
    proof {
        before.lemma_article_at(i as int);
        lemma_unfavorite_keeps_wf(before, slug@, user_id);
    }
    let mut article = conn.articles[i].clone();
    match pair_index(&conn.favorites, (user_id, article.id)) {
        Some(k) => {
            proof {
                lemma_without_pair(before.favorites, (user_id, article.id));
                assert(before.favorites.index_of((user_id, article.id)) == k as int);
            }
            article.favorites_count = article.favorites_count - 1;
            let stored = article.clone();
            conn.articles.set(i, stored);
            conn.favorites.remove(k);
            proof {
                assert(conn@.articles =~= before.articles.update(i as int, article@));
                assert(conn@ == after_unfavorite(before, slug@, user_id));
            }
        },
        None => {},
    }
    proof {
        conn@.lemma_article_at(i as int);
    }
    Some(populate(conn, article, Some(user_id)))
}

/// The fields of an article that an update may change. A field left out keeps its value.
/// The slug is not taken from a request: [`update`] derives it where the title changes.
pub struct UpdateArticleData {
    pub title: Option<String>,
    pub description: Option<String>,
    pub body: Option<String>,
    pub slug: Option<String>,
    pub tag_list: Option<Vec<String>>,
}

impl Default for UpdateArticleData {
    fn default() -> (r: Self)
        ensures
            r@ == no_change(),
    {
        UpdateArticleData { title: None, description: None, body: None, slug: None, tag_list: None }
    }
}

/// Mathematical value of an [`UpdateArticleData`].
pub ghost struct UpdateArticleModel {
    pub title: Option<Seq<char>>,
    pub description: Option<Seq<char>>,
    pub body: Option<Seq<char>>,
    pub slug: Option<Seq<char>>,
    pub tag_list: Option<Seq<Seq<char>>>,
}

impl View for UpdateArticleData {
    type V = UpdateArticleModel;

    open spec fn view(&self) -> UpdateArticleModel {
        UpdateArticleModel {
            title: self.title.deep_view(),
            description: self.description.deep_view(),
            body: self.body.deep_view(),
            slug: self.slug.deep_view(),
            tag_list: self.tag_list.deep_view(),
        }
    }
}

/// The update that changes nothing.
pub open spec fn no_change() -> UpdateArticleModel {
    UpdateArticleModel { title: None, description: None, body: None, slug: None, tag_list: None }
}

/// The article `a` with the fields that `d` names replaced, updated at `now`.
pub open spec fn updated_article(a: ArticleModel, d: UpdateArticleModel, now: int) -> ArticleModel {
    ArticleModel {
        slug: if d.slug is Some { d.slug->0 } else { a.slug },
        title: if d.title is Some { d.title->0 } else { a.title },
        description: if d.description is Some { d.description->0 } else { a.description },
        body: if d.body is Some { d.body->0 } else { a.body },
        tag_list: if d.tag_list is Some { d.tag_list->0 } else { a.tag_list },
        updated_at: now,
        ..a
    }
}

/// Whether the store accepts the update `d` of the article with the slug `slug` by `user`:
/// the article exists, `user` is its author, and a new slug is not blank and not that of
/// another article.
pub open spec fn can_save(m: ConnModel, slug: Seq<char>, user: i32, d: UpdateArticleModel) -> bool {
    &&& m.has_slug(slug)
    &&& m.article_with_slug(slug).author == user
    &&& d.slug is Some ==> d.slug->0.len() > 0 && (d.slug->0 == slug || !m.has_slug(d.slug->0))
}

/// The store `m` after the update `d` of the article with the slug `slug` at `now`.
pub open spec fn after_save(m: ConnModel, slug: Seq<char>, d: UpdateArticleModel, now: int) -> ConnModel {
    replaced(
        m,
        m.slug_position(slug),
        updated_article(m.article_with_slug(slug), d, now),
        m.favorites,
    )
}

/// Applies an update whose slug, if any, is already derived, at the instant `now`. Nothing
/// changes, and `None` is returned, where the store does not accept the update.
pub fn save(
    conn: &mut Conn,
    slug: &str,
    user_id: i32,
    data: &UpdateArticleData,
    now: Timestamp,
) -> (r: Option<ArticleJson>)
    requires
        old(conn).wf(),
    ensures
        final(conn).wf(),
        r is Some <==> can_save(old(conn)@, slug@, user_id, data@),
        r is None ==> final(conn)@ == old(conn)@,
        r matches Some(json) ==> {
            let a = updated_article(old(conn)@.article_with_slug(slug@), data@, now@);
            &&& final(conn)@ == after_save(old(conn)@, slug@, data@, now@)
            &&& json@ == article_json(final(conn)@, a, Some(user_id))
        },
{
    let ghost before = conn@;
    let slug = slug.to_owned();
    let i = match conn.slug_index(&slug) {
        Some(i) => i,
        None => {
            return None;
        },
    };
    proof {
        before.lemma_article_at(i as int);
    }
    if conn.articles[i].author != user_id {
        return None;
    }
    match &data.slug {
        Some(new_slug) => {
            if new_slug.as_str().is_empty() {
                return None;
            }
            match conn.slug_index(new_slug) {
                Some(k) => {
                    proof {
                        before.lemma_article_at(k as int);
                    }
                    if k != i {
                        return None;
                    }
                },
                None => {},
            }
        },
        None => {},
    }
    let current = conn.articles[i].clone();
    let article = Article {
        id: current.id,
        slug: match &data.slug {
            Some(s) => s.clone(),
            None => current.slug,
        },
        title: match &data.title {
            Some(t) => t.clone(),
            None => current.title,
        },
        description: match &data.description {
            Some(d) => d.clone(),
            None => current.description,
        },
        body: match &data.body {
            Some(b) => b.clone(),
            None => current.body,
        },
        author: current.author,
        tag_list: match &data.tag_list {
            Some(tags) => clone_texts(tags),
            None => current.tag_list,
        },
        created_at: current.created_at,
        updated_at: now,
        favorites_count: current.favorites_count,
    };
    let stored = article.clone();
    conn.articles.set(i, stored);
    proof {
        let a = updated_article(before.articles[i as int], data@, now@);
        assert(article@ == a);
        assert(conn@.articles =~= before.articles.update(i as int, a));
        assert(conn@ == after_save(before, slug@, data@, now@));
        assert forall|k: int| 0 <= k < before.favorites.len() implies before.has_user(
            (#[trigger] before.favorites[k]).0,
        ) && before.has_article(before.favorites[k].1) by {}
        lemma_replace_keeps_wf(before, i as int, a, before.favorites);
    }
    Some(populate(conn, article, Some(user_id)))
}

/// Updates the article with the slug `slug` on behalf of `user_id`, who must be its
/// author. Only the fields given change; a new title brings a new slug with it.
///
/// The new slug is derived as on creation and not drawn again where it is taken. Nothing
/// changes, and `None` is returned, where the article is unknown, `user_id` is not its
/// author, the new title leaves nothing to make a slug of, the new slug is that of
/// another article, or the clock reads out of range.
pub fn update(conn: &mut Conn, slug: &str, user_id: i32, data: UpdateArticleData) -> (r: Option<
    ArticleJson,
>)
    requires
        old(conn).wf(),
    ensures
        final(conn).wf(),
        r is None ==> final(conn)@ == old(conn)@,
        !old(conn)@.has_slug(slug@) ==> r is None,
        old(conn)@.has_slug(slug@) && old(conn)@.article_with_slug(slug@).author != user_id
            ==> r is None,
        data@.title is Some && slug_of(data@.title->0).len() == 0 ==> r is None,
        r matches Some(json) ==> exists|d: UpdateArticleModel, now: int|
            #![trigger after_save(old(conn)@, slug@, d, now)]
            {
                &&& d == derived_update(data@, d.slug)
                &&& data@.title is Some ==> d.slug is Some && is_slug_for(
                    d.slug->0,
                    data@.title->0,
                    old(conn)@.random_suffix,
                )
                &&& Timestamp::valid_millis(now)
                &&& can_save(old(conn)@, slug@, user_id, d)
                &&& final(conn)@ == after_save(old(conn)@, slug@, d, now)
                &&& json@ == article_json(
                    final(conn)@,
                    updated_article(old(conn)@.article_with_slug(slug@), d, now),
                    Some(user_id),
                )
            },
{
    let mut data = data;
    let ghost asked = data@;
    match &data.title {
        Some(title) => {
            let base = transliterate(title.as_str());
            if base.as_str().is_empty() {
                return None;
            }
            let new_slug = slugify(title.as_str(), conn.random_suffix);
            data.slug = Some(new_slug);
        },
        None => {},
    }
    let now = match Timestamp::now() {
        Some(now) => now,
        None => {
            return None;
        },
    };
    let r = save(conn, slug, user_id, &data, now);
    proof {
        if r is Some {
            assert(data@ == derived_update(asked, data@.slug));
            assert(Timestamp::valid_millis(now@));
            assert(conn@ == after_save(old(conn)@, slug@, data@, now@));
        }
    }
    r
}

/// The update `asked` with the slug `slug` where the title changes, else as it is.
pub open spec fn derived_update(asked: UpdateArticleModel, slug: Option<Seq<char>>) -> UpdateArticleModel {
    UpdateArticleModel { slug: if asked.title is Some { slug } else { asked.slug }, ..asked }
}

/// The test whether a comment belongs to another article than `article`.
pub open spec fn not_on(article: i32) -> spec_fn(CommentModel) -> bool {
    |c: CommentModel| c.article != article
}

/// The store `m` without the article at `i`, its comments and the favorites that name it.
pub open spec fn without_article(m: ConnModel, i: int) -> ConnModel {
    ConnModel {
        articles: m.articles.remove(i),
        comments: m.comments.filter(not_on(m.articles[i].id)),
        favorites: m.favorites.filter(not_for(m.articles[i].id)),
        ..m
    }
}

/// The store `m` after `user` asked to delete the article with the slug `slug`: the
/// article goes, with what hangs on it, if it exists and `user` is its author.
pub open spec fn after_delete(m: ConnModel, slug: Seq<char>, user: i32) -> ConnModel {
    if m.has_slug(slug) && m.article_with_slug(slug).author == user {
        without_article(m, m.slug_position(slug))
    } else {
        m
    }
}

/// The favorites that name another article than `article`.
fn favorites_without(pairs: &Vec<(i32, i32)>, article: i32) -> (out: Vec<(i32, i32)>)
    ensures
        out@ == pairs@.filter(not_for(article)),
{
    let mut out: Vec<(i32, i32)> = Vec::new();
    let mut k: usize = 0;
    assert(pairs@.take(0) =~= Seq::<(i32, i32)>::empty());
    while k < pairs.len()
        invariant
            k <= pairs.len(),
            out@ == pairs@.take(k as int).filter(not_for(article)),
        decreases pairs.len() - k,
    {
        proof {
            let next = pairs@.take(k + 1);
            assert(next.drop_last() =~= pairs@.take(k as int));
            assert(next.last() == pairs@[k as int]);
            reveal(Seq::filter);
        }
        if pairs[k].1 != article {
            out.push(pairs[k]);
        }
        k += 1;
    }
    assert(pairs@.take(k as int) =~= pairs@);
    out
}

/// The comments that belong to another article than `article`.
fn comments_without(comments: &Vec<Comment>, article: i32) -> (out: Vec<Comment>)
    ensures
        views(out@) == views(comments@).filter(not_on(article)),
{
    let mut out: Vec<Comment> = Vec::new();
    let mut k: usize = 0;
    let ghost all = views(comments@);
    assert(all.take(0) =~= Seq::<CommentModel>::empty());
    assert(views(out@) =~= Seq::<CommentModel>::empty());
    while k < comments.len()
        invariant
            k <= comments.len(),
            all == views(comments@),
            views(out@) == all.take(k as int).filter(not_on(article)),
        decreases comments.len() - k,
    {
        proof {
            let next = all.take(k + 1);
            assert(next.drop_last() =~= all.take(k as int));
            assert(next.last() == comments@[k as int]@);
            reveal(Seq::filter);
        }
        if comments[k].article != article {
            let ghost shown = views(out@);
            let c = comments[k].clone();
            out.push(c);
            assert(views(out@) =~= shown.push(c@));
        }
        k += 1;
    }
    assert(all.take(k as int) =~= all);
    out
}

/// Deletes the article with the slug `slug` if `user_id` is its author, together with
/// its comments and the favorites that name it. Otherwise nothing changes.
pub fn delete(conn: &mut Conn, slug: &str, user_id: i32)
    requires
        old(conn).wf(),
    ensures
        final(conn).wf(),
        final(conn)@ == after_delete(old(conn)@, slug@, user_id),
{
    let ghost before = conn@;
    let slug = slug.to_owned();
    match conn.slug_index(&slug) {
        Some(i) => {
            proof {
                before.lemma_article_at(i as int);
            }
            if conn.articles[i].author == user_id {
                let id = conn.articles[i].id;
                let favorites = favorites_without(&conn.favorites, id);
                let comments = comments_without(&conn.comments, id);
                conn.articles.remove(i);
                conn.favorites = favorites;
                conn.comments = comments;
                proof {
                    assert(conn@.articles =~= before.articles.remove(i as int));
                    assert(conn@ == without_article(before, i as int));
                    lemma_delete_keeps_wf(before, i as int);
                }
            }
        },
        None => {},
    }
}

/// Whether one of the first `upto` texts of `list` is `tag`.
pub open spec fn tag_among(list: Seq<Seq<char>>, upto: int, tag: Seq<char>) -> bool {
    exists|b: int| 0 <= b < upto && b < list.len() && #[trigger] list[b] == tag
}

/// Whether one of the first `upto` articles carries the tag `tag`.
pub open spec fn tag_in(articles: Seq<ArticleModel>, upto: int, tag: Seq<char>) -> bool {
    exists|a: int|
        0 <= a < upto && a < articles.len() && tag_among(
            (#[trigger] articles[a]).tag_list,
            articles[a].tag_list.len() as int,
            tag,
        )
}

/// Whether some article carries the tag `tag`.
pub open spec fn is_tag(m: ConnModel, tag: Seq<char>) -> bool {
    tag_in(m.articles, m.articles.len() as int, tag)
}

/// Every tag that some article carries, each once, in no particular order.
pub fn tags(conn: &Conn) -> (r: Vec<String>)
    ensures
        r.deep_view().no_duplicates(),
        forall|tag: Seq<char>| #[trigger] r.deep_view().contains(tag) <==> is_tag(conn@, tag),
{
    let ghost m = conn@;
    let mut out: Vec<String> = Vec::new();
    let mut i: usize = 0;
    while i < conn.articles.len()
        invariant
            i <= conn.articles.len(),
            m == conn@,
            out.deep_view().no_duplicates(),
            forall|tag: Seq<char>|
                #[trigger] out.deep_view().contains(tag) <==> tag_in(m.articles, i as int, tag),
        decreases conn.articles.len() - i,
    {
        let list = &conn.articles[i].tag_list;
        let ghost texts = m.articles[i as int].tag_list;
        assert(list.deep_view() == texts);
        let mut j: usize = 0;
        while j < list.len()
            invariant
                j <= list.len(),
                i < conn.articles.len(),
                m == conn@,
                texts == m.articles[i as int].tag_list,
                list.deep_view() == texts,
                out.deep_view().no_duplicates(),
                forall|tag: Seq<char>|
                    #[trigger] out.deep_view().contains(tag) <==> tag_in(m.articles, i as int, tag)
                        || tag_among(texts, j as int, tag),
            decreases list.len() - j,
        {
            let ghost seen = out.deep_view();
            let ghost t = texts[j as int];
            assert(t == list[j as int]@);
            let known = texts_contain(&out, &list[j]);
            if !known {
                out.push(list[j].clone());
                assert(out.deep_view() =~= seen.push(t));
            }
            assert forall|tag: Seq<char>| #[trigger]
                out.deep_view().contains(tag) <==> tag_in(m.articles, i as int, tag) || tag_among(
                    texts,
                    j + 1,
                    tag,
                ) by {
                lemma_tag_among_next(texts, j as int, tag);
                if !known {
                    if seen.contains(tag) {
                        let k = seen.index_of(tag);
                        assert(out.deep_view()[k] == tag);
                    }
                    if tag == t {
                        assert(out.deep_view()[seen.len() as int] == tag);
                    }
                    if out.deep_view().contains(tag) {
                        let k = out.deep_view().index_of(tag);
                        if k < seen.len() {
                            assert(seen[k] == tag);
                        }
                    }
                } else {
                    assert(seen.contains(t));
                }
            }
            j += 1;
        }
        assert forall|tag: Seq<char>| #[trigger]
            out.deep_view().contains(tag) <==> tag_in(m.articles, i + 1, tag) by {
            lemma_tag_in_next(m.articles, i as int, tag);
        }
        i += 1;
    }
    out
}

/// In a well-formed store no favorite counter is negative.
pub proof fn counters_never_negative(m: ConnModel)
    requires
        m.wf(),
    ensures
        forall|i: int| 0 <= i < m.articles.len() ==> (#[trigger] m.articles[i]).favorites_count >= 0,
{
    assert forall|i: int| 0 <= i < m.articles.len() implies (
    #[trigger] m.articles[i]).favorites_count >= 0 by {
        assert(m.articles[i].favorites_count == m.favorites_of(m.articles[i].id));
    }
}

/// What [`favorite`] leaves behind: the store after the favorite where it is served, else
/// the store as it was.
pub open spec fn favorite_outcome(m: ConnModel, slug: Seq<char>, user: i32) -> ConnModel {
    if can_favorite(m, slug, user) {
        after_favorite(m, slug, user)
    } else {
        m
    }
}

/// Favoriting an article and then unfavoriting it, on behalf of someone who had not
/// favorited it before, leaves the store as it was: the counter is back at its value and
/// the pair is gone.
pub proof fn favorite_then_unfavorite_restores(m: ConnModel, slug: Seq<char>, user: i32)
    requires
        m.wf(),
        m.has_slug(slug),
        !m.favorited(user, m.article_with_slug(slug).id),
    ensures
        after_unfavorite(favorite_outcome(m, slug, user), slug, user) == m,
        after_unfavorite(favorite_outcome(m, slug, user), slug, user).article_with_slug(
            slug,
        ).favorites_count == m.article_with_slug(slug).favorites_count,
{
    if can_favorite(m, slug, user) {
        let i = m.slug_position(slug);
        let a = m.articles[i];
        let pair = (user, a.id);
        let mid = after_favorite(m, slug, user);
        lemma_favorite_keeps_wf(m, slug, user);
        m.lemma_article_at(i);
        assert(mid.articles[i] == with_count(a, a.favorites_count + 1));
        assert(mid.favorited(user, a.id));
        let end = after_unfavorite(mid, slug, user);
        assert(mid.favorites.no_duplicates());
        assert(without_pair(mid.favorites, pair) =~= m.favorites) by {
            let at = mid.favorites.index_of(pair);
            assert(mid.favorites[m.favorites.len() as int] == pair);
            assert(at == m.favorites.len()) by {
                if at < m.favorites.len() {
                    assert(mid.favorites[at] != mid.favorites[m.favorites.len() as int]);
                }
            }
        }
        assert(end.articles =~= m.articles);
    }
}

/// A page holds no more rows than the limit asked for, and never more than there are.
pub proof fn page_within_limit<T>(rows: Seq<T>, offset: int, limit: int)
    requires
        limit >= 0,
    ensures
        page(rows, offset, limit).len() <= limit,
        page(rows, offset, limit).len() <= rows.len(),
{
}

/// Two searches with the same filters match the same articles, whatever pages they ask
/// for: the total that [`find`] reports does not depend on the offset or the limit.
pub proof fn total_independent_of_page(m: ConnModel, p: FindModel, q: FindModel)
    requires
        p.tag == q.tag,
        p.author == q.author,
        p.favorited == q.favorited,
    ensures
        matching(m, p) == matching(m, q),
        matching(m, p).len() == matching(m, q).len(),
{
    assert(find_filter(m, p) =~= find_filter(m, q)) by {
        assert forall|a: ArticleModel| #[trigger] matches(m, a, p) == matches(m, a, q) by {}
    }
}

/// A search for the favorites of a name that no user has matches no article: the page is
/// empty and the total is zero.
pub proof fn unknown_favoriting_user_matches_nothing(m: ConnModel, p: FindModel)
    requires
        p.favorited is Some,
        !m.has_username(p.favorited->0),
    ensures
        matching(m, p).len() == 0,
        page(matching(m, p), offset_of(p.offset), limit_of(p.limit)).len() == 0,
{
    lemma_filter_none(m.articles, find_filter(m, p));
}

/// What a search returns stands most recent first.
pub proof fn matching_is_most_recent_first(m: ConnModel, p: FindModel)
    requires
        m.wf(),
    ensures
        forall|i: int, j: int|
            0 <= i < j < matching(m, p).len() ==> (#[trigger] matching(m, p)[i]).created_at >= (
            #[trigger] matching(m, p)[j]).created_at,
{
    let from = lemma_filter_kept(m.articles, find_filter(m, p));
    assert forall|i: int, j: int| 0 <= i < j < matching(m, p).len() implies (
    #[trigger] matching(m, p)[i]).created_at >= (#[trigger] matching(m, p)[j]).created_at by {
        assert(from[i] < from[j]);
        assert(m.articles[from[i]].created_at >= m.articles[from[j]].created_at);
    }
}

} // verus!
