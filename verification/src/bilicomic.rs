//! The adapter for the first site: its URL router, filter resolution,
//! listing dispatch, pinned request headers, and the extractors for its
//! catalog, detail, chapter and page documents.

use vstd::prelude::*;
use vstd::string::StringExecFns;
use crate::dom::Elem;
use crate::dom::Selector;
use crate::dom::sv_tag;
use crate::dom::sv_class;
use crate::dom::sv_tag_class;
use crate::dom::sv_id;
use crate::dom::sv_tag_id;
use crate::dom::select_all;
use crate::dom::select_in_children;
use crate::dom::select;
use crate::dom::select_within;
use crate::dom::derefs;
use crate::dom::first_text;
use crate::dom::attr_text;
use crate::dom::attr_in;
use crate::dom::text_of;
use crate::dom::attr_or_empty;
use crate::dom::elem_attr;
use crate::dom::lazy_srcs;
use crate::dom::lemma_lazy_srcs_snoc;
use crate::dom::lemma_lazy_srcs_len;
use crate::dom::lemma_lazy_srcs_sourced;
use crate::entities::Manga;
use crate::entities::MangaView;
use crate::entities::manga_views;
use crate::entities::Chapter;
use crate::entities::ChapterView;
use crate::entities::chapter_views;
use crate::entities::Page;
use crate::entities::page_views;
use crate::entities::MangaPageResult;
use crate::entities::MangaStatus;
use crate::entities::Filter;
use crate::entities::FilterKind;
use crate::entities::Header;
use crate::strutil::starts_with;
use crate::strutil::starts_with_str;
use crate::strutil::seg_before;
use crate::strutil::find_delim;
use crate::strutil::chars_vec;
use crate::strutil::string_of_chars;
use crate::strutil::str_eq;
use crate::strutil::parse_dec_or;
use crate::strutil::parse_decimal_str;
use crate::strutil::dec_str_of;
use crate::strutil::i32_to_string;

verus! {

/// The site root, without a trailing slash.
pub open spec fn base_url() -> Seq<char> {
    "https://www.bilicomic.net"@
}

/// A navigation intent on this site.
pub enum Url {
    /// The site root.
    Domain,
    /// The filtered browse listing at `page`, every other filter slot at
    /// its neutral value.
    Filters { page: i32 },
    /// A title search.
    Search { keyword: String },
    /// A ranking listing named by its path fragment.
    Top { path: String },
    /// One entity or chapter page, addressed by its site-relative path.
    Manga { id: String },
}

/// The mathematical value of a `Url`.
pub enum UrlView {
    Domain,
    Filters { page: i32 },
    Search { keyword: Seq<char> },
    Top { path: Seq<char> },
    Manga { id: Seq<char> },
}

impl View for Url {
    type V = UrlView;

    open spec fn view(&self) -> UrlView {
        match self {
            Url::Domain => UrlView::Domain,
            Url::Filters { page } => UrlView::Filters { page: *page },
            Url::Search { keyword } => UrlView::Search { keyword: keyword@ },
            Url::Top { path } => UrlView::Top { path: path@ },
            Url::Manga { id } => UrlView::Manga { id: id@ },
        }
    }
}

/// The absolute URL that a route renders to.
pub open spec fn render_spec(u: UrlView) -> Seq<char> {
    match u {
        UrlView::Domain => base_url() + "/"@,
        UrlView::Filters { page } => base_url() + "/filter/lastupdate_0_0_0_0_0_0_0_"@
            + dec_str_of(page as int) + "_0.html"@,
        UrlView::Search { keyword } => base_url() + "/search.html?searchkey="@ + keyword,
        UrlView::Top { path } => base_url() + "/top/"@ + path + ".html"@,
        UrlView::Manga { id } => base_url() + id,
    }
}

impl Url {
    /// The absolute URL of this route.
    pub fn render(&self) -> (r: String)
        ensures
            r@ == render_spec(self@),
    {
        match self {
            Url::Domain => {
                let mut s = String::from_str("https://www.bilicomic.net");
                s.append("/");
                s
            },
            Url::Filters { page } => {
                let mut s = String::from_str("https://www.bilicomic.net");
                s.append("/filter/lastupdate_0_0_0_0_0_0_0_");
                let num = i32_to_string(*page);
                s.append(num.as_str());
                s.append("_0.html");
                s
            },
            Url::Search { keyword } => {
                let mut s = String::from_str("https://www.bilicomic.net");
                s.append("/search.html?searchkey=");
                s.append(keyword.as_str());
                s
            },
            Url::Top { path } => {
                let mut s = String::from_str("https://www.bilicomic.net");
                s.append("/top/");
                s.append(path.as_str());
                s.append(".html");
                s
            },
            Url::Manga { id } => {
                let mut s = String::from_str("https://www.bilicomic.net");
                s.append(id.as_str());
                s
            },
        }
    }
}

/// Whether a filter is a title filter whose value could be read and is
/// not empty: the only kind of filter that this router interprets.
pub open spec fn usable_title(f: Filter) -> bool {
    &&& f.kind is Title
    &&& f.value is Some
    &&& f.value->0@.len() > 0
}

/// The route that a filter list and a page number resolve to: the first
/// usable title filter short-circuits to a search; otherwise the filtered
/// browse listing at `page`.
pub open spec fn route_spec(fs: Seq<Filter>, page: i32) -> UrlView
    decreases fs.len(),
{
    if fs.len() == 0 {
        UrlView::Filters { page }
    } else if usable_title(fs[0]) {
        UrlView::Search { keyword: fs[0].value->0@ }
    } else {
        route_spec(fs.drop_first(), page)
    }
}

/// Resolve the route for a browse or search call.
pub fn resolve_route(filters: &Vec<Filter>, page: i32) -> (r: Url)
    ensures
        r@ == route_spec(filters@, page),
{
    proof {
        assert(filters@.skip(0) =~= filters@);
    }
    let mut i: usize = 0;
    while i < filters.len()
        invariant
            0 <= i <= filters.len(),
            route_spec(filters@, page) == route_spec(filters@.skip(i as int), page),
        decreases filters.len() - i,
    {
        proof {
            assert(filters@.skip(i as int)[0] == filters@[i as int]);
            assert(filters@.skip(i as int).drop_first() =~= filters@.skip(i as int + 1));
        }
        let f = &filters[i];
        match f.kind {
            FilterKind::Title => {
                match &f.value {
                    Some(v) => {
                        if !v.as_str().is_empty() {
                            return Url::Search { keyword: v.clone() };
                        }
                    },
                    None => {},
                }
            },
            FilterKind::Other => {},
        }
        i += 1;
    }
    proof {
        assert(filters@.skip(filters@.len() as int) =~= Seq::<Filter>::empty());
    }
    Url::Filters { page }
}

/// A title filter always short-circuits: wherever some filter of the list
/// is a usable title filter, the resolved route is a search, whatever
/// else the list holds and in whatever order.
pub proof fn lemma_title_filter_short_circuits(fs: Seq<Filter>, page: i32)
    requires
        exists|i: int| 0 <= i < fs.len() && usable_title(#[trigger] fs[i]),
    ensures
        route_spec(fs, page) is Search,
    decreases fs.len(),
{
    if usable_title(fs[0]) {
    } else {
        let i = choose|i: int| 0 <= i < fs.len() && usable_title(#[trigger] fs[i]);
        assert(fs.drop_first()[i - 1] == fs[i]);
        lemma_title_filter_short_circuits(fs.drop_first(), page);
    }
}

/// Without a usable title filter the route is always the browse listing
/// at the given page.
pub proof fn lemma_no_title_browses(fs: Seq<Filter>, page: i32)
    requires
        forall|i: int| 0 <= i < fs.len() ==> !usable_title(#[trigger] fs[i]),
    ensures
        route_spec(fs, page) == (UrlView::Filters { page }),
    decreases fs.len(),
{
    if fs.len() == 0 {
    } else {
        assert(forall|i: int|
            0 <= i < fs.drop_first().len() ==> !usable_title(#[trigger] fs.drop_first()[i]));
        lemma_no_title_browses(fs.drop_first(), page);
    }
}

/// Rendering an entity route appends the site-relative path to the site
/// root unchanged, so the path is recovered by dropping the root: the
/// round trip loses nothing.
pub proof fn lemma_entity_route_round_trip(id: Seq<char>)
    ensures
        render_spec(UrlView::Manga { id }).skip(base_url().len() as int) == id,
{
    assert((base_url() + id).skip(base_url().len() as int) =~= id);
}

/// The site-relative path that a rendered entity URL carries, where the
/// URL indeed begins with this site's root.
pub fn entity_id_of_url(url: &str) -> (r: Option<String>)
    ensures
        r is Some <==> starts_with(url@, base_url()),
        r is Some ==> r->0@ == url@.skip(base_url().len() as int),
{
    if !starts_with_str(url, "https://www.bilicomic.net") {
        return None;
    }
    proof {
        reveal_strlit("https://www.bilicomic.net");
    }
    let cs = chars_vec(url);
    let mut out: Vec<char> = Vec::new();
    let mut i: usize = 25;
    while i < cs.len()
        invariant
            25 <= i <= cs.len(),
            cs@ == url@,
            cs@.len() >= 25,
            out@ == url@.subrange(25, i as int),
        decreases cs.len() - i,
    {
        out.push(cs[i]);
        proof {
            assert(out@ =~= url@.subrange(25, i as int + 1));
        }
        i += 1;
    }
    proof {
        assert(url@.subrange(25, url@.len() as int) =~= url@.skip(25));
    }
    Some(string_of_chars(&out))
}

/// The path fragment of a ranking listing, by its display name; an
/// unrecognized name falls back to the month-click ranking.
pub open spec fn listing_path_spec(name: Seq<char>) -> Seq<char> {
    if name == "月点击榜"@ {
        "monthvisit"@
    } else if name == "周点击榜"@ {
        "weekvisit"@
    } else if name == "月推荐榜"@ {
        "monthvote"@
    } else if name == "周推荐榜"@ {
        "weekvote"@
    } else if name == "收藏榜"@ {
        "goodnum"@
    } else if name == "新书榜"@ {
        "newhot"@
    } else {
        "monthvisit"@
    }
}

/// The path fragment of the ranking listing named `name`.
pub fn listing_path(name: &str) -> (r: String)
    ensures
        r@ == listing_path_spec(name@),
{
    if str_eq(name, "月点击榜") {
        String::from_str("monthvisit")
    } else if str_eq(name, "周点击榜") {
        String::from_str("weekvisit")
    } else if str_eq(name, "月推荐榜") {
        String::from_str("monthvote")
    } else if str_eq(name, "周推荐榜") {
        String::from_str("weekvote")
    } else if str_eq(name, "收藏榜") {
        String::from_str("goodnum")
    } else if str_eq(name, "新书榜") {
        String::from_str("newhot")
    } else {
        String::from_str("monthvisit")
    }
}

/// The catalog item nodes of a browse or search document.
pub open spec fn catalog_items(doc: Elem) -> Seq<Elem> {
    select_all(doc, sv_tag_class("li"@, "book-li"@))
}

/// The entity that one catalog item node yields. A missing sub-node or
/// attribute degrades to the empty string; no item is dropped.
pub open spec fn catalog_item_view(e: Elem) -> MangaView {
    let id = attr_text(select_all(e, sv_tag_class("a"@, "book-layout"@)), "href"@);
    MangaView {
        id: id,
        cover: attr_text(select_all(e, sv_tag("img"@)), "data-src"@),
        title: first_text(select_all(e, sv_tag_class("h4"@, "book-title"@))),
        author: Seq::empty(),
        artist: Seq::empty(),
        description: Seq::empty(),
        url: base_url() + id,
        categories: Seq::empty(),
        status: MangaStatus::Unknown,
    }
}

/// The entities of every catalog item node, in document order.
pub open spec fn catalog_views(items: Seq<Elem>) -> Seq<MangaView> {
    items.map_values(|e: Elem| catalog_item_view(e))
}

/// The last-page number shown by the pagination controls; zero where the
/// control is missing or not a number.
pub open spec fn catalog_last_page(doc: Elem) -> nat {
    parse_dec_or(first_text(select_all(doc, sv_tag_class("a"@, "last"@))), 0)
}

/// The current-page number shown by the pagination controls; one where
/// the control is missing or not a number.
pub open spec fn catalog_cur_page(doc: Elem) -> nat {
    parse_dec_or(
        first_text(select_in_children(select_all(doc, sv_id("pagelink"@)), sv_tag("strong"@))),
        1,
    )
}

/// One browse or search results page: every catalog item as an entity,
/// and whether the pagination controls show a later page.
pub fn extract_catalog(doc: &Elem) -> (r: MangaPageResult)
    ensures
        manga_views(r.manga@) == catalog_views(catalog_items(*doc)),
        r.has_more == (catalog_cur_page(*doc) < catalog_last_page(*doc)),
{
    let items = select(doc, &Selector::of_tag_class("li", "book-li"));
    let ghost its = derefs(items@);
    let mut manga: Vec<Manga> = Vec::new();
    let mut i: usize = 0;
    while i < items.len()
        invariant
            0 <= i <= items.len(),
            its == derefs(items@),
            its == catalog_items(*doc),
            manga_views(manga@) == catalog_views(its.take(i as int)),
        decreases items.len() - i,
    {
        let node = items[i];
        let imgs = select(node, &Selector::of_tag("img"));
        let cover = attr_or_empty(&imgs, &String::from_str("data-src"));
        let titles = select(node, &Selector::of_tag_class("h4", "book-title"));
        let title = text_of(&titles);
        let links = select(node, &Selector::of_tag_class("a", "book-layout"));
        let id = attr_or_empty(&links, &String::from_str("href"));
        let mut url = String::from_str("https://www.bilicomic.net");
        url.append(id.as_str());
        let m = Manga {
            id,
            cover,
            title,
            author: String::new(),
            artist: String::new(),
            description: String::new(),
            url,
            categories: Vec::new(),
            status: MangaStatus::Unknown,
        };
        let ghost prev = manga@;
        manga.push(m);
        proof {
            assert(its[i as int] == *node);
            assert(m@.categories =~= Seq::<Seq<char>>::empty());
            assert(m@ =~= catalog_item_view(its[i as int]));
            assert(manga_views(manga@) =~= manga_views(prev).push(m@));
            assert(its.take(i as int + 1) =~= its.take(i as int).push(its[i as int]));
            assert(catalog_views(its.take(i as int).push(its[i as int])) =~= catalog_views(
                its.take(i as int),
            ).push(catalog_item_view(its[i as int])));
            assert(manga_views(manga@) =~= catalog_views(its.take(i as int + 1)));
        }
        i += 1;
    }
    proof {
        assert(its.take(its.len() as int) =~= its);
    }
    let lasts = select(doc, &Selector::of_tag_class("a", "last"));
    let last_txt = text_of(&lasts);
    let page_count = parse_decimal_str(last_txt.as_str(), 0);
    let pagelinks = select(doc, &Selector::of_id("pagelink"));
    let strongs = select_within(&pagelinks, &Selector::of_tag("strong"));
    let cur_txt = text_of(&strongs);
    let page = parse_decimal_str(cur_txt.as_str(), 1);
    MangaPageResult { manga, has_more: page < page_count }
}

/// The item nodes of a ranking listing document.
pub open spec fn listing_items(doc: Elem) -> Seq<Elem> {
    select_in_children(select_all(doc, sv_id("list_content"@)), sv_tag("li"@))
}

/// The entity that one ranking listing node yields.
pub open spec fn listing_item_view(e: Elem) -> MangaView {
    let url = attr_text(select_all(e, sv_tag("a"@)), "href"@);
    MangaView {
        id: url,
        cover: attr_text(
            select_in_children(select_all(e, sv_class("book-cover"@)), sv_tag("img"@)),
            "data-src"@,
        ),
        title: first_text(select_all(e, sv_class("book-title"@))),
        author: Seq::empty(),
        artist: Seq::empty(),
        description: Seq::empty(),
        url: url,
        categories: Seq::empty(),
        status: MangaStatus::Unknown,
    }
}

/// The entities of every ranking listing node, in document order.
pub open spec fn listing_views(items: Seq<Elem>) -> Seq<MangaView> {
    items.map_values(|e: Elem| listing_item_view(e))
}

/// One ranking listing page. Rankings are bounded, non-paginated sets on
/// this site, so `has_more` is always false here, by policy.
pub fn extract_listing(doc: &Elem) -> (r: MangaPageResult)
    ensures
        manga_views(r.manga@) == listing_views(listing_items(*doc)),
        r.has_more == false,
{
    let conts = select(doc, &Selector::of_id("list_content"));
    let items = select_within(&conts, &Selector::of_tag("li"));
    let ghost its = derefs(items@);
    let mut manga: Vec<Manga> = Vec::new();
    let mut i: usize = 0;
    while i < items.len()
        invariant
            0 <= i <= items.len(),
            its == derefs(items@),
            its == listing_items(*doc),
            manga_views(manga@) == listing_views(its.take(i as int)),
        decreases items.len() - i,
    {
        let node = items[i];
        let covers = select(node, &Selector::of_class("book-cover"));
        let imgs = select_within(&covers, &Selector::of_tag("img"));
        let cover = attr_or_empty(&imgs, &String::from_str("data-src"));
        let titles = select(node, &Selector::of_class("book-title"));
        let title = text_of(&titles);
        let links = select(node, &Selector::of_tag("a"));
        let url = attr_or_empty(&links, &String::from_str("href"));
        let m = Manga {
            id: url.clone(),
            cover,
            title,
            author: String::new(),
            artist: String::new(),
            description: String::new(),
            url,
            categories: Vec::new(),
            status: MangaStatus::Unknown,
        };
        let ghost prev = manga@;
        manga.push(m);
        proof {
            assert(its[i as int] == *node);
            assert(m@.categories =~= Seq::<Seq<char>>::empty());
            assert(m@ =~= listing_item_view(its[i as int]));
            assert(manga_views(manga@) =~= manga_views(prev).push(m@));
            assert(its.take(i as int + 1) =~= its.take(i as int).push(its[i as int]));
            assert(listing_views(its.take(i as int).push(its[i as int])) =~= listing_views(
                its.take(i as int),
            ).push(listing_item_view(its[i as int])));
            assert(manga_views(manga@) =~= listing_views(its.take(i as int + 1)));
        }
        i += 1;
    }
    proof {
        assert(its.take(its.len() as int) =~= its);
    }
    MangaPageResult { manga, has_more: false }
}

/// The status text of a detail document: the part of the meta line that
/// stands before the first `|`.
pub open spec fn detail_status_text(doc: Elem) -> Seq<char> {
    seg_before(first_text(select_all(doc, sv_tag_class("p"@, "book-meta"@))), '|')
}

/// The normalized status: the site marks an ongoing work and a completed
/// work each with its own word; anything else is unknown.
pub open spec fn detail_status(doc: Elem) -> MangaStatus {
    let seg = detail_status_text(doc);
    if seg == "连载"@ {
        MangaStatus::Ongoing
    } else if seg == "完结"@ {
        MangaStatus::Completed
    } else {
        MangaStatus::Unknown
    }
}

/// The author line of a detail document; this site does not distinguish
/// author from artist, so the one value serves both fields.
pub open spec fn detail_author(doc: Elem) -> Seq<char> {
    first_text(select_all(doc, sv_tag_class("div"@, "book-rand-a"@)))
}

/// The categories of a detail document: the text of each tag node, in
/// document order, missing text degrading to the empty string.
pub open spec fn detail_categories(doc: Elem) -> Seq<Seq<char>> {
    select_in_children(
        select_all(doc, sv_tag_class("span"@, "tag-small-group"@)),
        sv_class("tag-small"@),
    ).map_values(|e: Elem| e.text@)
}

/// The site-relative link to the full chapter list of a detail document.
pub open spec fn chapters_link(doc: Elem) -> Seq<char> {
    attr_text(
        select_in_children(
            select_all(doc, sv_class("module-merge"@)),
            sv_tag_class("a"@, "book-status"@),
        ),
        "href"@,
    )
}

/// The entity that a detail document yields for the work `id`.
pub open spec fn detail_view(doc: Elem, id: Seq<char>) -> MangaView {
    MangaView {
        id: id,
        cover: attr_text(
            select_in_children(
                select_all(doc, sv_tag_class("div"@, "module-item-cover"@)),
                sv_tag("img"@),
            ),
            "src"@,
        ),
        title: first_text(select_all(doc, sv_tag_class("h1"@, "book-title"@))),
        author: detail_author(doc),
        artist: detail_author(doc),
        description: first_text(
            select_in_children(select_all(doc, sv_id("bookSummary"@)), sv_tag("content"@)),
        ),
        url: base_url() + chapters_link(doc),
        categories: detail_categories(doc),
        status: detail_status(doc),
    }
}

/// The site-relative link to the full chapter list, read from a detail
/// document; the chapter extractor runs on the document it leads to.
pub fn chapters_link_of(doc: &Elem) -> (r: String)
    ensures
        r@ == chapters_link(*doc),
{
    let merges = select(doc, &Selector::of_class("module-merge"));
    let links = select_within(&merges, &Selector::of_tag_class("a", "book-status"));
    attr_or_empty(&links, &String::from_str("href"))
}

/// The details of the work `manga_id`, read from its detail document.
pub fn extract_detail(doc: &Elem, manga_id: &str) -> (r: Manga)
    ensures
        r@ == detail_view(*doc, manga_id@),
{
    let covers = select(doc, &Selector::of_tag_class("div", "module-item-cover"));
    let imgs = select_within(&covers, &Selector::of_tag("img"));
    let cover = attr_or_empty(&imgs, &String::from_str("src"));
    let titles = select(doc, &Selector::of_tag_class("h1", "book-title"));
    let title = text_of(&titles);
    let authors = select(doc, &Selector::of_tag_class("div", "book-rand-a"));
    let author = text_of(&authors);
    let summaries = select(doc, &Selector::of_id("bookSummary"));
    let contents = select_within(&summaries, &Selector::of_tag("content"));
    let description = text_of(&contents);
    let groups = select(doc, &Selector::of_tag_class("span", "tag-small-group"));
    let tags = select_within(&groups, &Selector::of_class("tag-small"));
    let ghost tags_v = derefs(tags@);
    let mut categories: Vec<String> = Vec::new();
    let mut i: usize = 0;
    while i < tags.len()
        invariant
            0 <= i <= tags.len(),
            tags_v == derefs(tags@),
            categories.deep_view() == tags_v.take(i as int).map_values(|e: Elem| e.text@),
        decreases tags.len() - i,
    {
        let ghost prev = categories.deep_view();
        categories.push(tags[i].text.clone());
        proof {
            assert(tags_v[i as int] == *tags[i as int]);
            assert(categories.deep_view() =~~= prev.push(tags_v[i as int].text@));
            assert(tags_v.take(i as int + 1) =~= tags_v.take(i as int).push(tags_v[i as int]));
            assert(tags_v.take(i as int).push(tags_v[i as int]).map_values(|e: Elem| e.text@)
                =~= tags_v.take(i as int).map_values(|e: Elem| e.text@).push(
                tags_v[i as int].text@,
            ));
            assert(categories.deep_view() =~~= tags_v.take(i as int + 1).map_values(
                |e: Elem| e.text@,
            ));
        }
        i += 1;
    }
    proof {
        assert(tags_v.take(tags_v.len() as int) =~= tags_v);
        assert(categories.deep_view() =~~= detail_categories(*doc));
    }
    let metas = select(doc, &Selector::of_tag_class("p", "book-meta"));
    let meta_txt = text_of(&metas);
    let meta_cs = chars_vec(meta_txt.as_str());
    let cut = find_delim(&meta_cs, 0, '|');
    let mut seg_cs: Vec<char> = Vec::new();
    let mut j: usize = 0;
    while j < cut
        invariant
            0 <= j <= cut <= meta_cs.len(),
            meta_cs@ == meta_txt@,
            seg_cs@ == meta_txt@.subrange(0, j as int),
        decreases cut - j,
    {
        seg_cs.push(meta_cs[j]);
        proof {
            assert(seg_cs@ =~= meta_txt@.subrange(0, j as int + 1));
        }
        j += 1;
    }
    proof {
        assert(meta_txt@.skip(0) =~= meta_txt@);
        assert(seg_cs@ == detail_status_text(*doc));
    }
    let seg = string_of_chars(&seg_cs);
    let status = if str_eq(seg.as_str(), "连载") {
        MangaStatus::Ongoing
    } else if str_eq(seg.as_str(), "完结") {
        MangaStatus::Completed
    } else {
        MangaStatus::Unknown
    };
    let link = chapters_link_of(doc);
    let mut url = String::from_str("https://www.bilicomic.net");
    url.append(link.as_str());
    let m = Manga {
        id: manga_id.to_owned(),
        cover,
        title,
        author: author.clone(),
        artist: author,
        description,
        url,
        categories,
        status,
    };
    proof {
        assert(m@ =~= detail_view(*doc, manga_id@));
    }
    m
}

/// The section nodes of a chapter-list document: one per volume.
pub open spec fn section_nodes(doc: Elem) -> Seq<Elem> {
    select_in_children(select_all(doc, sv_id("volumes"@)), sv_tag_class("div"@, "catalog-volume"@))
}

/// The title of one volume section.
pub open spec fn section_title(sec: Elem) -> Seq<char> {
    first_text(select_in_children(select_all(sec, sv_class("chapter-bar"@)), sv_tag("h3"@)))
}

/// The link of one chapter row.
pub open spec fn row_link(row: Elem) -> Seq<char> {
    attr_text(select_all(row, sv_tag_class("a"@, "chapter-li-a"@)), "href"@)
}

/// Whether a chapter row is kept: rows whose link is an in-page script
/// trigger rather than a navigable URL are excluded entirely.
pub open spec fn row_kept(row: Elem) -> bool {
    !starts_with(row_link(row), "javascript:"@)
}

/// The chapter that one kept row yields, under its section's title.
pub open spec fn row_view(sec_title: Seq<char>, row: Elem) -> ChapterView {
    ChapterView {
        id: row_link(row),
        title: sec_title + " "@ + first_text(select_all(row, sv_class("chapter-index"@))),
        url: base_url() + row_link(row),
        volume: 0,
        chapter: 0,
    }
}

/// The chapters of a section's rows, in order, rows with a non-navigable
/// link left out.
pub open spec fn rows_chapters(rows: Seq<Elem>, t: Seq<char>) -> Seq<ChapterView>
    decreases rows.len(),
{
    if rows.len() == 0 {
        Seq::empty()
    } else {
        let rest = rows_chapters(rows.drop_first(), t);
        if row_kept(rows[0]) {
            seq![row_view(t, rows[0])] + rest
        } else {
            rest
        }
    }
}

/// The chapters of one section.
pub open spec fn section_chapters(sec: Elem) -> Seq<ChapterView> {
    rows_chapters(
        select_all(sec, sv_tag_class("li"@, "jsChapter"@)),
        section_title(sec),
    )
}

/// The chapters of every section in turn.
pub open spec fn sections_chapters(secs: Seq<Elem>) -> Seq<ChapterView>
    decreases secs.len(),
{
    if secs.len() == 0 {
        Seq::empty()
    } else {
        section_chapters(secs[0]) + sections_chapters(secs.drop_first())
    }
}

/// The chapters of a chapter-list document, in document order.
pub open spec fn chapters_of(doc: Elem) -> Seq<ChapterView> {
    sections_chapters(section_nodes(doc))
}

proof fn lemma_rows_chapters_snoc(rows: Seq<Elem>, e: Elem, t: Seq<char>)
    ensures
        rows_chapters(rows.push(e), t) == rows_chapters(rows, t) + (if row_kept(e) {
            seq![row_view(t, e)]
        } else {
            Seq::<ChapterView>::empty()
        }),
    decreases rows.len(),
{
    reveal_with_fuel(rows_chapters, 2);
    if rows.len() == 0 {
        assert(rows.push(e)[0] == e);
        assert(rows.push(e).drop_first() =~= Seq::<Elem>::empty());
        if row_kept(e) {
            assert(rows_chapters(rows.push(e), t) =~= rows_chapters(rows, t) + seq![
                row_view(t, e),
            ]);
        } else {
            assert(rows_chapters(rows.push(e), t) =~= rows_chapters(rows, t) + Seq::<
                ChapterView,
            >::empty());
        }
    } else {
        assert(rows.push(e).drop_first() =~= rows.drop_first().push(e));
        lemma_rows_chapters_snoc(rows.drop_first(), e, t);
        assert(rows.push(e)[0] == rows[0]);
        if row_kept(e) {
            assert(rows_chapters(rows.push(e), t) =~= rows_chapters(rows, t) + seq![
                row_view(t, e),
            ]);
        } else {
            assert(rows_chapters(rows.push(e), t) =~= rows_chapters(rows, t) + Seq::<
                ChapterView,
            >::empty());
        }
    }
}

proof fn lemma_sections_chapters_snoc(secs: Seq<Elem>, e: Elem)
    ensures
        sections_chapters(secs.push(e)) == sections_chapters(secs) + section_chapters(e),
    decreases secs.len(),
{
    reveal_with_fuel(sections_chapters, 2);
    if secs.len() == 0 {
        assert(secs.push(e)[0] == e);
        assert(secs.push(e).drop_first() =~= Seq::<Elem>::empty());
        assert(sections_chapters(secs.push(e)) =~= sections_chapters(secs) + section_chapters(e));
    } else {
        assert(secs.push(e).drop_first() =~= secs.drop_first().push(e));
        lemma_sections_chapters_snoc(secs.drop_first(), e);
        assert(secs.push(e)[0] == secs[0]);
        assert(sections_chapters(secs.push(e)) =~= sections_chapters(secs) + section_chapters(e));
    }
}

/// The chapter list of a chapter-list document: each volume section's
/// rows under the section title, non-navigable rows excluded.
pub fn extract_chapters(doc: &Elem) -> (r: Vec<Chapter>)
    ensures
        chapter_views(r@) == chapters_of(*doc),
{
    let vols = select(doc, &Selector::of_id("volumes"));
    let secs = select_within(&vols, &Selector::of_tag_class("div", "catalog-volume"));
    let ghost ss = derefs(secs@);
    let mut out: Vec<Chapter> = Vec::new();
    let mut i: usize = 0;
    while i < secs.len()
        invariant
            0 <= i <= secs.len(),
            ss == derefs(secs@),
            ss == section_nodes(*doc),
            chapter_views(out@) == sections_chapters(ss.take(i as int)),
        decreases secs.len() - i,
    {
        let sec = secs[i];
        let bars = select(sec, &Selector::of_class("chapter-bar"));
        let h3s = select_within(&bars, &Selector::of_tag("h3"));
        let name = text_of(&h3s);
        let rows = select(sec, &Selector::of_tag_class("li", "jsChapter"));
        let ghost rs = derefs(rows@);
        proof {
            assert(name@ == section_title(ss[i as int]));
            assert(rs == select_all(ss[i as int], sv_tag_class("li"@, "jsChapter"@)));
        }
        let mut j: usize = 0;
        while j < rows.len()
            invariant
                0 <= j <= rows.len(),
                rs == derefs(rows@),
                ss == derefs(secs@),
                0 <= i < secs.len(),
                name@ == section_title(ss[i as int]),
                rs == select_all(ss[i as int], sv_tag_class("li"@, "jsChapter"@)),
                chapter_views(out@) == sections_chapters(ss.take(i as int)) + rows_chapters(
                    rs.take(j as int),
                    name@,
                ),
            decreases rows.len() - j,
        {
            let row = rows[j];
            let links = select(row, &Selector::of_tag_class("a", "chapter-li-a"));
            let id = attr_or_empty(&links, &String::from_str("href"));
            proof {
                assert(rs[j as int] == *row);
                assert(id@ == row_link(rs[j as int]));
                lemma_rows_chapters_snoc(rs.take(j as int), rs[j as int], name@);
                assert(rs.take(j as int + 1) =~= rs.take(j as int).push(rs[j as int]));
            }
            if !starts_with_str(id.as_str(), "javascript:") {
                let idxs = select(row, &Selector::of_class("chapter-index"));
                let row_title = text_of(&idxs);
                let mut title = name.clone();
                title.append(" ");
                title.append(row_title.as_str());
                let mut url = String::from_str("https://www.bilicomic.net");
                url.append(id.as_str());
                let ch = Chapter { id, title, url, volume: 0, chapter: 0 };
                let ghost prev = out@;
                out.push(ch);
                proof {
                    assert(ch@ =~= row_view(name@, rs[j as int]));
                    assert(chapter_views(out@) =~= chapter_views(prev).push(ch@));
                    assert(chapter_views(out@) =~= sections_chapters(ss.take(i as int))
                        + rows_chapters(rs.take(j as int + 1), name@));
                }
            } else {
                proof {
                    assert(!row_kept(rs[j as int]));
                    assert(chapter_views(out@) =~= sections_chapters(ss.take(i as int))
                        + rows_chapters(rs.take(j as int + 1), name@));
                }
            }
            j += 1;
        }
        proof {
            assert(rs.take(rs.len() as int) =~= rs);
            assert(rows_chapters(rs, name@) == section_chapters(ss[i as int]));
            lemma_sections_chapters_snoc(ss.take(i as int), ss[i as int]);
            assert(ss.take(i as int + 1) =~= ss.take(i as int).push(ss[i as int]));
            assert(chapter_views(out@) =~= sections_chapters(ss.take(i as int + 1)));
        }
        i += 1;
    }
    proof {
        assert(ss.take(ss.len() as int) =~= ss);
    }
    out
}

/// No chapter with a non-navigable link is ever included: every chapter
/// extracted from any document has an id that is not a script trigger.
pub proof fn lemma_no_marker_chapter(doc: Elem)
    ensures
        forall|j: int|
            0 <= j < chapters_of(doc).len() ==> !starts_with(
                (#[trigger] chapters_of(doc)[j]).id,
                "javascript:"@,
            ),
{
    lemma_sections_no_marker(section_nodes(doc));
}

proof fn lemma_rows_no_marker(rows: Seq<Elem>, t: Seq<char>)
    ensures
        forall|j: int|
            0 <= j < rows_chapters(rows, t).len() ==> !starts_with(
                (#[trigger] rows_chapters(rows, t)[j]).id,
                "javascript:"@,
            ),
    decreases rows.len(),
{
    if rows.len() == 0 {
    } else {
        lemma_rows_no_marker(rows.drop_first(), t);
        let rest = rows_chapters(rows.drop_first(), t);
        if row_kept(rows[0]) {
            assert forall|j: int| 0 <= j < rows_chapters(rows, t).len() implies !starts_with(
                (#[trigger] rows_chapters(rows, t)[j]).id,
                "javascript:"@,
            ) by {
                if j == 0 {
                    assert(rows_chapters(rows, t)[0] == row_view(t, rows[0]));
                } else {
                    assert(rows_chapters(rows, t)[j] == rest[j - 1]);
                }
            }
        } else {
            assert forall|j: int| 0 <= j < rows_chapters(rows, t).len() implies !starts_with(
                (#[trigger] rows_chapters(rows, t)[j]).id,
                "javascript:"@,
            ) by {
                assert(rows_chapters(rows, t)[j] == rest[j]);
            }
        }
    }
}

proof fn lemma_sections_no_marker(secs: Seq<Elem>)
    ensures
        forall|j: int|
            0 <= j < sections_chapters(secs).len() ==> !starts_with(
                (#[trigger] sections_chapters(secs)[j]).id,
                "javascript:"@,
            ),
    decreases secs.len(),
{
    if secs.len() == 0 {
    } else {
        lemma_sections_no_marker(secs.drop_first());
        lemma_rows_no_marker(
            select_all(secs[0], sv_tag_class("li"@, "jsChapter"@)),
            section_title(secs[0]),
        );
        let head = section_chapters(secs[0]);
        let rest = sections_chapters(secs.drop_first());
        assert forall|j: int| 0 <= j < sections_chapters(secs).len() implies !starts_with(
            (#[trigger] sections_chapters(secs)[j]).id,
            "javascript:"@,
        ) by {
            if j < head.len() {
                assert(sections_chapters(secs)[j] == head[j]);
            } else {
                assert(sections_chapters(secs)[j] == rest[j - head.len()]);
            }
        }
    }
}

/// The image nodes of a reader document.
pub open spec fn page_nodes(doc: Elem) -> Seq<Elem> {
    select_in_children(select_all(doc, sv_tag_id("div"@, "acontentz"@)), sv_tag("img"@))
}

/// The pages of a reader document: the lazy-load URL of each image node
/// that carries one, in document order; a node without it is dropped.
pub open spec fn pages_of(doc: Elem) -> Seq<Seq<char>> {
    lazy_srcs(page_nodes(doc), "data-src"@)
}

/// The page list of a reader document.
pub fn extract_pages(doc: &Elem) -> (r: Vec<Page>)
    ensures
        page_views(r@) == pages_of(*doc),
{
    let conts = select(doc, &Selector::of_tag_id("div", "acontentz"));
    let imgs = select_within(&conts, &Selector::of_tag("img"));
    let ghost ns = derefs(imgs@);
    let name = String::from_str("data-src");
    let mut out: Vec<Page> = Vec::new();
    let mut i: usize = 0;
    while i < imgs.len()
        invariant
            0 <= i <= imgs.len(),
            ns == derefs(imgs@),
            ns == page_nodes(*doc),
            name@ == "data-src"@,
            page_views(out@) == lazy_srcs(ns.take(i as int), "data-src"@),
        decreases imgs.len() - i,
    {
        proof {
            assert(ns[i as int] == *imgs[i as int]);
            lemma_lazy_srcs_snoc(ns.take(i as int), ns[i as int], "data-src"@);
            assert(ns.take(i as int + 1) =~= ns.take(i as int).push(ns[i as int]));
        }
        match elem_attr(imgs[i], &name) {
            Some(v) => {
                out.push(Page { url: v });
                proof {
                    assert(page_views(out@) =~= lazy_srcs(ns.take(i as int + 1), "data-src"@));
                }
            },
            None => {
                proof {
                    assert(page_views(out@) =~= lazy_srcs(ns.take(i as int + 1), "data-src"@));
                }
            },
        }
        i += 1;
    }
    proof {
        assert(ns.take(ns.len() as int) =~= ns);
    }
    out
}

/// Never more pages than image nodes: dropping nodes without the
/// lazy-load attribute only shrinks the list.
pub proof fn lemma_pages_within_node_count(doc: Elem)
    ensures
        pages_of(doc).len() <= page_nodes(doc).len(),
{
    lemma_lazy_srcs_len(page_nodes(doc), "data-src"@);
}

/// Every extracted page URL is the lazy-load attribute of one of the
/// image nodes: no page lacking the attribute is ever included.
pub proof fn lemma_pages_have_lazy_attr(doc: Elem, j: int)
    requires
        0 <= j < pages_of(doc).len(),
    ensures
        exists|k: int|
            0 <= k < page_nodes(doc).len() && attr_in(
                #[trigger] page_nodes(doc)[k].attrs@,
                "data-src"@,
            ) == Some(pages_of(doc)[j]),
{
    lemma_lazy_srcs_sourced(page_nodes(doc), "data-src"@, j);
}

/// The pinned headers sent with every page request to this site: the
/// referer, a fixed mobile user agent, the pinned session cookie blob,
/// and the accept lines.
pub fn default_headers() -> (r: Vec<Header>)
    ensures
        r@.len() == 5,
        r@[0].name@ == "Referer"@ && r@[0].value@ == render_spec(UrlView::Domain),
        r@[1].name@ == "User-Agent"@,
        r@[2].name@ == "Cookie"@,
        r@[3].name@ == "Accept-Language"@ && r@[3].value@ == "zh-CN,zh;q=0.9"@,
        r@[4].name@ == "Accept"@ && r@[4].value@ == "*/*"@,
{
    let mut r: Vec<Header> = Vec::new();
    r.push(Header { name: String::from_str("Referer"), value: Url::Domain.render() });
    r.push(
        Header {
            name: String::from_str("User-Agent"),
            value: String::from_str(
                "Mozilla/5.0 (Linux; Android 6.0; Nexus 5 Build/MRA58N) AppleWebKit/537.36 (KHTML, like Gecko) Chrome/134.0.0.0 Mobile Safari/537.36",
            ),
        },
    );
    r.push(
        Header {
            name: String::from_str("Cookie"),
            value: String::from_str(
                "night=1; jieqiVisitTime=jieqiCartoonsearchTime%3D1743339324; jieqiVisitId=cartoon_cartoonviews%3D1%7C733; jieqiRecentRead=626.48152.0.1.1739634073.0-650.49472.0.1.1739698723.0-643.48896.0.1.1739698735.0-28.1691.0.1.1739698769.0-467.36951.0.1.1739713582.0-26.1646.0.1.1739714424.0-1.2.0.1.1743338889.0-733.56893.0.1.1743339402.0; cf_clearance=QtY9jBXWASUPhsTtKyZzxcsCR9598Er2IfTpdFGrJNM-1743339405-1.2.1.1-5Ud6P3ICY5vNPoczwWJ6gy1k5VFRba9I7tNSVIDpUbl0bOlHWDtAPqmRgFxrHLtql03SbyRUMnxLhHt51ommhiCJCLxfGRH6g3gTdIU5IDv3sOEOpbEtSm2QGE5ARK2LWxhN8jCHcuC6h2rhcAbPKZcEp6rtGeDo3jPpaCPcwjijqA3PH2jT0LHSekmBg2.UdM2uFIP6kaTMj.sghcoUsBuv5IydHybFaQFkZPvO0YnCSZezHTfLGGAmoQf6skwBIbHlVo2bq_p9XLXnJ0y3AmZ5bijj3TdbB1NiiavwpqwWDezg0fO3HIT7gq5O_Fx13h7Ecujm.fNBlCfMFF.kW8aCq6yUdp4cNXHVV85zO.4",
            ),
        },
    );
    r.push(
        Header { name: String::from_str("Accept-Language"), value: String::from_str("zh-CN,zh;q=0.9") },
    );
    r.push(Header { name: String::from_str("Accept"), value: String::from_str("*/*") });
    r
}

/// The headers attached to every image request, for the site's hotlink
/// protection.
pub fn image_request_headers() -> (r: Vec<Header>)
    ensures
        r@.len() == 5,
        r@[0].name@ == "Accept"@,
        r@[1].name@ == "DNT"@ && r@[1].value@ == "1"@,
        r@[2].name@ == "Referer"@ && r@[2].value@ == render_spec(UrlView::Domain),
        r@[3].name@ == "Sec-Fetch-Dest"@ && r@[3].value@ == "empty"@,
        r@[4].name@ == "Sec-GPC"@ && r@[4].value@ == "1"@,
{
    let mut r: Vec<Header> = Vec::new();
    r.push(
        Header {
            name: String::from_str("Accept"),
            value: String::from_str(
                "image/avif,image/webp,image/apng,image/svg+xml,image/*,*/*;q=0.8",
            ),
        },
    );
    r.push(Header { name: String::from_str("DNT"), value: String::from_str("1") });
    r.push(Header { name: String::from_str("Referer"), value: Url::Domain.render() });
    r.push(Header { name: String::from_str("Sec-Fetch-Dest"), value: String::from_str("empty") });
    r.push(Header { name: String::from_str("Sec-GPC"), value: String::from_str("1") });
    r
}

} // verus!
