//! The adapter for the second site: its URL router, filter resolution,
//! listing dispatch, pinned request headers, and the extractors for its
//! search, catalog, detail, chapter and page documents.

use vstd::prelude::*;
use vstd::string::StringExecFns;
use crate::dom::Elem;
use crate::dom::Selector;
use crate::dom::sv_tag;
use crate::dom::sv_tag_class;
use crate::dom::sv_tag_id;
use crate::dom::select_all;
use crate::dom::select_in_children;
use crate::dom::select;
use crate::dom::select_within;
use crate::dom::derefs;
use crate::dom::first_text;
use crate::dom::nth_text;
use crate::dom::nth_text_of;
use crate::dom::attr_text;
use crate::dom::attr_in;
use crate::dom::text_of;
use crate::dom::attr_or_empty;
use crate::dom::elem_attr;
use crate::dom::lazy_srcs;
use crate::dom::lemma_lazy_srcs_snoc;
use crate::dom::lemma_lazy_srcs_len;
use crate::dom::lemma_lazy_srcs_sourced;
use crate::entities::Manga;
use crate::entities::MangaView;
use crate::entities::manga_views;
use crate::entities::Chapter;
use crate::entities::ChapterView;
use crate::entities::chapter_views;
use crate::entities::Page;
use crate::entities::page_views;
use crate::entities::MangaPageResult;
use crate::entities::MangaStatus;
use crate::entities::Filter;
use crate::entities::FilterKind;
use crate::entities::Header;
use crate::strutil::has_substr;
use crate::strutil::contains_str;
use crate::strutil::chars_vec;
use crate::strutil::str_eq;
use crate::strutil::chapter_num;
use crate::strutil::extract_chapter_number;
use crate::strutil::split_trim_nonempty;
use crate::strutil::split_trim_nonempty_vec;

verus! {

/// The site root, without a trailing slash.
pub open spec fn base_url() -> Seq<char> {
    "https://nnhanman9.com"@
}

/// A navigation intent on this site.
pub enum Url {
    /// The site root.
    Domain,
    /// A title search.
    Search { keyword: String },
    /// Any other page, addressed by its site-relative path.
    Page { path: String },
}

/// The mathematical value of a `Url`.
pub enum UrlView {
    Domain,
    Search { keyword: Seq<char> },
    Page { path: Seq<char> },
}

impl View for Url {
    type V = UrlView;

    open spec fn view(&self) -> UrlView {
        match self {
            Url::Domain => UrlView::Domain,
            Url::Search { keyword } => UrlView::Search { keyword: keyword@ },
            Url::Page { path } => UrlView::Page { path: path@ },
        }
    }
}

/// The absolute URL that a route renders to.
pub open spec fn render_spec(u: UrlView) -> Seq<char> {
    match u {
        UrlView::Domain => base_url() + "/"@,
        UrlView::Search { keyword } => base_url() + "/catalog.php?key="@ + keyword,
        UrlView::Page { path } => base_url() + "/"@ + path,
    }
}

impl Url {
    /// The absolute URL of this route.
    pub fn render(&self) -> (r: String)
        ensures
            r@ == render_spec(self@),
    {
        match self {
            Url::Domain => {
                let mut s = String::from_str("https://nnhanman9.com");
                s.append("/");
                s
            },
            Url::Search { keyword } => {
                let mut s = String::from_str("https://nnhanman9.com");
                s.append("/catalog.php?key=");
                s.append(keyword.as_str());
                s
            },
            Url::Page { path } => {
                let mut s = String::from_str("https://nnhanman9.com");
                s.append("/");
                s.append(path.as_str());
                s
            },
        }
    }
}

/// Whether a filter is a title filter whose value could be read and is
/// not empty: the only kind of filter that this router interprets.
pub open spec fn usable_title(f: Filter) -> bool {
    &&& f.kind is Title
    &&& f.value is Some
    &&& f.value->0@.len() > 0
}

/// The route that a filter list resolves to: the first usable title
/// filter short-circuits to a search; otherwise the default weekly
/// ranking page. This site's browse listing takes no page parameter.
pub open spec fn route_spec(fs: Seq<Filter>) -> UrlView
    decreases fs.len(),
{
    if fs.len() == 0 {
        UrlView::Page { path: "ranking/weekly"@ }
    } else if usable_title(fs[0]) {
        UrlView::Search { keyword: fs[0].value->0@ }
    } else {
        route_spec(fs.drop_first())
    }
}

/// Resolve the route for a browse or search call.
pub fn resolve_route(filters: &Vec<Filter>) -> (r: Url)
    ensures
        r@ == route_spec(filters@),
{
    proof {
        assert(filters@.skip(0) =~= filters@);
    }
    let mut i: usize = 0;
    while i < filters.len()
        invariant
            0 <= i <= filters.len(),
            route_spec(filters@) == route_spec(filters@.skip(i as int)),
        decreases filters.len() - i,
    {
        proof {
            assert(filters@.skip(i as int)[0] == filters@[i as int]);
            assert(filters@.skip(i as int).drop_first() =~= filters@.skip(i as int + 1));
        }
        let f = &filters[i];
        match f.kind {
            FilterKind::Title => {
                match &f.value {
                    Some(v) => {
                        if !v.as_str().is_empty() {
                            return Url::Search { keyword: v.clone() };
                        }
                    },
                    None => {},
                }
            },
            FilterKind::Other => {},
        }
        i += 1;
    }
    proof {
        assert(filters@.skip(filters@.len() as int) =~= Seq::<Filter>::empty());
    }
    Url::Page { path: String::from_str("ranking/weekly") }
}

/// A title filter always short-circuits: wherever some filter of the list
/// is a usable title filter, the resolved route is a search, whatever
/// else the list holds and in whatever order.
pub proof fn lemma_title_filter_short_circuits(fs: Seq<Filter>)
    requires
        exists|i: int| 0 <= i < fs.len() && usable_title(#[trigger] fs[i]),
    ensures
        route_spec(fs) is Search,
    decreases fs.len(),
{
    if usable_title(fs[0]) {
    } else {
        let i = choose|i: int| 0 <= i < fs.len() && usable_title(#[trigger] fs[i]);
        assert(fs.drop_first()[i - 1] == fs[i]);
        lemma_title_filter_short_circuits(fs.drop_first());
    }
}

/// Without a usable title filter the route is always the default weekly
/// ranking listing.
pub proof fn lemma_no_title_browses(fs: Seq<Filter>)
    requires
        forall|i: int| 0 <= i < fs.len() ==> !usable_title(#[trigger] fs[i]),
    ensures
        route_spec(fs) == (UrlView::Page { path: "ranking/weekly"@ }),
    decreases fs.len(),
{
    if fs.len() == 0 {
    } else {
        assert(forall|i: int|
            0 <= i < fs.drop_first().len() ==> !usable_title(#[trigger] fs.drop_first()[i]));
        lemma_no_title_browses(fs.drop_first());
    }
}

/// Rendering a page route appends the site-relative path after the root
/// and one slash, so the path is recovered by dropping both: the round
/// trip loses nothing.
pub proof fn lemma_page_route_round_trip(path: Seq<char>)
    ensures
        render_spec(UrlView::Page { path }).skip(base_url().len() as int + 1) == path,
{
    assert((base_url() + "/"@ + path).skip(base_url().len() + "/"@.len() as int) =~= path);
    assert("/"@.len() == 1) by {
        reveal_strlit("/");
    }
}

/// The path fragment of a listing, by its display name; an unrecognized
/// name falls back to the weekly ranking.
pub open spec fn listing_path_spec(name: Seq<char>) -> Seq<char> {
    if name == "日榜"@ {
        "ranking/daily"@
    } else if name == "周榜"@ {
        "ranking/weekly"@
    } else if name == "月榜"@ {
        "ranking/monthly"@
    } else if name == "总榜"@ {
        "ranking/all"@
    } else if name == "最近更新"@ {
        "update"@
    } else if name == "新书发布"@ {
        "update/newbook"@
    } else if name == "推荐漫画"@ {
        "update/recommend"@
    } else {
        "ranking/weekly"@
    }
}

/// The path fragment of the listing named `name`.
pub fn listing_path(name: &str) -> (r: String)
    ensures
        r@ == listing_path_spec(name@),
{
    if str_eq(name, "日榜") {
        String::from_str("ranking/daily")
    } else if str_eq(name, "周榜") {
        String::from_str("ranking/weekly")
    } else if str_eq(name, "月榜") {
        String::from_str("ranking/monthly")
    } else if str_eq(name, "总榜") {
        String::from_str("ranking/all")
    } else if str_eq(name, "最近更新") {
        String::from_str("update")
    } else if str_eq(name, "新书发布") {
        String::from_str("update/newbook")
    } else if str_eq(name, "推荐漫画") {
        String::from_str("update/recommend")
    } else {
        String::from_str("ranking/weekly")
    }
}

/// The item nodes of a search results document.
pub open spec fn search_items(doc: Elem) -> Seq<Elem> {
    select_in_children(
        select_in_children(select_all(doc, sv_tag_class("div"@, "imgBox"@)), sv_tag("ul"@)),
        sv_tag("li"@),
    )
}

/// The entity that one search result node yields.
pub open spec fn search_item_view(e: Elem) -> MangaView {
    let url = attr_text(select_all(e, sv_tag("a"@)), "href"@);
    MangaView {
        id: url,
        cover: attr_text(
            select_in_children(select_all(e, sv_tag("a"@)), sv_tag("img"@)),
            "src"@,
        ),
        title: first_text(select_all(e, sv_tag("a"@))),
        author: Seq::empty(),
        artist: Seq::empty(),
        description: Seq::empty(),
        url: url,
        categories: Seq::empty(),
        status: MangaStatus::Unknown,
    }
}

/// The entities of every search result node, in document order.
pub open spec fn search_views(items: Seq<Elem>) -> Seq<MangaView> {
    items.map_values(|e: Elem| search_item_view(e))
}

/// One search results page. Search results are not paginated on this
/// site, so `has_more` is always false here, by policy.
pub fn extract_search(doc: &Elem) -> (r: MangaPageResult)
    ensures
        manga_views(r.manga@) == search_views(search_items(*doc)),
        r.has_more == false,
{
    let boxes = select(doc, &Selector::of_tag_class("div", "imgBox"));
    let uls = select_within(&boxes, &Selector::of_tag("ul"));
    let items = select_within(&uls, &Selector::of_tag("li"));
    let ghost its = derefs(items@);
    let mut manga: Vec<Manga> = Vec::new();
    let mut i: usize = 0;
    while i < items.len()
        invariant
            0 <= i <= items.len(),
            its == derefs(items@),
            its == search_items(*doc),
            manga_views(manga@) == search_views(its.take(i as int)),
        decreases items.len() - i,
    {
        let node = items[i];
        let links = select(node, &Selector::of_tag("a"));
        let imgs = select_within(&links, &Selector::of_tag("img"));
        let cover = attr_or_empty(&imgs, &String::from_str("src"));
        let url = attr_or_empty(&links, &String::from_str("href"));
        let title = text_of(&links);
        let m = Manga {
            id: url.clone(),
            cover,
            title,
            author: String::new(),
            artist: String::new(),
            description: String::new(),
            url,
            categories: Vec::new(),
            status: MangaStatus::Unknown,
        };
        let ghost prev = manga@;
        manga.push(m);
        proof {
            assert(its[i as int] == *node);
            assert(m@.categories =~= Seq::<Seq<char>>::empty());
            assert(m@ =~= search_item_view(its[i as int]));
            assert(manga_views(manga@) =~= manga_views(prev).push(m@));
            assert(its.take(i as int + 1) =~= its.take(i as int).push(its[i as int]));
            assert(search_views(its.take(i as int).push(its[i as int])) =~= search_views(
                its.take(i as int),
            ).push(search_item_view(its[i as int])));
            assert(manga_views(manga@) =~= search_views(its.take(i as int + 1)));
        }
        i += 1;
    }
    proof {
        assert(its.take(its.len() as int) =~= its);
    }
    MangaPageResult { manga, has_more: false }
}

/// The item nodes of a ranking or update listing document.
pub open spec fn catalog_items(doc: Elem) -> Seq<Elem> {
    select_all(doc, sv_tag_class("div"@, "itemBox"@))
}

/// The entity that one listing item node yields.
pub open spec fn catalog_item_view(e: Elem) -> MangaView {
    let url = attr_text(
        select_in_children(
            select_all(e, sv_tag_class("div"@, "itemTxt"@)),
            sv_tag("a"@),
        ),
        "href"@,
    );
    MangaView {
        id: url,
        cover: attr_text(
            select_in_children(
                select_all(e, sv_tag_class("div"@, "itemImg"@)),
                sv_tag("img"@),
            ),
            "src"@,
        ),
        title: first_text(
            select_in_children(select_all(e, sv_tag_class("div"@, "itemTxt"@)), sv_tag("a"@)),
        ),
        author: Seq::empty(),
        artist: Seq::empty(),
        description: Seq::empty(),
        url: url,
        categories: Seq::empty(),
        status: MangaStatus::Unknown,
    }
}

/// The entities of every listing item node, in document order.
pub open spec fn catalog_views(items: Seq<Elem>) -> Seq<MangaView> {
    items.map_values(|e: Elem| catalog_item_view(e))
}

/// One ranking or update listing page. Listings are bounded sets on this
/// site, so `has_more` is always false here, by policy.
pub fn extract_catalog(doc: &Elem) -> (r: MangaPageResult)
    ensures
        manga_views(r.manga@) == catalog_views(catalog_items(*doc)),
        r.has_more == false,
{
    let items = select(doc, &Selector::of_tag_class("div", "itemBox"));
    let ghost its = derefs(items@);
    let mut manga: Vec<Manga> = Vec::new();
    let mut i: usize = 0;
    while i < items.len()
        invariant
            0 <= i <= items.len(),
            its == derefs(items@),
            its == catalog_items(*doc),
            manga_views(manga@) == catalog_views(its.take(i as int)),
        decreases items.len() - i,
    {
        let node = items[i];
        let img_boxes = select(node, &Selector::of_tag_class("div", "itemImg"));
        let imgs = select_within(&img_boxes, &Selector::of_tag("img"));
        let cover = attr_or_empty(&imgs, &String::from_str("src"));
        let txts = select(node, &Selector::of_tag_class("div", "itemTxt"));
        let links = select_within(&txts, &Selector::of_tag("a"));
        let url = attr_or_empty(&links, &String::from_str("href"));
        let title = text_of(&links);
        let m = Manga {
            id: url.clone(),
            cover,
            title,
            author: String::new(),
            artist: String::new(),
            description: String::new(),
            url,
            categories: Vec::new(),
            status: MangaStatus::Unknown,
        };
        let ghost prev = manga@;
        manga.push(m);
        proof {
            assert(its[i as int] == *node);
            assert(m@.categories =~= Seq::<Seq<char>>::empty());
            assert(m@ =~= catalog_item_view(its[i as int]));
            assert(manga_views(manga@) =~= manga_views(prev).push(m@));
            assert(its.take(i as int + 1) =~= its.take(i as int).push(its[i as int]));
            assert(catalog_views(its.take(i as int).push(its[i as int])) =~= catalog_views(
                its.take(i as int),
            ).push(catalog_item_view(its[i as int])));
            assert(manga_views(manga@) =~= catalog_views(its.take(i as int + 1)));
        }
        i += 1;
    }
    proof {
        assert(its.take(its.len() as int) =~= its);
    }
    MangaPageResult { manga, has_more: false }
}

/// The introduction nodes of a detail document.
pub open spec fn nn_intro(doc: Elem) -> Seq<Elem> {
    select_all(doc, sv_tag_class("div"@, "Introduct_Sub"@))
}

/// The meta rows that hold author and categories.
pub open spec fn nn_meta_rows(doc: Elem) -> Seq<Elem> {
    select_in_children(
        select_in_children(nn_intro(doc), sv_tag_class("div"@, "sub_r"@)),
        sv_tag_class("p"@, "txtItme"@),
    )
}

/// The text of the date mark in the last meta row of the introduction;
/// empty where the introduction has no meta row.
pub open spec fn nn_update_text(doc: Elem) -> Seq<char> {
    let ps = select_in_children(nn_intro(doc), sv_tag_class("p"@, "txtItme"@));
    if ps.len() == 0 {
        Seq::empty()
    } else {
        first_text(select_all(ps.last(), sv_tag_class("span"@, "date"@)))
    }
}

/// The normalized status: the date mark names an ongoing work in so many
/// words; any other mark means the work is complete. That is this site's
/// own policy; the other adapter defaults differently.
pub open spec fn nn_status(doc: Elem) -> MangaStatus {
    if has_substr(nn_update_text(doc), "连载中"@) {
        MangaStatus::Ongoing
    } else {
        MangaStatus::Completed
    }
}

/// The categories: the second meta row's text, split on commas, each
/// part trimmed, empty parts dropped.
pub open spec fn nn_categories(doc: Elem) -> Seq<Seq<char>> {
    split_trim_nonempty(nth_text(nn_meta_rows(doc), 1), ',')
}

/// The entity that a detail document yields for the work `id`. This site
/// does not name an artist and gives no canonical URL in the document, so
/// those fields stay empty.
pub open spec fn detail_view(doc: Elem, id: Seq<char>) -> MangaView {
    MangaView {
        id: id,
        cover: attr_text(
            select_in_children(
                select_in_children(nn_intro(doc), sv_tag_id("div"@, "Cover"@)),
                sv_tag("img"@),
            ),
            "src"@,
        ),
        title: first_text(select_in_children(nn_intro(doc), sv_tag("h1"@))),
        author: first_text(nn_meta_rows(doc)),
        artist: Seq::empty(),
        description: first_text(select_all(doc, sv_tag_class("p"@, "txtDesc"@))),
        url: Seq::empty(),
        categories: nn_categories(doc),
        status: nn_status(doc),
    }
}

/// The details of the work `manga_id`, read from its detail document.
pub fn extract_detail(doc: &Elem, manga_id: &str) -> (r: Manga)
    ensures
        r@ == detail_view(*doc, manga_id@),
{
    let intro = select(doc, &Selector::of_tag_class("div", "Introduct_Sub"));
    let cover_boxes = select_within(&intro, &Selector::of_tag_id("div", "Cover"));
    let imgs = select_within(&cover_boxes, &Selector::of_tag("img"));
    let cover = attr_or_empty(&imgs, &String::from_str("src"));
    let h1s = select_within(&intro, &Selector::of_tag("h1"));
    let title = text_of(&h1s);
    let subs = select_within(&intro, &Selector::of_tag_class("div", "sub_r"));
    let rows = select_within(&subs, &Selector::of_tag_class("p", "txtItme"));
    let author = text_of(&rows);
    let cat_text = nth_text_of(&rows, 1);
    let cat_cs = chars_vec(cat_text.as_str());
    let categories = split_trim_nonempty_vec(&cat_cs, ',');
    let descs = select(doc, &Selector::of_tag_class("p", "txtDesc"));
    let description = text_of(&descs);
    let all_rows = select_within(&intro, &Selector::of_tag_class("p", "txtItme"));
    let last_update = if all_rows.len() == 0 {
        String::new()
    } else {
        let dates = select(all_rows[all_rows.len() - 1], &Selector::of_tag_class("span", "date"));
        text_of(&dates)
    };
    proof {
        let ps = select_in_children(nn_intro(*doc), sv_tag_class("p"@, "txtItme"@));
        assert(derefs(all_rows@) == ps);
        if all_rows@.len() > 0 {
            assert(derefs(all_rows@)[all_rows@.len() - 1] == *all_rows@[all_rows@.len() - 1]);
            assert(ps.last() == *all_rows@[all_rows@.len() - 1]);
        }
        assert(last_update@ == nn_update_text(*doc));
    }
    let status = if contains_str(last_update.as_str(), "连载中") {
        MangaStatus::Ongoing
    } else {
        MangaStatus::Completed
    };
    let m = Manga {
        id: manga_id.to_owned(),
        cover,
        title,
        author,
        artist: String::new(),
        description,
        url: String::new(),
        categories,
        status,
    };
    proof {
        assert(m@ =~= detail_view(*doc, manga_id@));
    }
    m
}

/// The chapter row nodes of a detail document.
pub open spec fn chapter_rows(doc: Elem) -> Seq<Elem> {
    select_in_children(
        select_all(doc, sv_tag_id("ul"@, "mh-chapter-list-ol-0"@)),
        sv_tag("li"@),
    )
}

/// The chapter that one row yields: the link serves as both id and URL;
/// the chapter number is the first run of digits of the row's title, zero
/// where there is none; the volume is always one on this site.
pub open spec fn chapter_row_view(row: Elem) -> ChapterView {
    let link = attr_text(select_all(row, sv_tag("a"@)), "href"@);
    let title = first_text(select_all(row, sv_tag("span"@)));
    ChapterView {
        id: link,
        title: title,
        url: link,
        volume: 1,
        chapter: chapter_num(title) as u64,
    }
}

/// The chapters of every row, in document order: no row is dropped.
pub open spec fn chapters_views(rows: Seq<Elem>) -> Seq<ChapterView> {
    rows.map_values(|e: Elem| chapter_row_view(e))
}

/// The chapter list of a detail document, in document order.
pub fn extract_chapters(doc: &Elem) -> (r: Vec<Chapter>)
    ensures
        chapter_views(r@) == chapters_views(chapter_rows(*doc)),
{
    let lists = select(doc, &Selector::of_tag_id("ul", "mh-chapter-list-ol-0"));
    let rows = select_within(&lists, &Selector::of_tag("li"));
    let ghost rs = derefs(rows@);
    let mut out: Vec<Chapter> = Vec::new();
    let mut i: usize = 0;
    while i < rows.len()
        invariant
            0 <= i <= rows.len(),
            rs == derefs(rows@),
            rs == chapter_rows(*doc),
            chapter_views(out@) == chapters_views(rs.take(i as int)),
        decreases rows.len() - i,
    {
        let row = rows[i];
        let spans = select(row, &Selector::of_tag("span"));
        let title = text_of(&spans);
        let links = select(row, &Selector::of_tag("a"));
        let link = attr_or_empty(&links, &String::from_str("href"));
        let number = extract_chapter_number(title.as_str());
        let ch = Chapter {
            id: link.clone(),
            title,
            url: link,
            volume: 1,
            chapter: number,
        };
        let ghost prev = out@;
        out.push(ch);
        proof {
            assert(rs[i as int] == *row);
            assert(ch@ =~= chapter_row_view(rs[i as int]));
            assert(chapter_views(out@) =~= chapter_views(prev).push(ch@));
            assert(rs.take(i as int + 1) =~= rs.take(i as int).push(rs[i as int]));
            assert(chapters_views(rs.take(i as int).push(rs[i as int])) =~= chapters_views(
                rs.take(i as int),
            ).push(chapter_row_view(rs[i as int])));
            assert(chapter_views(out@) =~= chapters_views(rs.take(i as int + 1)));
        }
        i += 1;
    }
    proof {
        assert(rs.take(rs.len() as int) =~= rs);
    }
    out
}

/// The lazy-loaded image nodes of a reader document.
pub open spec fn page_nodes(doc: Elem) -> Seq<Elem> {
    select_all(doc, sv_tag_class("img"@, "lazy"@))
}

/// The pages of a reader document: the lazy-load URL of each image node
/// that carries one, in document order; a node without it is dropped.
pub open spec fn pages_of(doc: Elem) -> Seq<Seq<char>> {
    lazy_srcs(page_nodes(doc), "data-original"@)
}

/// The page list of a reader document.
pub fn extract_pages(doc: &Elem) -> (r: Vec<Page>)
    ensures
        page_views(r@) == pages_of(*doc),
{
    let imgs = select(doc, &Selector::of_tag_class("img", "lazy"));
    let ghost ns = derefs(imgs@);
    let name = String::from_str("data-original");
    let mut out: Vec<Page> = Vec::new();
    let mut i: usize = 0;
    while i < imgs.len()
        invariant
            0 <= i <= imgs.len(),
            ns == derefs(imgs@),
            ns == page_nodes(*doc),
            name@ == "data-original"@,
            page_views(out@) == lazy_srcs(ns.take(i as int), "data-original"@),
        decreases imgs.len() - i,
    {
        proof {
            assert(ns[i as int] == *imgs[i as int]);
            lemma_lazy_srcs_snoc(ns.take(i as int), ns[i as int], "data-original"@);
            assert(ns.take(i as int + 1) =~= ns.take(i as int).push(ns[i as int]));
        }
        match elem_attr(imgs[i], &name) {
            Some(v) => {
                out.push(Page { url: v });
                proof {
                    assert(page_views(out@) =~= lazy_srcs(ns.take(i as int + 1), "data-original"@));
                }
            },
            None => {
                proof {
                    assert(page_views(out@) =~= lazy_srcs(ns.take(i as int + 1), "data-original"@));
                }
            },
        }
        i += 1;
    }
    proof {
        assert(ns.take(ns.len() as int) =~= ns);
    }
    out
}

/// Never more pages than image nodes: dropping nodes without the
/// lazy-load attribute only shrinks the list.
pub proof fn lemma_pages_within_node_count(doc: Elem)
    ensures
        pages_of(doc).len() <= page_nodes(doc).len(),
{
    lemma_lazy_srcs_len(page_nodes(doc), "data-original"@);
}

/// Every extracted page URL is the lazy-load attribute of one of the
/// image nodes: no page lacking the attribute is ever included.
pub proof fn lemma_pages_have_lazy_attr(doc: Elem, j: int)
    requires
        0 <= j < pages_of(doc).len(),
    ensures
        exists|k: int|
            0 <= k < page_nodes(doc).len() && attr_in(
                #[trigger] page_nodes(doc)[k].attrs@,
                "data-original"@,
            ) == Some(pages_of(doc)[j]),
{
    lemma_lazy_srcs_sourced(page_nodes(doc), "data-original"@, j);
}

/// The pinned headers sent with every page request to this site.
pub fn default_headers() -> (r: Vec<Header>)
    ensures
        r@.len() == 2,
        r@[0].name@ == "Referer"@ && r@[0].value@ == render_spec(UrlView::Domain),
        r@[1].name@ == "User-Agent"@,
{
    let mut r: Vec<Header> = Vec::new();
    r.push(Header { name: String::from_str("Referer"), value: Url::Domain.render() });
    r.push(
        Header {
            name: String::from_str("User-Agent"),
            value: String::from_str(
                "Mozilla/5.0 (iPhone; CPU iPhone OS 17_6 like Mac OS X) AppleWebKit/605.1.15 (KHTML, like Gecko) Version/17.5 Mobile/15E148 Safari/604.1",
            ),
        },
    );
    r
}

/// The headers attached to every image request, for the site's hotlink
/// protection: the same referer and user agent as every other request.
pub fn image_request_headers() -> (r: Vec<Header>)
    ensures
        r@.len() == 2,
        r@[0].name@ == "Referer"@ && r@[0].value@ == render_spec(UrlView::Domain),
        r@[1].name@ == "User-Agent"@,
{
    default_headers()
}

} // verus!
