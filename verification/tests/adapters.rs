use manga_sources::bilicomic;
use manga_sources::dom::{Attrib, Elem};
use manga_sources::entities::{Filter, FilterKind, MangaStatus};
use manga_sources::nnhanman;
use manga_sources::strutil::extract_chapter_number;

fn el(tag: &str, classes: &[&str], text: &str) -> Elem {
    Elem {
        tag: tag.to_string(),
        id_attr: String::new(),
        classes: classes.iter().map(|c| c.to_string()).collect(),
        attrs: Vec::new(),
        text: text.to_string(),
        children: Vec::new(),
    }
}

fn with_id(mut e: Elem, id: &str) -> Elem {
    e.id_attr = id.to_string();
    e
}

fn with_attr(mut e: Elem, name: &str, value: &str) -> Elem {
    e.attrs.push(Attrib {
        name: name.to_string(),
        value: value.to_string(),
    });
    e
}

fn with_children(mut e: Elem, children: Vec<Elem>) -> Elem {
    e.children = children;
    e
}

fn root(children: Vec<Elem>) -> Elem {
    with_children(el("html", &[], ""), children)
}

fn title_filter(value: &str) -> Filter {
    Filter {
        kind: FilterKind::Title,
        value: Some(value.to_string()),
    }
}

fn other_filter() -> Filter {
    Filter {
        kind: FilterKind::Other,
        value: Some("x".to_string()),
    }
}

fn unreadable_title_filter() -> Filter {
    Filter {
        kind: FilterKind::Title,
        value: None,
    }
}

#[test]
fn bilicomic_title_filter_short_circuits() {
    let filters = vec![other_filter(), title_filter("naruto"), title_filter("later")];
    let route = bilicomic::resolve_route(&filters, 7);
    assert_eq!(
        route.render(),
        "https://www.bilicomic.net/search.html?searchkey=naruto"
    );
}

#[test]
fn bilicomic_no_usable_title_browses_by_page() {
    let filters = vec![other_filter(), unreadable_title_filter(), title_filter("")];
    let route = bilicomic::resolve_route(&filters, 3);
    assert_eq!(
        route.render(),
        "https://www.bilicomic.net/filter/lastupdate_0_0_0_0_0_0_0_3_0.html"
    );
}

#[test]
fn bilicomic_domain_and_top_render() {
    assert_eq!(
        bilicomic::Url::Domain.render(),
        "https://www.bilicomic.net/"
    );
    let top = bilicomic::Url::Top {
        path: "monthvisit".to_string(),
    };
    assert_eq!(top.render(), "https://www.bilicomic.net/top/monthvisit.html");
}

#[test]
fn bilicomic_entity_url_round_trip() {
    let id = "/733_56893/index.html";
    let url = bilicomic::Url::Manga { id: id.to_string() }.render();
    assert_eq!(url, "https://www.bilicomic.net/733_56893/index.html");
    assert_eq!(bilicomic::entity_id_of_url(&url), Some(id.to_string()));
    assert_eq!(bilicomic::entity_id_of_url("https://elsewhere.example/x"), None);
}

#[test]
fn bilicomic_listing_paths() {
    assert_eq!(bilicomic::listing_path("月点击榜"), "monthvisit");
    assert_eq!(bilicomic::listing_path("周点击榜"), "weekvisit");
    assert_eq!(bilicomic::listing_path("月推荐榜"), "monthvote");
    assert_eq!(bilicomic::listing_path("周推荐榜"), "weekvote");
    assert_eq!(bilicomic::listing_path("收藏榜"), "goodnum");
    assert_eq!(bilicomic::listing_path("新书榜"), "newhot");
    assert_eq!(bilicomic::listing_path("something else"), "monthvisit");
}

fn bilicomic_catalog_item(href: &str, cover: &str, title: Option<&str>) -> Elem {
    let mut children = vec![
        with_attr(el("img", &[], ""), "data-src", cover),
        with_attr(el("a", &["book-layout"], ""), "href", href),
    ];
    if let Some(t) = title {
        children.push(el("h4", &["book-title"], t));
    }
    with_children(el("li", &["book-li"], ""), children)
}

#[test]
fn bilicomic_catalog_three_items_one_without_title() {
    let doc = root(vec![
        bilicomic_catalog_item("/1_1/", "c1", Some("One")),
        bilicomic_catalog_item("/2_2/", "c2", None),
        bilicomic_catalog_item("/3_3/", "c3", Some("Three")),
        el("a", &["last"], "5"),
        with_children(
            with_id(el("div", &[], ""), "pagelink"),
            vec![el("strong", &[], "2")],
        ),
    ]);
    let r = bilicomic::extract_catalog(&doc);
    assert_eq!(r.manga.len(), 3);
    assert_eq!(r.manga[0].title, "One");
    assert_eq!(r.manga[1].title, "");
    assert_eq!(r.manga[1].cover, "c2");
    assert_eq!(r.manga[1].id, "/2_2/");
    assert_eq!(r.manga[2].url, "https://www.bilicomic.net/3_3/");
    assert!(r.has_more);
}

#[test]
fn bilicomic_has_more_is_current_less_than_last() {
    let doc_equal = root(vec![
        el("a", &["last"], "4"),
        with_children(
            with_id(el("div", &[], ""), "pagelink"),
            vec![el("strong", &[], "4")],
        ),
    ]);
    assert!(!bilicomic::extract_catalog(&doc_equal).has_more);

    let doc_missing_last = root(vec![with_children(
        with_id(el("div", &[], ""), "pagelink"),
        vec![el("strong", &[], "2")],
    )]);
    assert!(!bilicomic::extract_catalog(&doc_missing_last).has_more);

    let doc_missing_current = root(vec![el("a", &["last"], "9")]);
    assert!(bilicomic::extract_catalog(&doc_missing_current).has_more);
}

#[test]
fn bilicomic_listing_never_has_more() {
    let item = with_children(
        el("li", &[], ""),
        vec![
            with_children(
                el("div", &["book-cover"], ""),
                vec![with_attr(el("img", &[], ""), "data-src", "cov")],
            ),
            el("div", &["book-title"], "Ranked"),
            with_attr(el("a", &[], ""), "href", "/9_9/"),
        ],
    );
    let doc = root(vec![with_children(
        with_id(el("div", &[], ""), "list_content"),
        vec![item],
    )]);
    let r = bilicomic::extract_listing(&doc);
    assert_eq!(r.manga.len(), 1);
    assert_eq!(r.manga[0].id, "/9_9/");
    assert_eq!(r.manga[0].url, "/9_9/");
    assert_eq!(r.manga[0].title, "Ranked");
    assert_eq!(r.manga[0].cover, "cov");
    assert!(!r.has_more);
}

fn bilicomic_detail_doc(meta: &str) -> Elem {
    root(vec![
        with_children(
            el("div", &["module-item-cover"], ""),
            vec![with_attr(el("img", &[], ""), "src", "cover.jpg")],
        ),
        el("h1", &["book-title"], "Some Title"),
        el("div", &["book-rand-a"], "Author Name"),
        with_children(
            with_id(el("div", &[], ""), "bookSummary"),
            vec![el("content", &[], "A description.")],
        ),
        with_children(
            el("span", &["tag-small-group"], ""),
            vec![
                el("em", &["tag-small"], "玄幻"),
                el("em", &["tag-small"], "热血"),
            ],
        ),
        el("p", &["book-meta"], meta),
        with_children(
            el("div", &["module-merge"], ""),
            vec![with_attr(el("a", &["book-status"], ""), "href", "/1_1/catalog")],
        ),
    ])
}

#[test]
fn bilicomic_detail_fields_and_ongoing_status() {
    let doc = bilicomic_detail_doc("连载|每周三更新");
    let m = bilicomic::extract_detail(&doc, "/1_1/");
    assert_eq!(m.id, "/1_1/");
    assert_eq!(m.cover, "cover.jpg");
    assert_eq!(m.title, "Some Title");
    assert_eq!(m.author, "Author Name");
    assert_eq!(m.artist, "Author Name");
    assert_eq!(m.description, "A description.");
    assert_eq!(m.categories, vec!["玄幻".to_string(), "热血".to_string()]);
    assert_eq!(m.url, "https://www.bilicomic.net/1_1/catalog");
    assert_eq!(m.status, MangaStatus::Ongoing);
}

#[test]
fn bilicomic_status_completed_and_unknown() {
    let done = bilicomic::extract_detail(&bilicomic_detail_doc("完结|全集"), "/x/");
    assert_eq!(done.status, MangaStatus::Completed);
    let odd = bilicomic::extract_detail(&bilicomic_detail_doc("未知状态"), "/x/");
    assert_eq!(odd.status, MangaStatus::Unknown);
}

fn bilicomic_chapter_row(href: &str, index_text: &str) -> Elem {
    with_children(
        el("li", &["jsChapter"], ""),
        vec![
            with_attr(el("a", &["chapter-li-a"], ""), "href", href),
            el("span", &["chapter-index"], index_text),
        ],
    )
}

#[test]
fn bilicomic_chapters_exclude_script_rows() {
    let section = with_children(
        el("div", &["catalog-volume"], ""),
        vec![
            with_children(
                el("div", &["chapter-bar"], ""),
                vec![el("h3", &[], "第一卷")],
            ),
            bilicomic_chapter_row("/1_1/1.html", "第1话"),
            bilicomic_chapter_row("javascript:cid(0)", "第2话"),
            bilicomic_chapter_row("/1_1/3.html", "第3话"),
        ],
    );
    let doc = root(vec![with_children(
        with_id(el("div", &[], ""), "volumes"),
        vec![section],
    )]);
    let chs = bilicomic::extract_chapters(&doc);
    assert_eq!(chs.len(), 2);
    assert_eq!(chs[0].id, "/1_1/1.html");
    assert_eq!(chs[0].title, "第一卷 第1话");
    assert_eq!(chs[0].url, "https://www.bilicomic.net/1_1/1.html");
    assert_eq!(chs[1].id, "/1_1/3.html");
    assert!(chs.iter().all(|c| !c.id.starts_with("javascript:")));
}

#[test]
fn bilicomic_pages_drop_nodes_without_lazy_attr() {
    let doc = root(vec![with_children(
        with_id(el("div", &[], ""), "acontentz"),
        vec![
            with_attr(el("img", &[], ""), "data-src", "u1"),
            el("img", &[], ""),
            with_attr(el("img", &[], ""), "data-src", "u3"),
        ],
    )]);
    let pages = bilicomic::extract_pages(&doc);
    assert_eq!(pages.len(), 2);
    assert_eq!(pages[0].url, "u1");
    assert_eq!(pages[1].url, "u3");
}

#[test]
fn bilicomic_headers_pinned() {
    let hs = bilicomic::default_headers();
    assert_eq!(hs.len(), 5);
    assert_eq!(hs[0].name, "Referer");
    assert_eq!(hs[0].value, "https://www.bilicomic.net/");
    assert_eq!(hs[2].name, "Cookie");
    let ih = bilicomic::image_request_headers();
    assert_eq!(ih.len(), 5);
    assert_eq!(ih[2].value, "https://www.bilicomic.net/");
}

#[test]
fn nnhanman_title_filter_short_circuits() {
    let filters = vec![unreadable_title_filter(), title_filter("one piece")];
    let route = nnhanman::resolve_route(&filters);
    assert_eq!(
        route.render(),
        "https://nnhanman9.com/catalog.php?key=one piece"
    );
}

#[test]
fn nnhanman_no_title_defaults_to_weekly_ranking() {
    let filters = vec![other_filter()];
    let route = nnhanman::resolve_route(&filters);
    assert_eq!(route.render(), "https://nnhanman9.com/ranking/weekly");
}

#[test]
fn nnhanman_page_route_round_trip() {
    let path = "comic/123";
    let url = nnhanman::Url::Page {
        path: path.to_string(),
    }
    .render();
    assert_eq!(url, "https://nnhanman9.com/comic/123");
    assert_eq!(url.strip_prefix("https://nnhanman9.com/"), Some(path));
}

#[test]
fn nnhanman_listing_paths() {
    assert_eq!(nnhanman::listing_path("日榜"), "ranking/daily");
    assert_eq!(nnhanman::listing_path("周榜"), "ranking/weekly");
    assert_eq!(nnhanman::listing_path("月榜"), "ranking/monthly");
    assert_eq!(nnhanman::listing_path("总榜"), "ranking/all");
    assert_eq!(nnhanman::listing_path("最近更新"), "update");
    assert_eq!(nnhanman::listing_path("新书发布"), "update/newbook");
    assert_eq!(nnhanman::listing_path("推荐漫画"), "update/recommend");
    assert_eq!(nnhanman::listing_path("??"), "ranking/weekly");
}

#[test]
fn nnhanman_search_extraction() {
    let item = with_children(
        el("li", &[], ""),
        vec![with_children(
            with_attr(el("a", &[], "Found Title"), "href", "comic/7"),
            vec![with_attr(el("img", &[], ""), "src", "cov7")],
        )],
    );
    let doc = root(vec![with_children(
        el("div", &["imgBox"], ""),
        vec![with_children(el("ul", &[], ""), vec![item])],
    )]);
    let r = nnhanman::extract_search(&doc);
    assert_eq!(r.manga.len(), 1);
    assert_eq!(r.manga[0].id, "comic/7");
    assert_eq!(r.manga[0].url, "comic/7");
    assert_eq!(r.manga[0].title, "Found Title");
    assert_eq!(r.manga[0].cover, "cov7");
    assert!(!r.has_more);
}

#[test]
fn nnhanman_catalog_extraction_never_has_more() {
    let item = with_children(
        el("div", &["itemBox"], ""),
        vec![
            with_children(
                el("div", &["itemImg"], ""),
                vec![with_attr(el("img", &[], ""), "src", "cc")],
            ),
            with_children(
                el("div", &["itemTxt"], ""),
                vec![with_attr(el("a", &[], "Ranked Comic"), "href", "comic/9")],
            ),
        ],
    );
    let doc = root(vec![item]);
    let r = nnhanman::extract_catalog(&doc);
    assert_eq!(r.manga.len(), 1);
    assert_eq!(r.manga[0].id, "comic/9");
    assert_eq!(r.manga[0].title, "Ranked Comic");
    assert_eq!(r.manga[0].cover, "cc");
    assert!(!r.has_more);
}

fn nnhanman_detail_doc(date_text: &str) -> Elem {
    let intro = with_children(
        el("div", &["Introduct_Sub"], ""),
        vec![
            with_children(
                with_id(el("div", &[], ""), "Cover"),
                vec![with_attr(el("img", &[], ""), "src", "ncover")],
            ),
            el("h1", &[], "N Title"),
            with_children(
                el("div", &["sub_r"], ""),
                vec![
                    el("p", &["txtItme"], "N Author"),
                    el("p", &["txtItme"], " 恋爱, 校园 ,"),
                ],
            ),
            with_children(
                el("p", &["txtItme"], ""),
                vec![el("span", &["date"], date_text)],
            ),
        ],
    );
    root(vec![intro, el("p", &["txtDesc"], "N Desc")])
}

#[test]
fn nnhanman_detail_fields_and_ongoing_status() {
    let doc = nnhanman_detail_doc("2024-01-01 连载中");
    let m = nnhanman::extract_detail(&doc, "comic/5");
    assert_eq!(m.id, "comic/5");
    assert_eq!(m.cover, "ncover");
    assert_eq!(m.title, "N Title");
    assert_eq!(m.author, "N Author");
    assert_eq!(m.artist, "");
    assert_eq!(m.description, "N Desc");
    assert_eq!(m.categories, vec!["恋爱".to_string(), "校园".to_string()]);
    assert_eq!(m.url, "");
    assert_eq!(m.status, MangaStatus::Ongoing);
}

#[test]
fn nnhanman_detail_defaults_to_completed() {
    let doc = nnhanman_detail_doc("2024-01-01 已完结");
    let m = nnhanman::extract_detail(&doc, "comic/5");
    assert_eq!(m.status, MangaStatus::Completed);
}

#[test]
fn nnhanman_chapter_numbers_from_titles() {
    let row = |href: &str, title: &str| {
        with_children(
            el("li", &[], ""),
            vec![
                el("span", &[], title),
                with_attr(el("a", &[], ""), "href", href),
            ],
        )
    };
    let doc = root(vec![with_children(
        with_id(el("ul", &[], ""), "mh-chapter-list-ol-0"),
        vec![
            row("comic/5/1", "第12卷 第3话 开始"),
            row("comic/5/2", "番外篇"),
        ],
    )]);
    let chs = nnhanman::extract_chapters(&doc);
    assert_eq!(chs.len(), 2);
    assert_eq!(chs[0].id, "comic/5/1");
    assert_eq!(chs[0].url, "comic/5/1");
    assert_eq!(chs[0].title, "第12卷 第3话 开始");
    assert_eq!(chs[0].volume, 1);
    assert_eq!(chs[0].chapter, 12);
    assert_eq!(chs[1].chapter, 0);
}

#[test]
fn first_digit_run_is_taken_from_the_title() {
    assert_eq!(extract_chapter_number("第12卷 第3话 开始"), 12);
    assert_eq!(extract_chapter_number("没有数字"), 0);
    assert_eq!(extract_chapter_number("ch. 0456 end 99"), 456);
    assert_eq!(extract_chapter_number(""), 0);
}

#[test]
fn nnhanman_pages_drop_nodes_without_lazy_attr() {
    let doc = root(vec![
        with_attr(el("img", &["lazy"], ""), "data-original", "p1"),
        el("img", &["lazy"], ""),
        with_attr(el("img", &[], ""), "data-original", "ignored: not lazy"),
        with_attr(el("img", &["lazy"], ""), "data-original", "p3"),
    ]);
    let pages = nnhanman::extract_pages(&doc);
    assert_eq!(pages.len(), 2);
    assert_eq!(pages[0].url, "p1");
    assert_eq!(pages[1].url, "p3");
}

#[test]
fn nnhanman_headers_pinned() {
    let hs = nnhanman::default_headers();
    assert_eq!(hs.len(), 2);
    assert_eq!(hs[0].name, "Referer");
    assert_eq!(hs[0].value, "https://nnhanman9.com/");
    assert_eq!(hs[1].name, "User-Agent");
    let ih = nnhanman::image_request_headers();
    assert_eq!(ih.len(), 2);
    assert_eq!(ih[0].value, "https://nnhanman9.com/");
}

#[test]
fn negative_and_large_pages_render_in_decimal() {
    let r = bilicomic::resolve_route(&Vec::new(), -2);
    assert_eq!(
        r.render(),
        "https://www.bilicomic.net/filter/lastupdate_0_0_0_0_0_0_0_-2_0.html"
    );
    let big = bilicomic::Url::Filters { page: 2147483647 };
    assert_eq!(
        big.render(),
        "https://www.bilicomic.net/filter/lastupdate_0_0_0_0_0_0_0_2147483647_0.html"
    );
}
