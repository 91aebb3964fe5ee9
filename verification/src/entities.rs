//! The normalized entities that the extractors produce, with their
//! mathematical views.

use vstd::prelude::*;

verus! {

/// Publication status of a work, normalized from site-specific markers.
#[derive(Clone, Copy, Debug, PartialEq, Eq, Structural)]
pub enum MangaStatus {
    Unknown,
    Ongoing,
    Completed,
}

/// One manga/comic work with its metadata. `id` is the site-relative path
/// that identifies the work; `url` is the canonical absolute link.
#[derive(Clone, Debug)]
pub struct Manga {
    pub id: String,
    pub cover: String,
    pub title: String,
    pub author: String,
    pub artist: String,
    pub description: String,
    pub url: String,
    pub categories: Vec<String>,
    pub status: MangaStatus,
}

/// The mathematical value of a `Manga`.
#[verifier::ext_equal]
pub struct MangaView {
    pub id: Seq<char>,
    pub cover: Seq<char>,
    pub title: Seq<char>,
    pub author: Seq<char>,
    pub artist: Seq<char>,
    pub description: Seq<char>,
    pub url: Seq<char>,
    pub categories: Seq<Seq<char>>,
    pub status: MangaStatus,
}

impl View for Manga {
    type V = MangaView;

    open spec fn view(&self) -> MangaView {
        MangaView {
            id: self.id@,
            cover: self.cover@,
            title: self.title@,
            author: self.author@,
            artist: self.artist@,
            description: self.description@,
            url: self.url@,
            categories: self.categories.deep_view(),
            status: self.status,
        }
    }
}

/// One chapter of a work. `chapter` is a best-effort number read from the
/// chapter title; `volume` is a per-site constant where the site has no
/// volume concept.
#[derive(Clone, Debug)]
pub struct Chapter {
    pub id: String,
    pub title: String,
    pub url: String,
    pub volume: u32,
    pub chapter: u64,
}

/// The mathematical value of a `Chapter`.
#[verifier::ext_equal]
pub struct ChapterView {
    pub id: Seq<char>,
    pub title: Seq<char>,
    pub url: Seq<char>,
    pub volume: u32,
    pub chapter: u64,
}

impl View for Chapter {
    type V = ChapterView;

    open spec fn view(&self) -> ChapterView {
        ChapterView {
            id: self.id@,
            title: self.title@,
            url: self.url@,
            volume: self.volume,
            chapter: self.chapter,
        }
    }
}

/// One page of a chapter: the image URL.
#[derive(Clone, Debug)]
pub struct Page {
    pub url: String,
}

impl View for Page {
    type V = Seq<char>;

    open spec fn view(&self) -> Seq<char> {
        self.url@
    }
}

/// One page of a catalog listing: the entities found and whether more
/// pages follow.
#[derive(Clone, Debug)]
pub struct MangaPageResult {
    pub manga: Vec<Manga>,
    pub has_more: bool,
}

/// Which aspect of the catalog a user-supplied filter constrains. Only the
/// title filter is interpreted by these adapters; every other kind is inert.
#[derive(Clone, Copy, Debug, PartialEq, Eq, Structural)]
pub enum FilterKind {
    Title,
    Other,
}

/// One user-supplied filter. `value` is `None` where the host could not
/// hand the filter's value over as a string; such a filter is skipped.
#[derive(Clone, Debug)]
pub struct Filter {
    pub kind: FilterKind,
    pub value: Option<String>,
}

/// One request header: the pinned decoration that a site asks of every
/// request, handed to the host transport as plain data.
#[derive(Clone, Debug)]
pub struct Header {
    pub name: String,
    pub value: String,
}

/// The views of a sequence of entities, element by element.
pub open spec fn manga_views(s: Seq<Manga>) -> Seq<MangaView> {
    s.map_values(|m: Manga| m@)
}

/// The views of a sequence of chapters, element by element.
pub open spec fn chapter_views(s: Seq<Chapter>) -> Seq<ChapterView> {
    s.map_values(|c: Chapter| c@)
}

/// The views of a sequence of pages, element by element.
pub open spec fn page_views(s: Seq<Page>) -> Seq<Seq<char>> {
    s.map_values(|p: Page| p@)
}

} // verus!
