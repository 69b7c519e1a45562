//! Moving between the application's pages: the pages, the history the back
//! button walks, and how opening and going back change it.

use vstd::prelude::*;
use crate::catalog::{genre_views, opt_view, Episode, EpisodeView, Title, TitleView};
use crate::text::{chars_of, extend_str, str_eq, string_from};

verus! {

/// A page of the application.
#[derive(Debug)]
pub enum Page {
    Welcome,
    Home,
    Favs,
    Marathon,
    History,
    Settings,
    Search,
    Episodes { title: Title, eps: Vec<Episode> },
    Movie { title: Title, eps: Vec<Episode> },
}

/// A page as plain values.
pub enum PageView {
    Welcome,
    Home,
    Favs,
    Marathon,
    History,
    Settings,
    Search,
    Episodes(TitleView, Seq<EpisodeView>),
    Movie(TitleView, Seq<EpisodeView>),
}

pub open spec fn episode_views(v: Seq<Episode>) -> Seq<EpisodeView> {
    v.map_values(|e: Episode| e@)
}

impl View for Page {
    type V = PageView;

    open spec fn view(&self) -> PageView {
        match self {
            Page::Welcome => PageView::Welcome,
            Page::Home => PageView::Home,
            Page::Favs => PageView::Favs,
            Page::Marathon => PageView::Marathon,
            Page::History => PageView::History,
            Page::Settings => PageView::Settings,
            Page::Search => PageView::Search,
            Page::Episodes { title, eps } => PageView::Episodes(title@, episode_views(eps@)),
            Page::Movie { title, eps } => PageView::Movie(title@, episode_views(eps@)),
        }
    }
}

fn opt_str_eq(a: &Option<String>, b: &Option<String>) -> (r: bool)
    ensures
        r == (opt_view(*a) == opt_view(*b)),
{
    match (a, b) {
        (Some(x), Some(y)) => str_eq(x.as_str(), y.as_str()),
        (None, None) => true,
        _ => false,
    }
}

fn strings_eq(a: &Vec<String>, b: &Vec<String>) -> (r: bool)
    ensures
        r == (a@.map_values(|x: String| x@) == b@.map_values(|x: String| x@)),
{
    let ghost av = a@.map_values(|x: String| x@);
    let ghost bv = b@.map_values(|x: String| x@);
    if a.len() != b.len() {
        assert(av.len() != bv.len());
        return false;
    }
    let mut i: usize = 0;
    while i < a.len()
        invariant
            a.len() == b.len(),
            i <= a.len(),
            av == a@.map_values(|x: String| x@),
            bv == b@.map_values(|x: String| x@),
            forall|j: int| 0 <= j < i ==> av[j] == bv[j],
        decreases a.len() - i,
    {
        if !str_eq(a[i].as_str(), b[i].as_str()) {
            assert(av[i as int] != bv[i as int]);
            return false;
        }
        i = i + 1;
    }
    assert(av =~= bv);
    true
}

/// Whether two titles are the same in every part.
pub fn title_eq(a: &Title, b: &Title) -> (r: bool)
    ensures
        r == (a@ == b@),
{
    let genres = match (&a.genres, &b.genres) {
        (Some(x), Some(y)) => strings_eq(x, y),
        (None, None) => true,
        _ => false,
    };
    assert(genres == (genre_views(a) == genre_views(b)));
    a.id == b.id && str_eq(a.name.as_str(), b.name.as_str()) && a.year == b.year
        && opt_str_eq(&a.title_type, &b.title_type) && opt_str_eq(&a.poster, &b.poster)
        && opt_str_eq(&a.description, &b.description) && a.season_count == b.season_count && genres
        && a.runtime == b.runtime && a.episode_count == b.episode_count
        && opt_str_eq(&a.release_date, &b.release_date)
}

fn episodes_eq(a: &Vec<Episode>, b: &Vec<Episode>) -> (r: bool)
    ensures
        r == (episode_views(a@) == episode_views(b@)),
{
    let ghost av = episode_views(a@);
    let ghost bv = episode_views(b@);
    if a.len() != b.len() {
        assert(av.len() != bv.len());
        return false;
    }
    let mut i: usize = 0;
    while i < a.len()
        invariant
            a.len() == b.len(),
            i <= a.len(),
            av == episode_views(a@),
            bv == episode_views(b@),
            forall|j: int| 0 <= j < i ==> av[j] == bv[j],
        decreases a.len() - i,
    {
        if !(a[i].episode == b[i].episode && a[i].season == b[i].season && str_eq(a[i].name.as_str(), b[i].name.as_str())) {
            assert(av[i as int] != bv[i as int]);
            return false;
        }
        i = i + 1;
    }
    assert(av =~= bv);
    true
}

/// Whether two pages are the same page (a title's pages compare the title
/// and its episode list).
pub fn same_page(a: &Page, b: &Page) -> (r: bool)
    ensures
        r == (a@ == b@),
{
    match (a, b) {
        (Page::Welcome, Page::Welcome) => true,
        (Page::Home, Page::Home) => true,
        (Page::Favs, Page::Favs) => true,
        (Page::Marathon, Page::Marathon) => true,
        (Page::History, Page::History) => true,
        (Page::Settings, Page::Settings) => true,
        (Page::Search, Page::Search) => true,
        (Page::Episodes { title: t1, eps: e1 }, Page::Episodes { title: t2, eps: e2 }) => title_eq(t1, t2) && episodes_eq(e1, e2),
        (Page::Movie { title: t1, eps: e1 }, Page::Movie { title: t2, eps: e2 }) => title_eq(t1, t2) && episodes_eq(e1, e2),
        _ => false,
    }
}

fn copy_episodes(v: &Vec<Episode>) -> (r: Vec<Episode>)
    ensures
        episode_views(r@) == episode_views(v@),
{
    let mut out: Vec<Episode> = Vec::new();
    let mut i: usize = 0;
    while i < v.len()
        invariant
            i <= v.len(),
            episode_views(out@) == episode_views(v@.take(i as int)),
        decreases v.len() - i,
    {
        let e = v[i].copy();
        let ghost before = episode_views(out@);
        out.push(e);
        assert(v@.take(i as int + 1) =~= v@.take(i as int).push(v@[i as int]));
        assert(episode_views(out@) =~= before.push(v@[i as int]@));
        assert(episode_views(out@) =~= episode_views(v@.take(i as int + 1)));
        i = i + 1;
    }
    assert(v@.take(v.len() as int) =~= v@);
    out
}

/// A copy of a page.
pub fn copy_page(p: &Page) -> (r: Page)
    ensures
        r@ == p@,
{
    match p {
        Page::Welcome => Page::Welcome,
        Page::Home => Page::Home,
        Page::Favs => Page::Favs,
        Page::Marathon => Page::Marathon,
        Page::History => Page::History,
        Page::Settings => Page::Settings,
        Page::Search => Page::Search,
        Page::Episodes { title, eps } => Page::Episodes { title: title.copy(), eps: copy_episodes(eps) },
        Page::Movie { title, eps } => Page::Movie { title: title.copy(), eps: copy_episodes(eps) },
    }
}

/// The pages the viewer went through, the current one last.
pub struct PageStack {
    pub pages: Vec<Page>,
}

pub open spec fn page_views(v: Seq<Page>) -> Seq<PageView> {
    v.map_values(|p: Page| p@)
}

/// The history after opening page `p` from a button: `p` goes on top unless
/// it is already the current page.
pub open spec fn open_spec(s: Seq<PageView>, p: PageView) -> Seq<PageView> {
    if s.len() > 0 && s.last() == p { s } else { s.push(p) }
}

/// Drops copies of the current page that lie right under it.
pub open spec fn collapse(s: Seq<PageView>) -> Seq<PageView>
    decreases s.len(),
{
    if s.len() > 1 && s.last() == s[s.len() - 2] { collapse(s.drop_last()) } else { s }
}

/// The history after the back button: the current page leaves (unless it
/// is the only one), then the copies of the page below it.
pub open spec fn back_spec(s: Seq<PageView>) -> Seq<PageView> {
    if s.len() > 1 { collapse(s.drop_last()) } else { s }
}

impl PageStack {
    /// A history holding only the first page.
    pub fn new(first: Page) -> (r: PageStack)
        ensures
            page_views(r.pages@) == seq![first@],
    {
        let mut v: Vec<Page> = Vec::new();
        v.push(first);
        assert(page_views(v@) =~= seq![first@]);
        PageStack { pages: v }
    }

    /// Whether there is a page to go back to.
    pub fn can_go_back(&self) -> (r: bool)
        ensures
            r == (self.pages@.len() > 1),
    {
        self.pages.len() > 1
    }

    /// Whether page `p` is the current one.
    pub fn is_current(&self, p: &Page) -> (r: bool)
        ensures
            r == (self.pages@.len() > 0 && page_views(self.pages@).last() == p@),
    {
        let n = self.pages.len();
        n > 0 && same_page(&self.pages[n - 1], p)
    }

    /// Opens a page from a button (favourites, marathon, history, settings,
    /// search results): it goes on top unless it is the current one.
    pub fn open(&mut self, p: Page)
        ensures
            page_views(final(self).pages@) == open_spec(page_views(old(self).pages@), p@),
    {
        let ghost s = page_views(self.pages@);
        if self.is_current(&p) {
            return;
        }
        self.pages.push(p);
        assert(page_views(self.pages@) =~= s.push(p@));
    }

    /// Opens a title's page: it always goes on top.
    pub fn push(&mut self, p: Page)
        ensures
            page_views(final(self).pages@) == page_views(old(self).pages@).push(p@),
    {
        let ghost s = page_views(self.pages@);
        self.pages.push(p);
        assert(page_views(self.pages@) =~= s.push(p@));
    }

    /// Starts the history over at page `p`.
    pub fn reset(&mut self, p: Page)
        ensures
            page_views(final(self).pages@) == seq![p@],
    {
        self.pages.clear();
        self.pages.push(p);
        assert(page_views(self.pages@) =~= seq![p@]);
    }

    /// The back button: leaves the current page and the copies of the one
    /// below it, and returns the page to show (the home page when the
    /// history is empty).
    pub fn back(&mut self) -> (r: Page)
        ensures
            page_views(final(self).pages@) == back_spec(page_views(old(self).pages@)),
            final(self).pages@.len() > 0 ==> r@ == page_views(final(self).pages@).last(),
            final(self).pages@.len() == 0 ==> r@ == PageView::Home,
    {
        let ghost s0 = page_views(self.pages@);
        if self.pages.len() > 1 {
            self.pages.pop();
            assert(page_views(self.pages@) =~= s0.drop_last());
            while self.pages.len() > 1 && same_page(&self.pages[self.pages.len() - 1], &self.pages[self.pages.len() - 2])
                invariant
                    self.pages@.len() >= 1,
                    s0.len() > 1,
                    collapse(s0.drop_last()) == collapse(page_views(self.pages@)),
                decreases self.pages.len(),
            {
                let ghost s = page_views(self.pages@);
                self.pages.pop();
                assert(page_views(self.pages@) =~= s.drop_last());
            }
        }
        let n = self.pages.len();
        if n == 0 {
            Page::Home
        } else {
            copy_page(&self.pages[n - 1])
        }
    }
}

/// Opening the page that is already shown changes nothing: opening a page
/// twice leaves the history as opening it once.
pub proof fn lemma_open_twice(s: Seq<PageView>, p: PageView)
    ensures
        open_spec(open_spec(s, p), p) == open_spec(s, p),
{
}

proof fn lemma_collapse(s: Seq<PageView>)
    ensures
        collapse(s).len() <= s.len(),
        s.len() > 0 ==> collapse(s).len() > 0,
        collapse(s).len() > 1 ==> collapse(s).last() != collapse(s)[collapse(s).len() - 2],
        collapse(s) == s.take(collapse(s).len() as int),
    decreases s.len(),
{
    if s.len() > 1 && s.last() == s[s.len() - 2] {
        lemma_collapse(s.drop_last());
        let c = collapse(s.drop_last());
        assert(s.drop_last().take(c.len() as int) =~= s.take(c.len() as int));
    } else {
        assert(s.take(s.len() as int) =~= s);
    }
}

/// Going back never empties the history, only shortens it from the top,
/// and never leaves the same page twice in a row at the top.
pub proof fn lemma_back_keeps_a_page(s: Seq<PageView>)
    requires
        s.len() > 0,
    ensures
        back_spec(s).len() > 0,
        back_spec(s) == s.take(back_spec(s).len() as int),
        s.len() > 1 ==> back_spec(s).len() < s.len(),
        s.len() > 1 && back_spec(s).len() > 1 ==> back_spec(s).last() != back_spec(s)[back_spec(s).len() - 2],
{
    if s.len() > 1 {
        lemma_collapse(s.drop_last());
        let c = collapse(s.drop_last());
        assert(s.drop_last().take(c.len() as int) =~= s.take(c.len() as int));
    } else {
        assert(s.take(s.len() as int) =~= s);
    }
}


/// Whether key `key_name` (with Ctrl held or not) opens the title search
/// under shortcut `shortcut`: Ctrl+K, F2, the slash key, or else Ctrl+S.
pub open spec fn search_shortcut_spec(shortcut: Seq<char>, key_name: Seq<char>, ctrl: bool) -> bool {
    if shortcut == "Ctrl+K"@ {
        ctrl && (key_name == "k"@ || key_name == "K"@)
    } else if shortcut == "F2"@ {
        key_name == "F2"@
    } else if shortcut == "/"@ {
        key_name == "slash"@ || key_name == "kp_divide"@
    } else {
        ctrl && (key_name == "s"@ || key_name == "S"@)
    }
}

/// Decides whether a key press opens the title search.
pub fn search_shortcut_triggered(shortcut: &str, key_name: &str, ctrl: bool) -> (r: bool)
    ensures
        r == search_shortcut_spec(shortcut@, key_name@, ctrl),
{
    if str_eq(shortcut, "Ctrl+K") {
        ctrl && (str_eq(key_name, "k") || str_eq(key_name, "K"))
    } else if str_eq(shortcut, "F2") {
        str_eq(key_name, "F2")
    } else if str_eq(shortcut, "/") {
        str_eq(key_name, "slash") || str_eq(key_name, "kp_divide")
    } else {
        ctrl && (str_eq(key_name, "s") || str_eq(key_name, "S"))
    }
}

/// The one-time tip shown when the search bar is opened with the mouse.
pub fn search_tip(shortcut: &str) -> (r: String)
    ensures
        r@ == "💡 '"@ + shortcut@ + "' kısayolu ile arama çubuğunu hızlıca açabilirsiniz!"@,
{
    let mut v = chars_of("💡 '");
    extend_str(&mut v, shortcut);
    extend_str(&mut v, "' kısayolu ile arama çubuğunu hızlıca açabilirsiniz!");
    string_from(&v)
}

} // verus!
