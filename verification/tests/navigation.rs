use animecix::catalog::{Episode, Title};
use animecix::navigation::{same_page, search_shortcut_triggered, search_tip, title_eq, Page, PageStack};

fn title(id: u64) -> Title {
    Title { id, name: format!("T{id}"), ..Default::default() }
}

fn eps() -> Vec<Episode> {
    vec![Episode { episode: 1, season: 1, name: "B1".to_string() }]
}

fn is(p: &Page, q: Page) -> bool {
    same_page(p, &q)
}

#[test]
fn open_does_not_repeat_current_page() {
    let mut st = PageStack::new(Page::Home);
    st.open(Page::Favs);
    st.open(Page::Favs);
    assert_eq!(st.pages.len(), 2);
    assert!(st.can_go_back());
    st.open(Page::Marathon);
    assert_eq!(st.pages.len(), 3);
    assert!(st.is_current(&Page::Marathon));
}

#[test]
fn back_skips_copies_and_keeps_a_page() {
    let mut st = PageStack::new(Page::Home);
    st.push(Page::Favs);
    st.push(Page::Favs);
    st.push(Page::Search);
    let p = st.back();
    assert!(is(&p, Page::Favs));
    assert_eq!(st.pages.len(), 2);
    let p = st.back();
    assert!(is(&p, Page::Home));
    assert_eq!(st.pages.len(), 1);
    let p = st.back();
    assert!(is(&p, Page::Home));
    assert_eq!(st.pages.len(), 1);
    assert!(!st.can_go_back());
    let mut empty = PageStack { pages: Vec::new() };
    assert!(is(&empty.back(), Page::Home));
}

#[test]
fn title_pages_compare_title_and_episodes() {
    let a = Page::Episodes { title: title(1), eps: eps() };
    let b = Page::Episodes { title: title(1), eps: eps() };
    let c = Page::Episodes { title: title(2), eps: eps() };
    let d = Page::Movie { title: title(1), eps: eps() };
    let e = Page::Episodes { title: title(1), eps: Vec::new() };
    assert!(same_page(&a, &b));
    assert!(!same_page(&a, &c));
    assert!(!same_page(&a, &d));
    assert!(!same_page(&a, &e));
    let mut t = title(1);
    assert!(title_eq(&t, &title(1)));
    t.genres = Some(vec!["Dram".to_string()]);
    assert!(!title_eq(&t, &title(1)));
    let mut st = PageStack::new(Page::Home);
    st.push(a);
    st.push(b);
    let shown = st.back();
    assert!(is(&shown, Page::Episodes { title: title(1), eps: eps() }));
    assert_eq!(st.pages.len(), 2);
    st.reset(Page::Welcome);
    assert_eq!(st.pages.len(), 1);
    assert!(st.is_current(&Page::Welcome));
}

#[test]
fn title_search_shortcuts() {
    assert!(search_shortcut_triggered("Ctrl+S", "s", true));
    assert!(!search_shortcut_triggered("Ctrl+S", "s", false));
    assert!(search_shortcut_triggered("Ctrl+K", "k", true));
    assert!(search_shortcut_triggered("F2", "F2", false));
    assert!(search_shortcut_triggered("/", "slash", false));
    assert!(search_shortcut_triggered("başka", "S", true));
    assert_eq!(search_tip("Ctrl+S"), "💡 'Ctrl+S' kısayolu ile arama çubuğunu hızlıca açabilirsiniz!");
}
