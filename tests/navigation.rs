use lexicon::{
    config_or_default, Collection, Config, Document, Index, RenderRequest, SearchOutcome,
    DEFAULT_RESOLUTION,
};

fn doc(pages: u32) -> Document<String> {
    let index = Index::parse("apple 1\nmango 5\nzebra 9").unwrap();
    Document::new(index, pages, Config::default())
}

fn rendered(mut d: Document<String>) -> Document<String> {
    let req = d.render_request().unwrap();
    assert!(d.store_render(req, format!("page {}", req.page)));
    d
}

#[test]
fn default_config() {
    let c = Config::default();
    assert!(c.replace.is_empty());
    assert_eq!(c.resolution, 300);
    assert_eq!(DEFAULT_RESOLUTION, 300);
    assert_eq!(config_or_default(None).resolution, 300);
    let read = Config { replace: vec![("a".to_string(), "b".to_string())], resolution: 72 };
    let c = config_or_default(Some(read));
    assert_eq!(c.resolution, 72);
    assert_eq!(c.replace.len(), 1);
}

#[test]
fn new_document_waits_for_first_render() {
    let d = doc(10);
    assert_eq!(d.current_page, 1);
    assert!(!d.search_stale);
    assert_eq!(d.render_request(), Some(RenderRequest { page: 1, dpi: 300 }));
    let d = rendered(d);
    assert_eq!(d.render_request(), None);
    assert_eq!(d.cached_image(), Some(&"page 1".to_string()));
}

#[test]
fn configured_resolution_is_used_for_renders() {
    let index = Index::parse("a 1").unwrap();
    let d: Document<String> =
        Document::new(index, 3, Config { replace: Vec::new(), resolution: 150 });
    assert_eq!(d.render_request(), Some(RenderRequest { page: 1, dpi: 150 }));
}

#[test]
fn advance_and_retreat_move_and_invalidate() {
    let mut d = rendered(doc(3));
    d.advance();
    assert_eq!(d.current_page, 2);
    assert!(d.cached_image().is_none());
    assert_eq!(d.render_request(), Some(RenderRequest { page: 2, dpi: 300 }));
    let mut d = rendered(d);
    d.retreat();
    assert_eq!(d.current_page, 1);
    assert!(d.cached_image().is_none());
}

#[test]
fn advance_at_last_page_is_a_no_op() {
    let mut d = rendered(doc(1));
    d.advance();
    assert_eq!(d.current_page, 1);
    assert_eq!(d.cached_image(), Some(&"page 1".to_string()));
    let mut d = doc(2);
    d.advance();
    let mut d = rendered(d);
    d.advance();
    assert_eq!(d.current_page, 2);
    assert_eq!(d.render_request(), None);
}

#[test]
fn retreat_at_first_page_is_a_no_op() {
    let mut d = rendered(doc(4));
    d.retreat();
    assert_eq!(d.current_page, 1);
    assert_eq!(d.cached_image(), Some(&"page 1".to_string()));
}

#[test]
fn stale_render_is_dropped() {
    let mut d = doc(5);
    let req = d.render_request().unwrap();
    d.advance();
    assert!(!d.store_render(req, "late".to_string()));
    assert!(d.cached_image().is_none());
    assert!(!d.store_render(RenderRequest { page: 2, dpi: 72 }, "wrong dpi".to_string()));
    assert!(d.store_render(RenderRequest { page: 2, dpi: 300 }, "fresh".to_string()));
    assert_eq!(d.cached_image(), Some(&"fresh".to_string()));
}

#[test]
fn search_moves_to_resolved_page() {
    let mut d = rendered(doc(10));
    assert_eq!(d.resolve_search("orange"), SearchOutcome::Idle);
    d.search_stale = true;
    assert_eq!(d.resolve_search("orange"), SearchOutcome::Moved(5));
    assert_eq!(d.current_page, 5);
    assert!(!d.search_stale);
    assert_eq!(d.render_request(), Some(RenderRequest { page: 5, dpi: 300 }));
}

#[test]
fn search_on_current_page_keeps_cache() {
    let mut d = doc(10);
    d.search_stale = true;
    assert_eq!(d.resolve_search("orange"), SearchOutcome::Moved(5));
    let mut d = rendered(d);
    d.search_stale = true;
    assert_eq!(d.resolve_search("nectarine"), SearchOutcome::Stayed);
    assert_eq!(d.current_page, 5);
    assert!(!d.search_stale);
    assert_eq!(d.cached_image(), Some(&"page 5".to_string()));
    assert_eq!(d.render_request(), None);
}

#[test]
fn search_out_of_range_is_rejected() {
    let mut d = rendered(doc(6));
    d.search_stale = true;
    assert_eq!(d.resolve_search("zulu"), SearchOutcome::OutOfRange(9));
    assert_eq!(d.current_page, 1);
    assert!(!d.search_stale);
    assert_eq!(d.cached_image(), Some(&"page 1".to_string()));
    let index = Index::parse("a 0").unwrap();
    let mut d: Document<String> = Document::new(index, 6, Config::default());
    d.advance();
    d.search_stale = true;
    assert_eq!(d.resolve_search("b"), SearchOutcome::OutOfRange(0));
    assert_eq!(d.current_page, 2);
}

#[test]
fn search_applies_document_rules() {
    let index = Index::parse("ch 1 2\nch 2 6\nch 3 9").unwrap();
    let config = Config { replace: vec![("chapter".to_string(), "ch".to_string())], resolution: 300 };
    let mut d: Document<String> = Document::new(index, 12, config);
    d.search_stale = true;
    assert_eq!(d.resolve_search("chapter 2"), SearchOutcome::Moved(6));
}

fn two_docs() -> Collection<String> {
    let a = doc(10);
    let index = Index::parse("alpha 3\nomega 7").unwrap();
    let b = Document::new(index, 8, Config::default());
    Collection::new(vec![a, b])
}

#[test]
fn commit_marks_every_document_stale_until_shown() {
    let mut c = two_docs();
    c.enter_search();
    c.leave_search("ORANGE", true);
    assert!(!c.searching);
    assert_eq!(c.last_search, "orange");
    assert!(c.docs.iter().all(|d| d.search_stale));
    let (outcome, req) = c.prepare_display();
    assert_eq!(outcome, SearchOutcome::Moved(5));
    assert_eq!(req, Some(RenderRequest { page: 5, dpi: 300 }));
    assert!(!c.docs[0].search_stale);
    assert!(c.docs[1].search_stale);
    c.switch_document();
    assert_eq!(c.active, 1);
    let (outcome, _) = c.prepare_display();
    assert_eq!(outcome, SearchOutcome::Moved(7));
    assert!(c.docs.iter().all(|d| !d.search_stale));
    let (outcome, _) = c.prepare_display();
    assert_eq!(outcome, SearchOutcome::Idle);
}

#[test]
fn abandoned_search_is_not_committed() {
    let mut c = two_docs();
    c.enter_search();
    c.leave_search("zebra", false);
    assert!(!c.searching);
    assert_eq!(c.last_search, "");
    assert!(c.docs.iter().all(|d| !d.search_stale));
}

#[test]
fn commands_wait_while_searching() {
    let mut c = two_docs();
    c.enter_search();
    c.advance();
    c.switch_document();
    assert_eq!(c.active, 0);
    assert_eq!(c.docs[0].current_page, 1);
    c.leave_search("", false);
    c.advance();
    assert_eq!(c.docs[0].current_page, 2);
    c.retreat();
    assert_eq!(c.docs[0].current_page, 1);
}

#[test]
fn switching_cycles_through_documents() {
    let mut c = two_docs();
    c.switch_document();
    assert_eq!(c.active, 1);
    c.advance();
    assert_eq!(c.docs[1].current_page, 2);
    assert_eq!(c.docs[0].current_page, 1);
    c.switch_document();
    assert_eq!(c.active, 0);
}

#[test]
fn collection_caches_renders_of_the_shown_page() {
    let mut c = two_docs();
    let (_, req) = c.prepare_display();
    let req = req.unwrap();
    assert!(c.store_render(req, "first".to_string()));
    let (_, req) = c.prepare_display();
    assert_eq!(req, None);
    assert!(!c.store_render(RenderRequest { page: 4, dpi: 300 }, "other".to_string()));
    assert_eq!(c.docs[0].cached_image(), Some(&"first".to_string()));
}
