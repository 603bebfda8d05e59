use vstd::prelude::*;

use crate::bytes::text_bytes;
use crate::index::Index;
use crate::rewrite::{apply_rules, rules_bytes};

verus! {

/// The rendering resolution used when a configuration names none.
pub const DEFAULT_RESOLUTION: u32 = 300;

/// Per-document settings: rewrite rules for search phrases and the rendering
/// resolution in DPI.
pub struct Config {
    pub replace: Vec<(String, String)>,
    pub resolution: u32,
}

impl Default for Config {
    fn default() -> (r: Config)
        ensures
            r.replace@.len() == 0,
            r.resolution == DEFAULT_RESOLUTION,
    {
        Config { replace: Vec::new(), resolution: DEFAULT_RESOLUTION }
    }
}

/// The configuration that was read, or the default one where none could be.
pub fn config_or_default(read: Option<Config>) -> (r: Config)
    ensures
        read is Some ==> r == read->0,
        read is None ==> r.replace@.len() == 0 && r.resolution == DEFAULT_RESOLUTION,
{
    match read {
        Some(c) => c,
        None => Config::default(),
    }
}

/// A page to rasterize, and at which resolution.
#[derive(Clone, Copy, Debug, PartialEq, Eq, Structural)]
pub struct RenderRequest {
    pub page: u32,
    pub dpi: u32,
}

/// A rendered page image, with the page and resolution it was made for.
pub struct Rendered<P> {
    pub page: u32,
    pub dpi: u32,
    pub image: P,
}

/// What resolving a pending search did to a document.
#[derive(Clone, Copy, Debug, PartialEq, Eq, Structural)]
pub enum SearchOutcome {
    /// No search was pending.
    Idle,
    /// The search landed on the page already shown.
    Stayed,
    /// The search moved the document to this page.
    Moved(u32),
    /// The index sent the search to this page, which the document does not
    /// have; the document stays where it was.
    OutOfRange(u32),
}

/// One open document: its index and settings, the page shown, the rendered
/// image of that page if there is one, and whether the last committed search
/// still has to be resolved against it.
pub struct Document<P> {
    pub index: Index,
    pub page_count: u32,
    pub current_page: u32,
    pub render_cache: Option<Rendered<P>>,
    pub search_stale: bool,
    pub resolution: u32,
    pub rewrite_rules: Vec<(String, String)>,
}

impl<P> Document<P> {
    /// The page shown lies within the document, and a cached image is always
    /// that of the page shown, at the document's resolution.
    pub open spec fn wf(self) -> bool {
        &&& 1 <= self.current_page <= self.page_count
        &&& self.render_cache matches Some(c) ==> c.page == self.current_page && c.dpi
            == self.resolution
    }

    /// The index, the page count and the settings, which never change.
    pub open spec fn same_setup(self, other: Self) -> bool {
        &&& self.index == other.index
        &&& self.page_count == other.page_count
        &&& self.resolution == other.resolution
        &&& self.rewrite_rules@ == other.rewrite_rules@
    }

    /// The page that the committed search `committed` lands on in this
    /// document, once its rewrite rules have been applied.
    pub open spec fn search_target(self, committed: Seq<char>) -> u32 {
        self.index.resolved_page(apply_rules(rules_bytes(self.rewrite_rules@), text_bytes(committed)))
    }

    /// The render that the document waits for, if any.
    pub open spec fn pending_render(self) -> Option<RenderRequest> {
        if self.render_cache is Some {
            None
        } else {
            Some(RenderRequest { page: self.current_page, dpi: self.resolution })
        }
    }

    /// `self` is what `advance` makes of `prev`: the next page, unless `prev`
    /// shows the last one, in which case nothing changes.
    pub open spec fn is_advance_of(self, prev: Self) -> bool {
        &&& self.wf()
        &&& self.same_setup(prev)
        &&& self.search_stale == prev.search_stale
        &&& prev.current_page < prev.page_count ==> self.current_page == prev.current_page + 1
            && self.render_cache is None
        &&& prev.current_page == prev.page_count ==> self.current_page == prev.current_page
            && self.render_cache == prev.render_cache
    }

    /// `self` is what `retreat` makes of `prev`: the previous page, unless
    /// `prev` shows the first one, in which case nothing changes.
    pub open spec fn is_retreat_of(self, prev: Self) -> bool {
        &&& self.wf()
        &&& self.same_setup(prev)
        &&& self.search_stale == prev.search_stale
        &&& prev.current_page > 1 ==> self.current_page == prev.current_page - 1
            && self.render_cache is None
        &&& prev.current_page == 1 ==> self.current_page == prev.current_page
            && self.render_cache == prev.render_cache
    }

    /// `self` is what resolving the committed search `committed` makes of
    /// `prev`, with outcome `r`: staleness is cleared, and the page moves only
    /// where a pending search lands on another page that the document has.
    pub open spec fn is_search_resolution_of(
        self,
        prev: Self,
        committed: Seq<char>,
        r: SearchOutcome,
    ) -> bool {
        let t = prev.search_target(committed);
        &&& self.wf()
        &&& self.same_setup(prev)
        &&& !self.search_stale
        &&& if !prev.search_stale {
            r == SearchOutcome::Idle && self.current_page == prev.current_page
                && self.render_cache == prev.render_cache
        } else if t == prev.current_page {
            r == SearchOutcome::Stayed && self.current_page == prev.current_page
                && self.render_cache == prev.render_cache
        } else if 1 <= t <= prev.page_count {
            r == SearchOutcome::Moved(t) && self.current_page == t && self.render_cache is None
        } else {
            r == SearchOutcome::OutOfRange(t) && self.current_page == prev.current_page
                && self.render_cache == prev.render_cache
        }
    }

    /// A document opened on its first page, with nothing rendered and no search
    /// pending.
    pub fn new(index: Index, page_count: u32, config: Config) -> (r: Self)
        requires
            page_count >= 1,
        ensures
            r.wf(),
            r.index == index,
            r.page_count == page_count,
            r.current_page == 1,
            r.render_cache is None,
            !r.search_stale,
            r.resolution == config.resolution,
            r.rewrite_rules@ == config.replace@,
    {
        Document {
            index,
            page_count,
            current_page: 1,
            render_cache: None,
            search_stale: false,
            resolution: config.resolution,
            rewrite_rules: config.replace,
        }
    }

    /// Moves to the next page, unless the last one is shown.
    pub fn advance(&mut self)
        requires
            old(self).wf(),
        ensures
            final(self).is_advance_of(*old(self)),
    {
        if self.current_page < self.page_count {
            self.current_page = self.current_page + 1;
            self.render_cache = None;
        }
    }

    /// Moves to the previous page, unless the first one is shown.
    pub fn retreat(&mut self)
        requires
            old(self).wf(),
        ensures
            final(self).is_retreat_of(*old(self)),
    {
        if self.current_page > 1 {
            self.current_page = self.current_page - 1;
            self.render_cache = None;
        }
    }

    /// Resolves the committed search against this document if it is pending:
    /// rewrites it, looks it up in the index, and moves to the page found when
    /// that page exists and differs from the one shown. Staleness is cleared
    /// either way.
    pub fn resolve_search(&mut self, committed: &str) -> (r: SearchOutcome)
        requires
            old(self).wf(),
        ensures
            final(self).wf(),
            final(self).same_setup(*old(self)),
            final(self).is_search_resolution_of(*old(self), committed@, r),
    {
        if !self.search_stale {
            return SearchOutcome::Idle;
        }
        self.search_stale = false;
        let target = self.index.lookup(&self.rewrite_rules, committed);
        if target == self.current_page {
            SearchOutcome::Stayed
        } else if 1 <= target && target <= self.page_count {
            self.current_page = target;
            self.render_cache = None;
            SearchOutcome::Moved(target)
        } else {
            SearchOutcome::OutOfRange(target)
        }
    }

    /// The page to rasterize and at which resolution, when no image of the page
    /// shown is cached.
    pub fn render_request(&self) -> (r: Option<RenderRequest>)
        ensures
            r == self.pending_render(),
    {
        if self.render_cache.is_some() {
            None
        } else {
            Some(RenderRequest { page: self.current_page, dpi: self.resolution })
        }
    }

    /// Caches a rendered image. It is kept only where it was made for the page
    /// shown at the document's resolution; an image of any other page is
    /// dropped, so that a late render never stands for a newer page.
    pub fn store_render(&mut self, request: RenderRequest, image: P) -> (kept: bool)
        requires
            old(self).wf(),
        ensures
            final(self).wf(),
            final(self).same_setup(*old(self)),
            final(self).current_page == old(self).current_page,
            final(self).search_stale == old(self).search_stale,
            kept == (request.page == old(self).current_page && request.dpi == old(self).resolution),
            kept ==> final(self).render_cache == Some(
                Rendered { page: request.page, dpi: request.dpi, image },
            ),
            !kept ==> *final(self) == *old(self),
    {
        if request.page == self.current_page && request.dpi == self.resolution {
            self.render_cache = Some(Rendered { page: request.page, dpi: request.dpi, image });
            true
        } else {
            false
        }
    }

    /// The cached image of the page shown, if there is one.
    pub fn cached_image(&self) -> (r: Option<&P>)
        ensures
            self.render_cache is None ==> r is None,
            self.render_cache matches Some(c) ==> r == Some(&c.image),
    {
        match &self.render_cache {
            Some(c) => Some(&c.image),
            None => None,
        }
    }
}

/// A document's first render is asked for at the resolution of the
/// configuration it was opened with.
pub proof fn lemma_render_at_configured_resolution<P>(doc: Document<P>, config: Config)
    requires
        doc.render_cache is None,
        doc.resolution == config.resolution,
    ensures
        doc.pending_render() == Some(
            RenderRequest { page: doc.current_page, dpi: config.resolution },
        ),
{
}

/// A search that lands on the page already shown keeps its rendered image:
/// no new render is asked for.
pub proof fn lemma_same_page_keeps_render<P>(
    prev: Document<P>,
    next: Document<P>,
    committed: Seq<char>,
    r: SearchOutcome,
)
    requires
        prev.wf(),
        next.is_search_resolution_of(prev, committed, r),
        prev.search_target(committed) == prev.current_page,
    ensures
        next.current_page == prev.current_page,
        next.render_cache == prev.render_cache,
        next.pending_render() == prev.pending_render(),
        prev.render_cache is Some ==> next.pending_render() is None,
{
}

} // verus!
