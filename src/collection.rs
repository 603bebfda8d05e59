use vstd::prelude::*;

use vstd::arithmetic::div_mod::{lemma_mod_self_0, lemma_small_mod};

use crate::document::{Document, RenderRequest, SearchOutcome};

verus! {

/// What `str::to_lowercase` makes of a text.
pub uninterp spec fn lower_of(s: Seq<char>) -> Seq<char>;

/// Relies on `str::to_lowercase`: its result depends on the characters of the
/// text alone, and an empty text stays empty.
#[verifier::external_body]
fn lowercase(s: &str) -> (r: String)
    ensures
        r@ == lower_of(s@),
        s@.len() == 0 ==> r@.len() == 0,
{
    s.to_lowercase()
}

/// The open documents, which one is on screen, whether a search phrase is
/// being typed, and the last committed search, shared by all documents.
pub struct Collection<P> {
    pub docs: Vec<Document<P>>,
    pub active: usize,
    pub searching: bool,
    pub last_search: String,
}

impl<P> Collection<P> {
    pub open spec fn wf(self) -> bool {
        &&& self.docs@.len() >= 1
        &&& self.active < self.docs@.len()
        &&& forall|i: int| 0 <= i < self.docs@.len() ==> (#[trigger] self.docs@[i]).wf()
    }

    /// The document on screen.
    pub open spec fn current(self) -> Document<P> {
        self.docs@[self.active as int]
    }

    /// `self` differs from `prev` at most in the document on screen.
    pub open spec fn only_current_changed(self, prev: Self) -> bool {
        &&& self.docs@.len() == prev.docs@.len()
        &&& self.active == prev.active
        &&& self.searching == prev.searching
        &&& self.last_search@ == prev.last_search@
        &&& forall|i: int|
            0 <= i < self.docs@.len() && i != self.active ==> #[trigger] self.docs@[i]
                == prev.docs@[i]
    }

    /// `self` is what committing `text` makes of `prev`: the text is stored
    /// lowercased, and every document has it pending, with its page, cached
    /// image and settings left as they were.
    pub open spec fn is_commit_of(self, prev: Self, text: Seq<char>) -> bool {
        &&& self.wf()
        &&& self.last_search@ == lower_of(text)
        &&& self.active == prev.active
        &&& self.searching == prev.searching
        &&& self.docs@.len() == prev.docs@.len()
        &&& forall|i: int| 0 <= i < self.docs@.len() ==> (#[trigger] self.docs@[i]).search_stale
        &&& forall|i: int|
            0 <= i < self.docs@.len() ==> {
                let d = #[trigger] self.docs@[i];
                let e = prev.docs@[i];
                d.same_setup(e) && d.current_page == e.current_page && d.render_cache
                    == e.render_cache
            }
    }

    /// `self` is what readying `prev` for display makes of it, with result `r`:
    /// the document on screen has resolved the committed search if it was
    /// pending, and `r` names the outcome and the render it still needs.
    pub open spec fn is_display_of(
        self,
        prev: Self,
        r: (SearchOutcome, Option<RenderRequest>),
    ) -> bool {
        &&& self.wf()
        &&& self.only_current_changed(prev)
        &&& self.current().is_search_resolution_of(prev.current(), prev.last_search@, r.0)
        &&& r.1 == self.current().pending_render()
    }

    /// A collection showing the first document, with no search typed or
    /// committed.
    pub fn new(docs: Vec<Document<P>>) -> (r: Self)
        requires
            docs@.len() >= 1,
            forall|i: int| 0 <= i < docs@.len() ==> (#[trigger] docs@[i]).wf(),
        ensures
            r.wf(),
            r.docs@ == docs@,
            r.active == 0,
            !r.searching,
            r.last_search@.len() == 0,
    {
        Collection { docs, active: 0, searching: false, last_search: String::new() }
    }

    /// Moves the document on screen to its next page; ignored while a search
    /// phrase is typed.
    pub fn advance(&mut self)
        requires
            old(self).wf(),
        ensures
            final(self).wf(),
            old(self).searching ==> *final(self) == *old(self),
            !old(self).searching ==> final(self).only_current_changed(*old(self))
                && final(self).current().is_advance_of(old(self).current()),
    {
        if !self.searching {
            let a = self.active;
            self.docs[a].advance();
        }
    }

    /// Moves the document on screen to its previous page; ignored while a
    /// search phrase is typed.
    pub fn retreat(&mut self)
        requires
            old(self).wf(),
        ensures
            final(self).wf(),
            old(self).searching ==> *final(self) == *old(self),
            !old(self).searching ==> final(self).only_current_changed(*old(self))
                && final(self).current().is_retreat_of(old(self).current()),
    {
        if !self.searching {
            let a = self.active;
            self.docs[a].retreat();
        }
    }

    /// Puts the next document on screen, cycling after the last; no document
    /// changes. Ignored while a search phrase is typed.
    pub fn switch_document(&mut self)
        requires
            old(self).wf(),
        ensures
            final(self).wf(),
            final(self).docs@ == old(self).docs@,
            final(self).searching == old(self).searching,
            final(self).last_search@ == old(self).last_search@,
            old(self).searching ==> final(self).active == old(self).active,
            !old(self).searching ==> final(self).active == (old(self).active + 1) % (old(
                self,
            ).docs@.len() as int),
    {
        if !self.searching {
            let n = self.docs.len();
            if self.active < n - 1 {
                self.active = self.active + 1;
                proof {
                    lemma_small_mod(self.active as nat, n as nat);
                }
            } else {
                self.active = 0;
                proof {
                    lemma_mod_self_0(n as int);
                }
            }
        }
    }

    /// Starts typing a search phrase.
    pub fn enter_search(&mut self)
        requires
            old(self).wf(),
        ensures
            final(self).wf(),
            final(self).searching,
            final(self).docs@ == old(self).docs@,
            final(self).active == old(self).active,
            final(self).last_search@ == old(self).last_search@,
    {
        self.searching = true;
    }

    /// Commits `text` as the search of every document: it is stored
    /// lowercased, and each document has it pending until it is next shown.
    pub fn commit_search(&mut self, text: &str)
        requires
            old(self).wf(),
        ensures
            final(self).wf(),
            final(self).is_commit_of(*old(self), text@),
    {
        self.last_search = lowercase(text);
        let n = self.docs.len();
        let mut i: usize = 0;
        while i < n
            invariant
                n == self.docs@.len(),
                n == old(self).docs@.len(),
                i <= n,
                self.active == old(self).active,
                self.searching == old(self).searching,
                self.last_search@ == lower_of(text@),
                old(self).wf(),
                forall|k: int| 0 <= k < n ==> (#[trigger] self.docs@[k]).wf(),
                forall|k: int| 0 <= k < i ==> (#[trigger] self.docs@[k]).search_stale,
                forall|k: int| i <= k < n ==> #[trigger] self.docs@[k] == old(self).docs@[k],
                forall|k: int|
                    0 <= k < n ==> {
                        let d = #[trigger] self.docs@[k];
                        let e = old(self).docs@[k];
                        d.same_setup(e) && d.current_page == e.current_page && d.render_cache
                            == e.render_cache
                    },
            decreases n - i,
        {
            self.docs[i].search_stale = true;
            i = i + 1;
        }
    }

    /// Stops typing a search phrase. The phrase is committed where it was
    /// confirmed, and dropped otherwise.
    pub fn leave_search(&mut self, text: &str, confirmed: bool)
        requires
            old(self).wf(),
        ensures
            final(self).wf(),
            !final(self).searching,
            final(self).active == old(self).active,
            final(self).docs@.len() == old(self).docs@.len(),
            !confirmed ==> final(self).docs@ == old(self).docs@ && final(self).last_search@
                == old(self).last_search@,
            confirmed ==> final(self).last_search@ == lower_of(text@) && forall|i: int|
                0 <= i < final(self).docs@.len() ==> (#[trigger] final(self).docs@[i]).search_stale,
    {
        self.searching = false;
        if confirmed {
            self.commit_search(text);
        }
    }

    /// Readies the document on screen for display: resolves the committed
    /// search if it is pending there, then names the render that it still
    /// needs, if any.
    pub fn prepare_display(&mut self) -> (r: (SearchOutcome, Option<RenderRequest>))
        requires
            old(self).wf(),
        ensures
            final(self).wf(),
            final(self).is_display_of(*old(self), r),
    {
        let a = self.active;
        let outcome = self.docs[a].resolve_search(self.last_search.as_str());
        let request = self.docs[a].render_request();
        (outcome, request)
    }

    /// Hands a rendered image to the document on screen, which keeps it only
    /// where it was made for the page it shows.
    pub fn store_render(&mut self, request: RenderRequest, image: P) -> (kept: bool)
        requires
            old(self).wf(),
        ensures
            final(self).wf(),
            final(self).only_current_changed(*old(self)),
            kept == (request.page == old(self).current().current_page && request.dpi == old(
                self,
            ).current().resolution),
            kept ==> final(self).current().pending_render() is None,
            !kept ==> final(self).current() == old(self).current(),
    {
        let a = self.active;
        self.docs[a].store_render(request, image)
    }
}

/// After a search is committed every document has it pending; showing a
/// document then resolves the lowercased text there, and only there: that
/// document is no longer pending, and the others still are.
pub proof fn lemma_commit_then_display<P>(
    before: Collection<P>,
    committed: Collection<P>,
    shown: Collection<P>,
    text: Seq<char>,
    r: (SearchOutcome, Option<RenderRequest>),
)
    requires
        before.wf(),
        committed.is_commit_of(before, text),
        shown.is_display_of(committed, r),
    ensures
        forall|i: int| 0 <= i < committed.docs@.len() ==> (#[trigger] committed.docs@[i]).search_stale,
        !shown.current().search_stale,
        forall|i: int|
            0 <= i < shown.docs@.len() && i != shown.active ==> (#[trigger] shown.docs@[i]).search_stale,
        r.0 != SearchOutcome::Idle,
        ({
            let t = committed.current().search_target(lower_of(text));
            &&& 1 <= t <= committed.current().page_count ==> shown.current().current_page == t
            &&& t == before.current().current_page ==> shown.current().render_cache
                == before.current().render_cache
        }),
{
    assert(committed.current().search_stale);
}

} // verus!
