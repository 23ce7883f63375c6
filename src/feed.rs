use vstd::prelude::*;
use crate::bot::{Error, Invariant, Page};

verus! {

/// The next request a walk of the liked-items feed needs.
pub enum FetchRequest {
    /// Who is logged in.
    CurrentUser,
    /// The first page of a user's liked items.
    FirstPage(u64),
    /// The user's page after the one that gave this cursor.
    NextPage(u64, String),
}

pub ghost enum RequestView {
    CurrentUser,
    FirstPage(u64),
    NextPage(u64, Seq<char>),
}

impl View for FetchRequest {
    type V = RequestView;

    open spec fn view(&self) -> RequestView {
        match self {
            FetchRequest::CurrentUser => RequestView::CurrentUser,
            FetchRequest::FirstPage(u) => RequestView::FirstPage(*u),
            FetchRequest::NextPage(u, c) => RequestView::NextPage(*u, c@),
        }
    }
}

enum WalkState {
    Start,
    User(u64),
    Cursor(u64, String),
    Finished,
    Failed,
}

pub ghost enum WalkView {
    /// Nothing asked yet.
    Start,
    /// The logged-in user is known; no page has come.
    User(u64),
    /// Pages of this user's feed have come; the last one gave this cursor.
    Cursor(u64, Seq<char>),
    /// The last page gave no cursor: the feed is exhausted.
    Finished,
    /// A request failed or a response broke the provider's contract.
    Failed,
}

/// The request each state of a walk calls for.
pub open spec fn request_of(s: WalkView) -> Option<RequestView> {
    match s {
        WalkView::Start => Some(RequestView::CurrentUser),
        WalkView::User(u) => Some(RequestView::FirstPage(u)),
        WalkView::Cursor(u, c) => Some(RequestView::NextPage(u, c)),
        _ => None,
    }
}

/// A walk's state, pages and answer after it takes a page: a page that was
/// asked for is kept and its cursor followed; one without a cursor ends the
/// walk; one with a cursor but no data breaks the provider's contract and is
/// not kept. Where no page was asked for nothing changes.
pub open spec fn page_step(s: WalkView, pages: Seq<Page>, page: Page) -> (WalkView, Seq<Page>, Result<
    (),
    Error,
>) {
    match s {
        WalkView::User(u) | WalkView::Cursor(u, _) => match page.next_token {
            None => (WalkView::Finished, pages.push(page), Ok(())),
            Some(c) => if page.data is None {
                (
                    WalkView::Failed,
                    pages,
                    Err(Error::TwitterApiInvariant(Invariant::TerminalPageCursor)),
                )
            } else {
                (WalkView::Cursor(u, c@), pages.push(page), Ok(()))
            },
        },
        _ => (s, pages, Ok(())),
    }
}

/// A lazy, strictly sequential walk of the liked-items feed: it asks for one
/// request at a time, and learns the cursor of each page only from the page
/// itself. It keeps the pages that came, in order.
pub struct FeedWalker {
    state: WalkState,
    pages: Vec<Page>,
}

impl FeedWalker {
    /// The cursor a walk holds is the one its last page gave; a finished
    /// walk's last page gave none.
    pub closed spec fn wf(&self) -> bool {
        match self.state {
            WalkState::Start => self.pages@.len() == 0,
            WalkState::User(_) => self.pages@.len() == 0,
            WalkState::Cursor(_, c) => self.pages@.len() > 0 && (self.pages@.last().next_token matches Some(
                t,
            ) && t@ == c@),
            WalkState::Finished => self.pages@.len() > 0 && self.pages@.last().next_token is None,
            WalkState::Failed => true,
        }
    }

    pub closed spec fn state(&self) -> WalkView {
        match self.state {
            WalkState::Start => WalkView::Start,
            WalkState::User(u) => WalkView::User(u),
            WalkState::Cursor(u, c) => WalkView::Cursor(u, c@),
            WalkState::Finished => WalkView::Finished,
            WalkState::Failed => WalkView::Failed,
        }
    }

    /// The pages received so far, in order.
    pub closed spec fn pages(&self) -> Seq<Page> {
        self.pages@
    }

    pub fn new() -> (r: FeedWalker)
        ensures
            r.wf(),
            r.state() == WalkView::Start,
            r.pages().len() == 0,
    {
        FeedWalker { state: WalkState::Start, pages: Vec::new() }
    }

    /// The request to make next, or `None` once the walk is over. A next
    /// page is asked for only with the cursor of the last page received.
    pub fn next_request(&self) -> (r: Option<FetchRequest>)
        requires
            self.wf(),
        ensures
            match r {
                Some(q) => request_of(self.state()) == Some(q@),
                None => request_of(self.state()) is None,
            },
            r matches Some(FetchRequest::FirstPage(_)) ==> self.pages().len() == 0,
            r matches Some(FetchRequest::NextPage(_, c)) ==> self.pages().len() > 0 && (
            self.pages().last().next_token matches Some(t) && t@ == c@),
    {
        match &self.state {
            WalkState::Start => Some(FetchRequest::CurrentUser),
            WalkState::User(u) => Some(FetchRequest::FirstPage(*u)),
            WalkState::Cursor(u, c) => Some(FetchRequest::NextPage(*u, c.clone())),
            _ => None,
        }
    }

    /// Takes the answer to the current-user request: a missing user breaks
    /// the provider's contract. Outside the start of a walk nothing changes.
    pub fn on_current_user(&mut self, user_id: Option<u64>) -> (r: Result<(), Error>)
        requires
            old(self).wf(),
        ensures
            final(self).wf(),
            final(self).pages() == old(self).pages(),
            match old(self).state() {
                WalkView::Start => match user_id {
                    Some(u) => final(self).state() == WalkView::User(u) && r is Ok,
                    None => final(self).state() == WalkView::Failed && r == Err::<(), Error>(
                        Error::TwitterApiInvariant(Invariant::LoggedInUser),
                    ),
                },
                _ => final(self).state() == old(self).state() && r is Ok,
            },
    {
        if matches!(self.state, WalkState::Start) {
            match user_id {
                Some(u) => {
                    self.state = WalkState::User(u);
                    Ok(())
                },
                None => {
                    self.state = WalkState::Failed;
                    Err(Error::TwitterApiInvariant(Invariant::LoggedInUser))
                },
            }
        } else {
            Ok(())
        }
    }

    /// Takes a page that was asked for; see [`page_step`].
    pub fn on_page(&mut self, page: Page) -> (r: Result<(), Error>)
        requires
            old(self).wf(),
        ensures
            final(self).wf(),
            (final(self).state(), final(self).pages(), r) == page_step(
                old(self).state(),
                old(self).pages(),
                page,
            ),
    {
        let user = match &self.state {
            WalkState::User(u) => *u,
            WalkState::Cursor(u, _) => *u,
            _ => {
                return Ok(());
            },
        };
        match &page.next_token {
            None => {
                self.state = WalkState::Finished;
                self.pages.push(page);
                Ok(())
            },
            Some(c) => {
                if page.data.is_none() {
                    self.state = WalkState::Failed;
                    Err(Error::TwitterApiInvariant(Invariant::TerminalPageCursor))
                } else {
                    self.state = WalkState::Cursor(user, c.clone());
                    self.pages.push(page);
                    Ok(())
                }
            },
        }
    }

    /// A request failed: the walk ends.
    pub fn on_error(&mut self)
        requires
            old(self).wf(),
        ensures
            final(self).wf(),
            final(self).state() == WalkView::Failed,
            final(self).pages() == old(self).pages(),
    {
        self.state = WalkState::Failed;
    }

    /// Whether the feed was walked to its end.
    pub fn is_finished(&self) -> (r: bool)
        ensures
            r == (self.state() == WalkView::Finished),
    {
        matches!(self.state, WalkState::Finished)
    }

    /// The pages received, in order.
    pub fn into_pages(self) -> (r: Vec<Page>)
        ensures
            r@ == self.pages(),
    {
        self.pages
    }
}

/// Pages are asked for strictly in sequence: after a page with data and a
/// cursor, the next request is for that user's page at exactly that cursor;
/// and a last page without data and without cursor ends the walk without
/// error, keeping every page received before it.
pub proof fn lemma_walk_is_sequential(s: WalkView, pages: Seq<Page>, page: Page)
    requires
        s is User || s is Cursor,
    ensures
        page.data is Some && page.next_token is Some ==> {
            let (next, kept, r) = page_step(s, pages, page);
            &&& r is Ok
            &&& kept == pages.push(page)
            &&& request_of(next) == Some(
                RequestView::NextPage(
                    match s {
                        WalkView::User(u) => u,
                        WalkView::Cursor(u, _) => u,
                        _ => 0,
                    },
                    page.next_token->Some_0@,
                ),
            )
        },
        page.data is None && page.next_token is None ==> {
            let (next, kept, r) = page_step(s, pages, page);
            &&& r is Ok
            &&& next == WalkView::Finished
            &&& request_of(next) is None
            &&& kept == pages.push(page)
            &&& kept.subrange(0, pages.len() as int) == pages
        },
{
    if page.data is None && page.next_token is None {
        assert(pages.push(page).subrange(0, pages.len() as int) =~= pages);
    }
}

} // verus!
