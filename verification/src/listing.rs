//! The paginated listing stream.
//!
//! [`parse_listing_page`] extracts one page of candidate references from a
//! listing response: the next-page token and the child URLs, with adult
//! entries filtered out at parse time.  [`Posts`] is the pull-based state
//! machine that pages through the listing: the caller pulls with
//! [`Posts::poll_next`], performs the page request it asks for, and feeds
//! the outcome back with [`Posts::on_page`] or [`Posts::on_page_failed`].

use vstd::prelude::*;
use vstd::string::StringExecFns;

use crate::json::{json_get, json_of, parse_json, spec_get, JsonValue};

verus! {

/// One page of the listing: the token for the next page, if any, and the
/// candidate references in page order.
#[derive(Debug)]
pub struct Page {
    pub next_page_id: Option<String>,
    pub posts: Vec<String>,
}

/// Why a listing body yielded no page.
#[derive(Clone, Copy, Debug, PartialEq, Eq, Structural)]
pub enum ListingError {
    /// The body is not well-formed JSON.  The caller treats this like a
    /// failed page request and retries it under the backoff policy.
    BadJson,
    /// The top level carries no `data` member.
    NoData,
    /// `data` carries no `children` member.
    NoChildren,
    /// `children` is not an array.
    ChildrenNotArray,
}

/// The reference one child contributes: its `data.url`, unless the child
/// is malformed or marked adult.
pub open spec fn spec_child_url(child: JsonValue) -> Option<Seq<char>> {
    match spec_get(child, "data"@) {
        Some(data) => match (spec_get(data, "over_18"@), spec_get(data, "url"@)) {
            (Some(JsonValue::Bool(nsfw)), Some(JsonValue::Str(u))) => if nsfw {
                None
            } else {
                Some(u@)
            },
            _ => None,
        },
        None => None,
    }
}

/// The references a child array contributes, in order, skipping malformed
/// and adult entries.
pub open spec fn spec_children_urls(children: Seq<JsonValue>) -> Seq<Seq<char>>
    decreases children.len(),
{
    if children.len() == 0 {
        Seq::empty()
    } else {
        match spec_child_url(children[0]) {
            Some(u) => seq![u] + spec_children_urls(children.drop_first()),
            None => spec_children_urls(children.drop_first()),
        }
    }
}

/// The next-page token of a listing's `data`, if it is a string.
pub open spec fn spec_after(data: JsonValue) -> Option<Seq<char>> {
    match spec_get(data, "after"@) {
        Some(JsonValue::Str(s)) => Some(s@),
        _ => None,
    }
}

/// What a listing body parses to: the next-page token and the child URLs,
/// or the error naming the first structural element that is missing.
pub open spec fn spec_listing_page(body: Seq<u8>) -> Result<
    (Option<Seq<char>>, Seq<Seq<char>>),
    ListingError,
> {
    match json_of(body) {
        None => Err(ListingError::BadJson),
        Some(tree) => match spec_get(tree, "data"@) {
            None => Err(ListingError::NoData),
            Some(data) => match spec_get(data, "children"@) {
                None => Err(ListingError::NoChildren),
                Some(children) => match children {
                    JsonValue::Arr(cs) => Ok((spec_after(data), spec_children_urls(cs@))),
                    _ => Err(ListingError::ChildrenNotArray),
                },
            },
        },
    }
}

/// Parse one listing response body into a [`Page`].
pub fn parse_listing_page(body: &[u8]) -> (r: Result<Page, ListingError>)
    ensures
        match r {
            Ok(p) => spec_listing_page(body@) == Ok::<_, ListingError>(
                (p.next_page_id.deep_view(), p.posts.deep_view()),
            ),
            Err(e) => spec_listing_page(body@) == Err::<(Option<Seq<char>>, Seq<Seq<char>>), _>(
                e,
            ),
        },
{
    let tree = match parse_json(body) {
        Some(t) => t,
        None => {
            return Err(ListingError::BadJson);
        },
    };
    let data = match json_get(&tree, &String::from_str("data")) {
        Some(d) => d,
        None => {
            return Err(ListingError::NoData);
        },
    };
    let children_value = match json_get(data, &String::from_str("children")) {
        Some(c) => c,
        None => {
            return Err(ListingError::NoChildren);
        },
    };
    let children = match children_value {
        JsonValue::Arr(cs) => cs,
        _ => {
            return Err(ListingError::ChildrenNotArray);
        },
    };
    let next_page_id: Option<String> = match json_get(data, &String::from_str("after")) {
        Some(JsonValue::Str(s)) => Some(s.clone()),
        _ => None,
    };
    let n = children.len();
    let mut posts: Vec<String> = Vec::new();
    proof {
        assert(children@.skip(0) =~= children@);
        assert(posts.deep_view() =~= Seq::<Seq<char>>::empty());
    }
    let mut i: usize = 0;
    while i < n
        invariant
            i <= n,
            n == children@.len(),
            *children_value is Arr,
            children_value->Arr_0 == *children,
            spec_children_urls(children@) =~= posts.deep_view() + spec_children_urls(
                children@.skip(i as int),
            ),
        decreases n - i,
    {
        let ghost pre = posts.deep_view();
        let child = &children[i];
        match json_get(child, &String::from_str("data")) {
            Some(cdata) => {
                let nsfw = match json_get(cdata, &String::from_str("over_18")) {
                    Some(JsonValue::Bool(b)) => Some(*b),
                    _ => None,
                };
                let url = match json_get(cdata, &String::from_str("url")) {
                    Some(JsonValue::Str(u)) => Some(u.clone()),
                    _ => None,
                };
                match (nsfw, url) {
                    (Some(false), Some(u)) => {
                        posts.push(u);
                    },
                    _ => {},
                }
            },
            None => {},
        }
        proof {
            assert(children@.skip(i as int)[0] == children@[i as int]);
            assert(children@.skip(i as int).drop_first() =~= children@.skip(i as int + 1));
            assert(posts.deep_view() + spec_children_urls(children@.skip(i as int + 1)) =~= pre
                + spec_children_urls(children@.skip(i as int)));
        }
        i = i + 1;
    }
    proof {
        assert(children@.skip(n as int) =~= Seq::<JsonValue>::empty());
        assert(posts.deep_view() + Seq::<Seq<char>>::empty() =~= posts.deep_view());
    }
    Ok(Page { next_page_id, posts })
}

/// The states of the listing stream.
pub enum PostsState {
    /// No references buffered: the next pull starts a page request.
    NeedMore,
    /// A page request is outstanding.
    Fetching,
    /// References available to emit, most recent last.
    Fetched(Vec<String>),
    /// The listing is done: no further token, or the page request failed.
    Exhausted,
}

/// What one pull of the stream asks of the caller.
pub enum PollStep {
    /// Emit this reference.
    Item(String),
    /// Perform the page request for [`Posts::request_url`] with the
    /// current token, then report with `on_page` or `on_page_failed`.
    StartFetch,
    /// The stream has ended; it will never produce again.
    Exhausted,
}

/// The pull-based producer of candidate references.
pub struct Posts {
    pub subreddits: Vec<String>,
    pub next_page_id: Option<String>,
    pub state: PostsState,
}

/// The subreddit names joined with `+`, as the listing URL wants them.
pub open spec fn spec_join_plus(subs: Seq<Seq<char>>) -> Seq<char>
    decreases subs.len(),
{
    if subs.len() == 0 {
        Seq::empty()
    } else if subs.len() == 1 {
        subs[0]
    } else {
        subs[0] + seq!['+'] + spec_join_plus(subs.drop_first())
    }
}

/// The names from position `i` on, joined with `+`.
fn join_plus_suffix(subs: &Vec<String>, i: usize) -> (r: String)
    requires
        i <= subs@.len(),
    ensures
        r@ == spec_join_plus(subs.deep_view().skip(i as int)),
    decreases subs@.len() - i,
{
    proof {
        assert(subs.deep_view().len() == subs@.len());
    }
    if i == subs.len() {
        let r = String::new();
        proof {
            assert(subs.deep_view().skip(i as int) =~= Seq::<Seq<char>>::empty());
        }
        r
    } else if i + 1 == subs.len() {
        let r = subs[i].clone();
        proof {
            assert(subs.deep_view().skip(i as int)[0] == subs@[i as int]@);
            assert(subs.deep_view().skip(i as int).len() == 1);
        }
        r
    } else {
        let mut r = subs[i].clone();
        r.append("+");
        let rest = join_plus_suffix(subs, i + 1);
        r.append(rest.as_str());
        proof {
            reveal_strlit("+");
            assert(subs.deep_view().skip(i as int)[0] == subs@[i as int]@);
            assert(subs.deep_view().skip(i as int).drop_first() =~= subs.deep_view().skip(
                i as int + 1,
            ));
            assert(r@ =~= subs@[i as int]@ + seq!['+'] + spec_join_plus(
                subs.deep_view().skip(i as int + 1),
            ));
        }
        r
    }
}

impl Posts {
    /// A fresh stream over the given subreddits, ready to request its
    /// first page.
    pub fn new(subreddits: Vec<String>) -> (r: Posts)
        ensures
            r.subreddits == subreddits,
            r.next_page_id is None,
            r.state is NeedMore,
    {
        Posts { subreddits, next_page_id: None, state: PostsState::NeedMore }
    }

    /// The listing URL for the current subreddits.  The pagination token,
    /// when one is held, is passed separately as the `after` parameter of
    /// the request.
    pub fn request_url(&self) -> (r: String)
        ensures
            r@ == "https://reddit.com/r/"@ + spec_join_plus(self.subreddits.deep_view())
                + "/new.json"@,
    {
        let mut url = String::from_str("https://reddit.com/r/");
        let joined = join_plus_suffix(&self.subreddits, 0);
        url.append(joined.as_str());
        url.append("/new.json");
        proof {
            assert(self.subreddits.deep_view().skip(0) =~= self.subreddits.deep_view());
        }
        url
    }

    /// Pull once.  Buffered references are emitted most-recent-first; an
    /// empty buffer either starts the next page request (a token is held)
    /// or ends the stream (none is), so a terminal page is never queried
    /// again.
    pub fn poll_next(&mut self) -> (r: PollStep)
        requires
            !(old(self).state is Fetching),
        ensures
            final(self).subreddits == old(self).subreddits,
            final(self).next_page_id == old(self).next_page_id,
            old(self).state is NeedMore ==> final(self).state is Fetching && r is StartFetch,
            old(self).state is Exhausted ==> final(self).state is Exhausted && r is Exhausted,
            old(self).state matches PostsState::Fetched(posts) ==> {
                if posts@.len() > 0 {
                    &&& r matches PollStep::Item(u) && u == posts@.last()
                    &&& final(self).state matches PostsState::Fetched(rest) && rest@
                        == posts@.drop_last()
                } else if old(self).next_page_id is Some {
                    &&& final(self).state is Fetching
                    &&& r is StartFetch
                } else {
                    &&& final(self).state is Exhausted
                    &&& r is Exhausted
                }
            },
    {
        if matches!(self.state, PostsState::Exhausted) {
            return PollStep::Exhausted;
        }
        if matches!(self.state, PostsState::NeedMore) {
            self.state = PostsState::Fetching;
            return PollStep::StartFetch;
        }
        let popped = match &mut self.state {
            PostsState::Fetched(posts) => posts.pop(),
            _ => {
                proof {
                    assert(false);
                }
                None
            },
        };
        match popped {
            Some(u) => PollStep::Item(u),
            None => {
                if self.next_page_id.is_some() {
                    self.state = PostsState::Fetching;
                    PollStep::StartFetch
                } else {
                    self.state = PostsState::Exhausted;
                    PollStep::Exhausted
                }
            },
        }
    }

    /// A page request finished: carry its token forward for the next page
    /// and buffer its references.
    pub fn on_page(&mut self, page: Page)
        requires
            old(self).state is Fetching,
        ensures
            final(self).subreddits == old(self).subreddits,
            final(self).next_page_id == page.next_page_id,
            final(self).state matches PostsState::Fetched(posts) && posts == page.posts,
    {
        self.next_page_id = page.next_page_id;
        self.state = PostsState::Fetched(page.posts);
    }

    /// A page request failed for good (its retries are exhausted): the
    /// stream simply stops producing.
    pub fn on_page_failed(&mut self)
        requires
            old(self).state is Fetching,
        ensures
            final(self).subreddits == old(self).subreddits,
            final(self).next_page_id == old(self).next_page_id,
            final(self).state is Exhausted,
    {
        self.state = PostsState::Exhausted;
    }
}

} // verus!
