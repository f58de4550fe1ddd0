use vstd::prelude::*;

use crate::html::{attr_values, opts_view, select_attr, selector_ok};
use crate::session::fields_view;
use crate::text::{chars_of, contains_text, find_text, lit_at, match_lit};

verus! {

/// The text of the page the portal shows when the account is logged in
/// elsewhere.
pub const DUPLICATE_LOGIN_MARK: &'static str = "当前用户存在重复登录的情况";

/// The text of the page the portal shows when requests come too fast.
pub const TOO_FAST_MARK: &'static str = "请不要过快点击";

/// The minimum pause after every primary request, in milliseconds.
pub const DISPATCH_DELAY_MS: u64 = 1500;

/// What a response body says about the request that produced it.
#[derive(Clone, Copy, Debug, PartialEq, Eq, Structural)]
pub enum Signature {
    Normal,
    DuplicateSession,
    RateLimited,
}

pub open spec fn signature_of(body: Seq<char>) -> Signature {
    if contains_text(body, DUPLICATE_LOGIN_MARK@) {
        Signature::DuplicateSession
    } else if contains_text(body, TOO_FAST_MARK@) {
        Signature::RateLimited
    } else {
        Signature::Normal
    }
}

/// A request as the sub-service clients describe it.
#[derive(Debug)]
pub struct RequestDescriptor {
    pub method: String,
    pub url: String,
    pub query: Vec<(String, String)>,
    pub form: Vec<(String, String)>,
}

/// What the transport is to do with a response.
#[derive(Debug)]
pub enum DispatchAction {
    /// Hand the response to the caller.
    Deliver,
    /// Send this request once more and hand its response to the caller.
    Resend(RequestDescriptor),
}

/// One dispatch: the request as first sent, for as long as it may still be
/// retried.
#[derive(Debug)]
pub struct Dispatcher {
    pending: Option<RequestDescriptor>,
}

/// The first present anchor target, in the order scraper's `select` yields
/// the anchors.
pub open spec fn first_some(s: Seq<Option<Seq<char>>>) -> Option<Seq<char>>
    decreases s.len(),
{
    if s.len() == 0 {
        None
    } else if s[0] is Some {
        s[0]
    } else {
        first_some(s.drop_first())
    }
}

/// An absolute web address, which a request can be sent to as it stands.
pub open spec fn absolute_url(h: Seq<char>) -> bool {
    lit_at(h, 0, "http://"@) || lit_at(h, 0, "https://"@)
}

/// One step of a dispatch: from what is still pending and a response's
/// signature (with the first anchor target of a duplicate-session page), to
/// what stays pending and the action. A target that is not an absolute
/// address counts as no target: the response is delivered.
pub open spec fn dispatch_step(
    pending: Option<RequestDescriptor>,
    sig: Signature,
    href: Option<String>,
) -> (Option<RequestDescriptor>, DispatchAction) {
    match pending {
        None => (None, DispatchAction::Deliver),
        Some(q) => match sig {
            Signature::Normal => (Some(q), DispatchAction::Deliver),
            Signature::RateLimited => (None, DispatchAction::Resend(q)),
            Signature::DuplicateSession => match href {
                Some(h) => if absolute_url(h@) {
                    (None, DispatchAction::Resend(RequestDescriptor { url: h, ..q }))
                } else {
                    (Some(q), DispatchAction::Deliver)
                },
                None => (Some(q), DispatchAction::Deliver),
            },
        },
    }
}

/// The number of resends over a run of responses.
pub open spec fn resends(pending: Option<RequestDescriptor>, events: Seq<(Signature, Option<String>)>) -> nat
    decreases events.len(),
{
    if events.len() == 0 {
        0
    } else {
        let step = dispatch_step(pending, events[0].0, events[0].1);
        (if step.1 is Resend { 1nat } else { 0nat }) + resends(step.0, events.drop_first())
    }
}

/// Whether `h` is an absolute web address.
pub fn is_absolute_url(h: &str) -> (r: bool)
    ensures
        r == absolute_url(h@),
{
    let t = chars_of(h);
    match_lit(&t, 0, "http://") || match_lit(&t, 0, "https://")
}

/// Whether the body holds the given mark.
pub fn body_contains(body: &str, mark: &str) -> (r: bool)
    ensures
        r == contains_text(body@, mark@),
{
    let t = chars_of(body);
    find_text(&t, mark)
}

/// The signature of a response body.
pub fn classify(body: &str) -> (r: Signature)
    ensures
        r == signature_of(body@),
{
    if body_contains(body, DUPLICATE_LOGIN_MARK) {
        Signature::DuplicateSession
    } else if body_contains(body, TOO_FAST_MARK) {
        Signature::RateLimited
    } else {
        Signature::Normal
    }
}

/// The first present value, in order.
pub fn first_href(hrefs: &Vec<Option<String>>) -> (r: Option<String>)
    ensures
        crate::html::opt_view(r) == first_some(opts_view(hrefs@)),
{
    let mut i: usize = 0;
    assert(opts_view(hrefs@).subrange(0, hrefs@.len() as int) =~= opts_view(hrefs@));
    while i < hrefs.len()
        invariant
            i <= hrefs@.len(),
            first_some(opts_view(hrefs@)) == first_some(opts_view(hrefs@).subrange(
                i as int,
                hrefs@.len() as int,
            )),
        decreases hrefs.len() - i,
    {
        let ghost rest = opts_view(hrefs@).subrange(i as int, hrefs@.len() as int);
        assert(rest[0] == opts_view(hrefs@)[i as int]);
        match &hrefs[i] {
            Some(h) => {
                return Some(h.clone());
            },
            None => {},
        }
        assert(rest.drop_first() =~= opts_view(hrefs@).subrange(i + 1, hrefs@.len() as int));
        i = i + 1;
    }
    None
}

/// The target a duplicate-session page points to: the first anchor with an
/// `href`, in the order scraper's `select` yields the anchors.
pub open spec fn duplicate_target(body: Seq<char>) -> Option<Seq<char>> {
    if selector_ok("a"@) {
        first_some(attr_values(body, "a"@, "href"@))
    } else {
        None
    }
}

impl Dispatcher {
    /// A dispatch of `request`, which may still be retried once.
    pub fn new(request: RequestDescriptor) -> (r: Dispatcher)
        ensures
            r.pending() == Some(request),
    {
        Dispatcher { pending: Some(request) }
    }

    pub closed spec fn pending(&self) -> Option<RequestDescriptor> {
        self.pending
    }

    /// Decides on a response with signature `sig`; `href` is the first
    /// anchor target of a duplicate-session page.
    pub fn respond(&mut self, sig: Signature, href: Option<String>) -> (r: DispatchAction)
        ensures
            (final(self).pending(), r) == dispatch_step(old(self).pending(), sig, href),
    {
        match self.pending.take() {
            None => DispatchAction::Deliver,
            Some(q) => match sig {
                Signature::Normal => {
                    self.pending = Some(q);
                    DispatchAction::Deliver
                },
                Signature::RateLimited => DispatchAction::Resend(q),
                Signature::DuplicateSession => match href {
                    Some(h) if is_absolute_url(h.as_str()) => {
                        let mut q = q;
                        q.url = h;
                        DispatchAction::Resend(q)
                    },
                    Some(_) => {
                        self.pending = Some(q);
                        DispatchAction::Deliver
                    },
                    None => {
                        self.pending = Some(q);
                        DispatchAction::Deliver
                    },
                },
            },
        }
    }

    /// Decides on a response body: classifies it and, on a duplicate-session
    /// page, looks up the anchor to follow.
    pub fn on_response(&mut self, body: &str) -> (r: DispatchAction)
        ensures
            exists|h: Option<String>|
                #![trigger dispatch_step(old(self).pending(), signature_of(body@), h)]
                (final(self).pending(), r) == dispatch_step(old(self).pending(), signature_of(body@), h)
                    && (signature_of(body@) == Signature::DuplicateSession ==> crate::html::opt_view(h)
                    == duplicate_target(body@)),
    {
        let sig = classify(body);
        let href = if sig == Signature::DuplicateSession {
            match select_attr(body, "a", "href") {
                Some(hrefs) => first_href(&hrefs),
                None => None,
            }
        } else {
            None
        };
        let ghost h = href;
        let r = self.respond(sig, href);
        assert(dispatch_step(old(self).pending(), signature_of(body@), h) == (self.pending, r));
        r
    }
}

/// On a duplicate-session page whose anchor target is an absolute address,
/// a dispatch that has not retried yet resends the request once, to that
/// target, with its method, query and form unchanged, and retries no more.
pub proof fn lemma_duplicate_session_retry(q: RequestDescriptor, h: String)
    requires
        absolute_url(h@),
    ensures
        ({
            let step = dispatch_step(Some(q), Signature::DuplicateSession, Some(h));
            &&& step.0 is None
            &&& step.1 matches DispatchAction::Resend(r) && r.url == h && r.method == q.method
                && fields_view(r.query@) == fields_view(q.query@) && fields_view(r.form@)
                == fields_view(q.form@)
        }),
{
}

/// Whatever responses follow, a dispatch resends at most once, and never
/// once it has resent.
pub proof fn lemma_at_most_one_retry(
    pending: Option<RequestDescriptor>,
    events: Seq<(Signature, Option<String>)>,
)
    ensures
        resends(pending, events) <= 1,
        pending is None ==> resends(pending, events) == 0,
    decreases events.len(),
{
    if events.len() > 0 {
        let step = dispatch_step(pending, events[0].0, events[0].1);
        lemma_at_most_one_retry(step.0, events.drop_first());
        if step.1 is Resend {
            assert(step.0 is None);
        } else {
            match pending {
                None => {},
                Some(q) => {
                    assert(step.0 == Some(q));
                },
            }
        }
    }
}

} // verus!
