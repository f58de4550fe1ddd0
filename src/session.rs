use vstd::prelude::*;

use crate::error::{ErrorType, SDKError};
use crate::html::{attr_values, match_count, opt_view, opts_view, select_attr, selector_ok};
use crate::text::same_text;

verus! {

/// The sign-on portal's login form.
pub const LOGIN_URL: &'static str = "https://uis.fudan.edu.cn/authserver/login";

/// The sign-on portal's logout endpoint.
pub const LOGOUT_URL: &'static str = "https://uis.fudan.edu.cn/authserver/logout";

/// Where a successful login lands.
pub const LOGIN_SUCCESS_URL: &'static str = "https://uis.fudan.edu.cn/authserver/index.do";

/// The selector of the login page's anti-forgery fields.
pub const HIDDEN_INPUT: &'static str = "input[type=\"hidden\"]";

pub open spec fn fields_view(v: Seq<(String, String)>) -> Seq<(Seq<char>, Seq<char>)> {
    v.map_values(|p: (String, String)| (p.0@, p.1@))
}

/// No two entries of a form share a name.
pub open spec fn keys_unique(s: Seq<(Seq<char>, Seq<char>)>) -> bool {
    forall|i: int, j: int|
        0 <= i < s.len() && 0 <= j < s.len() && i != j ==> #[trigger] s[i].0 != #[trigger] s[j].0
}

pub open spec fn has_key(s: Seq<(Seq<char>, Seq<char>)>, k: Seq<char>) -> bool {
    exists|i: int| 0 <= i < s.len() && #[trigger] s[i].0 == k
}

/// A form as a map from field name to value.
pub open spec fn form_map(s: Seq<(Seq<char>, Seq<char>)>) -> Map<Seq<char>, Seq<char>> {
    Map::new(
        |k: Seq<char>| has_key(s, k),
        |k: Seq<char>| s[choose|i: int| 0 <= i < s.len() && #[trigger] s[i].0 == k].1,
    )
}

/// A map with the given fields put in one after the other, each replacing
/// an earlier value of its name.
pub open spec fn with_fields(m: Map<Seq<char>, Seq<char>>, fs: Seq<(Seq<char>, Seq<char>)>) -> Map<
    Seq<char>,
    Seq<char>,
>
    decreases fs.len(),
{
    if fs.len() == 0 {
        m
    } else {
        with_fields(m, fs.drop_last()).insert(fs.last().0, fs.last().1)
    }
}

proof fn lemma_form_entry(s: Seq<(Seq<char>, Seq<char>)>, i: int)
    requires
        keys_unique(s),
        0 <= i < s.len(),
    ensures
        form_map(s).contains_key(s[i].0),
        form_map(s)[s[i].0] == s[i].1,
{
    assert(has_key(s, s[i].0));
    let j = choose|j: int| 0 <= j < s.len() && #[trigger] s[j].0 == s[i].0;
    assert(s[j].0 == s[i].0);
    assert(j == i);
}

/// Puts `key = value` in the form, in place of an earlier value of `key`.
pub fn form_insert(form: &mut Vec<(String, String)>, key: String, value: String)
    requires
        keys_unique(fields_view(old(form)@)),
    ensures
        keys_unique(fields_view(final(form)@)),
        form_map(fields_view(final(form)@)) == form_map(fields_view(old(form)@)).insert(
            key@,
            value@,
        ),
{
    let ghost s0 = fields_view(form@);
    let mut i: usize = 0;
    while i < form.len()
        invariant
            i <= form@.len(),
            fields_view(form@) == s0,
            s0 == fields_view(old(form)@),
            keys_unique(s0),
            forall|j: int| 0 <= j < i ==> #[trigger] s0[j].0 != key@,
        decreases form.len() - i,
    {
        if form[i].0 == key {
            form.set(i, (key, value));
            let ghost s1 = fields_view(form@);
            assert(forall|j: int| 0 <= j < s1.len() && j != i ==> #[trigger] s1[j] == s0[j]);
            assert(s1[i as int] == (key@, value@));
            assert(s0[i as int].0 == key@);
            assert(forall|j: int| 0 <= j < s1.len() ==> #[trigger] s1[j].0 == s0[j].0);
            assert(keys_unique(s1));
            assert forall|k: Seq<char>| #[trigger]
                form_map(s1).contains_key(k) == form_map(s0).insert(key@, value@).contains_key(k)
                by {
                if has_key(s1, k) {
                    let j = choose|j: int| 0 <= j < s1.len() && #[trigger] s1[j].0 == k;
                    if j != i {
                        assert(s0[j].0 == k);
                    }
                }
                if has_key(s0, k) {
                    let j = choose|j: int| 0 <= j < s0.len() && #[trigger] s0[j].0 == k;
                    if j != i {
                        assert(s1[j].0 == k);
                    }
                }
                if k == key@ {
                    assert(s1[i as int].0 == k);
                }
            }
            assert forall|k: Seq<char>| #[trigger]
                form_map(s1).contains_key(k) implies form_map(s1)[k] == form_map(s0).insert(
                    key@,
                    value@,
                )[k] by {
                let j = choose|j: int| 0 <= j < s1.len() && #[trigger] s1[j].0 == k;
                lemma_form_entry(s1, j);
                if j != i {
                    lemma_form_entry(s0, j);
                }
            }
            assert(form_map(s1) =~= form_map(s0).insert(key@, value@));
            return ;
        }
        i = i + 1;
    }
    form.push((key, value));
    let ghost s1 = fields_view(form@);
    assert(forall|j: int| 0 <= j < s0.len() ==> #[trigger] s1[j] == s0[j]);
    assert(s1[s0.len() as int] == (key@, value@));
    assert forall|k: Seq<char>| #[trigger]
        form_map(s1).contains_key(k) == form_map(s0).insert(key@, value@).contains_key(k) by {
        if has_key(s1, k) {
            let j = choose|j: int| 0 <= j < s1.len() && #[trigger] s1[j].0 == k;
            if j < s0.len() {
                assert(s0[j].0 == k);
            }
        }
        if has_key(s0, k) {
            let j = choose|j: int| 0 <= j < s0.len() && #[trigger] s0[j].0 == k;
            assert(s1[j].0 == k);
        }
        if k == key@ {
            assert(s1[s0.len() as int].0 == k);
        }
    }
    assert forall|k: Seq<char>| #[trigger]
        form_map(s1).contains_key(k) implies form_map(s1)[k] == form_map(s0).insert(key@, value@)[k]
        by {
        let j = choose|j: int| 0 <= j < s1.len() && #[trigger] s1[j].0 == k;
        lemma_form_entry(s1, j);
        if j < s0.len() {
            lemma_form_entry(s0, j);
        }
    }
    assert(form_map(s1) =~= form_map(s0).insert(key@, value@));
}

/// The value of a field, where the element has one, else empty.
pub open spec fn value_or_empty(v: Option<Seq<char>>) -> Seq<char> {
    match v {
        Some(x) => x,
        None => Seq::empty(),
    }
}

/// The name/value pairs of the first `n` elements that carry a name, in
/// order; an element without a value gives an empty one.
pub open spec fn hidden_fields(
    names: Seq<Option<Seq<char>>>,
    values: Seq<Option<Seq<char>>>,
    n: int,
) -> Seq<(Seq<char>, Seq<char>)>
    decreases n,
{
    if n <= 0 {
        Seq::empty()
    } else {
        let prev = hidden_fields(names, values, n - 1);
        match names[n - 1] {
            Some(k) => prev.push((k, value_or_empty(values[n - 1]))),
            None => prev,
        }
    }
}

/// The anti-forgery fields of a login page, from the `name` and `value`
/// attributes of its hidden inputs (one entry per input, in order).
pub fn collect_hidden_fields(names: &Vec<Option<String>>, values: &Vec<Option<String>>) -> (r: Vec<
    (String, String),
>)
    requires
        names@.len() == values@.len(),
    ensures
        fields_view(r@) == hidden_fields(opts_view(names@), opts_view(values@), names@.len() as int),
{
    let mut out: Vec<(String, String)> = Vec::new();
    let mut i: usize = 0;
    while i < names.len()
        invariant
            i <= names@.len() == values@.len(),
            fields_view(out@) == hidden_fields(opts_view(names@), opts_view(values@), i as int),
        decreases names.len() - i,
    {
        let ghost prev = out@;
        match &names[i] {
            Some(k) => {
                let v = match &values[i] {
                    Some(x) => x.clone(),
                    None => String::new(),
                };
                out.push((k.clone(), v));
                assert(fields_view(out@) =~= fields_view(prev).push(
                    (k@, value_or_empty(opts_view(values@)[i as int])),
                ));
            },
            None => {},
        }
        i = i + 1;
    }
    out
}

/// The anti-forgery fields of a login page: every hidden input that has a
/// name, with its value (empty where it has none), and nothing else.
pub fn harvest_tokens(html: &str) -> (r: Vec<(String, String)>)
    ensures
        selector_ok(HIDDEN_INPUT@) ==> fields_view(r@) == hidden_fields(
            attr_values(html@, HIDDEN_INPUT@, "name"@),
            attr_values(html@, HIDDEN_INPUT@, "value"@),
            match_count(html@, HIDDEN_INPUT@) as int,
        ),
        !selector_ok(HIDDEN_INPUT@) ==> r@.len() == 0,
{
    let names = select_attr(html, HIDDEN_INPUT, "name");
    let values = select_attr(html, HIDDEN_INPUT, "value");
    match (names, values) {
        (Some(n), Some(v)) => collect_hidden_fields(&n, &v),
        _ => Vec::new(),
    }
}

/// The login submission: the credentials, then every harvested field put
/// in after them (a field of the same name replaces the earlier value).
pub open spec fn login_fields(uid: Seq<char>, pwd: Seq<char>, hidden: Seq<(Seq<char>, Seq<char>)>) -> Map<
    Seq<char>,
    Seq<char>,
> {
    with_fields(Map::empty().insert("username"@, uid).insert("password"@, pwd), hidden)
}

/// The form of the login submission, with one entry per field name.
pub fn login_form(uid: &str, pwd: &str, hidden: &Vec<(String, String)>) -> (r: Vec<(String, String)>)
    ensures
        keys_unique(fields_view(r@)),
        form_map(fields_view(r@)) == login_fields(uid@, pwd@, fields_view(hidden@)),
{
    let mut form: Vec<(String, String)> = Vec::new();
    assert(form_map(fields_view(form@)) =~= Map::empty());
    form_insert(&mut form, String::from_str("username"), String::from_str(uid));
    form_insert(&mut form, String::from_str("password"), String::from_str(pwd));
    let mut i: usize = 0;
    while i < hidden.len()
        invariant
            i <= hidden@.len(),
            keys_unique(fields_view(form@)),
            form_map(fields_view(form@)) == with_fields(
                Map::empty().insert("username"@, uid@).insert("password"@, pwd@),
                fields_view(hidden@).subrange(0, i as int),
            ),
        decreases hidden.len() - i,
    {
        let k = hidden[i].0.clone();
        let v = hidden[i].1.clone();
        form_insert(&mut form, k, v);
        let ghost fs = fields_view(hidden@).subrange(0, i + 1);
        assert(fs.drop_last() =~= fields_view(hidden@).subrange(0, i as int));
        i = i + 1;
    }
    assert(fields_view(hidden@).subrange(0, i as int) =~= fields_view(hidden@));
    form
}

/// Where a session stands.
#[derive(Clone, Copy, Debug, PartialEq, Eq, Structural)]
pub enum SessionState {
    Anonymous,
    Authenticating,
    Authenticated,
    Failed,
}

/// One identity's session with the portals: its credentials and where its
/// login stands. The cookie jar lives with the transport that carries it.
#[derive(Debug)]
pub struct Session {
    uid: Option<String>,
    pwd: Option<String>,
    state: SessionState,
}

pub struct SessionView {
    pub uid: Option<Seq<char>>,
    pub pwd: Option<Seq<char>>,
    pub state: SessionState,
}

impl View for Session {
    type V = SessionView;

    closed spec fn view(&self) -> SessionView {
        SessionView { uid: opt_view(self.uid), pwd: opt_view(self.pwd), state: self.state }
    }
}

/// The session after the login submission landed on `url`, where `landing`
/// is the portal's success page: only a session that is authenticating
/// moves, to `Authenticated` on exactly that page and to `Failed` anywhere
/// else; the credentials stay.
pub open spec fn login_step_at(s: SessionView, url: Seq<char>, landing: Seq<char>) -> SessionView {
    if s.state == SessionState::Authenticating {
        SessionView {
            state: if url == landing {
                SessionState::Authenticated
            } else {
                SessionState::Failed
            },
            ..s
        }
    } else {
        s
    }
}

/// The session after a sign-on portal login landed on `url`.
pub open spec fn login_step(s: SessionView, url: Seq<char>) -> SessionView {
    login_step_at(s, url, LOGIN_SUCCESS_URL@)
}

/// The session after the logout endpoint answered with `status`.
pub open spec fn logout_step(s: SessionView, status: u16) -> SessionView {
    if status == 200 {
        SessionView { state: SessionState::Anonymous, ..s }
    } else {
        s
    }
}

impl Session {
    /// A session with no identity yet.
    pub fn new() -> (r: Session)
        ensures
            r@.state == SessionState::Anonymous,
            r@.uid is None,
            r@.pwd is None,
    {
        Session { uid: None, pwd: None, state: SessionState::Anonymous }
    }

    pub fn state(&self) -> (r: SessionState)
        ensures
            r == self@.state,
    {
        self.state
    }

    pub fn uid(&self) -> (r: Option<&str>)
        ensures
            match r {
                Some(u) => self@.uid == Some(u@),
                None => self@.uid is None,
            },
    {
        match &self.uid {
            Some(u) => Some(u.as_str()),
            None => None,
        }
    }

    pub fn pwd(&self) -> (r: Option<&str>)
        ensures
            match r {
                Some(p) => self@.pwd == Some(p@),
                None => self@.pwd is None,
            },
    {
        match &self.pwd {
            Some(p) => Some(p.as_str()),
            None => None,
        }
    }

    /// Stores the identity to log in with.
    pub fn set_credentials(&mut self, uid: &str, pwd: &str)
        ensures
            final(self)@ == (SessionView { uid: Some(uid@), pwd: Some(pwd@), ..old(self)@ }),
    {
        self.uid = Some(String::from_str(uid));
        self.pwd = Some(String::from_str(pwd));
    }

    /// Starts a login: stores the identity; the session is authenticating.
    pub fn begin_login(&mut self, uid: &str, pwd: &str)
        ensures
            final(self)@ == (SessionView {
                uid: Some(uid@),
                pwd: Some(pwd@),
                state: SessionState::Authenticating,
            }),
    {
        self.set_credentials(uid, pwd);
        self.state = SessionState::Authenticating;
    }

    /// Ends a login whose submission finally landed on `final_url`, for a
    /// portal whose success page is `landing` (compared for equality).
    pub fn finish_login_at(&mut self, final_url: &str, landing: &str) -> (r: Result<(), SDKError>)
        ensures
            final(self)@ == login_step_at(old(self)@, final_url@, landing@),
            r is Ok <==> final(self)@.state == SessionState::Authenticated && old(self)@.state
                == SessionState::Authenticating,
            r matches Err(e) ==> e.kind == ErrorType::LoginError,
    {
        if self.state != SessionState::Authenticating {
            return Err(
                SDKError::with_type(ErrorType::LoginError, String::from_str("no login under way")),
            );
        }
        if same_text(final_url, landing) {
            self.state = SessionState::Authenticated;
            Ok(())
        } else {
            self.state = SessionState::Failed;
            Err(SDKError::with_type(ErrorType::LoginError, String::from_str("login error")))
        }
    }

    /// Ends a sign-on portal login whose submission finally landed on
    /// `final_url`.
    pub fn finish_login(&mut self, final_url: &str) -> (r: Result<(), SDKError>)
        ensures
            final(self)@ == login_step(old(self)@, final_url@),
            r is Ok <==> final(self)@.state == SessionState::Authenticated && old(self)@.state
                == SessionState::Authenticating,
            r matches Err(e) ==> e.kind == ErrorType::LoginError,
    {
        self.finish_login_at(final_url, LOGIN_SUCCESS_URL)
    }

    /// Ends a logout whose endpoint answered with `status`; on any status but
    /// 200 the session stays as it was.
    pub fn finish_logout(&mut self, status: u16) -> (r: Result<(), SDKError>)
        ensures
            final(self)@ == logout_step(old(self)@, status),
            r is Ok <==> status == 200,
            r matches Err(e) ==> e.kind == ErrorType::LogoutError,
    {
        if status == 200 {
            self.state = SessionState::Anonymous;
            Ok(())
        } else {
            Err(SDKError::with_type(ErrorType::LogoutError, String::from_str("logout error")))
        }
    }
}

/// A login moves an authenticating session to `Authenticated` exactly when
/// the submission lands on the portal's success page, and to `Failed`
/// otherwise; the credentials are kept either way, and a failed session
/// never becomes authenticated without a new login.
pub proof fn lemma_login_outcome(s: SessionView, url: Seq<char>, landing: Seq<char>)
    ensures
        s.state == SessionState::Authenticating ==> (login_step_at(s, url, landing).state
            == SessionState::Authenticated <==> url == landing),
        s.state == SessionState::Authenticating && url != landing ==> login_step_at(
            s,
            url,
            landing,
        ).state == SessionState::Failed,
        login_step_at(s, url, landing).uid == s.uid && login_step_at(s, url, landing).pwd == s.pwd,
        s.state == SessionState::Failed ==> login_step_at(s, url, landing).state
            == SessionState::Failed,
{
}

} // verus!
