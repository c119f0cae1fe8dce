//! The decisions of a PAM authentication: what the conversation answers, the
//! order of the PAM calls and when a transaction ends, the bookkeeping of a
//! PAM session, the table of transactions a login backend keeps, and the user
//! record lookup. The calls into libpam and libc are made by the program that
//! links this library; it hands each result back to the functions here.
use vstd::prelude::*;

use crate::auth::{
    PAM_CONV_ERR, PAM_PROMPT_ECHO_OFF, PAM_PROMPT_ECHO_ON, PAM_SUCCESS, PAM_USER_UNKNOWN,
};
use crate::error::{is_auth_error, LimesError, LimesResult};
use crate::events::{EventBus, EventSink};
use crate::proto::{
    opt_view, zeroize_string, AuthFailure, AuthSuccess, EventView, LimesEvent, PamMessageKind,
};
use crate::text::{chars_of, decimal, find_char, push_decimal, split_once, string_of_range, views};

verus! {

/// A message PAM hands the conversation: its style and its text (empty when
/// PAM gave none).
pub struct PamPrompt {
    pub style: i32,
    pub text: String,
}

/// A prompt taken by its view; `None` stands for a null message.
pub type PromptView = Option<(i32, Seq<char>)>;

/// The view of a message.
pub open spec fn prompt_view(p: Option<PamPrompt>) -> PromptView {
    match p {
        Some(m) => Some((m.style, m.text@)),
        None => None,
    }
}

/// The views of the messages of one conversation call.
pub open spec fn prompt_views(ps: Seq<Option<PamPrompt>>) -> Seq<PromptView> {
    ps.map_values(|p: Option<PamPrompt>| prompt_view(p))
}

/// The event a message is reported as, if any.
pub open spec fn prompt_event(style: i32, text: Seq<char>, username: Seq<char>) -> Seq<EventView> {
    match crate::auth::message_kind(style) {
        Some(kind) => seq![EventView::AuthPamMessage { username, kind, message: text }],
        None => seq![],
    }
}

/// The reply to a message: the username for a visible prompt, the password
/// for a hidden prompt, nothing for any other message. `None` when a hidden
/// prompt comes and no password is held.
pub open spec fn prompt_reply(
    style: i32,
    username: Seq<char>,
    password: Option<Seq<char>>,
) -> Option<Option<Seq<char>>> {
    if style == PAM_PROMPT_ECHO_ON {
        Some(Some(username))
    } else if style == PAM_PROMPT_ECHO_OFF {
        match password {
            Some(p) => Some(Some(p)),
            None => None,
        }
    } else {
        Some(None)
    }
}

/// The events a conversation over `msgs` reports and its outcome: the replies,
/// one per message, or a conversation error at the first null message or the
/// first hidden prompt that finds no password (that prompt is still reported);
/// no message after the error is looked at.
pub open spec fn converse(
    msgs: Seq<PromptView>,
    username: Seq<char>,
    password: Option<Seq<char>>,
) -> (Seq<EventView>, Result<Seq<Option<Seq<char>>>, i32>)
    decreases msgs.len(),
{
    if msgs.len() == 0 {
        (seq![], Ok(seq![]))
    } else {
        let prev = converse(msgs.drop_last(), username, password);
        match prev.1 {
            Err(_) => prev,
            Ok(replies) => match msgs.last() {
                None => (prev.0, Err(PAM_CONV_ERR)),
                Some((style, text)) => {
                    let events = prev.0 + prompt_event(style, text, username);
                    match prompt_reply(style, username, password) {
                        None => (events, Err(PAM_CONV_ERR)),
                        Some(reply) => (events, Ok(replies.push(reply))),
                    }
                },
            },
        }
    }
}

/// Once a conversation has failed, later messages change nothing.
proof fn lemma_converse_stays_failed(
    msgs: Seq<PromptView>,
    username: Seq<char>,
    password: Option<Seq<char>>,
    i: int,
)
    requires
        0 <= i <= msgs.len(),
        converse(msgs.take(i), username, password).1 is Err,
    ensures
        converse(msgs, username, password) == converse(msgs.take(i), username, password),
    decreases msgs.len() - i,
{
    if i < msgs.len() {
        assert(msgs.take(i + 1).drop_last() =~= msgs.take(i));
        lemma_converse_stays_failed(msgs, username, password, i + 1);
    } else {
        assert(msgs.take(i) =~= msgs);
    }
}

/// The replies, taken by their views.
pub open spec fn reply_views(rs: Seq<Option<String>>) -> Seq<Option<Seq<char>>> {
    rs.map_values(|r: Option<String>| opt_view(r))
}

/// The state of one PAM conversation: the user being authenticated, the
/// password while it is still needed, and where messages are reported.
pub struct PamConversation<S> {
    username: String,
    password: Option<String>,
    events: Option<EventBus<S>>,
}

impl<S: EventSink + Clone> PamConversation<S> {
    pub closed spec fn username_spec(&self) -> Seq<char> {
        self.username@
    }

    pub closed spec fn password_spec(&self) -> Option<Seq<char>> {
        opt_view(self.password)
    }

    pub closed spec fn events_spec(&self) -> Option<EventBus<S>> {
        self.events
    }

    /// A conversation answering for `username` with `password`.
    pub fn new(username: String, password: Option<String>, events: Option<EventBus<S>>) -> (c:
        Self)
        ensures
            c.username_spec() == username@,
            c.password_spec() == opt_view(password),
            c.events_spec() == events,
    {
        PamConversation { username, password, events }
    }

    /// The user being authenticated.
    pub fn username(&self) -> (u: &String)
        ensures
            u@ == self.username_spec(),
    {
        &self.username
    }

    /// Wipes and forgets the password; later hidden prompts find none.
    pub fn clear_password(&mut self)
        ensures
            final(self).password_spec() is None,
            final(self).username_spec() == old(self).username_spec(),
            final(self).events_spec() == old(self).events_spec(),
    {
        if let Some(mut p) = self.password.take() {
            zeroize_string(&mut p);
        }
    }

    /// Answers the messages of one PAM conversation call, reporting each
    /// message PAM defines to the events. An empty call is a conversation error.
    pub fn respond(&mut self, messages: &Vec<Option<PamPrompt>>) -> (r: Result<
        Vec<Option<String>>,
        i32,
    >)
        ensures
            final(self).username_spec() == old(self).username_spec(),
            final(self).password_spec() == old(self).password_spec(),
            messages@.len() == 0 ==> r == Err::<Vec<Option<String>>, i32>(PAM_CONV_ERR),
            messages@.len() == 0 ==> final(self).events_spec() == old(self).events_spec(),
            messages@.len() > 0 ==> {
                let c = converse(
                    prompt_views(messages@),
                    old(self).username_spec(),
                    old(self).password_spec(),
                );
                &&& match r {
                    Ok(replies) => c.1 == Ok::<Seq<Option<Seq<char>>>, i32>(reply_views(replies@)),
                    Err(e) => c.1 == Err::<Seq<Option<Seq<char>>>, i32>(e),
                }
                &&& match old(self).events_spec() {
                    Some(bus) => final(self).events_spec() matches Some(b) && b.history()
                        == bus.history() + c.0 && b.shared() == bus.shared(),
                    None => final(self).events_spec() is None,
                }
            },
    {
        if messages.len() == 0 {
            return Err(PAM_CONV_ERR);
        }
        let ghost msgs = prompt_views(messages@);
        let ghost user = self.username@;
        let ghost pw = opt_view(self.password);
        let ghost h0 = self.events;
        let mut replies: Vec<Option<String>> = Vec::new();
        let mut i: usize = 0;
        assert(msgs.take(0) =~= Seq::<PromptView>::empty());
        assert(reply_views(replies@) =~= Seq::<Option<Seq<char>>>::empty());
        proof {
            if h0 is Some {
                assert(h0->Some_0.history() + Seq::<EventView>::empty() =~= h0->Some_0.history());
            }
        }
        while i < messages.len()
            invariant
                msgs == prompt_views(messages@),
                user == self.username@,
                pw == opt_view(self.password),
                user == old(self).username@,
                pw == opt_view(old(self).password),
                h0 == old(self).events,
                i <= messages@.len(),
                converse(msgs.take(i as int), user, pw).1 == Ok::<Seq<Option<Seq<char>>>, i32>(
                    reply_views(replies@),
                ),
                h0 is Some ==> self.events is Some && self.events->Some_0.history()
                    == h0->Some_0.history() + converse(msgs.take(i as int), user, pw).0
                    && self.events->Some_0.shared() == h0->Some_0.shared(),
                h0 is None ==> self.events is None,
            decreases messages@.len() - i,
        {
            let ghost prev = converse(msgs.take(i as int), user, pw);
            let ghost old_replies = replies@;
            assert(msgs.take(i + 1).drop_last() =~= msgs.take(i as int));
            assert(msgs.take(i + 1).last() == msgs[i as int]);
            match &messages[i] {
                None => {
                    proof {
                        lemma_converse_stays_failed(msgs, user, pw, i + 1);
                    }
                    return Err(PAM_CONV_ERR);
                },
                Some(prompt) => {
                    assert(msgs[i as int] == Some((prompt.style, prompt.text@)));
                    if let Some(kind) = crate::auth::pam_message_kind(prompt.style) {
                        let ev = LimesEvent::AuthPamMessage {
                            username: self.username.clone(),
                            kind,
                            message: prompt.text.clone(),
                        };
                        if let Some(bus) = &mut self.events {
                            bus.emit(ev);
                        }
                    }
                    proof {
                        if h0 is Some {
                            assert(self.events->Some_0.history() =~= h0->Some_0.history() + (prev.0
                                + prompt_event(prompt.style, prompt.text@, user)));
                        }
                    }
                    if prompt.style == PAM_PROMPT_ECHO_ON {
                        replies.push(Some(self.username.clone()));
                    } else if prompt.style == PAM_PROMPT_ECHO_OFF {
                        match &self.password {
                            Some(p) => {
                                replies.push(Some(p.clone()));
                            },
                            None => {
                                proof {
                                    lemma_converse_stays_failed(msgs, user, pw, i + 1);
                                }
                                return Err(PAM_CONV_ERR);
                            },
                        }
                    } else {
                        replies.push(None);
                    }
                    assert(replies@.drop_last() =~= old_replies);
                    assert(reply_views(replies@) =~= reply_views(old_replies).push(
                        opt_view(replies@.last()),
                    ));
                    assert(opt_view(replies@.last()) == prompt_reply(prompt.style, user, pw)->Some_0);
                },
            }
            i = i + 1;
        }
        proof {
            assert(msgs.take(i as int) =~= msgs);
        }
        Ok(replies)
    }
}

/// The PAM calls of an authentication, in the order they are made.
#[derive(Debug, Clone, Copy, PartialEq, Eq, Structural)]
pub enum PamCall {
    Start,
    SetTty,
    Authenticate,
    AccountManagement,
}

/// What follows a PAM call.
#[derive(Debug, Clone, Copy, PartialEq, Eq, Structural)]
pub enum PamNext {
    /// Make this call next.
    Call(PamCall),
    /// Every call succeeded; look the user up.
    LookupUser,
    /// The call failed: the authentication fails with the status's failure,
    /// and the transaction is ended with that status when one was started.
    Fail { end_transaction: bool },
}

/// The step after `call` returned `status`: a failed call ends the flow, and a
/// transaction is ended only once `pam_start` has opened it; after a start the
/// tty is set when one is given, then the user is authenticated, then the
/// account is checked.
pub open spec fn next_step(call: PamCall, status: i32, has_tty: bool) -> PamNext {
    if status != PAM_SUCCESS {
        PamNext::Fail { end_transaction: call != PamCall::Start }
    } else {
        match call {
            PamCall::Start => if has_tty {
                PamNext::Call(PamCall::SetTty)
            } else {
                PamNext::Call(PamCall::Authenticate)
            },
            PamCall::SetTty => PamNext::Call(PamCall::Authenticate),
            PamCall::Authenticate => PamNext::Call(PamCall::AccountManagement),
            PamCall::AccountManagement => PamNext::LookupUser,
        }
    }
}

/// The step of the authentication flow after `call` returned `status`.
pub fn pam_next(call: PamCall, status: i32, has_tty: bool) -> (n: PamNext)
    ensures
        n == next_step(call, status, has_tty),
{
    if status != PAM_SUCCESS {
        PamNext::Fail { end_transaction: call != PamCall::Start }
    } else {
        match call {
            PamCall::Start => if has_tty {
                PamNext::Call(PamCall::SetTty)
            } else {
                PamNext::Call(PamCall::Authenticate)
            },
            PamCall::SetTty => PamNext::Call(PamCall::Authenticate),
            PamCall::Authenticate => PamNext::Call(PamCall::AccountManagement),
            PamCall::AccountManagement => PamNext::LookupUser,
        }
    }
}

/// Whether `tty` holds anything but whitespace.
pub open spec fn tty_given(tty: Option<Seq<char>>) -> bool {
    tty matches Some(t) && crate::text::trim(t).len() > 0
}

/// The tty handed to PAM: the request's tty unless it is blank.
pub fn effective_tty(tty: &Option<String>) -> (r: Option<String>)
    ensures
        r matches Some(t) ==> tty_given(opt_view(*tty)) && t@ == tty->Some_0@,
        r is None ==> !tty_given(opt_view(*tty)),
{
    match tty {
        Some(t) => {
            let trimmed = crate::text::trim_string(t.as_str());
            if trimmed.as_str().is_empty() {
                None
            } else {
                assert(trimmed@.len() > 0);
                Some(t.clone())
            }
        },
        None => None,
    }
}

/// The bookkeeping of one authenticated PAM transaction: whether its login
/// session is open, whether credentials were established, and the status the
/// transaction ends with.
#[derive(Debug, Clone, Copy, PartialEq, Eq, Structural)]
pub struct PamSessionState {
    pub opened: bool,
    pub credentials_established: bool,
    pub last_status: i32,
}

/// The PAM calls that tear a transaction down.
#[derive(Debug, Clone, Copy, PartialEq, Eq, Structural)]
pub struct PamTeardown {
    /// Close the login session first.
    pub close_session: bool,
    /// Then delete the credentials.
    pub delete_credentials: bool,
}

impl PamSessionState {
    /// A transaction just authenticated: no session, no credentials.
    pub fn new() -> (s: Self)
        ensures
            !s.opened,
            !s.credentials_established,
            s.last_status == PAM_SUCCESS,
    {
        PamSessionState { opened: false, credentials_established: false, last_status: PAM_SUCCESS }
    }

    /// Records the status of establishing credentials; whether they were.
    pub fn record_credentials(&mut self, status: i32) -> (ok: bool)
        ensures
            ok == (status == PAM_SUCCESS),
            final(self).last_status == status,
            final(self).credentials_established == (old(self).credentials_established || ok),
            final(self).opened == old(self).opened,
    {
        self.last_status = status;
        if status == PAM_SUCCESS {
            self.credentials_established = true;
            true
        } else {
            false
        }
    }

    /// Whether opening the login session still needs the PAM call; an open
    /// session is not opened twice.
    pub fn needs_open(&self) -> (b: bool)
        ensures
            b == !self.opened,
    {
        !self.opened
    }

    /// Records the status of opening the login session; whether it opened.
    pub fn record_open(&mut self, status: i32) -> (ok: bool)
        ensures
            ok == (status == PAM_SUCCESS),
            final(self).last_status == status,
            final(self).opened == (old(self).opened || ok),
            final(self).credentials_established == old(self).credentials_established,
    {
        self.last_status = status;
        if status == PAM_SUCCESS {
            self.opened = true;
            true
        } else {
            false
        }
    }

    /// The calls that end the transaction: an open session is closed, and
    /// established credentials are deleted.
    pub fn teardown(&self) -> (t: PamTeardown)
        ensures
            t.close_session == self.opened,
            t.delete_credentials == self.credentials_established,
    {
        PamTeardown {
            close_session: self.opened,
            delete_credentials: self.credentials_established,
        }
    }

    /// The status the transaction is ended with: that of closing the session
    /// when one was closed, else the last recorded one.
    pub fn end_status(&self, close_status: i32) -> (s: i32)
        ensures
            s == (if self.opened {
                close_status
            } else {
                self.last_status
            }),
    {
        if self.opened {
            close_status
        } else {
            self.last_status
        }
    }
}

/// The `KEY=VALUE` entries of a PAM environment list split at their first
/// `=`; entries without one are left out.
pub open spec fn env_entries(items: Seq<Seq<char>>) -> Seq<(Seq<char>, Seq<char>)>
    decreases items.len(),
{
    if items.len() == 0 {
        seq![]
    } else {
        let prev = env_entries(items.drop_last());
        match split_once(items.last(), '=') {
            Some(kv) => prev.push(kv),
            None => prev,
        }
    }
}

/// Splits each `KEY=VALUE` entry of PAM's environment list.
pub fn parse_env_entries(items: &Vec<String>) -> (out: Vec<(String, String)>)
    ensures
        crate::proto::env_view(out@) == env_entries(views(items@)),
{
    let mut out: Vec<(String, String)> = Vec::new();
    let mut i: usize = 0;
    assert(views(items@).take(0) =~= Seq::<Seq<char>>::empty());
    assert(crate::proto::env_view(out@) =~= Seq::<(Seq<char>, Seq<char>)>::empty());
    while i < items.len()
        invariant
            i <= items@.len(),
            crate::proto::env_view(out@) == env_entries(views(items@).take(i as int)),
        decreases items@.len() - i,
    {
        let ghost prev = out@;
        let v = chars_of(items[i].as_str());
        assert(views(items@).take(i + 1).drop_last() =~= views(items@).take(i as int));
        assert(views(items@).take(i + 1).last() == items@[i as int]@);
        assert(v@.subrange(0, v@.len() as int) =~= v@);
        match find_char(&v, 0, v.len(), '=') {
            Some(k) => {
                let key = string_of_range(&v, 0, k);
                let value = string_of_range(&v, k + 1, v.len());
                assert(key@ =~= v@.take(k as int));
                assert(value@ =~= v@.skip(k + 1));
                out.push((key, value));
                assert(out@.drop_last() =~= prev);
                assert(crate::proto::env_view(out@) =~= crate::proto::env_view(prev).push(
                    (key@, value@),
                ));
            },
            None => {},
        }
        i = i + 1;
    }
    assert(views(items@).take(i as int) =~= views(items@));
    out
}

/// A user account as the password database describes it.
#[derive(Debug, Clone, PartialEq, Eq)]
pub struct UserRecord {
    pub username: String,
    pub uid: u32,
    pub gid: u32,
    pub home: Option<String>,
    pub shell: Option<String>,
}

/// The record for an account entry; an entry without a name, or with an
/// empty one, gives none.
pub fn user_record(
    name: Option<String>,
    uid: u32,
    gid: u32,
    home: Option<String>,
    shell: Option<String>,
) -> (r: Option<UserRecord>)
    ensures
        match name {
            Some(n) if n@.len() > 0 => r matches Some(u) && u.username == n && u.uid == uid && u.gid
                == gid && u.home == home && u.shell == shell,
            _ => r is None,
        },
{
    match name {
        Some(n) => {
            if n.as_str().is_empty() {
                None
            } else {
                Some(UserRecord { username: n, uid, gid, home, shell })
            }
        },
        None => None,
    }
}

/// The size of the first buffer for a password-database lookup: the system's
/// suggestion when it gives a positive one, else 16 KiB.
pub fn initial_lookup_buffer(suggested: i64) -> (n: usize)
    ensures
        suggested > 0 ==> n == suggested as usize,
        suggested <= 0 ==> n == 16 * 1024,
{
    if suggested > 0 {
        suggested as usize
    } else {
        16 * 1024
    }
}

/// The size of the next buffer after a lookup found `len` bytes too small:
/// twice as large (saturating), or `None` once that passes 1 MiB.
pub fn next_lookup_buffer(len: usize) -> (n: Option<usize>)
    ensures
        ({
            let doubled = if 2 * len > usize::MAX {
                usize::MAX as int
            } else {
                2 * len
            };
            if doubled > 1024 * 1024 {
                n is None
            } else {
                n == Some(doubled as usize)
            }
        }),
{
    let doubled = if len > usize::MAX / 2 {
        usize::MAX
    } else {
        len * 2
    };
    if doubled > 1024 * 1024 {
        None
    } else {
        Some(doubled)
    }
}

/// The success reported for `user`, carrying the backend's transaction id.
pub fn success_for(user: UserRecord, auth_session_id: Option<String>) -> (s: AuthSuccess)
    ensures
        s.username == user.username,
        s.uid == user.uid,
        s.gid == user.gid,
        s.home == user.home,
        s.shell == user.shell,
        s.auth_session_id == auth_session_id,
{
    AuthSuccess {
        username: user.username,
        uid: user.uid,
        gid: user.gid,
        home: user.home,
        shell: user.shell,
        auth_session_id,
    }
}

/// The failure when the authenticated user has no account entry, and the
/// status its transaction is ended with.
pub fn unknown_user_failure() -> (r: (i32, AuthFailure))
    ensures
        r.0 == PAM_USER_UNKNOWN,
        r.1 == AuthFailure::InvalidCredentials,
{
    (PAM_USER_UNKNOWN, AuthFailure::InvalidCredentials)
}

/// One transaction a login backend keeps between authentication and the end
/// of the login session.
pub struct AuthTransaction<T> {
    pub id: String,
    pub opened: bool,
    pub session: T,
}

/// `entries` without those whose id is `id`.
pub open spec fn without_id<T>(entries: Seq<AuthTransaction<T>>, id: Seq<char>) -> Seq<
    AuthTransaction<T>,
>
    decreases entries.len(),
{
    if entries.len() == 0 {
        seq![]
    } else {
        (if entries[0].id@ == id {
            seq![]
        } else {
            seq![entries[0]]
        }) + without_id(entries.drop_first(), id)
    }
}

/// The first entry whose id is `id`.
pub open spec fn find_id<T>(entries: Seq<AuthTransaction<T>>, id: Seq<char>) -> Option<
    AuthTransaction<T>,
>
    decreases entries.len(),
{
    if entries.len() == 0 {
        None
    } else if entries[0].id@ == id {
        Some(entries[0])
    } else {
        find_id(entries.drop_first(), id)
    }
}

/// The entries whose login session is open, in order.
pub open spec fn opened_entries<T>(entries: Seq<AuthTransaction<T>>) -> Seq<AuthTransaction<T>>
    decreases entries.len(),
{
    if entries.len() == 0 {
        seq![]
    } else {
        (if entries[0].opened {
            seq![entries[0]]
        } else {
            seq![]
        }) + opened_entries(entries.drop_first())
    }
}

/// The sessions of the entries still pending (authenticated, not opened), in
/// order.
pub open spec fn pending_sessions<T>(entries: Seq<AuthTransaction<T>>) -> Seq<T>
    decreases entries.len(),
{
    if entries.len() == 0 {
        seq![]
    } else {
        (if entries[0].opened {
            seq![]
        } else {
            seq![entries[0].session]
        }) + pending_sessions(entries.drop_first())
    }
}

/// The id given to the transaction numbered `n`.
pub open spec fn transaction_id(n: u64) -> Seq<char> {
    "pam-"@ + decimal(n as nat)
}

/// The transactions of a login backend, by id. Ids are `pam-<n>` with `n`
/// counting up from 1; an entry given an id already present replaces the
/// entry that had it.
pub struct AuthTransactions<T> {
    entries: Vec<AuthTransaction<T>>,
    next_id: u64,
}

impl<T> AuthTransactions<T> {
    pub closed spec fn entries_spec(&self) -> Seq<AuthTransaction<T>> {
        self.entries@
    }

    pub closed spec fn next_id_spec(&self) -> u64 {
        self.next_id
    }

    /// No transactions; the first id is `pam-1`.
    pub fn new() -> (t: Self)
        ensures
            t.entries_spec().len() == 0,
            t.next_id_spec() == 1,
    {
        AuthTransactions { entries: Vec::new(), next_id: 1 }
    }

    fn drop_id(&mut self, id: &String)
        ensures
            final(self).entries_spec() == without_id(old(self).entries_spec(), id@),
            final(self).next_id_spec() == old(self).next_id_spec(),
    {
        let mut old_entries: Vec<AuthTransaction<T>> = Vec::new();
        std::mem::swap(&mut old_entries, &mut self.entries);
        let ghost orig = old_entries@;
        assert(self.entries@ + without_id(old_entries@, id@) =~= without_id(orig, id@));
        while old_entries.len() > 0
            invariant
                without_id(orig, id@) == self.entries@ + without_id(old_entries@, id@),
                self.next_id == old(self).next_id,
            decreases old_entries@.len(),
        {
            let ghost before = old_entries@;
            let ghost kept = self.entries@;
            let e = old_entries.remove(0);
            assert(before.drop_first() =~= old_entries@);
            if e.id == *id {
                assert(kept + without_id(old_entries@, id@) =~= kept + without_id(before, id@));
            } else {
                self.entries.push(e);
                assert(self.entries@ + without_id(old_entries@, id@) =~= kept + without_id(
                    before,
                    id@,
                ));
            }
        }
        assert(self.entries@ =~= without_id(orig, id@));
    }

    /// Drops the transactions whose login session was never opened and hands
    /// them back, in order; opened ones stay.
    pub fn remove_pending(&mut self) -> (pending: Vec<T>)
        ensures
            final(self).entries_spec() == opened_entries(old(self).entries_spec()),
            pending@ == pending_sessions(old(self).entries_spec()),
            final(self).next_id_spec() == old(self).next_id_spec(),
    {
        let mut old_entries: Vec<AuthTransaction<T>> = Vec::new();
        std::mem::swap(&mut old_entries, &mut self.entries);
        let ghost orig = old_entries@;
        let mut pending: Vec<T> = Vec::new();
        assert(self.entries@ + opened_entries(old_entries@) =~= opened_entries(orig));
        assert(pending@ + pending_sessions(old_entries@) =~= pending_sessions(orig));
        while old_entries.len() > 0
            invariant
                opened_entries(orig) == self.entries@ + opened_entries(old_entries@),
                pending_sessions(orig) == pending@ + pending_sessions(old_entries@),
                self.next_id == old(self).next_id,
            decreases old_entries@.len(),
        {
            let ghost before = old_entries@;
            let ghost kept = self.entries@;
            let ghost dropped = pending@;
            let e = old_entries.remove(0);
            assert(before.drop_first() =~= old_entries@);
            if e.opened {
                self.entries.push(e);
                assert(self.entries@ + opened_entries(old_entries@) =~= kept + opened_entries(
                    before,
                ));
                assert(pending@ + pending_sessions(old_entries@) =~= dropped + pending_sessions(
                    before,
                ));
            } else {
                pending.push(e.session);
                assert(self.entries@ + opened_entries(old_entries@) =~= kept + opened_entries(
                    before,
                ));
                assert(pending@ + pending_sessions(old_entries@) =~= dropped + pending_sessions(
                    before,
                ));
            }
        }
        assert(self.entries@ =~= opened_entries(orig));
        assert(pending@ =~= pending_sessions(orig));
        pending
    }

    /// Records a newly authenticated transaction, not yet opened, under the
    /// next id, and returns that id.
    pub fn insert(&mut self, session: T) -> (id: String)
        ensures
            id@ == transaction_id(old(self).next_id_spec()),
            final(self).next_id_spec() == (if old(self).next_id_spec() == u64::MAX {
                0
            } else {
                old(self).next_id_spec() + 1
            }),
            final(self).entries_spec() == without_id(old(self).entries_spec(), id@).push(
                AuthTransaction { id, opened: false, session },
            ),
    {
        let mut id = "pam-".to_owned();
        push_decimal(&mut id, self.next_id);
        assert(id@ =~= transaction_id(self.next_id));
        self.next_id = self.next_id.wrapping_add(1);
        self.drop_id(&id);
        self.entries.push(AuthTransaction { id: id.clone(), opened: false, session });
        id
    }

    /// Puts a transaction back under `id`, replacing any entry with that id.
    pub fn restore(&mut self, id: String, opened: bool, session: T)
        ensures
            final(self).next_id_spec() == old(self).next_id_spec(),
            final(self).entries_spec() == without_id(old(self).entries_spec(), id@).push(
                AuthTransaction { id, opened, session },
            ),
    {
        self.drop_id(&id);
        self.entries.push(AuthTransaction { id, opened, session });
    }

    /// Takes the transaction with `id` out, if there is one.
    pub fn take(&mut self, id: &str) -> (r: Option<(bool, T)>)
        ensures
            final(self).next_id_spec() == old(self).next_id_spec(),
            match find_id(old(self).entries_spec(), id@) {
                Some(e) => r == Some((e.opened, e.session)) && final(self).entries_spec()
                    == without_id(old(self).entries_spec(), id@),
                None => r is None && final(self).entries_spec() == old(self).entries_spec(),
            },
    {
        let mut old_entries: Vec<AuthTransaction<T>> = Vec::new();
        std::mem::swap(&mut old_entries, &mut self.entries);
        let ghost orig = old_entries@;
        let key = id.to_owned();
        let mut found: Option<(bool, T)> = None;
        assert(self.entries@ + without_id(old_entries@, id@) =~= without_id(orig, id@));
        assert(self.entries@ + old_entries@ =~= orig);
        while old_entries.len() > 0
            invariant
                without_id(orig, id@) == self.entries@ + without_id(old_entries@, id@),
                key@ == id@,
                found is None ==> find_id(orig, id@) == find_id(old_entries@, id@),
                found is None ==> self.entries@ + old_entries@ == orig,
                found matches Some(f) ==> find_id(orig, id@) matches Some(e) && f == (
                    e.opened,
                    e.session,
                ),
                self.next_id == old(self).next_id,
            decreases old_entries@.len(),
        {
            let ghost before = old_entries@;
            let ghost kept = self.entries@;
            let e = old_entries.remove(0);
            assert(before.drop_first() =~= old_entries@);
            if e.id == key {
                assert(kept + without_id(old_entries@, id@) =~= kept + without_id(before, id@));
                if found.is_none() {
                    found = Some((e.opened, e.session));
                }
            } else {
                self.entries.push(e);
                assert(self.entries@ + without_id(old_entries@, id@) =~= kept + without_id(
                    before,
                    id@,
                ));
                assert(self.entries@ + old_entries@ =~= kept + before);
            }
        }
        if found.is_none() {
            assert(self.entries@ =~= orig);
        }
        assert(self.entries@ =~= without_id(orig, id@));
        found
    }

    /// Removes the transaction with `id` and hands back its session, if any.
    pub fn remove(&mut self, id: &str) -> (r: Option<T>)
        ensures
            final(self).next_id_spec() == old(self).next_id_spec(),
            match find_id(old(self).entries_spec(), id@) {
                Some(e) => r == Some(e.session) && final(self).entries_spec() == without_id(
                    old(self).entries_spec(),
                    id@,
                ),
                None => r is None && final(self).entries_spec() == old(self).entries_spec(),
            },
    {
        match self.take(id) {
            Some((_, session)) => Some(session),
            None => None,
        }
    }

    /// Takes out the transaction of `user` to open its login session: an
    /// authentication without a transaction id, or whose transaction is
    /// gone, is an authentication error naming the user.
    pub fn take_for_open(&mut self, user: &AuthSuccess) -> (r: LimesResult<(bool, T)>)
        ensures
            final(self).next_id_spec() == old(self).next_id_spec(),
            match user.auth_session_id {
                None => (r matches Err(e) && is_auth_error(
                    e,
                    "no PAM session id is available for "@ + user.username@,
                )) && final(self).entries_spec() == old(self).entries_spec(),
                Some(id) => match find_id(old(self).entries_spec(), id@) {
                    Some(e) => r == Ok::<(bool, T), LimesError>((e.opened, e.session))
                        && final(self).entries_spec() == without_id(old(self).entries_spec(), id@),
                    None => (r matches Err(e) && is_auth_error(
                        e,
                        "no authenticated PAM transaction is available for "@ + user.username@,
                    )) && final(self).entries_spec() == old(self).entries_spec(),
                },
            },
    {
        match &user.auth_session_id {
            None => {
                let mut m = "no PAM session id is available for ".to_owned();
                m.append(user.username.as_str());
                Err(LimesError::Auth(m))
            },
            Some(id) => match self.take(id.as_str()) {
                Some(found) => Ok(found),
                None => {
                    let mut m = "no authenticated PAM transaction is available for ".to_owned();
                    m.append(user.username.as_str());
                    Err(LimesError::Auth(m))
                },
            },
        }
    }

    /// Ends the transaction a finished login session used, if it has one;
    /// its session is handed back to be torn down.
    pub fn close(&mut self, auth_session_id: Option<&str>) -> (r: Option<T>)
        ensures
            final(self).next_id_spec() == old(self).next_id_spec(),
            match auth_session_id {
                None => r is None && final(self).entries_spec() == old(self).entries_spec(),
                Some(id) => match find_id(old(self).entries_spec(), id@) {
                    Some(e) => r == Some(e.session) && final(self).entries_spec() == without_id(
                        old(self).entries_spec(),
                        id@,
                    ),
                    None => r is None && final(self).entries_spec() == old(self).entries_spec(),
                },
            },
    {
        match auth_session_id {
            None => None,
            Some(id) => self.remove(id),
        }
    }
}

} // verus!
