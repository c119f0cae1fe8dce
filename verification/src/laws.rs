//! Properties that hold across the library's operations, stated over the
//! same spec functions the operations' contracts use.
use vstd::prelude::*;

use crate::auth::{message_kind, PAM_ERROR_MSG, PAM_PROMPT_ECHO_OFF, PAM_PROMPT_ECHO_ON, PAM_SUCCESS, PAM_TEXT_INFO};
use crate::catalog::{
    add_entries, clean_word, clean_words, desktop_command, desktop_session, lists_name, no_fields,
    scan_content, scan_line, session_entry, ChoiceView, DesktopFieldsView,
};
use crate::cli::login_args_effect;
use crate::config::FrontendView;
use crate::cli::chomp;
use crate::dirs::{add_dir, add_session_dirs, session_dirs};
use crate::config::{max_attempts_choice, session_command_for};
use crate::lock::{lock_events, unlock_failure_events, unlock_success_events};
use crate::pam::{
    converse, find_id, next_step, opened_entries, pending_sessions, prompt_reply, transaction_id,
    without_id,
    AuthTransaction, PamCall, PamNext,
    PromptView,
};
use crate::error::{error_text, LimesResult};
use crate::lock::{unlock_answered, DisplayBackend, DisplayRequest, LockAuthBackend};
use crate::proto::{
    auth_request_debug, opt_view, AuthFailure, AuthOutcome, AuthRequest, AuthSuccess, EventView,
    LockState, PamMessageKind,
};
use crate::text::{
    decimal, digit_char, flush, index_of, is_space, trim, trim_end, trim_start, words, words_from,
};

verus! {

/// The last state a lock request reports is the state it leaves: `Locked`
/// when the display locked, `Unlocked` when it did not.
pub proof fn law_lock_reports_final_state(locked: bool)
    ensures
        lock_events(locked).last() == state_event(
            if locked {
                LockState::Locked
            } else {
                LockState::Unlocked
            },
        ),
        lock_events(locked)[0] == state_event(LockState::Locking),
{
}

/// The event that reports a switch to `state`.
pub open spec fn state_event(state: LockState) -> EventView {
    EventView::LockStateChanged { state }
}

/// An unlock request reports, in order, the switch to `Unlocking`, the
/// start of the authentication by the requesting user, its outcome, and the
/// state it leaves; a refused request always leaves the screen `Locked`.
pub proof fn law_unlock_reports_in_order(
    username: Seq<char>,
    user: Seq<char>,
    uid: u32,
    end: LockState,
    failure: AuthFailure,
)
    ensures
        unlock_success_events(username, user, uid, end).len() == 4,
        unlock_success_events(username, user, uid, end)[0] == state_event(LockState::Unlocking),
        unlock_success_events(username, user, uid, end)[1] == (EventView::AuthStarted { username }),
        unlock_success_events(username, user, uid, end)[3] == state_event(end),
        unlock_failure_events(username, failure).len() == 4,
        unlock_failure_events(username, failure)[0] == state_event(LockState::Unlocking),
        unlock_failure_events(username, failure)[1] == (EventView::AuthStarted { username }),
        unlock_failure_events(username, failure)[3] == state_event(LockState::Locked),
{
}

/// Every configuration allows at least one authentication attempt.
pub proof fn law_max_attempts_at_least_one(value: Option<Seq<char>>)
    ensures
        max_attempts_choice(value) >= 1,
{
}

/// Whether `w` is a non-empty word with no whitespace in it.
pub open spec fn is_word(w: Seq<char>) -> bool {
    w.len() > 0 && forall|j: int| 0 <= j < w.len() ==> !is_space(#[trigger] w[j])
}

/// Every word that whitespace splitting yields is non-empty and holds no
/// whitespace.
pub proof fn law_words_are_nonblank(s: Seq<char>)
    ensures
        forall|i: int| 0 <= i < words(s).len() ==> is_word(#[trigger] words(s)[i]),
{
    lemma_words_from_nonblank(s, seq![]);
}

proof fn lemma_words_from_nonblank(s: Seq<char>, cur: Seq<char>)
    requires
        forall|j: int| 0 <= j < cur.len() ==> !is_space(#[trigger] cur[j]),
    ensures
        forall|i: int| 0 <= i < words_from(s, cur).len() ==> is_word(#[trigger] words_from(s, cur)[i]),
    decreases s.len(),
{
    if s.len() == 0 {
        if cur.len() > 0 {
            assert(words_from(s, cur) == seq![cur]);
            assert(is_word(cur));
        } else {
            assert(words_from(s, cur).len() == 0);
        }
    } else if is_space(s[0]) {
        lemma_words_from_nonblank(s.drop_first(), seq![]);
        let f = flush(cur);
        let rest = words_from(s.drop_first(), seq![]);
        assert(words_from(s, cur) == f + rest);
        assert forall|i: int| 0 <= i < (f + rest).len() implies is_word(#[trigger] (f + rest)[i]) by {
            if i < f.len() {
                assert((f + rest)[i] == cur);
            } else {
                assert((f + rest)[i] == rest[i - f.len()]);
            }
        }
    } else {
        let next = cur.push(s[0]);
        assert forall|j: int| 0 <= j < next.len() implies !is_space(#[trigger] next[j]) by {
            if j < cur.len() {
                assert(next[j] == cur[j]);
            }
        }
        lemma_words_from_nonblank(s.drop_first(), next);
        assert(words_from(s, cur) == words_from(s.drop_first(), next));
    }
}

/// A session entry that describes a choice has a non-empty trimmed name and
/// a command of at least one word, none of them blank.
pub proof fn law_session_entry_well_formed(value: Seq<char>)
    ensures
        session_entry(value) matches Some((name, command)) ==> {
            &&& name.len() > 0
            &&& trim(name) == name
            &&& command.len() > 0
            &&& forall|i: int| 0 <= i < command.len() ==> is_word(#[trigger] command[i])
        },
{
    let v = trim(value);
    if v.len() > 0 {
        match crate::text::split_once(v, '=') {
            Some((n, c)) => {
                law_words_are_nonblank(c);
                law_trim_idempotent(n);
            },
            None => {},
        }
    }
}

/// Trimming twice trims no more than trimming once.
pub proof fn law_trim_idempotent(s: Seq<char>)
    ensures
        trim(trim(s)) == trim(s),
{
    let t = crate::text::trim_start(s);
    lemma_trim_start_no_leading(s);
    lemma_trim_end_keeps_start(t);
    lemma_trim_end_no_trailing(t);
    let u = crate::text::trim_end(t);
    lemma_trim_start_fixed(u);
    lemma_trim_end_fixed(u);
}

proof fn lemma_trim_start_no_leading(s: Seq<char>)
    ensures
        crate::text::trim_start(s).len() > 0 ==> !is_space(crate::text::trim_start(s)[0]),
    decreases s.len(),
{
    if s.len() > 0 && is_space(s[0]) {
        lemma_trim_start_no_leading(s.drop_first());
    }
}

proof fn lemma_trim_end_no_trailing(s: Seq<char>)
    ensures
        crate::text::trim_end(s).len() > 0 ==> !is_space(crate::text::trim_end(s).last()),
    decreases s.len(),
{
    if s.len() > 0 && is_space(s.last()) {
        lemma_trim_end_no_trailing(s.drop_last());
    }
}

proof fn lemma_trim_end_keeps_start(s: Seq<char>)
    requires
        s.len() > 0 ==> !is_space(s[0]),
    ensures
        crate::text::trim_end(s).len() > 0 ==> !is_space(crate::text::trim_end(s)[0]),
        crate::text::trim_end(s).len() == 0 ==> s.len() == 0,
    decreases s.len(),
{
    if s.len() > 1 && is_space(s.last()) {
        assert(s.drop_last()[0] == s[0]);
        lemma_trim_end_keeps_start(s.drop_last());
        let t = crate::text::trim_end(s.drop_last());
        if t.len() > 0 {
            assert(t[0] == crate::text::trim_end(s)[0]);
        }
    }
}

proof fn lemma_trim_start_fixed(s: Seq<char>)
    requires
        s.len() > 0 ==> !is_space(s[0]),
    ensures
        crate::text::trim_start(s) == s,
{
}

proof fn lemma_trim_end_fixed(s: Seq<char>)
    requires
        s.len() > 0 ==> !is_space(s.last()),
        s.len() > 0 ==> !is_space(s[0]),
    ensures
        crate::text::trim_end(crate::text::trim_start(s)) == s,
{
    lemma_trim_start_fixed(s);
}

/// The command a desktop `Exec` value runs has at least one word, and no
/// word of it is empty.
pub proof fn law_desktop_command_clean(line: Seq<char>)
    ensures
        desktop_command(line) matches Some(c) ==> {
            &&& c.len() > 0
            &&& forall|i: int| 0 <= i < c.len() ==> (#[trigger] c[i]).len() > 0
        },
{
    lemma_clean_words(crate::catalog::desktop_words(line));
}

proof fn lemma_clean_words(ws: Seq<Seq<char>>)
    ensures
        forall|i: int| 0 <= i < clean_words(ws).len() ==> (#[trigger] clean_words(ws)[i]).len() > 0,
    decreases ws.len(),
{
    if ws.len() > 0 {
        lemma_clean_words(ws.drop_first());
        let head = match clean_word(ws[0]) {
            Some(c) => seq![c],
            None => Seq::<Seq<char>>::empty(),
        };
        let rest = clean_words(ws.drop_first());
        assert forall|i: int| 0 <= i < (head + rest).len() implies (#[trigger] (head
            + rest)[i]).len() > 0 by {
            if i < head.len() {
                assert((head + rest)[i] == head[i]);
            } else {
                assert((head + rest)[i] == rest[i - head.len()]);
            }
        }
    }
}

/// What the PAM calls of an authentication lead to when they return
/// `statuses` in turn, starting from `pam_start`: the last call made and what
/// follows it.
pub open spec fn flow_from(call: PamCall, statuses: Seq<i32>, has_tty: bool) -> PamNext
    decreases statuses.len(),
{
    if statuses.len() == 0 {
        PamNext::Call(call)
    } else {
        match next_step(call, statuses[0], has_tty) {
            PamNext::Call(c) => flow_from(c, statuses.drop_first(), has_tty),
            other => other,
        }
    }
}

/// How many PAM calls an authentication makes before the user lookup.
pub open spec fn flow_len(has_tty: bool) -> int {
    if has_tty {
        4
    } else {
        3
    }
}

/// The PAM call made at position `p` of an authentication.
pub open spec fn flow_call(p: int, has_tty: bool) -> PamCall {
    if p == 0 {
        PamCall::Start
    } else if has_tty && p == 1 {
        PamCall::SetTty
    } else if p == flow_len(has_tty) - 2 {
        PamCall::Authenticate
    } else {
        PamCall::AccountManagement
    }
}

/// Whether the calls at positions `lo` up to `hi` all returned success.
pub open spec fn calls_succeed(statuses: Seq<i32>, lo: int, hi: int) -> bool {
    statuses.len() >= hi && forall|i: int| lo <= i < hi ==> statuses[i] == PAM_SUCCESS
}

/// The user is looked up exactly when every PAM call succeeded: the start,
/// the tty (when one is given), the authentication and the account check,
/// in that order. The first failed call ends the flow, ending the
/// transaction unless the start itself failed.
pub proof fn law_pam_flow(statuses: Seq<i32>, has_tty: bool)
    ensures
        calls_succeed(statuses, 0, flow_len(has_tty)) ==> flow_from(
            PamCall::Start,
            statuses,
            has_tty,
        ) == PamNext::LookupUser,
        forall|k: int|
            0 <= k < flow_len(has_tty) && k < statuses.len() && statuses[k] != PAM_SUCCESS
                && #[trigger] calls_succeed(statuses, 0, k) ==> flow_from(
                PamCall::Start,
                statuses,
                has_tty,
            ) == (PamNext::Fail { end_transaction: k > 0 }),
{
    lemma_flow_from_position(statuses, has_tty, 0);
    assert(statuses.skip(0) =~= statuses);
}

proof fn lemma_flow_from_position(statuses: Seq<i32>, has_tty: bool, p: int)
    requires
        0 <= p < flow_len(has_tty),
    ensures
        calls_succeed(statuses, p, flow_len(has_tty)) ==> flow_from(
            flow_call(p, has_tty),
            statuses.skip(p),
            has_tty,
        ) == PamNext::LookupUser,
        forall|k: int|
            p <= k < flow_len(has_tty) && k < statuses.len() && statuses[k] != PAM_SUCCESS
                && #[trigger] calls_succeed(statuses, p, k) ==> flow_from(
                flow_call(p, has_tty),
                statuses.skip(p),
                has_tty,
            ) == (PamNext::Fail { end_transaction: k > 0 }),
    decreases flow_len(has_tty) - p,
{
    if statuses.len() > p {
        let rest = statuses.skip(p);
        assert(rest[0] == statuses[p]);
        if p + 1 < flow_len(has_tty) {
            lemma_flow_from_position(statuses, has_tty, p + 1);
            assert(rest.drop_first() =~= statuses.skip(p + 1));
            assert forall|k: int|
                p <= k < flow_len(has_tty) && k < statuses.len() && statuses[k] != PAM_SUCCESS
                    && #[trigger] calls_succeed(statuses, p, k) implies flow_from(
                flow_call(p, has_tty),
                statuses.skip(p),
                has_tty,
            ) == (PamNext::Fail { end_transaction: k > 0 }) by {
                if k > p {
                    assert(statuses[p] == PAM_SUCCESS);
                    assert(calls_succeed(statuses, p + 1, k));
                }
            }
        }
    }
}

/// Whether `reply` is the answer that message `m` calls for.
pub open spec fn answers(
    m: PromptView,
    username: Seq<char>,
    password: Option<Seq<char>>,
    reply: Option<Seq<char>>,
) -> bool {
    match m {
        Some((style, _text)) => prompt_reply(style, username, password) == Some(reply),
        None => false,
    }
}

/// Whether `m` is a prompt whose answer is not to be echoed.
pub open spec fn is_hidden_prompt(m: PromptView) -> bool {
    match m {
        Some((style, _text)) => style == PAM_PROMPT_ECHO_OFF,
        None => false,
    }
}

/// A conversation that answered every message gives one reply per message,
/// each the reply its message's style calls for; in particular the password
/// goes only to hidden prompts, and with no password held no hidden prompt
/// is answered.
pub proof fn law_conversation_replies(
    msgs: Seq<PromptView>,
    username: Seq<char>,
    password: Option<Seq<char>>,
)
    ensures
        converse(msgs, username, password).1 matches Ok(replies) ==> {
            &&& replies.len() == msgs.len()
            &&& forall|i: int|
                0 <= i < msgs.len() ==> answers(#[trigger] msgs[i], username, password, replies[i])
        },
        password is None && (exists|i: int| 0 <= i < msgs.len() && is_hidden_prompt(#[trigger] msgs[i]))
            ==> converse(msgs, username, password).1 is Err,
    decreases msgs.len(),
{
    if msgs.len() > 0 {
        let prev = msgs.drop_last();
        law_conversation_replies(prev, username, password);
        if converse(msgs, username, password).1 is Ok {
            let replies = converse(msgs, username, password).1->Ok_0;
            let pr = converse(prev, username, password).1->Ok_0;
            assert forall|i: int| 0 <= i < msgs.len() implies answers(
                #[trigger] msgs[i],
                username,
                password,
                replies[i],
            ) by {
                if i < msgs.len() - 1 {
                    assert(msgs[i] == prev[i]);
                    assert(replies[i] == pr[i]);
                }
            }
        }
        if password is None && (exists|i: int|
            0 <= i < msgs.len() && is_hidden_prompt(#[trigger] msgs[i])) {
            let i = choose|i: int| 0 <= i < msgs.len() && is_hidden_prompt(#[trigger] msgs[i]);
            if i < msgs.len() - 1 {
                assert(prev[i] == msgs[i]);
            }
        }
    }
}

/// A transaction recorded under an id is the one found under that id, and
/// after its removal none is.
pub proof fn law_transaction_lookup<T>(
    entries: Seq<AuthTransaction<T>>,
    id: Seq<char>,
    t: AuthTransaction<T>,
)
    requires
        t.id@ == id,
    ensures
        find_id(without_id(entries, id), id) is None,
        find_id(without_id(entries, id).push(t), id) == Some(t),
    decreases entries.len(),
{
    if entries.len() > 0 {
        law_transaction_lookup(entries.drop_first(), id, t);
        let head = if entries[0].id@ == id {
            Seq::<AuthTransaction<T>>::empty()
        } else {
            seq![entries[0]]
        };
        let rest = without_id(entries.drop_first(), id);
        if entries[0].id@ != id {
            assert((head + rest).drop_first() =~= rest);
            assert((head + rest).push(t).drop_first() =~= rest.push(t));
        } else {
            assert(head + rest =~= rest);
        }
    } else {
        assert(without_id(entries, id).push(t) =~= seq![t]);
        assert(seq![t].drop_first() =~= Seq::<AuthTransaction<T>>::empty());
    }
}

/// Closing the transaction `id` leaves every other id finding the very
/// transaction it found before.
pub proof fn law_close_keeps_others<T>(
    entries: Seq<AuthTransaction<T>>,
    id: Seq<char>,
    other: Seq<char>,
)
    requires
        other != id,
    ensures
        find_id(without_id(entries, id), other) == find_id(entries, other),
    decreases entries.len(),
{
    if entries.len() > 0 {
        law_close_keeps_others(entries.drop_first(), id, other);
        let rest = without_id(entries.drop_first(), id);
        if entries[0].id@ == id {
            assert(seq![] + rest =~= rest);
        } else {
            assert((seq![entries[0]] + rest)[0] == entries[0]);
            assert((seq![entries[0]] + rest).drop_first() =~= rest);
        }
    }
}

/// Distinct counters give distinct decimal renderings, so transaction ids
/// repeat only when the counter comes round again.
pub proof fn law_decimal_injective(n: nat, m: nat)
    ensures
        decimal(n) == decimal(m) ==> n == m,
    decreases n,
{
    lemma_digit_injective();
    if decimal(n) == decimal(m) {
        lemma_decimal_len(n);
        lemma_decimal_len(m);
        if n >= 10 && m >= 10 {
            assert(decimal(n).last() == digit_char(n % 10));
            assert(decimal(m).last() == digit_char(m % 10));
            assert(decimal(n).drop_last() =~= decimal(n / 10));
            assert(decimal(m).drop_last() =~= decimal(m / 10));
            law_decimal_injective(n / 10, m / 10);
        } else if n < 10 && m < 10 {
            assert(decimal(n)[0] == digit_char(n));
            assert(decimal(m)[0] == digit_char(m));
        } else if n < 10 {
            lemma_decimal_len_two(m);
        } else {
            lemma_decimal_len_two(n);
        }
    }
}

proof fn lemma_digit_injective()
    ensures
        forall|a: nat, b: nat|
            a < 10 && b < 10 && #[trigger] digit_char(a) == #[trigger] digit_char(b) ==> a == b,
{
}

proof fn lemma_decimal_len(n: nat)
    ensures
        decimal(n).len() >= 1,
    decreases n,
{
    if n >= 10 {
        lemma_decimal_len(n / 10);
    }
}

proof fn lemma_decimal_len_two(n: nat)
    requires
        n >= 10,
    ensures
        decimal(n).len() >= 2,
{
    lemma_decimal_len(n / 10);
}

/// Cleaning up before a new authentication keeps exactly the transactions
/// whose login session was opened: every kept one is opened, and together
/// with the pending sessions handed back they account for every transaction.
pub proof fn law_cleanup_keeps_opened<T>(entries: Seq<AuthTransaction<T>>)
    ensures
        forall|i: int|
            0 <= i < opened_entries(entries).len() ==> (#[trigger] opened_entries(entries)[i]).opened,
        opened_entries(entries).len() + pending_sessions(entries).len() == entries.len(),
        forall|i: int|
            0 <= i < entries.len() && (#[trigger] entries[i]).opened ==> opened_entries(
                entries,
            ).contains(entries[i]),
    decreases entries.len(),
{
    if entries.len() > 0 {
        let rest = entries.drop_first();
        law_cleanup_keeps_opened(rest);
        let head = if entries[0].opened {
            seq![entries[0]]
        } else {
            Seq::<AuthTransaction<T>>::empty()
        };
        let kept = opened_entries(rest);
        assert(opened_entries(entries) == head + kept);
        assert forall|i: int| 0 <= i < (head + kept).len() implies (#[trigger] (head
            + kept)[i]).opened by {
            if i < head.len() {
                assert((head + kept)[i] == entries[0]);
            } else {
                assert((head + kept)[i] == kept[i - head.len()]);
            }
        }
        assert forall|i: int| 0 <= i < entries.len() && (#[trigger] entries[i]).opened implies (
        head + kept).contains(entries[i]) by {
            if i == 0 {
                assert((head + kept)[0] == entries[0]);
            } else {
                assert(entries[i] == rest[i - 1]);
                let j = choose|j: int| 0 <= j < kept.len() && kept[j] == rest[i - 1];
                assert((head + kept)[j + head.len()] == kept[j]);
            }
        }
    }
}

/// The lock states an event sequence reports, in order.
pub open spec fn reported_states(events: Seq<EventView>) -> Seq<LockState>
    decreases events.len(),
{
    if events.len() == 0 {
        seq![]
    } else {
        let rest = reported_states(events.drop_first());
        match events[0] {
            EventView::LockStateChanged { state } => seq![state] + rest,
            _ => rest,
        }
    }
}

proof fn lemma_reported_states_append(a: Seq<EventView>, b: Seq<EventView>)
    ensures
        reported_states(a + b) == reported_states(a) + reported_states(b),
    decreases a.len(),
{
    if a.len() == 0 {
        assert(a + b =~= b);
    } else {
        lemma_reported_states_append(a.drop_first(), b);
        assert((a + b).drop_first() =~= a.drop_first() + b);
        assert((a + b)[0] == a[0]);
    }
}

/// Locking the screen and then unlocking it reports the states `Locking`,
/// `Locked`, `Unlocking` and, as the last one, `Unlocked` when the unlock
/// was accepted and `Locked` when it was refused.
pub proof fn law_lock_unlock_cycle(
    username: Seq<char>,
    user: Seq<char>,
    uid: u32,
    failure: AuthFailure,
)
    ensures
        reported_states(lock_events(true) + unlock_success_events(
            username,
            user,
            uid,
            LockState::Unlocked,
        )) == seq![
            LockState::Locking,
            LockState::Locked,
            LockState::Unlocking,
            LockState::Unlocked,
        ],
        reported_states(lock_events(true) + unlock_failure_events(username, failure)) == seq![
            LockState::Locking,
            LockState::Locked,
            LockState::Unlocking,
            LockState::Locked,
        ],
{
    let ok = unlock_success_events(username, user, uid, LockState::Unlocked);
    let refused = unlock_failure_events(username, failure);
    lemma_reported_states_append(lock_events(true), ok);
    lemma_reported_states_append(lock_events(true), refused);
    reveal_with_fuel(reported_states, 5);
    assert(reported_states(lock_events(true)) =~= seq![LockState::Locking, LockState::Locked]);
    assert(reported_states(ok) =~= seq![LockState::Unlocking, LockState::Unlocked]);
    assert(reported_states(refused) =~= seq![LockState::Unlocking, LockState::Locked]);
}

/// Distinct counters give distinct transaction ids.
pub proof fn law_transaction_ids_distinct(n: u64, m: u64)
    ensures
        transaction_id(n) == transaction_id(m) ==> n == m,
{
    if transaction_id(n) == transaction_id(m) {
        let p = "pam-"@;
        assert(decimal(n as nat) =~= transaction_id(n).skip(p.len() as int));
        assert(decimal(m as nat) =~= transaction_id(m).skip(p.len() as int));
        law_decimal_injective(n as nat, m as nat);
    }
}

/// Each session directory is listed once.
pub proof fn law_session_dirs_distinct(
    data_home: Option<Seq<char>>,
    home: Option<Seq<char>>,
    data_dirs: Option<Seq<char>>,
    user: Seq<char>,
)
    ensures
        session_dirs(data_home, home, data_dirs, user).no_duplicates(),
{
    let roots = crate::dirs::data_roots(data_home, home, data_dirs, user);
    lemma_add_session_dirs_distinct(seq![], roots);
}

proof fn lemma_add_dir_distinct(dirs: Seq<Seq<char>>, d: Seq<char>)
    requires
        dirs.no_duplicates(),
    ensures
        add_dir(dirs, d).no_duplicates(),
{
    if !dirs.contains(d) {
        assert forall|i: int, j: int|
            0 <= i < j < dirs.push(d).len() implies dirs.push(d)[i] != dirs.push(d)[j] by {
            if j == dirs.len() {
                assert(dirs.push(d)[i] == dirs[i]);
            }
        }
    }
}

proof fn lemma_add_session_dirs_distinct(dirs: Seq<Seq<char>>, roots: Seq<Seq<char>>)
    requires
        dirs.no_duplicates(),
    ensures
        add_session_dirs(dirs, roots).no_duplicates(),
    decreases roots.len(),
{
    if roots.len() > 0 {
        let first = add_dir(dirs, crate::dirs::join_path(roots[0], "wayland-sessions"@));
        lemma_add_dir_distinct(dirs, crate::dirs::join_path(roots[0], "wayland-sessions"@));
        lemma_add_dir_distinct(first, crate::dirs::join_path(roots[0], "xsessions"@));
        lemma_add_session_dirs_distinct(
            add_dir(first, crate::dirs::join_path(roots[0], "xsessions"@)),
            roots.drop_first(),
        );
    }
}

/// A line read from a terminal loses exactly its trailing line breaks: what
/// is left is a prefix of it that ends in neither `\n` nor `\r`, and the
/// characters cut are all line breaks.
pub proof fn law_chomp_strips_line_breaks(line: Seq<char>)
    ensures
        chomp(line).len() <= line.len(),
        chomp(line) == line.take(chomp(line).len() as int),
        chomp(line).len() > 0 ==> chomp(line).last() != '\n' && chomp(line).last() != '\r',
        forall|i: int|
            chomp(line).len() <= i < line.len() ==> (#[trigger] line[i] == '\n' || line[i] == '\r'),
    decreases line.len(),
{
    if line.len() > 0 && (line.last() == '\n' || line.last() == '\r') {
        law_chomp_strips_line_breaks(line.drop_last());
        let c = chomp(line.drop_last());
        assert(line.drop_last().take(c.len() as int) =~= line.take(c.len() as int));
        assert forall|i: int| c.len() <= i < line.len() implies (#[trigger] line[i] == '\n'
            || line[i] == '\r') by {
            if i < line.len() - 1 {
                assert(line[i] == line.drop_last()[i]);
            }
        }
    } else {
        assert(line.take(line.len() as int) =~= line);
    }
}

/// The diagnostic rendering of a request does not depend on its password:
/// two requests that differ only in the password render alike.
pub proof fn law_debug_ignores_password(a: AuthRequest, b: AuthRequest)
    requires
        a.username == b.username,
        a.tty == b.tty,
    ensures
        auth_request_debug(a.username@, opt_view(a.tty)) == auth_request_debug(
            b.username@,
            opt_view(b.tty),
        ),
{
}

/// Whether no two transactions of `entries` share an id.
pub open spec fn ids_distinct<T>(entries: Seq<AuthTransaction<T>>) -> bool {
    forall|i: int, j: int|
        0 <= i < j < entries.len() ==> (#[trigger] entries[i]).id@ != (#[trigger] entries[j]).id@
}

proof fn lemma_without_id_members<T>(entries: Seq<AuthTransaction<T>>, id: Seq<char>)
    ensures
        forall|k: int|
            0 <= k < without_id(entries, id).len() ==> entries.contains(
                #[trigger] without_id(entries, id)[k],
            ) && without_id(entries, id)[k].id@ != id,
    decreases entries.len(),
{
    if entries.len() > 0 {
        let rest = entries.drop_first();
        lemma_without_id_members(rest, id);
        let head = if entries[0].id@ == id {
            Seq::<AuthTransaction<T>>::empty()
        } else {
            seq![entries[0]]
        };
        let tail = without_id(rest, id);
        assert(without_id(entries, id) == head + tail);
        assert forall|k: int| 0 <= k < (head + tail).len() implies entries.contains(
            #[trigger] (head + tail)[k],
        ) && (head + tail)[k].id@ != id by {
            if k < head.len() {
                assert((head + tail)[k] == entries[0]);
            } else {
                assert((head + tail)[k] == tail[k - head.len()]);
                let x = tail[k - head.len()];
                let j = choose|j: int| 0 <= j < rest.len() && rest[j] == x;
                assert(entries[j + 1] == x);
            }
        }
    }
}

proof fn lemma_without_id_distinct<T>(entries: Seq<AuthTransaction<T>>, id: Seq<char>)
    requires
        ids_distinct(entries),
    ensures
        ids_distinct(without_id(entries, id)),
    decreases entries.len(),
{
    if entries.len() > 0 {
        let rest = entries.drop_first();
        assert(ids_distinct(rest)) by {
            assert forall|i: int, j: int| 0 <= i < j < rest.len() implies (#[trigger] rest[i]).id@
                != (#[trigger] rest[j]).id@ by {
                assert(rest[i] == entries[i + 1]);
                assert(rest[j] == entries[j + 1]);
            }
        }
        lemma_without_id_distinct(rest, id);
        lemma_without_id_members(rest, id);
        let head = if entries[0].id@ == id {
            Seq::<AuthTransaction<T>>::empty()
        } else {
            seq![entries[0]]
        };
        let tail = without_id(rest, id);
        assert(without_id(entries, id) == head + tail);
        assert forall|i: int, j: int| 0 <= i < j < (head + tail).len() implies (#[trigger] (head
            + tail)[i]).id@ != (#[trigger] (head + tail)[j]).id@ by {
            if i < head.len() {
                assert((head + tail)[i] == entries[0]);
                assert((head + tail)[j] == tail[j - head.len()]);
                let x = tail[j - head.len()];
                assert(rest.contains(x));
                let m = choose|m: int| 0 <= m < rest.len() && rest[m] == x;
                assert(entries[m + 1] == x);
            } else {
                assert((head + tail)[i] == tail[i - head.len()]);
                assert((head + tail)[j] == tail[j - head.len()]);
            }
        }
    }
}

/// No operation of the transaction table gives two transactions one id: a
/// table without shared ids keeps none after a transaction is recorded or
/// put back under an id (which drops any other holder of it), after one is
/// taken out, and after the pending ones are cleaned up.
pub proof fn law_transaction_ids_stay_distinct<T>(
    entries: Seq<AuthTransaction<T>>,
    id: Seq<char>,
    t: AuthTransaction<T>,
)
    requires
        ids_distinct(entries),
        t.id@ == id,
    ensures
        ids_distinct(without_id(entries, id)),
        ids_distinct(without_id(entries, id).push(t)),
        ids_distinct(opened_entries(entries)),
{
    lemma_without_id_distinct(entries, id);
    lemma_without_id_members(entries, id);
    let w = without_id(entries, id);
    assert forall|i: int, j: int| 0 <= i < j < w.push(t).len() implies (#[trigger] w.push(
        t,
    )[i]).id@ != (#[trigger] w.push(t)[j]).id@ by {
        assert(w.push(t)[i] == w[i]);
        if j < w.len() {
            assert(w.push(t)[j] == w[j]);
        }
    }
    lemma_opened_distinct(entries);
}

proof fn lemma_opened_distinct<T>(entries: Seq<AuthTransaction<T>>)
    requires
        ids_distinct(entries),
    ensures
        ids_distinct(opened_entries(entries)),
        forall|k: int|
            0 <= k < opened_entries(entries).len() ==> entries.contains(
                #[trigger] opened_entries(entries)[k],
            ),
    decreases entries.len(),
{
    if entries.len() > 0 {
        let rest = entries.drop_first();
        assert(ids_distinct(rest)) by {
            assert forall|i: int, j: int| 0 <= i < j < rest.len() implies (#[trigger] rest[i]).id@
                != (#[trigger] rest[j]).id@ by {
                assert(rest[i] == entries[i + 1]);
                assert(rest[j] == entries[j + 1]);
            }
        }
        lemma_opened_distinct(rest);
        let head = if entries[0].opened {
            seq![entries[0]]
        } else {
            Seq::<AuthTransaction<T>>::empty()
        };
        let tail = opened_entries(rest);
        assert(opened_entries(entries) == head + tail);
        assert forall|k: int| 0 <= k < (head + tail).len() implies entries.contains(
            #[trigger] (head + tail)[k],
        ) by {
            if k < head.len() {
                assert((head + tail)[k] == entries[0]);
            } else {
                assert((head + tail)[k] == tail[k - head.len()]);
                let x = tail[k - head.len()];
                let j = choose|j: int| 0 <= j < rest.len() && rest[j] == x;
                assert(entries[j + 1] == x);
            }
        }
        assert forall|i: int, j: int| 0 <= i < j < (head + tail).len() implies (#[trigger] (head
            + tail)[i]).id@ != (#[trigger] (head + tail)[j]).id@ by {
            if i < head.len() {
                assert((head + tail)[i] == entries[0]);
                assert((head + tail)[j] == tail[j - head.len()]);
                let x = tail[j - head.len()];
                let m = choose|m: int| 0 <= m < rest.len() && rest[m] == x;
                assert(entries[m + 1] == x);
            } else {
                assert((head + tail)[i] == tail[i - head.len()]);
                assert((head + tail)[j] == tail[j - head.len()]);
            }
        }
    }
}

/// A login session always has a command to run: the configured one when
/// there is one, else a single program (the user's shell or `/bin/sh`), so
/// the configured session of any login can be started.
pub proof fn law_login_session_has_command(configured: Seq<Seq<char>>, shell: Option<Seq<char>>)
    ensures
        session_command_for(configured, shell).len() > 0,
        configured.len() == 0 ==> session_command_for(configured, shell).len() == 1,
        configured.len() > 0 ==> session_command_for(configured, shell) == configured,
{
}

/// A screen unlock succeeds only when the authentication backend accepted
/// the request, with the very success it answered, and the display released;
/// a refusal the backend did not give is never reported, but for an
/// internal failure that the display's error caused.
pub proof fn law_unlock_needs_acceptance<A: LockAuthBackend, D: DisplayBackend>(
    auth: A,
    display: D,
    request: AuthRequest,
    r: AuthOutcome,
    before: Seq<DisplayRequest>,
    after: Seq<DisplayRequest>,
    events_before: Seq<EventView>,
    events_after: Seq<EventView>,
    closes_before: Seq<Option<Seq<char>>>,
    closes_after: Seq<Option<Seq<char>>>,
)
    requires
        unlock_answered(
            auth,
            display,
            request,
            r,
            before,
            after,
            events_before,
            events_after,
            closes_before,
            closes_after,
        ),
    ensures
        r is Ok ==> auth.lock_auth_answers(request, r) && (exists|d: LimesResult<()>|
            #![trigger display.unlock_answers(d)]
            display.unlock_answers(d) && d is Ok) && after == before.push(DisplayRequest::Unlock),
        (r matches Err(f) && !(f is Internal)) ==> auth.lock_auth_answers(request, r)
            && after == before && closes_after == closes_before,
{
    let answer = choose|answer: AuthOutcome| #[trigger]
        auth.lock_auth_answers(request, answer) && match answer {
            Err(f) => r == Err::<AuthSuccess, AuthFailure>(f) && after == before && closes_after
                == closes_before && events_after == events_before + unlock_failure_events(
                request.username@,
                f,
            ),
            Ok(s) => after == before.push(DisplayRequest::Unlock) && closes_after
                == closes_before.push(opt_view(s.auth_session_id)) && (exists|c: LimesResult<()>|
                #![trigger auth.lock_close_answers(opt_view(s.auth_session_id), c)]
                auth.lock_close_answers(opt_view(s.auth_session_id), c)) && exists|
                d: LimesResult<()>,
            |
                #![trigger display.unlock_answers(d)]
                display.unlock_answers(d) && match d {
                    Ok(()) => r == Ok::<AuthSuccess, AuthFailure>(s) && events_after
                        == events_before + unlock_success_events(
                        request.username@,
                        s.username@,
                        s.uid,
                        LockState::Unlocked,
                    ),
                    Err(e) => r matches Err(AuthFailure::Internal(m)) && m@ == error_text(e)
                        && events_after == events_before + unlock_success_events(
                        request.username@,
                        s.username@,
                        s.uid,
                        LockState::Locked,
                    ),
                },
        };
    if answer is Ok {
        let s = answer->Ok_0;
        let d = choose|d: LimesResult<()>| #[trigger]
            display.unlock_answers(d) && match d {
                Ok(()) => r == Ok::<AuthSuccess, AuthFailure>(s) && events_after == events_before
                    + unlock_success_events(
                    request.username@,
                    s.username@,
                    s.uid,
                    LockState::Unlocked,
                ),
                Err(e) => r matches Err(AuthFailure::Internal(m)) && m@ == error_text(e)
                    && events_after == events_before + unlock_success_events(
                    request.username@,
                    s.username@,
                    s.uid,
                    LockState::Locked,
                ),
            };
        if r is Ok {
            assert(d is Ok);
        }
    }
}

/// A new authentication leaves exactly one pending transaction, its own, under
/// a fresh id, besides the opened ones it keeps: the cleanup before it drops
/// every earlier pending one.
pub proof fn law_new_authentication<T>(
    entries: Seq<AuthTransaction<T>>,
    id: Seq<char>,
    t: AuthTransaction<T>,
)
    requires
        t.id@ == id,
        !t.opened,
    ensures
        pending_sessions(without_id(opened_entries(entries), id).push(t)) == seq![t.session],
        find_id(without_id(opened_entries(entries), id).push(t), id) == Some(t),
{
    let kept = without_id(opened_entries(entries), id);
    lemma_no_pending_after_cleanup(entries, id);
    lemma_pending_push(kept, t);
    law_transaction_lookup(opened_entries(entries), id, t);
}

proof fn lemma_no_pending_opened<T>(entries: Seq<AuthTransaction<T>>)
    ensures
        pending_sessions(opened_entries(entries)).len() == 0,
        forall|k: int| 0 <= k < opened_entries(entries).len() ==> (#[trigger] opened_entries(entries)[k]).opened,
    decreases entries.len(),
{
    law_cleanup_keeps_opened(entries);
    lemma_all_opened_no_pending(opened_entries(entries));
}

proof fn lemma_all_opened_no_pending<T>(entries: Seq<AuthTransaction<T>>)
    requires
        forall|k: int| 0 <= k < entries.len() ==> (#[trigger] entries[k]).opened,
    ensures
        pending_sessions(entries).len() == 0,
    decreases entries.len(),
{
    if entries.len() > 0 {
        assert(entries[0].opened);
        assert forall|k: int| 0 <= k < entries.drop_first().len() implies (
        #[trigger] entries.drop_first()[k]).opened by {
            assert(entries.drop_first()[k] == entries[k + 1]);
        }
        lemma_all_opened_no_pending(entries.drop_first());
    }
}

proof fn lemma_without_id_keeps_opened<T>(entries: Seq<AuthTransaction<T>>, id: Seq<char>)
    requires
        forall|k: int| 0 <= k < entries.len() ==> (#[trigger] entries[k]).opened,
    ensures
        forall|k: int| 0 <= k < without_id(entries, id).len() ==> (#[trigger] without_id(
            entries,
            id,
        )[k]).opened,
{
    lemma_without_id_members(entries, id);
    assert forall|k: int| 0 <= k < without_id(entries, id).len() implies (#[trigger] without_id(
        entries,
        id,
    )[k]).opened by {
        let x = without_id(entries, id)[k];
        assert(entries.contains(x));
        let j = choose|j: int| 0 <= j < entries.len() && entries[j] == x;
        assert(entries[j].opened);
    }
}

proof fn lemma_no_pending_after_cleanup<T>(entries: Seq<AuthTransaction<T>>, id: Seq<char>)
    ensures
        pending_sessions(without_id(opened_entries(entries), id)).len() == 0,
{
    lemma_no_pending_opened(entries);
    lemma_without_id_keeps_opened(opened_entries(entries), id);
    lemma_all_opened_no_pending(without_id(opened_entries(entries), id));
}

proof fn lemma_pending_push<T>(entries: Seq<AuthTransaction<T>>, t: AuthTransaction<T>)
    requires
        pending_sessions(entries).len() == 0,
        !t.opened,
    ensures
        pending_sessions(entries.push(t)) == seq![t.session],
    decreases entries.len(),
{
    if entries.len() == 0 {
        let one = entries.push(t);
        assert(one.drop_first() =~= Seq::<AuthTransaction<T>>::empty());
        assert(pending_sessions(one.drop_first()) == Seq::<T>::empty());
        assert(one[0] == t);
        assert(pending_sessions(one) =~= seq![t.session] + Seq::<T>::empty());
        assert(seq![t.session] + Seq::<T>::empty() =~= seq![t.session]);
    } else {
        assert(entries.push(t).drop_first() =~= entries.drop_first().push(t));
        assert(entries[0].opened) by {
            if !entries[0].opened {
                assert(pending_sessions(entries).len() >= 1);
            }
        }
        assert(pending_sessions(entries.drop_first()).len() == 0);
        assert(entries.push(t)[0] == entries[0]);
        lemma_pending_push(entries.drop_first(), t);
        assert(pending_sessions(entries.push(t)) =~= pending_sessions(entries.drop_first().push(t)));
    }
}

/// The first `c` of `s` stands at `k` when `s[k]` is `c` and no earlier
/// character is.
proof fn lemma_index_of_first(s: Seq<char>, c: char, k: int)
    requires
        0 <= k < s.len(),
        s[k] == c,
        forall|j: int| 0 <= j < k ==> s[j] != c,
    ensures
        index_of(s, c) == k,
    decreases k,
{
    if k > 0 {
        assert forall|j: int| 0 <= j < k - 1 implies s.drop_first()[j] != c by {
            assert(s.drop_first()[j] == s[j + 1]);
        }
        lemma_index_of_first(s.drop_first(), c, k - 1);
    }
}

/// A text without `c` has no first `c`.
proof fn lemma_index_of_absent(s: Seq<char>, c: char)
    requires
        forall|j: int| 0 <= j < s.len() ==> s[j] != c,
    ensures
        index_of(s, c) == -1,
    decreases s.len(),
{
    if s.len() > 0 {
        assert forall|j: int| 0 <= j < s.len() - 1 implies s.drop_first()[j] != c by {
            assert(s.drop_first()[j] == s[j + 1]);
        }
        lemma_index_of_absent(s.drop_first(), c);
    }
}

proof fn lemma_trim_start_absent(s: Seq<char>, c: char)
    requires
        forall|j: int| 0 <= j < s.len() ==> s[j] != c,
    ensures
        forall|j: int| 0 <= j < trim_start(s).len() ==> trim_start(s)[j] != c,
    decreases s.len(),
{
    if s.len() > 0 && is_space(s[0]) {
        assert forall|j: int| 0 <= j < s.len() - 1 implies s.drop_first()[j] != c by {
            assert(s.drop_first()[j] == s[j + 1]);
        }
        lemma_trim_start_absent(s.drop_first(), c);
        assert(trim_start(s) == trim_start(s.drop_first()));
    } else {
        assert(trim_start(s) == s);
    }
}

proof fn lemma_trim_end_absent(s: Seq<char>, c: char)
    requires
        forall|j: int| 0 <= j < s.len() ==> s[j] != c,
    ensures
        forall|j: int| 0 <= j < trim_end(s).len() ==> trim_end(s)[j] != c,
    decreases s.len(),
{
    if s.len() > 0 && is_space(s.last()) {
        assert forall|j: int| 0 <= j < s.len() - 1 implies s.drop_last()[j] != c by {
            assert(s.drop_last()[j] == s[j]);
        }
        lemma_trim_end_absent(s.drop_last(), c);
        assert(trim_end(s) == trim_end(s.drop_last()));
    } else {
        assert(trim_end(s) == s);
    }
}

/// Trimming keeps out a character the text does not hold.
proof fn lemma_trim_absent(s: Seq<char>, c: char)
    requires
        forall|j: int| 0 <= j < s.len() ==> s[j] != c,
    ensures
        forall|j: int| 0 <= j < trim(s).len() ==> trim(s)[j] != c,
{
    lemma_trim_start_absent(s, c);
    lemma_trim_end_absent(trim_start(s), c);
}

/// Reading `a`, a line break and `b` reads the lines of `a`, then those of `b`.
proof fn lemma_scan_content_split(st: DesktopFieldsView, a: Seq<char>, b: Seq<char>)
    ensures
        scan_content(st, a + seq!['\n'] + b) == scan_content(scan_content(st, a), b),
    decreases a.len(),
{
    let s = a + seq!['\n'] + b;
    crate::text::lemma_index_of_bounds(a, '\n');
    let k = index_of(a, '\n');
    if k < 0 {
        assert forall|j: int| 0 <= j < a.len() implies s[j] != '\n' by {
            assert(s[j] == a[j]);
        }
        lemma_index_of_first(s, '\n', a.len() as int);
        assert(s.take(a.len() as int) =~= a);
        assert(s.skip(a.len() as int + 1) =~= b);
        if a.len() == 0 {
            assert(trim_start(a) == a);
            assert(trim_end(a) == a);
        }
    } else {
        assert forall|j: int| 0 <= j < k implies s[j] != '\n' by {
            assert(s[j] == a[j]);
        }
        lemma_index_of_first(s, '\n', k);
        assert(s.take(k) =~= a.take(k));
        assert(s.skip(k + 1) =~= a.skip(k + 1) + seq!['\n'] + b);
        lemma_scan_content_split(scan_line(st, a.take(k)), a.skip(k + 1), b);
    }
}

/// Outside the entry group, a line that opens no group changes nothing.
proof fn lemma_scan_line_outside_entry(st: DesktopFieldsView, l: Seq<char>)
    requires
        !st.in_entry,
        forall|j: int| 0 <= j < l.len() ==> l[j] != '[',
    ensures
        scan_line(st, l) == st,
{
    lemma_trim_absent(l, '[');
    if trim(l).len() > 0 {
        assert(trim(l)[0] != '[');
    }
}

/// Outside the entry group, lines that open no group change nothing.
proof fn lemma_scan_outside_entry(st: DesktopFieldsView, content: Seq<char>)
    requires
        !st.in_entry,
        forall|j: int| 0 <= j < content.len() ==> content[j] != '[',
    ensures
        scan_content(st, content) == st,
    decreases content.len(),
{
    if content.len() > 0 {
        crate::text::lemma_index_of_bounds(content, '\n');
        let k = index_of(content, '\n');
        if k < 0 {
            lemma_scan_line_outside_entry(st, content);
        } else {
            lemma_scan_line_outside_entry(st, content.take(k));
            lemma_scan_outside_entry(st, content.skip(k + 1));
        }
    }
}

/// A group header line decides alone whether the lines after it are read:
/// they are exactly when it is `[Desktop Entry]`, whatever group was being
/// read before; the header itself sets no field.
pub proof fn law_group_header_selects_entry(st: DesktopFieldsView, raw: Seq<char>)
    requires
        trim(raw).len() > 0,
        trim(raw)[0] == '[',
        trim(raw).last() == ']',
    ensures
        scan_line(st, raw).in_entry == (trim(raw) == "[Desktop Entry]"@),
        scan_line(st, raw).name == st.name,
        scan_line(st, raw).exec_value == st.exec_value,
        scan_line(st, raw).try_exec == st.try_exec,
        scan_line(st, raw).hidden == st.hidden,
        scan_line(st, raw).no_display == st.no_display,
{
}

/// Keys of a later group other than `[Desktop Entry]` are not read: a desktop
/// file that goes on after its entry part with another group's header and
/// lines that open no further group describes the session its entry part
/// describes.
pub proof fn law_later_group_ignored(
    entry: Seq<char>,
    header: Seq<char>,
    rest: Seq<char>,
    stem: Option<Seq<char>>,
)
    requires
        trim(header).len() > 0,
        trim(header)[0] == '[',
        trim(header).last() == ']',
        trim(header) != "[Desktop Entry]"@,
        forall|j: int| 0 <= j < header.len() ==> header[j] != '\n',
        forall|j: int| 0 <= j < rest.len() ==> rest[j] != '[',
    ensures
        desktop_session(entry + seq!['\n'] + header + seq!['\n'] + rest, stem) == desktop_session(
            entry,
            stem,
        ),
{
    let tail = header + seq!['\n'] + rest;
    assert(entry + seq!['\n'] + header + seq!['\n'] + rest =~= entry + seq!['\n'] + tail);
    lemma_scan_content_split(no_fields(), entry, tail);
    let st = scan_content(no_fields(), entry);
    lemma_scan_content_split(st, header, rest);
    lemma_index_of_absent(header, '\n');
    let st2 = scan_line(st, header);
    assert(scan_content(st, header) == st2);
    assert(!st2.in_entry);
    lemma_scan_outside_entry(st2, rest);
    assert(scan_content(no_fields(), entry + seq!['\n'] + tail) == st2);
}

/// A PAM message is reported as a hidden prompt exactly when its style is
/// PAM's hidden prompt, the one answered with the password, and as a visible
/// prompt exactly when its style is the visible prompt, answered with the
/// username; information and error texts are reported as such.
pub proof fn law_message_kind_follows_style(
    style: i32,
    username: Seq<char>,
    password: Seq<char>,
    text: Seq<char>,
)
    requires
        username != password,
    ensures
        (message_kind(style) == Some(PamMessageKind::PromptEchoOff)) <==> style
            == PAM_PROMPT_ECHO_OFF,
        (message_kind(style) == Some(PamMessageKind::PromptEchoOn)) <==> style
            == PAM_PROMPT_ECHO_ON,
        (message_kind(style) == Some(PamMessageKind::TextInfo)) <==> style == PAM_TEXT_INFO,
        (message_kind(style) == Some(PamMessageKind::Error)) <==> style == PAM_ERROR_MSG,
        (message_kind(style) == Some(PamMessageKind::PromptEchoOff)) <==> prompt_reply(
            style,
            username,
            Some(password),
        ) == Some(Some(password)),
        (message_kind(style) == Some(PamMessageKind::PromptEchoOn)) <==> prompt_reply(
            style,
            username,
            Some(password),
        ) == Some(Some(username)),
        converse(seq![Some((PAM_PROMPT_ECHO_OFF, text))], username, Some(password)) == (
            seq![
                EventView::AuthPamMessage {
                    username,
                    kind: PamMessageKind::PromptEchoOff,
                    message: text,
                },
            ],
            Ok::<Seq<Option<Seq<char>>>, i32>(seq![Some(password)]),
        ),
{
    let msgs: Seq<PromptView> = seq![Some((PAM_PROMPT_ECHO_OFF, text))];
    assert(msgs.drop_last() =~= Seq::<PromptView>::empty());
    assert(msgs.last() == Some((PAM_PROMPT_ECHO_OFF, text)));
    assert(converse(msgs.drop_last(), username, Some(password)) == (
        Seq::<EventView>::empty(),
        Ok::<Seq<Option<Seq<char>>>, i32>(Seq::<Option<Seq<char>>>::empty()),
    ));
    assert(message_kind(PAM_PROMPT_ECHO_OFF) == Some(PamMessageKind::PromptEchoOff));
    assert(prompt_reply(PAM_PROMPT_ECHO_OFF, username, Some(password)) == Some(Some(password)));
    assert(Seq::<EventView>::empty() + seq![
        EventView::AuthPamMessage { username, kind: PamMessageKind::PromptEchoOff, message: text },
    ] =~= seq![
        EventView::AuthPamMessage { username, kind: PamMessageKind::PromptEchoOff, message: text },
    ]);
    assert(Seq::<Option<Seq<char>>>::empty().push(Some(password)) =~= seq![Some(password)]);
}

/// The entries of a session list are added in the order they are written:
/// the list `a;b` adds what `a` adds, then what `b` adds.
pub proof fn law_list_entries_in_order(cs: Seq<ChoiceView>, a: Seq<char>, b: Seq<char>)
    requires
        forall|j: int| 0 <= j < a.len() ==> a[j] != ';',
    ensures
        add_entries(cs, a + seq![';'] + b) == add_entries(add_entries(cs, a), b),
{
    let s = a + seq![';'] + b;
    assert forall|j: int| 0 <= j < a.len() implies s[j] != ';' by {
        assert(s[j] == a[j]);
    }
    lemma_index_of_first(s, ';', a.len() as int);
    lemma_index_of_absent(a, ';');
    assert(s.take(a.len() as int) =~= a);
    assert(s.skip(a.len() as int + 1) =~= b);
}

/// An entry naming a session not listed yet is added after the ones listed.
pub proof fn law_list_entry_appended(
    cs: Seq<ChoiceView>,
    a: Seq<char>,
    name: Seq<char>,
    command: Seq<Seq<char>>,
)
    requires
        forall|j: int| 0 <= j < a.len() ==> a[j] != ';',
        session_entry(a) == Some((name, command)),
        !lists_name(cs, name),
    ensures
        add_entries(cs, a) == cs.push((name, Some(command))),
{
    lemma_index_of_absent(a, ';');
}

/// Two entries naming distinct sessions not listed yet are added in the
/// order they are written.
pub proof fn law_two_list_entries_in_order(
    cs: Seq<ChoiceView>,
    a: Seq<char>,
    b: Seq<char>,
    first: (Seq<char>, Seq<Seq<char>>),
    second: (Seq<char>, Seq<Seq<char>>),
)
    requires
        forall|j: int| 0 <= j < a.len() ==> a[j] != ';',
        forall|j: int| 0 <= j < b.len() ==> b[j] != ';',
        session_entry(a) == Some(first),
        session_entry(b) == Some(second),
        first.0 != second.0,
        !lists_name(cs, first.0),
        !lists_name(cs, second.0),
    ensures
        add_entries(cs, a + seq![';'] + b) == cs.push((first.0, Some(first.1))).push(
            (second.0, Some(second.1)),
        ),
{
    law_list_entries_in_order(cs, a, b);
    law_list_entry_appended(cs, a, first.0, first.1);
    let next = cs.push((first.0, Some(first.1)));
    assert(!lists_name(next, second.0)) by {
        if lists_name(next, second.0) {
            let i = choose|i: int| 0 <= i < next.len() && (#[trigger] next[i]).0 == second.0;
            if i < cs.len() {
                assert(next[i] == cs[i]);
            }
        }
    }
    law_list_entry_appended(next, b, second.0, second.1);
}

/// `--frontend PROGRAM` takes every argument after the program as the
/// frontend's, one leading `--` dropped: with or without that `--` the same
/// frontend is selected.
pub proof fn law_frontend_takes_remaining_args(
    program: Seq<char>,
    args: Seq<Seq<char>>,
    current: FrontendView,
)
    requires
        args.len() == 0 || args[0] != "--"@,
    ensures
        login_args_effect(seq!["--frontend"@, program] + args, current) == Ok::<
            FrontendView,
            Seq<char>,
        >(FrontendView::External(program, args)),
        login_args_effect(seq!["--frontend"@, program, "--"@] + args, current) == Ok::<
            FrontendView,
            Seq<char>,
        >(FrontendView::External(program, args)),
{
    reveal_strlit("--frontend");
    reveal_strlit("--builtin");
    reveal_strlit("--");
    let plain = seq!["--frontend"@, program] + args;
    let marked = seq!["--frontend"@, program, "--"@] + args;
    assert(plain[0] == "--frontend"@);
    assert(marked[0] == "--frontend"@);
    assert("--frontend"@ != "--builtin"@) by {
        assert("--frontend"@.len() != "--builtin"@.len());
    }
    assert(plain[1] == program);
    assert(marked[1] == program);
    assert(plain.skip(2) =~= args);
    assert(marked.skip(2) =~= seq!["--"@] + args);
    assert((seq!["--"@] + args).drop_first() =~= args);
}

/// `--builtin` selects the builtin frontend and the options after it are
/// read as if they came first.
pub proof fn law_builtin_then_rest(rest: Seq<Seq<char>>, current: FrontendView)
    ensures
        login_args_effect(seq!["--builtin"@] + rest, current) == login_args_effect(
            rest,
            FrontendView::BuiltinText,
        ),
{
    let all = seq!["--builtin"@] + rest;
    assert(all[0] == "--builtin"@);
    assert(all.drop_first() =~= rest);
}

} // verus!
