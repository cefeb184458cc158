//! From the first message of a client to a Matrix client for it: who it is, the welcome, the
//! bridge's own channel, and the stored session or a login.

use vstd::prelude::*;
use vstd::string::*;

use crate::ircd::login::{
    auth_action, auth_loop, auth_run, client_prefix, join_own_chan, last_nick, last_pass,
    login_greeting, matrix_restore_session, own_chan_messages, restore_greeting, said,
    the_last_word_counts, welcome, welcome_line, AuthAction, AuthActionView, AuthRun, AuthState, AuthView, Credentials,
};
use crate::ircd::proto::{
    has_user, messages, opt_text, raw_line, CommandView, Message, MessageView,
};
use crate::state::Session;

verus! {

/// What [`Credentials`] hold.
pub struct CredentialsView {
    pub nick: Seq<char>,
    pub user: Seq<char>,
    pub pass: Seq<char>,
}

impl View for Credentials {
    type V = CredentialsView;

    open spec fn view(&self) -> CredentialsView {
        CredentialsView { nick: self.nick@, user: self.user@, pass: self.pass@ }
    }
}

/// How far a client is that connected.
pub enum AuthPhase<C> {
    /// The client's next message is waited for.
    Asking(AuthState),
    /// This is sent, and then the client's next message is waited for.
    Answering(AuthState, Message),
    /// The client has said who it is, and is welcomed.
    Welcoming(Credentials),
    /// The client is put into the bridge's own channel.
    Joining(Credentials),
    /// What is stored of the client is looked up, and opened with its password.
    LookingUp(Credentials),
    /// The client is told that its session is restored.
    Announcing(Credentials, Session),
    /// The session is restored.
    Restoring(Credentials, Session),
    /// The client is sent this, as its session could not be restored.
    Regretting(Credentials, Message),
    /// The client is told how to log in.
    Greeting(Credentials),
    /// The client logs in to Matrix.
    LoggingIn(Credentials),
    /// It is over: with the nick, the user name and the Matrix client, or with an error.
    Over(Result<(String, String, C), String>),
}

/// What an [`AuthPhase`] holds.
pub enum AuthPhaseView<C> {
    Asking(AuthView),
    Answering(AuthView, MessageView),
    Welcoming(CredentialsView),
    Joining(CredentialsView),
    LookingUp(CredentialsView),
    Announcing(CredentialsView, Session),
    Restoring(CredentialsView, Session),
    Regretting(CredentialsView, MessageView),
    Greeting(CredentialsView),
    LoggingIn(CredentialsView),
    Over(Result<(Seq<char>, Seq<char>, C), Seq<char>>),
}

impl<C> View for AuthPhase<C> {
    type V = AuthPhaseView<C>;

    open spec fn view(&self) -> AuthPhaseView<C> {
        match *self {
            AuthPhase::Asking(s) => AuthPhaseView::Asking(s@),
            AuthPhase::Answering(s, m) => AuthPhaseView::Answering(s@, m@),
            AuthPhase::Welcoming(who) => AuthPhaseView::Welcoming(who@),
            AuthPhase::Joining(who) => AuthPhaseView::Joining(who@),
            AuthPhase::LookingUp(who) => AuthPhaseView::LookingUp(who@),
            AuthPhase::Announcing(who, session) => AuthPhaseView::Announcing(who@, session),
            AuthPhase::Restoring(who, session) => AuthPhaseView::Restoring(who@, session),
            AuthPhase::Regretting(who, m) => AuthPhaseView::Regretting(who@, m@),
            AuthPhase::Greeting(who) => AuthPhaseView::Greeting(who@),
            AuthPhase::LoggingIn(who) => AuthPhaseView::LoggingIn(who@),
            AuthPhase::Over(Ok((nick, user, client))) => AuthPhaseView::Over(
                Ok((nick@, user@, client)),
            ),
            AuthPhase::Over(Err(e)) => AuthPhaseView::Over(Err(e@)),
        }
    }
}

/// Goes on with who a client says it is, which takes a nick, a user name and a password.
pub open spec fn with_credentials<C>(s: AuthView) -> AuthPhaseView<C> {
    match (s.nick, s.user, s.pass) {
        (Some(nick), Some(user), Some(pass)) => AuthPhaseView::Welcoming(
            CredentialsView { nick, user, pass },
        ),
        _ => AuthPhaseView::Over(Err("nick or pass wasn't set for client!"@)),
    }
}

/// How far a client that is asked who it is gets with a message.
pub open spec fn after_heard<C>(s: AuthView, command: CommandView) -> AuthPhaseView<C> {
    match auth_action(command) {
        AuthActionView::Send(m) => AuthPhaseView::Answering(s.heard(command), m),
        AuthActionView::Wait => AuthPhaseView::Asking(s.heard(command)),
        AuthActionView::Done => with_credentials(s.heard(command)),
    }
}

/// How far a client gets with what was looked up of it: an error is the end, a session is
/// restored, and without one it has to log in.
pub open spec fn after_lookup<C>(
    who: CredentialsView,
    outcome: Result<Option<Session>, Seq<char>>,
) -> AuthPhaseView<C> {
    match outcome {
        Err(e) => AuthPhaseView::Over(Err(e)),
        Ok(Some(session)) => AuthPhaseView::Announcing(who, session),
        Ok(None) => AuthPhaseView::Greeting(who),
    }
}

/// What a client is told when its session could not be restored.
pub open spec fn regret(nick: Seq<char>, e: Seq<char>) -> MessageView {
    said(
        nick,
        "Restoring session failed: "@ + e + ". Login again as follow or try to reconnect later."@,
    )
}

/// How far a client gets when its session was restored, or could not be: then it has to log in.
pub open spec fn after_restoring<C>(
    who: CredentialsView,
    outcome: Result<C, Seq<char>>,
) -> AuthPhaseView<C> {
    match outcome {
        Ok(client) => AuthPhaseView::Over(Ok((who.nick, who.user, client))),
        Err(e) => AuthPhaseView::Regretting(who, regret(who.nick, e)),
    }
}

/// How far a client gets when it logged in to Matrix, or could not.
pub open spec fn after_login<C>(
    who: CredentialsView,
    outcome: Result<C, Seq<char>>,
) -> AuthPhaseView<C> {
    match outcome {
        Ok(client) => AuthPhaseView::Over(Ok((who.nick, who.user, client))),
        Err(e) => AuthPhaseView::Over(Err(e)),
    }
}

impl<C> AuthPhaseView<C> {
    /// What the client is sent in this phase.
    pub open spec fn outgoing(self) -> Seq<MessageView> {
        match self {
            AuthPhaseView::Answering(_, m) => seq![m],
            AuthPhaseView::Welcoming(who) => seq![welcome_line(who.nick)],
            AuthPhaseView::Joining(who) => own_chan_messages(who.nick, who.user),
            AuthPhaseView::Announcing(who, session) => seq![
                said(
                    who.nick,
                    "Welcome to matrirc. Restoring session to "@ + session.homeserver@,
                ),
            ],
            AuthPhaseView::Regretting(_, m) => seq![m],
            AuthPhaseView::Greeting(who) => seq![
                said(
                    who.nick,
                    "Welcome to matrirc. Please login to matrix by replying with: <homeserver> [<user> <pass>]"@,
                ),
            ],
            _ => Seq::empty(),
        }
    }

    /// Whether all that this phase sends can be sent.
    pub open spec fn can_send(self) -> bool {
        self matches AuthPhaseView::Joining(who) ==> has_user(client_prefix(who.nick, who.user))
    }

    /// The next phase when all of it was sent, or could not be, for the reason `failure`.
    pub open spec fn after_sending(self, failure: Option<Seq<char>>) -> Self {
        if self.outgoing().len() == 0 {
            self
        } else if let Some(e) = failure {
            AuthPhaseView::Over(Err(e))
        } else {
            match self {
                AuthPhaseView::Answering(s, _) => AuthPhaseView::Asking(s),
                AuthPhaseView::Welcoming(who) => AuthPhaseView::Joining(who),
                AuthPhaseView::Joining(who) => AuthPhaseView::LookingUp(who),
                AuthPhaseView::Announcing(who, session) => AuthPhaseView::Restoring(who, session),
                AuthPhaseView::Regretting(who, _) => AuthPhaseView::Greeting(who),
                AuthPhaseView::Greeting(who) => AuthPhaseView::LoggingIn(who),
                other => other,
            }
        }
    }
}

/// A result with its error as a text.
pub open spec fn result_view<T>(r: Result<T, String>) -> Result<T, Seq<char>> {
    match r {
        Ok(t) => Ok(t),
        Err(e) => Err(e@),
    }
}

/// A client that just connected.
pub fn auth_started<C>() -> (r: AuthPhase<C>)
    ensures
        r@ == AuthPhaseView::<C>::Asking(AuthView { nick: None, user: None, pass: None }),
{
    AuthPhase::Asking(AuthState::new())
}

fn go_on<C>(state: AuthState) -> (r: AuthPhase<C>)
    ensures
        r@ == with_credentials::<C>(state@),
{
    match state.credentials() {
        Ok(who) => AuthPhase::Welcoming(who),
        Err(e) => AuthPhase::Over(Err(e)),
    }
}

/// Takes in a message from a client that is asked who it is.
pub fn auth_heard<C>(state: AuthState, message: &Message) -> (r: AuthPhase<C>)
    ensures
        r@ == after_heard::<C>(state@, message@.command),
{
    let mut state = state;
    match auth_loop(&mut state, message) {
        AuthAction::Send(m) => AuthPhase::Answering(state, m),
        AuthAction::Wait => AuthPhase::Asking(state),
        AuthAction::Done => go_on(state),
    }
}

/// Ends it with a client that says nothing any more.
pub fn auth_stream_ended<C>(state: AuthState) -> (r: AuthPhase<C>)
    ensures
        r@ == with_credentials::<C>(state@),
{
    go_on(state)
}

/// Ends it with a client from which nothing can be read, for a reason.
pub fn auth_broken<C>(e: String) -> (r: AuthPhase<C>)
    ensures
        r@ == AuthPhaseView::<C>::Over(Err(e@)),
{
    AuthPhase::Over(Err(e))
}

/// Goes on when what was stored of a client was looked up.
pub fn auth_looked_up<C>(who: Credentials, outcome: Result<Option<Session>, String>) -> (r: AuthPhase<
    C,
>)
    ensures
        r@ == after_lookup::<C>(who@, result_view(outcome)),
{
    match outcome {
        Err(e) => AuthPhase::Over(Err(e)),
        Ok(Some(session)) => AuthPhase::Announcing(who, session),
        Ok(None) => AuthPhase::Greeting(who),
    }
}

/// Goes on when a session was restored, or could not be.
pub fn auth_restored<C>(who: Credentials, outcome: Result<C, String>) -> (r: AuthPhase<C>)
    ensures
        r@ == after_restoring(who@, result_view(outcome)),
{
    match matrix_restore_session(&who.nick, outcome) {
        Ok(client) => AuthPhase::Over(Ok((who.nick, who.user, client))),
        Err(m) => AuthPhase::Regretting(who, m),
    }
}

/// Ends it when a client logged in to Matrix, or could not.
pub fn auth_logged_in<C>(who: Credentials, outcome: Result<C, String>) -> (r: AuthPhase<C>)
    ensures
        r@ == after_login(who@, result_view(outcome)),
{
    match outcome {
        Ok(client) => AuthPhase::Over(Ok((who.nick, who.user, client))),
        Err(e) => AuthPhase::Over(Err(e)),
    }
}

fn only(m: Message) -> (r: Vec<Message>)
    ensures
        messages(r@) == seq![m@],
{
    let mut r: Vec<Message> = Vec::new();
    r.push(m);
    assert(messages(r@) =~= seq![m@]);
    r
}

impl<C> AuthPhase<C> {
    /// What the client is sent in this phase.
    pub fn outgoing(&self) -> (r: Vec<Message>)
        requires
            self@.can_send(),
        ensures
            messages(r@) == self@.outgoing(),
    {
        match self {
            AuthPhase::Answering(_, m) => only(m.copy()),
            AuthPhase::Welcoming(who) => only(welcome(&who.nick)),
            AuthPhase::Joining(who) => join_own_chan(&who.nick, &who.user),
            AuthPhase::Announcing(who, session) => only(
                restore_greeting(&who.nick, &session.homeserver),
            ),
            AuthPhase::Regretting(_, m) => only(m.copy()),
            AuthPhase::Greeting(who) => only(login_greeting(&who.nick)),
            _ => {
                let none: Vec<Message> = Vec::new();
                assert(messages(none@) =~= Seq::empty());
                none
            },
        }
    }

    /// Goes on when all that this phase sends was sent, or could not be, for a reason. A phase
    /// that sends nothing stays.
    pub fn sent(self, failure: Option<String>) -> (r: Self)
        ensures
            r@ == self@.after_sending(opt_text(failure)),
    {
        let sends = match &self {
            AuthPhase::Asking(_)
            | AuthPhase::LookingUp(_)
            | AuthPhase::Restoring(_, _)
            | AuthPhase::LoggingIn(_)
            | AuthPhase::Over(_) => false,
            _ => true,
        };
        if !sends {
            return self;
        }
        if let Some(e) = failure {
            return AuthPhase::Over(Err(e));
        }
        match self {
            AuthPhase::Answering(s, _) => AuthPhase::Asking(s),
            AuthPhase::Welcoming(who) => AuthPhase::Joining(who),
            AuthPhase::Joining(who) => AuthPhase::LookingUp(who),
            AuthPhase::Announcing(who, session) => AuthPhase::Restoring(who, session),
            AuthPhase::Regretting(who, _) => AuthPhase::Greeting(who),
            AuthPhase::Greeting(who) => AuthPhase::LoggingIn(who),
            other => other,
        }
    }
}

/// What happens to a client that connected.
pub enum AuthEventView<C> {
    /// The client said this.
    Heard(CommandView),
    /// Nothing comes from the client any more.
    StreamEnded,
    /// Nothing can be read from the client, for this reason.
    Broken(Seq<char>),
    /// So many messages of a phase were sent, and this is why not all were, if not.
    Sent(nat, Option<Seq<char>>),
    /// What was stored of the client was looked up.
    LookedUp(Result<Option<Session>, Seq<char>>),
    /// The session was restored, or could not be.
    Restored(Result<C, Seq<char>>),
    /// The client logged in to Matrix, or could not.
    LoggedIn(Result<C, Seq<char>>),
}

/// How far a client is, and what happened so far.
pub struct AuthTrace<C> {
    pub phase: AuthPhaseView<C>,
    /// what the client said when it was asked who it is
    pub heard: Seq<CommandView>,
    /// all that the client was sent, in order
    pub sent: Seq<MessageView>,
    /// how much of it answers what the client said when it was asked who it is
    pub replies: nat,
    /// what was looked up of the client
    pub stored: Option<Result<Option<Session>, Seq<char>>>,
    /// how restoring the session ended
    pub restored: Option<Result<C, Seq<char>>>,
    /// how logging in to Matrix ended
    pub logged_in: Option<Result<C, Seq<char>>>,
}

impl<C> AuthTrace<C> {
    /// A client that just connected.
    pub open spec fn start() -> Self {
        AuthTrace {
            phase: AuthPhaseView::Asking(AuthView { nick: None, user: None, pass: None }),
            heard: Seq::empty(),
            sent: Seq::empty(),
            replies: 0,
            stored: None,
            restored: None,
            logged_in: None,
        }
    }

    /// When something more happened. What cannot happen in a phase has no effect.
    pub open spec fn followed_by(self, event: AuthEventView<C>) -> Self {
        match (self.phase, event) {
            (AuthPhaseView::Asking(s), AuthEventView::Heard(command)) => AuthTrace {
                phase: after_heard(s, command),
                heard: self.heard.push(command),
                ..self
            },
            (AuthPhaseView::Asking(s), AuthEventView::StreamEnded) => AuthTrace {
                phase: with_credentials(s),
                ..self
            },
            (AuthPhaseView::Asking(_), AuthEventView::Broken(e)) => AuthTrace {
                phase: AuthPhaseView::Over(Err(e)),
                ..self
            },
            (phase, AuthEventView::Sent(count, failure)) => {
                let out = phase.outgoing();
                let went = if failure is None {
                    out
                } else if count < out.len() {
                    out.take(count as int)
                } else {
                    Seq::empty()
                };
                AuthTrace {
                    phase: phase.after_sending(failure),
                    sent: self.sent + went,
                    replies: self.replies + if phase is Answering {
                        went.len()
                    } else {
                        0
                    },
                    ..self
                }
            },
            (AuthPhaseView::LookingUp(who), AuthEventView::LookedUp(outcome)) => AuthTrace {
                phase: after_lookup(who, outcome),
                stored: Some(outcome),
                ..self
            },
            (AuthPhaseView::Restoring(who, _), AuthEventView::Restored(outcome)) => AuthTrace {
                phase: after_restoring(who, outcome),
                restored: Some(outcome),
                ..self
            },
            (AuthPhaseView::LoggingIn(who), AuthEventView::LoggedIn(outcome)) => AuthTrace {
                phase: after_login(who, outcome),
                logged_in: Some(outcome),
                ..self
            },
            _ => self,
        }
    }
}

/// How far a client is after a run of events.
pub open spec fn auth_trace<C>(events: Seq<AuthEventView<C>>) -> AuthTrace<C>
    decreases events.len(),
{
    if events.len() == 0 {
        AuthTrace::start()
    } else {
        auth_trace(events.drop_last()).followed_by(events.last())
    }
}

/// Whether a message is a reply to a `PING` or to a question about capabilities.
pub open spec fn is_reply(m: MessageView) -> bool {
    m.command is PONG || m == raw_line(":matrirc CAP * LS :"@)
}

/// What a client is sent first, once it has said who it is: the welcome, and what puts it into
/// the bridge's own channel.
pub open spec fn opening(nick: Seq<char>, user: Seq<char>) -> Seq<MessageView> {
    seq![welcome_line(nick)] + own_chan_messages(nick, user)
}

/// What comes of what a client said when it was asked who it is.
pub open spec fn introduced<C>(t: AuthTrace<C>) -> AuthRun {
    auth_run(AuthView { nick: None, user: None, pass: None }, t.heard)
}

/// Whether a client is who it said it was.
pub open spec fn is_who<C>(t: AuthTrace<C>, who: CredentialsView) -> bool {
    let run = introduced(t);
    &&& run.done
    &&& run.state == (AuthView { nick: Some(who.nick), user: Some(who.user), pass: Some(who.pass) })
}

/// The replies that the client was sent.
pub open spec fn replies_sent<C>(t: AuthTrace<C>) -> Seq<MessageView> {
    t.sent.take(t.replies as int)
}

/// Whether a client was heard up to its first user name, and no further.
pub open spec fn heard_out<C>(t: AuthTrace<C>) -> bool {
    let n = if introduced(t).done {
        t.heard.len() - 1
    } else {
        t.heard.len() as int
    };
    &&& introduced(t).done ==> t.heard.len() > 0 && t.heard.last() is USER
    &&& forall|i: int| 0 <= i < n ==> !((#[trigger] t.heard[i]) is USER)
}

/// What the client was sent behind the replies.
pub open spec fn sent_behind<C>(t: AuthTrace<C>) -> Seq<MessageView> {
    t.sent.skip(t.replies as int)
}

/// Whether a client was sent all of the opening, and behind it only what the bridge says to it.
pub open spec fn opened<C>(t: AuthTrace<C>, who: CredentialsView) -> bool {
    let sent = sent_behind(t);
    &&& is_who(t, who)
    &&& opening(who.nick, who.user).is_prefix_of(sent)
    &&& forall|i: int| 5 <= i < sent.len() ==> (#[trigger] sent[i]).command is PRIVMSG
}

/// Whether what a client was sent behind the replies begins as it has to.
pub open spec fn begun<C>(t: AuthTrace<C>) -> bool {
    let sent = sent_behind(t);
    let state = introduced(t).state;
    sent.len() > 0 ==> {
        &&& introduced(t).done
        &&& state.nick is Some && state.user is Some
        &&& sent.is_prefix_of(opening(state.nick->0, state.user->0)) || opening(
            state.nick->0,
            state.user->0,
        ).is_prefix_of(sent)
        &&& forall|i: int| 5 <= i < sent.len() ==> (#[trigger] sent[i]).command is PRIVMSG
    }
}

/// Whether a client has to log in: nothing was stored of it, or its session could not be
/// restored.
pub open spec fn must_log_in<C>(t: AuthTrace<C>) -> bool {
    ||| t.stored matches Some(Ok(None))
    ||| t.stored matches Some(Ok(Some(_))) && t.restored matches Some(Err(_))
}

/// Whether a client is where it is as it has to be.
#[verifier::opaque]
pub open spec fn traced<C>(t: AuthTrace<C>) -> bool {
    let run = introduced(t);
    &&& t.replies <= t.sent.len()
    &&& forall|i: int| 0 <= i < t.replies ==> is_reply(#[trigger] t.sent[i])
    &&& replies_sent(t).is_prefix_of(run.sent)
    &&& heard_out(t)
    &&& begun(t)
    &&& t.stored matches Some(Err(e)) ==> t.phase == AuthPhaseView::<C>::Over(Err(e))
    &&& match t.phase {
        AuthPhaseView::Asking(s) => {
            &&& !run.done && run.state == s && s.user is None
            &&& replies_sent(t) == run.sent
            &&& sent_behind(t).len() == 0 && t.stored is None
        },
        AuthPhaseView::Answering(s, m) => {
            &&& !run.done && run.state == s && s.user is None
            &&& replies_sent(t).push(m) == run.sent
            &&& sent_behind(t).len() == 0 && t.stored is None
            &&& is_reply(m)
        },
        AuthPhaseView::Welcoming(who) => {
            &&& is_who(t, who)
            &&& sent_behind(t).len() == 0 && t.stored is None
        },
        AuthPhaseView::Joining(who) => {
            &&& is_who(t, who)
            &&& sent_behind(t) == seq![welcome_line(who.nick)] && t.stored is None
        },
        AuthPhaseView::LookingUp(who) => opened(t, who) && t.stored is None,
        AuthPhaseView::Announcing(who, session) | AuthPhaseView::Restoring(who, session) => {
            opened(t, who) && t.stored == Some(Ok::<Option<Session>, Seq<char>>(Some(session)))
        },
        AuthPhaseView::Regretting(who, m) => {
            opened(t, who) && must_log_in(t) && m.command is PRIVMSG
        },
        AuthPhaseView::Greeting(who) | AuthPhaseView::LoggingIn(who) => {
            opened(t, who) && must_log_in(t)
        },
        AuthPhaseView::Over(Ok((nick, user, client))) => {
            &&& run.done && run.state.pass is Some
            &&& opened(t, CredentialsView { nick, user, pass: run.state.pass->0 })
            &&& ended_with(t, client)
        },
        AuthPhaseView::Over(Err(_)) => true,
    }
}

/// Whether a Matrix client is the one that restoring the stored session gave, or else the one
/// that the login gave.
pub open spec fn ended_with<C>(t: AuthTrace<C>, client: C) -> bool {
    ||| t.stored matches Some(Ok(Some(_))) && t.restored == Some(Ok::<C, Seq<char>>(client))
    ||| must_log_in(t) && t.logged_in == Some(Ok::<C, Seq<char>>(client))
}

/// One more message from a client that has not said all it had to say.
proof fn lemma_heard_one(s: AuthView, run: Seq<CommandView>, c: CommandView)
    requires
        !auth_run(s, run).done,
    ensures
        ({
            let before = auth_run(s, run);
            let after = auth_run(s, run.push(c));
            &&& after.state == before.state.heard(c)
            &&& after.done == (auth_action(c) is Done)
            &&& after.sent == match auth_action(c) {
                AuthActionView::Send(m) => before.sent.push(m),
                _ => before.sent,
            }
        }),
    decreases run.len(),
{
    let longer = run.push(c);
    if run.len() == 0 {
        reveal_with_fuel(auth_run, 2);
        assert(longer.drop_first() =~= Seq::<CommandView>::empty());
        assert(longer[0] == c);
    } else {
        assert(longer[0] == run[0]);
        assert(longer.drop_first() =~= run.drop_first().push(c));
        lemma_heard_one(s.heard(run[0]), run.drop_first(), c);
        if let AuthActionView::Send(m) = auth_action(c) {
            if let AuthActionView::Send(n) = auth_action(run[0]) {
                let rest = auth_run(s.heard(run[0]), run.drop_first()).sent;
                assert(seq![n] + rest.push(m) =~= (seq![n] + rest).push(m));
            }
        }
    }
}

/// What a client says keeps it where it has to be.
proof fn lemma_traced_heard<C>(t: AuthTrace<C>, s: AuthView, command: CommandView)
    requires
        traced(t),
        t.phase == AuthPhaseView::<C>::Asking(s),
    ensures
        traced(t.followed_by(AuthEventView::Heard(command))),
{
    reveal(traced);
    let next = t.followed_by(AuthEventView::Heard(command));
    lemma_heard_one(AuthView { nick: None, user: None, pass: None }, t.heard, command);
    assert(sent_behind(next) == sent_behind(t));
    assert(replies_sent(next) == replies_sent(t));
    assert(heard_out(next)) by {
        assert forall|i: int| 0 <= i < t.heard.len() implies !((#[trigger] next.heard[i]) is USER) by {
            assert(!(t.heard[i] is USER));
        }
    }
    if let AuthActionView::Send(m) = auth_action(command) {
        assert(replies_sent(t).is_prefix_of(replies_sent(t).push(m)));
    }
}

/// What a client is sent, or cannot be sent, keeps it where it has to be.
proof fn lemma_traced_sent<C>(t: AuthTrace<C>, count: nat, failure: Option<Seq<char>>)
    requires
        traced(t),
    ensures
        traced(t.followed_by(AuthEventView::Sent(count, failure))),
{
    reveal(traced);
    let next = t.followed_by(AuthEventView::Sent(count, failure));
    let out = t.phase.outgoing();
    let went = next.sent.skip(t.sent.len() as int);
    assert(next.sent =~= t.sent + went);
    assert(introduced(next) == introduced(t));
    assert(forall|i: int| 0 <= i < t.sent.len() ==> #[trigger] next.sent[i] == t.sent[i]);
    if let AuthPhaseView::Answering(_, m) = t.phase {
        assert(sent_behind(next) =~= Seq::empty());
        if failure is None {
            assert(replies_sent(next) =~= replies_sent(t).push(m));
        } else {
            assert(replies_sent(next) =~= replies_sent(t));
        }
        assert forall|i: int| 0 <= i < next.replies implies is_reply(#[trigger] next.sent[i]) by {
            if i < t.replies {
                assert(is_reply(t.sent[i]));
            }
        }
    } else {
        assert(sent_behind(next) =~= sent_behind(t) + went);
        assert(replies_sent(next) =~= replies_sent(t));
        match t.phase {
            AuthPhaseView::Welcoming(who) => {
                assert(sent_behind(next) =~= went);
                assert(went.len() > 0 ==> went =~= seq![welcome_line(who.nick)]);
            },
            AuthPhaseView::Joining(who) => {
                let first = seq![welcome_line(who.nick)];
                assert(sent_behind(next) =~= first + went);
                assert(went.is_prefix_of(out));
                assert(sent_behind(next).is_prefix_of(opening(who.nick, who.user)));
                if failure is None {
                    assert(sent_behind(next) =~= opening(who.nick, who.user));
                }
            },
            AuthPhaseView::Announcing(who, _) | AuthPhaseView::Regretting(who, _) | AuthPhaseView::Greeting(
                who,
            ) => {
                lemma_still_opened(t, next, who);
            },
            _ => {
                assert(went =~= Seq::empty());
                assert(sent_behind(next) =~= sent_behind(t));
            },
        }
    }
}

/// More words of the bridge leave the opening as it is.
proof fn lemma_still_opened<C>(t: AuthTrace<C>, next: AuthTrace<C>, who: CredentialsView)
    requires
        opened(t, who),
        next.heard == t.heard,
        next.replies == t.replies <= t.sent.len() <= next.sent.len(),
        t.sent.is_prefix_of(next.sent),
        forall|i: int| t.sent.len() <= i < next.sent.len() ==> (#[trigger] next.sent[i]).command is PRIVMSG,
    ensures
        opened(next, who),
        begun(next),
{
    let before = sent_behind(t);
    let after = sent_behind(next);
    assert(forall|i: int| 0 <= i < t.sent.len() ==> #[trigger] next.sent[i] == t.sent[i]);
    assert(forall|i: int| 0 <= i < before.len() ==> #[trigger] after[i] == before[i]);
    assert(opening(who.nick, who.user).is_prefix_of(after)) by {
        let first = opening(who.nick, who.user);
        assert(after.subrange(0, 5) =~= before.subrange(0, 5));
    }
    assert forall|i: int| 5 <= i < after.len() implies (#[trigger] after[i]).command is PRIVMSG by {
        if i < before.len() {
            assert(before[i].command is PRIVMSG);
        } else {
            assert(next.sent[i + t.replies].command is PRIVMSG);
        }
    }
}

/// Whatever happens to a client, it is where it has to be.
proof fn lemma_traced<C>(events: Seq<AuthEventView<C>>)
    ensures
        traced(auth_trace(events)),
    decreases events.len(),
{
    if events.len() == 0 {
        reveal(traced);
        let t = AuthTrace::<C>::start();
        assert(replies_sent(t) =~= introduced(t).sent);
    } else {
        lemma_traced(events.drop_last());
        let t = auth_trace(events.drop_last());
        match (t.phase, events.last()) {
            (AuthPhaseView::Asking(s), AuthEventView::Heard(command)) => lemma_traced_heard(
                t,
                s,
                command,
            ),
            (_, AuthEventView::Sent(count, failure)) => lemma_traced_sent(t, count, failure),
            _ => {
                reveal(traced);
                let next = t.followed_by(events.last());
                assert(sent_behind(next) == sent_behind(t));
                assert(replies_sent(next) == replies_sent(t));
                assert(introduced(next) == introduced(t));
            },
        }
    }
}

/// Apart from replies to a `PING` and to a question about capabilities, the first that a client
/// is sent is the welcome, with the nick that it gave, and then what puts it into the bridge's
/// own channel: nothing is said to it before all of that was sent. The replies are those that
/// what the client said asks for, in order.
pub proof fn the_welcome_comes_first<C>(events: Seq<AuthEventView<C>>)
    ensures
        ({
            let t = auth_trace(events);
            let who = introduced(t).state;
            &&& t.replies <= t.sent.len()
            &&& forall|i: int| 0 <= i < t.replies ==> is_reply(#[trigger] t.sent[i])
            &&& replies_sent(t).is_prefix_of(introduced(t).sent)
            &&& t.sent.len() > t.replies ==> {
                &&& who.nick is Some
                &&& t.sent[t.replies as int] == welcome_line(who.nick->0)
            }
            &&& forall|i: int|
                0 <= i < t.sent.len() && (#[trigger] t.sent[i]).command is PRIVMSG ==> {
                    &&& who.nick is Some && who.user is Some
                    &&& i >= t.replies + 5
                    &&& opening(who.nick->0, who.user->0).is_prefix_of(sent_behind(t))
                }
        }),
{
    lemma_traced(events);
    reveal(traced);
    let t = auth_trace(events);
    let sent = sent_behind(t);
    let who = introduced(t).state;
    if sent.len() > 0 {
        let first = opening(who.nick->0, who.user->0);
        assert(first[0] == welcome_line(who.nick->0));
        assert(sent[0] == first[0]) by {
            if first.is_prefix_of(sent) {
                assert(sent.subrange(0, 5)[0] == sent[0]);
            } else {
                assert(first.subrange(0, sent.len() as int)[0] == first[0]);
            }
        }
        assert(t.sent[t.replies as int] == sent[0]);
        assert forall|i: int| 0 <= i < t.sent.len() && (#[trigger] t.sent[i]).command is PRIVMSG implies {
            &&& i >= t.replies + 5
            &&& first.is_prefix_of(sent)
        } by {
            if i < t.replies {
                assert(is_reply(t.sent[i]));
            } else {
                let k = i - t.replies;
                assert(sent[k] == t.sent[i]);
                if k < 5 {
                    assert(sent[k] == first[k]) by {
                        if first.is_prefix_of(sent) {
                            assert(sent.subrange(0, 5)[k] == sent[k]);
                        } else {
                            assert(first.subrange(0, sent.len() as int)[k] == first[k]);
                        }
                    }
                } else {
                    assert(sent.len() > first.len());
                }
            }
        }
    } else {
        assert forall|i: int| 0 <= i < t.sent.len() implies !((#[trigger] t.sent[i]).command is PRIVMSG) by {
            assert(is_reply(t.sent[i]));
        }
    }
}

/// What was stored of a client is looked up with the nick and the password that it gave, and
/// decides what follows: an error is the end, a session is restored, and only without one, or
/// where it could not be restored, the client logs in. Where it ends well, it is with the nick
/// and the user name that the client gave, and with the Matrix client that restoring or the
/// login gave.
pub proof fn the_lookup_decides<C>(events: Seq<AuthEventView<C>>)
    ensures
        ({
            let t = auth_trace(events);
            let who = introduced(t).state;
            &&& t.stored matches Some(Err(e)) ==> t.phase == AuthPhaseView::<C>::Over(Err(e))
            &&& match t.phase {
                AuthPhaseView::LookingUp(w) => is_who(t, w),
                AuthPhaseView::Restoring(w, session) => {
                    &&& is_who(t, w)
                    &&& t.stored == Some(Ok::<Option<Session>, Seq<char>>(Some(session)))
                },
                AuthPhaseView::LoggingIn(w) => is_who(t, w) && must_log_in(t),
                AuthPhaseView::Over(Ok((nick, user, client))) => {
                    &&& who.nick == Some(nick)
                    &&& who.user == Some(user)
                    &&& ended_with(t, client)
                },
                _ => true,
            }
        }),
{
    lemma_traced(events);
    reveal(traced);
}

/// A client that has said who it is goes by its first user name, and by the last nick and the
/// last password that it gave before. Nothing that it said later was heard for that.
pub proof fn clients_go_by_their_last_words<C>(events: Seq<AuthEventView<C>>, i: int)
    requires
        introduced(auth_trace(events)).done,
    ensures
        ({
            let t = auth_trace(events);
            let n = t.heard.len() - 1;
            let who = introduced(t).state;
            &&& n >= 0 && t.heard[n] is USER
            &&& forall|j: int| 0 <= j < n ==> !((#[trigger] t.heard[j]) is USER)
            &&& who.user == Some(t.heard[n]->USER_0)
            &&& last_nick(t.heard, n, i) ==> who.nick == Some(t.heard[i]->NICK_0)
            &&& last_pass(t.heard, n, i) ==> who.pass == Some(t.heard[i]->PASS_0)
        }),
{
    lemma_traced(events);
    reveal(traced);
    let t = auth_trace(events);
    the_last_word_counts(
        AuthView { nick: None, user: None, pass: None },
        t.heard,
        t.heard.len() - 1,
        i,
        Seq::empty(),
    );
}

/// A client that says nothing any more before it gave a user name is not let in.
pub proof fn silent_clients_are_refused<C>(events: Seq<AuthEventView<C>>)
    requires
        auth_trace(events).phase is Asking,
    ensures
        auth_trace(events.push(AuthEventView::StreamEnded)).phase == AuthPhaseView::<C>::Over(
            Err("nick or pass wasn't set for client!"@),
        ),
{
    lemma_traced(events);
    reveal(traced);
    assert(events.push(AuthEventView::StreamEnded).drop_last() =~= events);
}

/// A client goes on to be welcomed exactly where it gave a nick, a user name and a password, by
/// just these; otherwise it is refused. Before its user name it is asked on, answered or not.
pub proof fn clients_need_all_three<C>(s: AuthView, command: CommandView)
    ensures
        (match with_credentials::<C>(s) {
            AuthPhaseView::Welcoming(who) => {
                &&& s.nick == Some(who.nick) && s.user == Some(who.user) && s.pass == Some(who.pass)
            },
            AuthPhaseView::Over(Err(e)) => {
                &&& s.nick is None || s.user is None || s.pass is None
                &&& e == "nick or pass wasn't set for client!"@
            },
            _ => false,
        }),
        (match (after_heard::<C>(s, command), auth_action(command)) {
            (AuthPhaseView::Asking(t), AuthActionView::Wait) => t == s.heard(command),
            (AuthPhaseView::Answering(t, m), AuthActionView::Send(n)) => t == s.heard(command) && m == n,
            (next, AuthActionView::Done) => next == with_credentials::<C>(s.heard(command)),
            _ => false,
        }),
{
}

/// Each phase sends what it is for: the reply, the welcome, the bridge's own channel, what comes
/// of the session, and how to log in. When that was sent the next phase is on, and where it
/// could not be sent it is over with that error.
pub proof fn phases_send_and_go_on<C>(
    s: AuthView,
    m: MessageView,
    who: CredentialsView,
    session: Session,
    e: Seq<char>,
)
    ensures
        ({
            let phase = AuthPhaseView::<C>::Answering(s, m);
            &&& phase.outgoing() == seq![m]
            &&& phase.after_sending(None) == AuthPhaseView::<C>::Asking(s)
            &&& phase.after_sending(Some(e)) == AuthPhaseView::<C>::Over(Err(e))
        }),
        ({
            let phase = AuthPhaseView::<C>::Welcoming(who);
            &&& phase.outgoing() == seq![
                raw_line(":matrirc 001 "@ + who.nick + " :Welcome to matrirc"@),
            ]
            &&& phase.after_sending(None) == AuthPhaseView::<C>::Joining(who)
            &&& phase.after_sending(Some(e)) == AuthPhaseView::<C>::Over(Err(e))
        }),
        ({
            let phase = AuthPhaseView::<C>::Joining(who);
            &&& phase.outgoing() == own_chan_messages(who.nick, who.user)
            &&& phase.after_sending(None) == AuthPhaseView::<C>::LookingUp(who)
            &&& phase.after_sending(Some(e)) == AuthPhaseView::<C>::Over(Err(e))
        }),
        ({
            let phase = AuthPhaseView::<C>::Announcing(who, session);
            &&& phase.outgoing() == seq![
                said(
                    who.nick,
                    "Welcome to matrirc. Restoring session to "@ + session.homeserver@,
                ),
            ]
            &&& phase.after_sending(None) == AuthPhaseView::<C>::Restoring(who, session)
            &&& phase.after_sending(Some(e)) == AuthPhaseView::<C>::Over(Err(e))
        }),
        ({
            let phase = AuthPhaseView::<C>::Regretting(who, m);
            &&& phase.outgoing() == seq![m]
            &&& phase.after_sending(None) == AuthPhaseView::<C>::Greeting(who)
            &&& phase.after_sending(Some(e)) == AuthPhaseView::<C>::Over(Err(e))
        }),
        ({
            let phase = AuthPhaseView::<C>::Greeting(who);
            &&& phase.outgoing() == seq![
                said(
                    who.nick,
                    "Welcome to matrirc. Please login to matrix by replying with: <homeserver> [<user> <pass>]"@,
                ),
            ]
            &&& phase.after_sending(None) == AuthPhaseView::<C>::LoggingIn(who)
            &&& phase.after_sending(Some(e)) == AuthPhaseView::<C>::Over(Err(e))
        }),
{
}

/// A phase that sends nothing stays until what it waits for happened.
pub proof fn silent_phases_stay<C>(phase: AuthPhaseView<C>, failure: Option<Seq<char>>)
    requires
        phase is Asking || phase is LookingUp || phase is Restoring || phase is LoggingIn
            || phase is Over,
    ensures
        phase.outgoing().len() == 0,
        phase.after_sending(failure) == phase,
{
}

/// What was looked up decides: an error is the end, a session is announced, and without one the
/// client is greeted. A restored session, and a login, end well with who the client is and the
/// Matrix client; a session that could not be restored is regretted, with the reason, and a
/// login that failed is the end with its error.
pub proof fn outcomes_decide<C>(who: CredentialsView, session: Session, client: C, e: Seq<char>)
    ensures
        after_lookup::<C>(who, Err(e)) == AuthPhaseView::<C>::Over(Err(e)),
        after_lookup::<C>(who, Ok(Some(session))) == AuthPhaseView::<C>::Announcing(who, session),
        after_lookup::<C>(who, Ok(None)) == AuthPhaseView::<C>::Greeting(who),
        after_restoring(who, Ok(client)) == AuthPhaseView::Over(Ok((who.nick, who.user, client))),
        after_restoring::<C>(who, Err(e)) == AuthPhaseView::<C>::Regretting(
            who,
            said(
                who.nick,
                "Restoring session failed: "@ + e
                    + ". Login again as follow or try to reconnect later."@,
            ),
        ),
        after_login(who, Ok(client)) == AuthPhaseView::Over(Ok((who.nick, who.user, client))),
        after_login::<C>(who, Err(e)) == AuthPhaseView::<C>::Over(Err(e)),
{
}

} // verus!
