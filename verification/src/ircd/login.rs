//! How a client logs in: first to the bridge, then, through a query with the bridge, to Matrix.

use vstd::prelude::*;
use vstd::string::*;
use vstd::utf8::*;

use crate::ircd::chan::names_end;
use crate::ircd::proto::{
    ascii_nick_has_user, copy_text, has_user, join, lemma_encode_concat, message_from, messages, opt_text, pong,
    privmsg, privmsg_from, raw_line, raw_msg, Command, CommandView, Message, MessageView,
    PrefixView,
};
use crate::text::{
    cat2, cat3, cat4, cat5, lemma_split_on_nonempty, lemma_unsplit, same, split, split_on, texts,
};

verus! {

/// What a client has said of itself so far.
#[derive(Debug)]
pub struct AuthState {
    nick: Option<String>,
    user: Option<String>,
    pass: Option<String>,
}

/// What an [`AuthState`] holds.
pub struct AuthView {
    pub nick: Option<Seq<char>>,
    pub user: Option<Seq<char>>,
    pub pass: Option<Seq<char>>,
}

impl View for AuthState {
    type V = AuthView;

    closed spec fn view(&self) -> AuthView {
        AuthView { nick: opt_text(self.nick), user: opt_text(self.user), pass: opt_text(self.pass) }
    }
}

/// What is done with a message from a client that is not known yet.
#[derive(Debug)]
pub enum AuthAction {
    /// This is sent, and the next message is waited for.
    Send(Message),
    /// The next message is waited for.
    Wait,
    /// The client has said all it had to say.
    Done,
}

/// What an [`AuthAction`] holds.
pub enum AuthActionView {
    Send(MessageView),
    Wait,
    Done,
}

impl View for AuthAction {
    type V = AuthActionView;

    open spec fn view(&self) -> AuthActionView {
        match *self {
            AuthAction::Send(m) => AuthActionView::Send(m@),
            AuthAction::Wait => AuthActionView::Wait,
            AuthAction::Done => AuthActionView::Done,
        }
    }
}

impl AuthView {
    /// What a client has said of itself after one more message.
    pub open spec fn heard(self, command: CommandView) -> AuthView {
        match command {
            CommandView::NICK(nick) => AuthView { nick: Some(nick), ..self },
            CommandView::PASS(pass) => AuthView { pass: Some(pass), ..self },
            CommandView::USER(user) => AuthView { user: Some(user), ..self },
            _ => self,
        }
    }
}

/// What is done with a message from a client that is not known yet.
pub open spec fn auth_action(command: CommandView) -> AuthActionView {
    match command {
        CommandView::USER(_) => AuthActionView::Done,
        CommandView::PING(server, server2) => AuthActionView::Send(
            message_from(None, CommandView::PONG(server, server2)),
        ),
        CommandView::CAP(Some(code)) => if code == "302"@ {
            AuthActionView::Send(raw_line(":matrirc CAP * LS :"@))
        } else {
            AuthActionView::Wait
        },
        _ => AuthActionView::Wait,
    }
}

/// Who a client says it is.
#[derive(Debug)]
pub struct Credentials {
    pub nick: String,
    pub user: String,
    pub pass: String,
}

impl AuthState {
    /// A client that has said nothing yet.
    pub fn new() -> (r: Self)
        ensures
            r@ == (AuthView { nick: None, user: None, pass: None }),
    {
        AuthState { nick: None, user: None, pass: None }
    }

    /// Who the client says it is. It has to have given a nick, a password and a user name.
    pub fn credentials(self) -> (r: Result<Credentials, String>)
        ensures
            (match r {
                Ok(c) => {
                    &&& self@.nick == Some(c.nick@)
                    &&& self@.user == Some(c.user@)
                    &&& self@.pass == Some(c.pass@)
                },
                Err(e) => {
                    &&& self@.nick is None || self@.user is None || self@.pass is None
                    &&& e@ == "nick or pass wasn't set for client!"@
                },
            }),
    {
        match (self.nick, self.user, self.pass) {
            (Some(nick), Some(user), Some(pass)) => Ok(Credentials { nick, user, pass }),
            _ => Err("nick or pass wasn't set for client!".to_owned()),
        }
    }
}

/// Takes in a message from a client that is not known yet.
pub fn auth_loop(state: &mut AuthState, message: &Message) -> (r: AuthAction)
    ensures
        final(state)@ == old(state)@.heard(message@.command),
        r@ == auth_action(message@.command),
{
    match &message.command {
        Command::NICK(nick) => {
            state.nick = Some(nick.clone());
            AuthAction::Wait
        },
        Command::PASS(pass) => {
            state.pass = Some(pass.clone());
            AuthAction::Wait
        },
        Command::USER(user) => {
            state.user = Some(user.clone());
            AuthAction::Done
        },
        Command::PING(server, server2) => {
            AuthAction::Send(pong(server.clone(), copy_text(server2)))
        },
        Command::CAP(Some(code)) => {
            // required for recent-ish versions of irssi
            if same(code, "302") {
                AuthAction::Send(raw_msg(":matrirc CAP * LS :"))
            } else {
                AuthAction::Wait
            }
        },
        _ => AuthAction::Wait,
    }
}

/// What became of a run of messages from a client that is not known yet: what it said of itself,
/// what it was sent, in order, and whether it said all it had to say.
#[verifier::ext_equal]
pub struct AuthRun {
    pub state: AuthView,
    pub sent: Seq<MessageView>,
    pub done: bool,
}

/// All that comes of a run of messages, up to the first `USER`.
pub open spec fn auth_run(s: AuthView, run: Seq<CommandView>) -> AuthRun
    decreases run.len(),
{
    if run.len() == 0 {
        AuthRun { state: s, sent: Seq::empty(), done: false }
    } else {
        let next = s.heard(run[0]);
        match auth_action(run[0]) {
            AuthActionView::Done => AuthRun { state: next, sent: Seq::empty(), done: true },
            AuthActionView::Send(m) => {
                let rest = auth_run(next, run.drop_first());
                AuthRun { sent: seq![m] + rest.sent, ..rest }
            },
            AuthActionView::Wait => auth_run(next, run.drop_first()),
        }
    }
}

/// Whether `i` is the last place of a run before place `n` where a client gave a nick.
pub open spec fn last_nick(run: Seq<CommandView>, n: int, i: int) -> bool {
    0 <= i < n && run[i] is NICK && forall|j: int| i < j < n ==> !((#[trigger] run[j]) is NICK)
}

/// Whether `i` is the last place of a run before place `n` where a client gave a password.
pub open spec fn last_pass(run: Seq<CommandView>, n: int, i: int) -> bool {
    0 <= i < n && run[i] is PASS && forall|j: int| i < j < n ==> !((#[trigger] run[j]) is PASS)
}

/// A client has said all it had to say with its first user name: that one counts, with the last
/// nick and the last password that it gave before, whatever else it said before or between them.
/// Nothing behind the first user name counts, no password, nick or other user name.
pub proof fn the_last_word_counts(
    s: AuthView,
    run: Seq<CommandView>,
    n: int,
    i: int,
    behind: Seq<CommandView>,
)
    requires
        0 <= n < run.len(),
        run[n] is USER,
        forall|j: int| 0 <= j < n ==> !((#[trigger] run[j]) is USER),
    ensures
        auth_run(s, run).done,
        auth_run(s, run).state.user == Some(run[n]->USER_0),
        last_nick(run, n, i) ==> auth_run(s, run).state.nick == Some(run[i]->NICK_0),
        last_pass(run, n, i) ==> auth_run(s, run).state.pass == Some(run[i]->PASS_0),
        (forall|j: int| 0 <= j < n ==> !((#[trigger] run[j]) is NICK)) ==> auth_run(s, run).state.nick
            == s.nick,
        (forall|j: int| 0 <= j < n ==> !((#[trigger] run[j]) is PASS)) ==> auth_run(s, run).state.pass
            == s.pass,
        auth_run(s, run) == auth_run(s, run.take(n + 1) + behind),
    decreases run.len(),
{
    let other = run.take(n + 1) + behind;
    assert(other[0] == run[0]);
    if n > 0 {
        let rest = run.drop_first();
        let next = s.heard(run[0]);
        assert(rest[n - 1] == run[n]);
        assert forall|j: int| 0 <= j < n - 1 implies !((#[trigger] rest[j]) is USER) by {
            assert(!(run[j + 1] is USER));
        }
        the_last_word_counts(next, rest, n - 1, i - 1, behind);
        assert(other.drop_first() =~= rest.take(n) + behind);
        if last_nick(run, n, i) && i > 0 {
            assert(last_nick(rest, n - 1, i - 1)) by {
                assert forall|j: int| i - 1 < j < n - 1 implies !((#[trigger] rest[j]) is NICK) by {
                    assert(!(run[j + 1] is NICK));
                }
            }
        }
        if last_pass(run, n, i) && i > 0 {
            assert(last_pass(rest, n - 1, i - 1)) by {
                assert forall|j: int| i - 1 < j < n - 1 implies !((#[trigger] rest[j]) is PASS) by {
                    assert(!(run[j + 1] is PASS));
                }
            }
        }
        lemma_no_word(run, n);
        if last_nick(run, n, i) && i == 0 {
            assert forall|j: int| 0 <= j < n - 1 implies !((#[trigger] rest[j]) is NICK) by {
                assert(!(run[j + 1] is NICK));
            }
        }
        if last_pass(run, n, i) && i == 0 {
            assert forall|j: int| 0 <= j < n - 1 implies !((#[trigger] rest[j]) is PASS) by {
                assert(!(run[j + 1] is PASS));
            }
        }
    }
}

/// What does not occur in a run does not occur behind its first message.
proof fn lemma_no_word(run: Seq<CommandView>, n: int)
    requires
        0 < n < run.len(),
    ensures
        (forall|j: int| 0 <= j < n ==> !((#[trigger] run[j]) is NICK)) ==> !(run[0] is NICK) && (
        forall|j: int| 0 <= j < n - 1 ==> !((#[trigger] run.drop_first()[j]) is NICK)),
        (forall|j: int| 0 <= j < n ==> !((#[trigger] run[j]) is PASS)) ==> !(run[0] is PASS) && (
        forall|j: int| 0 <= j < n - 1 ==> !((#[trigger] run.drop_first()[j]) is PASS)),
{
    let rest = run.drop_first();
    assert(forall|j: int| 0 <= j < n - 1 ==> #[trigger] rest[j] == run[j + 1]);
}

/// The full prefix of a client.
pub open spec fn client_prefix(nick: Seq<char>, user: Seq<char>) -> Seq<char> {
    nick + "!"@ + user + "@matrirc"@
}

/// The first line that a client is sent when it has said who it is.
pub open spec fn welcome_line(nick: Seq<char>) -> MessageView {
    raw_line(":matrirc 001 "@ + nick + " :Welcome to matrirc"@)
}

/// What puts a client into the bridge's own channel.
pub open spec fn own_chan_messages(nick: Seq<char>, user: Seq<char>) -> Seq<MessageView> {
    let own = message_from(Some(client_prefix(nick, user)), CommandView::JOIN("matrirc"@));
    seq![
        own,
        own,
        raw_line(":matrirc 353 "@ + nick + " = "@ + "matrirc"@ + " :@matrirc"@),
        raw_line(names_end(nick, "matrirc"@)),
    ]
}

/// The full prefix of a client.
pub fn prefix_for(nick: &str, user: &str) -> (r: String)
    ensures
        r@ == client_prefix(nick@, user@),
{
    cat4(nick, "!", user, "@matrirc")
}

/// The first line that a client is sent when it has said who it is.
pub fn welcome(nick: &str) -> (r: Message)
    ensures
        r@ == welcome_line(nick@),
{
    // need this to be able to interact with irssi: send welcome before any
    // privmsg exchange even if login isn't over.
    raw_msg(&cat3(":matrirc 001 ", nick, " :Welcome to matrirc"))
}

/// What puts a client into the bridge's own channel, behind the welcome.
pub fn join_own_chan(nick: &str, user: &str) -> (r: Vec<Message>)
    requires
        has_user(client_prefix(nick@, user@)),
    ensures
        messages(r@) == own_chan_messages(nick@, user@),
{
    let prefix = prefix_for(nick, user);
    let mut r: Vec<Message> = Vec::new();
    r.push(join(Some(&prefix), "matrirc"));
    r.push(join(Some(&prefix), "matrirc"));
    r.push(raw_msg(&cat5(":matrirc 353 ", nick, " = ", "matrirc", " :@matrirc")));
    r.push(raw_msg(&cat5(":matrirc 366 ", nick, " ", "matrirc", " :End")));
    assert(messages(r@) =~= own_chan_messages(nick@, user@));
    r
}

/// Something that the bridge says to a client.
pub open spec fn said(nick: Seq<char>, text: Seq<char>) -> MessageView {
    privmsg_from("matrirc"@, nick, text)
}

/// Something that the bridge says to a client.
pub fn say(nick: &str, text: &str) -> (r: Message)
    ensures
        r@ == said(nick@, text@),
{
    proof {
        reveal_strlit("matrirc");
        ascii_nick_has_user("matrirc"@);
    }
    privmsg("matrirc", nick, text)
}

/// A client that could be welcomed has a nick that messages can come from.
pub proof fn welcomed_clients_have_users(nick: Seq<char>, user: Seq<char>)
    requires
        has_user(client_prefix(nick, user)),
    ensures
        has_user(nick),
{
    let rest = "!"@ + user + "@matrirc"@;
    let a = encode_utf8(nick);
    let bytes = encode_utf8(nick + rest);
    assert(client_prefix(nick, user) =~= nick + rest);
    lemma_encode_concat(nick, rest);
    encode_utf8_valid_utf8(nick);
    encode_utf8_valid_utf8(nick + rest);
    if a.len() <= 6 {
        is_char_boundary_start_end_of_seq(a);
    } else {
        is_char_boundary_iff_not_is_continuation_byte(a, 6);
        is_char_boundary_iff_not_is_continuation_byte(bytes, 6);
    }
}

/// A way to log in to a Matrix server.
#[derive(Debug)]
pub enum LoginChoice {
    Password,
    /// Single sign-on, with the identity provider where one has to be named.
    Sso(Option<String>),
}

/// What a [`LoginChoice`] holds.
pub enum LoginChoiceView {
    Password,
    Sso(Option<Seq<char>>),
}

impl View for LoginChoice {
    type V = LoginChoiceView;

    open spec fn view(&self) -> LoginChoiceView {
        match *self {
            LoginChoice::Password => LoginChoiceView::Password,
            LoginChoice::Sso(idp) => LoginChoiceView::Sso(opt_text(idp)),
        }
    }
}

/// What a sequence of choices holds.
pub open spec fn choice_views(v: Seq<LoginChoice>) -> Seq<LoginChoiceView> {
    v.map_values(|c: LoginChoice| c@)
}

/// A way to log in that a server names.
#[derive(Debug)]
pub enum LoginType {
    Password,
    /// Single sign-on, with the identity providers that can be chosen.
    Sso(Vec<String>),
    /// Any other way.
    Other,
}

/// What a [`LoginType`] holds.
pub enum LoginTypeView {
    Password,
    Sso(Seq<Seq<char>>),
    Other,
}

impl View for LoginType {
    type V = LoginTypeView;

    open spec fn view(&self) -> LoginTypeView {
        match *self {
            LoginType::Password => LoginTypeView::Password,
            LoginType::Sso(idps) => LoginTypeView::Sso(texts(idps@)),
            LoginType::Other => LoginTypeView::Other,
        }
    }
}

/// What a sequence of login types holds.
pub open spec fn type_views(v: Seq<LoginType>) -> Seq<LoginTypeView> {
    v.map_values(|t: LoginType| t@)
}

/// How far a login to Matrix is, with the client for the server where there is one.
pub enum LoginFlow<C> {
    /// just connected
    Init,
    /// got homeserver, letting user pick auth method
    Homeserver(String, C, Vec<LoginChoice>),
    /// done
    Complete(String, C),
}

/// What a [`LoginFlow`] holds.
#[verifier::ext_equal]
pub enum LoginFlowView<C> {
    Init,
    Homeserver(Seq<char>, C, Seq<LoginChoiceView>),
    Complete(Seq<char>, C),
}

impl<C> View for LoginFlow<C> {
    type V = LoginFlowView<C>;

    open spec fn view(&self) -> LoginFlowView<C> {
        match *self {
            LoginFlow::Init => LoginFlowView::Init,
            LoginFlow::Homeserver(homeserver, client, choices) => LoginFlowView::Homeserver(
                homeserver@,
                client,
                choice_views(choices@),
            ),
            LoginFlow::Complete(homeserver, client) => LoginFlowView::Complete(homeserver@, client),
        }
    }
}

/// What comes next in a login.
pub enum LoginStep<C> {
    /// These are sent, and the client's next message is waited for.
    Wait { send: Vec<Message>, flow: LoginFlow<C> },
    /// The server is connected to. Then the ways to log in are asked for, or, where a user and
    /// a password are given, these are tried.
    Connect { homeserver: String, login: Option<(String, String)> },
    /// This is sent, and a user and a password are tried.
    Password { attempt: Message, homeserver: String, client: C, user: String, pass: String },
    /// Single sign-on is begun, with an identity provider where one is given.
    Sso { homeserver: String, client: C, choices: Vec<LoginChoice>, idp: Option<String> },
    /// The login cannot go on.
    Failed(String),
}

/// What a [`LoginStep`] holds.
#[verifier::ext_equal]
pub enum LoginStepView<C> {
    Wait { send: Seq<MessageView>, flow: LoginFlowView<C> },
    Connect { homeserver: Seq<char>, login: Option<(Seq<char>, Seq<char>)> },
    Password {
        attempt: MessageView,
        homeserver: Seq<char>,
        client: C,
        user: Seq<char>,
        pass: Seq<char>,
    },
    Sso {
        homeserver: Seq<char>,
        client: C,
        choices: Seq<LoginChoiceView>,
        idp: Option<Seq<char>>,
    },
    Failed(Seq<char>),
}

impl<C> View for LoginStep<C> {
    type V = LoginStepView<C>;

    open spec fn view(&self) -> LoginStepView<C> {
        match *self {
            LoginStep::Wait { send, flow } => LoginStepView::Wait {
                send: messages(send@),
                flow: flow@,
            },
            LoginStep::Connect { homeserver, login } => LoginStepView::Connect {
                homeserver: homeserver@,
                login: match login {
                    Some(l) => Some((l.0@, l.1@)),
                    None => None,
                },
            },
            LoginStep::Password { attempt, homeserver, client, user, pass } => LoginStepView::Password {
                attempt: attempt@,
                homeserver: homeserver@,
                client,
                user: user@,
                pass: pass@,
            },
            LoginStep::Sso { homeserver, client, choices, idp } => LoginStepView::Sso {
                homeserver: homeserver@,
                client,
                choices: choice_views(choices@),
                idp: opt_text(idp),
            },
            LoginStep::Failed(e) => LoginStepView::Failed(e@),
        }
    }
}

/// The choices that a way to log in gives.
pub open spec fn choices_of(t: LoginTypeView) -> Seq<LoginChoiceView> {
    match t {
        LoginTypeView::Password => seq![LoginChoiceView::Password],
        LoginTypeView::Sso(idps) => if idps.len() == 0 {
            seq![LoginChoiceView::Sso(None)]
        } else {
            idps.map_values(|id: Seq<char>| LoginChoiceView::Sso(Some(id)))
        },
        LoginTypeView::Other => Seq::empty(),
    }
}

/// The choices that the ways to log in give, in order.
pub open spec fn offered(types: Seq<LoginTypeView>) -> Seq<LoginChoiceView>
    decreases types.len(),
{
    if types.len() == 0 {
        Seq::empty()
    } else {
        offered(types.drop_last()) + choices_of(types.last())
    }
}

/// What a client has to reply to take a choice.
pub open spec fn choice_line(c: LoginChoiceView) -> Seq<char> {
    match c {
        LoginChoiceView::Password => "password <user> <pass>"@,
        LoginChoiceView::Sso(None) => "sso"@,
        LoginChoiceView::Sso(Some(idp)) => "sso "@ + idp,
    }
}

/// What a client is sent when it can choose how to log in.
pub open spec fn choices_told(
    nick: Seq<char>,
    homeserver: Seq<char>,
    choices: Seq<LoginChoiceView>,
) -> Seq<MessageView> {
    seq![
        said(
            nick,
            "Found server at "@ + homeserver + "; complete connection with one the following:"@,
        ),
        said(nick, "reset (start over)"@),
    ] + choices.map_values(|c: LoginChoiceView| said(nick, choice_line(c)))
}

fn offer(nick: &str, choice: LoginChoice, choices: &mut Vec<LoginChoice>, send: &mut Vec<Message>)
    ensures
        choice_views(final(choices)@) == choice_views(old(choices)@).push(choice@),
        messages(final(send)@) == messages(old(send)@).push(said(nick@, choice_line(choice@))),
{
    let message = match &choice {
        LoginChoice::Password => say(nick, "password <user> <pass>"),
        LoginChoice::Sso(None) => say(nick, "sso"),
        LoginChoice::Sso(Some(idp)) => say(nick, &cat2("sso ", idp)),
    };
    send.push(message);
    choices.push(choice);
    assert(choice_views(choices@) =~= choice_views(old(choices)@).push(choice@));
    assert(messages(send@) =~= messages(old(send)@).push(message@));
}

/// Offers a client the ways to log in that a server names.
pub fn matrix_login_choices<C>(nick: &str, homeserver: String, client: C, types: &Vec<LoginType>) -> (r:
    LoginStep<C>)
    ensures
        r@ == ({
            let choices = offered(type_views(types@));
            LoginStepView::Wait {
                send: choices_told(nick@, homeserver@, choices),
                flow: LoginFlowView::Homeserver(homeserver@, client, choices),
            }
        }),
{
    let ghost views = type_views(types@);
    let ghost line = |c: LoginChoiceView| said(nick@, choice_line(c));
    let mut send: Vec<Message> = Vec::new();
    send.push(
        say(
            nick,
            &cat3(
                "Found server at ",
                &homeserver,
                "; complete connection with one the following:",
            ),
        ),
    );
    send.push(say(nick, "reset (start over)"));
    let ghost head = messages(send@);
    let mut choices: Vec<LoginChoice> = Vec::new();
    let mut i: usize = 0;
    assert(views.take(0) =~= Seq::empty());
    assert(choice_views(choices@) =~= Seq::empty());
    assert(head + choice_views(choices@).map_values(line) =~= head);
    while i < types.len()
        invariant
            views == type_views(types@),
            line == (|c: LoginChoiceView| said(nick@, choice_line(c))),
            i <= types@.len(),
            choice_views(choices@) == offered(views.take(i as int)),
            messages(send@) == head + choice_views(choices@).map_values(line),
        decreases types@.len() - i,
    {
        assert(views.take(i + 1).drop_last() =~= views.take(i as int));
        assert(views.take(i + 1).last() == types@[i as int]@);
        let ghost before = choice_views(choices@);
        match &types[i] {
            LoginType::Password => {
                offer(nick, LoginChoice::Password, &mut choices, &mut send);
                assert(choice_views(choices@) =~= before + choices_of(types@[i as int]@));
                assert(messages(send@) =~= head + choice_views(choices@).map_values(line));
            },
            LoginType::Sso(idps) => {
                if idps.len() == 0 {
                    offer(nick, LoginChoice::Sso(None), &mut choices, &mut send);
                    assert(choice_views(choices@) =~= before + choices_of(types@[i as int]@));
                    assert(messages(send@) =~= head + choice_views(choices@).map_values(line));
                } else {
                    let ghost all = choices_of(types@[i as int]@);
                    let mut k: usize = 0;
                    assert(before + all.take(0) =~= before);
                    while k < idps.len()
                        invariant
                            line == (|c: LoginChoiceView| said(nick@, choice_line(c))),
                            k <= idps@.len(),
                            all == texts(idps@).map_values(
                                |id: Seq<char>| LoginChoiceView::Sso(Some(id)),
                            ),
                            choice_views(choices@) == before + all.take(k as int),
                            messages(send@) == head + choice_views(choices@).map_values(line),
                        decreases idps@.len() - k,
                    {
                        let choice = LoginChoice::Sso(Some(idps[k].clone()));
                        assert(choice@ == all[k as int]);
                        offer(nick, choice, &mut choices, &mut send);
                        assert(choice_views(choices@) =~= before + all.take(k + 1));
                        assert(messages(send@) =~= head + choice_views(choices@).map_values(line));
                        k = k + 1;
                    }
                    assert(all.take(k as int) =~= all);
                }
            },
            LoginType::Other => {
                assert(choice_views(choices@) =~= before + choices_of(types@[i as int]@));
            },
        }
        i = i + 1;
    }
    assert(views.take(i as int) =~= views);
    assert(messages(send@) =~= choices_told(nick@, homeserver@, choice_views(choices@)));
    LoginStep::Wait { send, flow: LoginFlow::Homeserver(homeserver, client, choices) }
}

/// A try to log in with a user and a password.
pub open spec fn password_step<C>(
    nick: Seq<char>,
    homeserver: Seq<char>,
    client: C,
    user: Seq<char>,
    pass: Seq<char>,
) -> LoginStepView<C> {
    LoginStepView::Password {
        attempt: said(nick, "Attempting to login to "@ + homeserver + " with "@ + user),
        homeserver,
        client,
        user,
        pass,
    }
}

/// Tries to log in with a user and a password.
pub fn matrix_login_password<C>(nick: &str, homeserver: String, client: C, user: &str, pass: &str) -> (r:
    LoginStep<C>)
    ensures
        r@ == password_step(nick@, homeserver@, client, user@, pass@),
{
    let attempt = say(nick, &cat4("Attempting to login to ", &homeserver, " with ", user));
    LoginStep::Password {
        attempt,
        homeserver,
        client,
        user: user.to_owned(),
        pass: pass.to_owned(),
    }
}

/// What comes of choosing single sign-on: it has to be one of the choices.
pub open spec fn sso_step<C>(
    nick: Seq<char>,
    homeserver: Seq<char>,
    client: C,
    choices: Seq<LoginChoiceView>,
    idp: Option<Seq<char>>,
) -> LoginStepView<C> {
    if choices.contains(LoginChoiceView::Sso(idp)) {
        LoginStepView::Sso { homeserver, client, choices, idp }
    } else {
        LoginStepView::Wait {
            send: seq![said(nick, "invalid idp for sso, try again"@)],
            flow: LoginFlowView::Homeserver(homeserver, client, choices),
        }
    }
}

fn same_choice(a: &LoginChoice, b: &LoginChoice) -> (r: bool)
    ensures
        r == (a@ == b@),
{
    match (a, b) {
        (LoginChoice::Password, LoginChoice::Password) => true,
        (LoginChoice::Sso(None), LoginChoice::Sso(None)) => true,
        (LoginChoice::Sso(Some(x)), LoginChoice::Sso(Some(y))) => same(x, y),
        _ => false,
    }
}

fn has_choice(choices: &Vec<LoginChoice>, choice: &LoginChoice) -> (r: bool)
    ensures
        r == choice_views(choices@).contains(choice@),
{
    let mut i: usize = 0;
    while i < choices.len()
        invariant
            i <= choices@.len(),
            forall|j: int| 0 <= j < i ==> choice_views(choices@)[j] != choice@,
        decreases choices@.len() - i,
    {
        if same_choice(&choices[i], choice) {
            assert(choice_views(choices@)[i as int] == choice@);
            return true;
        }
        i = i + 1;
    }
    false
}

fn one_message(m: Message) -> (r: Vec<Message>)
    ensures
        messages(r@) == seq![m@],
{
    let mut r: Vec<Message> = Vec::new();
    r.push(m);
    assert(messages(r@) =~= seq![m@]);
    r
}

/// Chooses single sign-on.
pub fn matrix_login_sso<C>(
    nick: &str,
    homeserver: String,
    client: C,
    choices: Vec<LoginChoice>,
    idp: Option<String>,
) -> (r: LoginStep<C>)
    ensures
        r@ == sso_step(nick@, homeserver@, client, choice_views(choices@), opt_text(idp)),
{
    let choice = LoginChoice::Sso(idp);
    if !has_choice(&choices, &choice) {
        return LoginStep::Wait {
            send: one_message(say(nick, "invalid idp for sso, try again")),
            flow: LoginFlow::Homeserver(homeserver, client, choices),
        };
    }
    match choice {
        LoginChoice::Sso(idp) => LoginStep::Sso { homeserver, client, choices, idp },
        LoginChoice::Password => LoginStep::Sso { homeserver, client, choices, idp: None },
    }
}

/// Tells a client where to sign on, or, where the place could not be had, why not; then the
/// client can choose again.
pub fn sso_url<C>(
    nick: &str,
    homeserver: String,
    client: C,
    choices: Vec<LoginChoice>,
    url: Result<String, String>,
) -> (r: Result<(Message, String, C), LoginStep<C>>)
    ensures
        (match r {
            Ok((m, h, c)) => {
                &&& url matches Ok(u) && m@ == said(nick@, "Login at this URL: "@ + u@)
                &&& h@ == homeserver@ && c == client
            },
            Err(step) => {
                &&& url matches Err(e) && step@ == (LoginStepView::Wait {
                    send: seq![said(nick@, "Could not get login url: "@ + e@)],
                    flow: LoginFlowView::Homeserver(homeserver@, client, choice_views(choices@)),
                })
            },
        }),
{
    match url {
        Ok(url) => Ok((say(nick, &cat2("Login at this URL: ", &url)), homeserver, client)),
        Err(e) => Err(
            LoginStep::Wait {
                send: one_message(say(nick, &cat2("Could not get login url: ", &e))),
                flow: LoginFlow::Homeserver(homeserver, client, choices),
            },
        ),
    }
}

/// What comes next when a client wrote `message` to the bridge during its login to Matrix.
pub open spec fn login_step<C>(
    nick: Seq<char>,
    flow: LoginFlowView<C>,
    message: Seq<char>,
) -> LoginStepView<C> {
    let words = split_on(message, ' ');
    match flow {
        // accept either single word (homeserver) or three words (homeserver user pass)
        LoginFlowView::Init => if words.len() == 1 {
            LoginStepView::Connect { homeserver: words[0], login: None }
        } else if words.len() == 3 {
            LoginStepView::Connect { homeserver: words[0], login: Some((words[1], words[2])) }
        } else {
            LoginStepView::Wait {
                send: seq![
                    said(nick, "Message not in <homeserver> [<user> <pass>] format, ignoring."@),
                ],
                flow: LoginFlowView::Init,
            }
        },
        LoginFlowView::Homeserver(homeserver, client, choices) => if words == seq!["reset"@] {
            LoginStepView::Wait {
                send: seq![said(nick, "Start over from: <homeserver> [<user> <pass>]"@)],
                flow: LoginFlowView::Init,
            }
        } else if words.len() == 3 && (words[0] == "password"@ || words[0] == "pass"@)
            && choices.contains(LoginChoiceView::Password) {
            password_step(nick, homeserver, client, words[1], words[2])
        } else if words == seq!["sso"@] {
            sso_step(nick, homeserver, client, choices, None)
        } else if words.len() == 2 && words[0] == "sso"@ {
            sso_step(nick, homeserver, client, choices, Some(words[1]))
        } else {
            LoginStepView::Wait {
                send: seq![
                    said(
                        nick,
                        "Message not in recognized login format, try again (or 'reset')"@,
                    ),
                ],
                flow: LoginFlowView::Init,
            }
        },
        LoginFlowView::Complete(_, _) => LoginStepView::Failed(
            "Should never be called with complete type"@,
        ),
    }
}

/// What comes next when a client wrote to the bridge during its login to Matrix.
pub fn matrix_login_state<C>(nick: &str, flow: LoginFlow<C>, message: &str) -> (r: LoginStep<C>)
    ensures
        r@ == login_step(nick@, flow@, message@),
{
    let words = split(message, ' ');
    let ghost views = split_on(message@, ' ');
    proof {
        lemma_split_on_nonempty(message@, ' ');
        assert(texts(words@) == views);
        assert forall|i: int| 0 <= i < words@.len() implies views[i] == (#[trigger] words@[i])@ by {
            assert(texts(words@)[i] == words@[i]@);
        }
    }
    match flow {
        LoginFlow::Init => {
            if words.len() == 1 {
                LoginStep::Connect { homeserver: words[0].clone(), login: None }
            } else if words.len() == 3 {
                LoginStep::Connect {
                    homeserver: words[0].clone(),
                    login: Some((words[1].clone(), words[2].clone())),
                }
            } else {
                LoginStep::Wait {
                    send: one_message(
                        say(
                            nick,
                            "Message not in <homeserver> [<user> <pass>] format, ignoring.",
                        ),
                    ),
                    flow: LoginFlow::Init,
                }
            }
        },
        LoginFlow::Homeserver(homeserver, client, choices) => {
            proof {
                if views.len() == 1 {
                    assert(views =~= seq![views[0]]);
                }
                assert(seq!["reset"@][0] == "reset"@);
                assert(seq!["sso"@][0] == "sso"@);
            }
            if words.len() == 1 && same(&words[0], "reset") {
                LoginStep::Wait {
                    send: one_message(say(nick, "Start over from: <homeserver> [<user> <pass>]")),
                    flow: LoginFlow::Init,
                }
            } else if words.len() == 3 && (same(&words[0], "password") || same(&words[0], "pass"))
                && has_choice(&choices, &LoginChoice::Password) {
                matrix_login_password(nick, homeserver, client, &words[1], &words[2])
            } else if words.len() == 1 && same(&words[0], "sso") {
                matrix_login_sso(nick, homeserver, client, choices, None)
            } else if words.len() == 2 && same(&words[0], "sso") {
                let idp: String = words[1].clone();
                matrix_login_sso(nick, homeserver, client, choices, Some(idp))
            } else {
                LoginStep::Wait {
                    send: one_message(
                        say(
                            nick,
                            "Message not in recognized login format, try again (or 'reset')",
                        ),
                    ),
                    flow: LoginFlow::Init,
                }
            }
        },
        LoginFlow::Complete(_, _) => LoginStep::Failed(
            "Should never be called with complete type".to_owned(),
        ),
    }
}

/// What comes next when a message came in during a login to Matrix.
pub open spec fn loop_step<C>(
    nick: Seq<char>,
    flow: LoginFlowView<C>,
    command: CommandView,
) -> LoginStepView<C> {
    match command {
        CommandView::PING(server, server2) => LoginStepView::Wait {
            send: seq![message_from(None, CommandView::PONG(server, server2))],
            flow,
        },
        CommandView::PRIVMSG(_, body) => login_step(nick, flow, body),
        _ => LoginStepView::Wait { send: Seq::empty(), flow },
    }
}

/// What comes next when a message came in during a login to Matrix.
pub fn matrix_login_loop<C>(nick: &str, flow: LoginFlow<C>, message: &Message) -> (r: LoginStep<C>)
    ensures
        r@ == loop_step(nick@, flow@, message@.command),
{
    match &message.command {
        Command::PING(server, server2) => {
            LoginStep::Wait { send: one_message(pong(server.clone(), copy_text(server2))), flow }
        },
        Command::PRIVMSG(_, body) => matrix_login_state(nick, flow, body),
        _ => {
            let send: Vec<Message> = Vec::new();
            assert(messages(send@) =~= Seq::empty());
            LoginStep::Wait { send, flow }
        },
    }
}

/// Why a step of a login failed.
#[derive(Debug)]
pub struct LoginError {
    pub error: String,
    /// what the error came from, where that is known
    pub cause: Option<String>,
}

impl LoginError {
    /// What the client is told of the error: for a client that could not be built, what that
    /// came from.
    pub open spec fn told(self) -> Seq<char> {
        if self.error@ == "Building matrix client"@ {
            "Could not build client: "@ + match self.cause {
                Some(c) => c@,
                None => "???"@,
            }
        } else {
            self.error@
        }
    }
}

/// A login that starts over after a step of it failed.
pub open spec fn failed_step<C>(nick: Seq<char>, e: LoginError) -> LoginStepView<C> {
    LoginStepView::Wait {
        send: seq![
            said(nick, "Error: "@ + e.told() + "."@),
            said(nick, "Try again from <homeserver> [<user> <pass>]"@),
        ],
        flow: LoginFlowView::Init,
    }
}

/// Starts a login over after a step of it failed.
pub fn login_failed<C>(nick: &str, e: LoginError) -> (r: LoginStep<C>)
    ensures
        r@ == failed_step::<C>(nick@, e),
{
    let told: String = if same(&e.error, "Building matrix client") {
        match &e.cause {
            Some(c) => cat2("Could not build client: ", c),
            None => cat2("Could not build client: ", "???"),
        }
    } else {
        e.error.clone()
    };
    let mut send: Vec<Message> = Vec::new();
    send.push(say(nick, &cat3("Error: ", &told, ".")));
    send.push(say(nick, "Try again from <homeserver> [<user> <pass>]"));
    assert(messages(send@) =~= failed_step::<C>(nick@, e)->send);
    LoginStep::Wait { send, flow: LoginFlow::Init }
}

/// Goes on once the server was asked to let the user in.
pub fn login_tried<C>(
    nick: &str,
    homeserver: String,
    client: C,
    outcome: Result<(), LoginError>,
) -> (r: LoginStep<C>)
    ensures
        r@ == match outcome {
            Ok(()) => LoginStepView::Wait {
                send: Seq::<MessageView>::empty(),
                flow: LoginFlowView::Complete(homeserver@, client),
            },
            Err(e) => failed_step::<C>(nick@, e),
        },
{
    match outcome {
        Ok(()) => {
            let send: Vec<Message> = Vec::new();
            assert(messages(send@) =~= Seq::empty());
            LoginStep::Wait { send, flow: LoginFlow::Complete(homeserver, client) }
        },
        Err(e) => login_failed(nick, e),
    }
}

/// What a client is sent before it logs in to Matrix.
pub fn login_greeting(nick: &str) -> (r: Message)
    ensures
        r@ == said(
            nick@,
            "Welcome to matrirc. Please login to matrix by replying with: <homeserver> [<user> <pass>]"@,
        ),
{
    say(
        nick,
        "Welcome to matrirc. Please login to matrix by replying with: <homeserver> [<user> <pass>]",
    )
}

/// What a client is sent before its session is restored.
pub fn restore_greeting(nick: &str, homeserver: &str) -> (r: Message)
    ensures
        r@ == said(nick@, "Welcome to matrirc. Restoring session to "@ + homeserver@),
{
    say(nick, &cat2("Welcome to matrirc. Restoring session to ", homeserver))
}

/// What comes of restoring a session: where that failed, the client is told, and logs in
/// again.
pub fn matrix_restore_session<C>(nick: &str, outcome: Result<C, String>) -> (r: Result<C, Message>)
    ensures
        (match r {
            Ok(c) => outcome == Ok::<C, String>(c),
            Err(m) => {
                &&& outcome matches Err(e) && m@ == said(
                    nick@,
                    "Restoring session failed: "@ + e@
                        + ". Login again as follow or try to reconnect later."@,
                )
            },
        }),
{
    match outcome {
        Ok(client) => Ok(client),
        Err(e) => Err(
            say(
                nick,
                &cat3(
                    "Restoring session failed: ",
                    &e,
                    ". Login again as follow or try to reconnect later.",
                ),
            ),
        ),
    }
}

/// How a login to Matrix stands.
pub enum LoginPhase<C> {
    /// The client's next message is waited for.
    Waiting(LoginFlow<C>),
    /// The server let the user in: the user is stored, with the homeserver.
    Store { homeserver: String, client: C },
    /// The login is over, with the client for the server or with an error.
    Over(Result<C, String>),
}

/// What a [`LoginPhase`] holds.
#[verifier::ext_equal]
pub enum LoginPhaseView<C> {
    Waiting(LoginFlowView<C>),
    Store { homeserver: Seq<char>, client: C },
    Over(Result<C, Seq<char>>),
}

impl<C> View for LoginPhase<C> {
    type V = LoginPhaseView<C>;

    open spec fn view(&self) -> LoginPhaseView<C> {
        match *self {
            LoginPhase::Waiting(flow) => LoginPhaseView::Waiting(flow@),
            LoginPhase::Store { homeserver, client } => LoginPhaseView::Store {
                homeserver: homeserver@,
                client,
            },
            LoginPhase::Over(Ok(client)) => LoginPhaseView::Over(Ok(client)),
            LoginPhase::Over(Err(e)) => LoginPhaseView::Over(Err(e@)),
        }
    }
}

/// How a login stands when a step of it led to `flow`: the user is stored exactly when it is
/// complete.
pub open spec fn phase_of<C>(flow: LoginFlowView<C>) -> LoginPhaseView<C> {
    match flow {
        LoginFlowView::Complete(homeserver, client) => LoginPhaseView::Store { homeserver, client },
        _ => LoginPhaseView::Waiting(flow),
    }
}

/// How a login stands when the user was stored, or was not.
/// `failure` is why not.
pub open spec fn phase_stored<C>(client: C, failure: Option<Seq<char>>) -> LoginPhaseView<C> {
    match failure {
        None => LoginPhaseView::Over(Ok(client)),
        Some(e) => LoginPhaseView::Over(Err(e)),
    }
}

/// How a login stands when nothing comes from the client any more.
pub open spec fn phase_ended<C>() -> LoginPhaseView<C> {
    LoginPhaseView::Over(Err("Stream finished in matrix login loop?"@))
}

/// Goes on once a step of a login was carried out.
pub fn login_stepped<C>(flow: LoginFlow<C>) -> (r: LoginPhase<C>)
    ensures
        r@ == phase_of(flow@),
{
    match flow {
        LoginFlow::Complete(homeserver, client) => LoginPhase::Store { homeserver, client },
        other => LoginPhase::Waiting(other),
    }
}

/// Ends a login once the user was stored, or was not.
pub fn login_stored<C>(client: C, outcome: Result<(), String>) -> (r: LoginPhase<C>)
    ensures
        r@ == phase_stored(
            client,
            match outcome {
                Ok(()) => None,
                Err(e) => Some(e@),
            },
        ),
{
    match outcome {
        Ok(()) => LoginPhase::Over(Ok(client)),
        Err(e) => LoginPhase::Over(Err(e)),
    }
}

/// Ends a login when nothing comes from the client any more.
pub fn login_stream_ended<C>() -> (r: LoginPhase<C>)
    ensures
        r@ == phase_ended::<C>(),
{
    LoginPhase::Over(Err("Stream finished in matrix login loop?".to_owned()))
}

/// What happens during a login to Matrix.
pub enum LoginEventView<C> {
    /// A message came in, and what it led to was carried out, which led to this.
    Step { command: CommandView, flow: LoginFlowView<C> },
    /// The user was stored, or was not, for this reason.
    Stored(Option<Seq<char>>),
    /// Nothing comes from the client any more.
    StreamEnded,
}

/// Whether a message can lead from one flow to another, whatever the server says: a client that
/// is connected to is asked how to log in or tries to, a try ends in being let in or in
/// starting over, and single sign-on also in choosing again.
#[verifier::opaque]
pub open spec fn leads_to<C>(
    nick: Seq<char>,
    flow: LoginFlowView<C>,
    command: CommandView,
    next: LoginFlowView<C>,
) -> bool {
    match loop_step(nick, flow, command) {
        LoginStepView::Wait { flow: same, .. } => next == same,
        LoginStepView::Connect { homeserver, login: None } => next is Init || (next matches
            LoginFlowView::Homeserver(h, _, _) && h == homeserver),
        LoginStepView::Connect { homeserver, login: Some(_) } => next is Init || (next matches
            LoginFlowView::Complete(h, _) && h == homeserver),
        LoginStepView::Password { homeserver, client, .. } => next is Init || next
            == LoginFlowView::Complete(homeserver, client),
        LoginStepView::Sso { homeserver, client, choices, .. } => next is Init || next
            == LoginFlowView::Complete(homeserver, client) || next == LoginFlowView::Homeserver(
            homeserver,
            client,
            choices,
        ),
        LoginStepView::Failed(_) => next is Init,
    }
}

/// Whatever comes of what a message led to, as the functions for that give it, is where the
/// message can lead: being let in, starting over after a failure, and choosing how to log in.
pub proof fn outcomes_are_led_to<C>(
    nick: Seq<char>,
    flow: LoginFlowView<C>,
    command: CommandView,
    new_client: C,
    types: Seq<LoginTypeView>,
    e: LoginError,
)
    ensures
        (match loop_step(nick, flow, command) {
            LoginStepView::Wait { flow: next, .. } => leads_to(nick, flow, command, next),
            LoginStepView::Connect { homeserver, login } => {
                &&& leads_to(nick, flow, command, failed_step::<C>(nick, e)->flow)
                &&& leads_to(
                    nick,
                    flow,
                    command,
                    match login {
                        None => LoginFlowView::Homeserver(homeserver, new_client, offered(types)),
                        Some(_) => LoginFlowView::Complete(homeserver, new_client),
                    },
                )
            },
            LoginStepView::Password { homeserver, client, .. } => {
                &&& leads_to(nick, flow, command, failed_step::<C>(nick, e)->flow)
                &&& leads_to(nick, flow, command, LoginFlowView::Complete(homeserver, client))
            },
            LoginStepView::Sso { homeserver, client, choices, .. } => {
                &&& leads_to(nick, flow, command, failed_step::<C>(nick, e)->flow)
                &&& leads_to(nick, flow, command, LoginFlowView::Complete(homeserver, client))
                &&& leads_to(
                    nick,
                    flow,
                    command,
                    LoginFlowView::Homeserver(homeserver, client, choices),
                )
            },
            LoginStepView::Failed(_) => leads_to(
                nick,
                flow,
                command,
                failed_step::<C>(nick, e)->flow,
            ),
        }),
{
    reveal(leads_to);
}

/// How a login stands after a run of events.
pub open spec fn login_run<C>(events: Seq<LoginEventView<C>>) -> LoginPhaseView<C>
    decreases events.len(),
{
    if events.len() == 0 {
        LoginPhaseView::Waiting(LoginFlowView::Init)
    } else {
        let before = login_run(events.drop_last());
        match (before, events.last()) {
            (LoginPhaseView::Waiting(_), LoginEventView::Step { flow, .. }) => phase_of(flow),
            (LoginPhaseView::Waiting(_), LoginEventView::StreamEnded) => phase_ended(),
            (LoginPhaseView::Store { client, .. }, LoginEventView::Stored(failure)) => phase_stored(
                client,
                failure,
            ),
            _ => before,
        }
    }
}

/// Whether each message of a run led where it can lead.
pub open spec fn login_runs<C>(nick: Seq<char>, events: Seq<LoginEventView<C>>) -> bool {
    forall|i: int|
        0 <= i < events.len() ==> (#[trigger] events[i] matches LoginEventView::Step { command, flow }
            ==> (login_run(events.take(i)) matches LoginPhaseView::Waiting(before) ==> leads_to(
            nick,
            before,
            command,
            flow,
        )))
}

/// Whether a login that is over ended like this: at event `i` a private message completed it
/// with a homeserver and a client, from there on until event `j` the user was being stored, and
/// that failed for the reason `failure`, if it did.
pub open spec fn completed_at<C>(
    events: Seq<LoginEventView<C>>,
    i: int,
    j: int,
    homeserver: Seq<char>,
    client: C,
    failure: Option<Seq<char>>,
) -> bool {
    &&& 0 <= i < j < events.len()
    &&& events[i] matches LoginEventView::Step { command, flow } && command is PRIVMSG && flow
        == LoginFlowView::Complete(homeserver, client)
    &&& events[j] == LoginEventView::<C>::Stored(failure)
    &&& forall|k: int|
        0 <= k <= i ==> (#[trigger] login_run(events.take(k))) is Waiting
    &&& forall|k: int|
        i < k <= j ==> #[trigger] login_run(events.take(k)) == (LoginPhaseView::Store {
            homeserver,
            client,
        })
    &&& forall|k: int|
        j < k <= events.len() ==> #[trigger] login_run(events.take(k)) == phase_stored(client, failure)
}

/// Whether a private message completed a login at event `i`, and the user is being stored since.
pub open spec fn storing_since<C>(
    events: Seq<LoginEventView<C>>,
    i: int,
    homeserver: Seq<char>,
    client: C,
) -> bool {
    &&& 0 <= i < events.len()
    &&& events[i] matches LoginEventView::Step { command, flow } && command is PRIVMSG && flow
        == LoginFlowView::Complete(homeserver, client)
    &&& forall|k: int| 0 <= k <= i ==> (#[trigger] login_run(events.take(k))) is Waiting
    &&& forall|k: int|
        i < k <= events.len() ==> #[trigger] login_run(events.take(k)) == (LoginPhaseView::Store {
            homeserver,
            client,
        })
}

/// Whether the stream ended at event `i`, while a message was waited for.
pub open spec fn ended_at<C>(events: Seq<LoginEventView<C>>, i: int) -> bool {
    &&& 0 <= i < events.len()
    &&& events[i] is StreamEnded
    &&& forall|k: int| 0 <= k <= i ==> (#[trigger] login_run(events.take(k))) is Waiting
}

proof fn lemma_take_last<C>(events: Seq<LoginEventView<C>>, k: int)
    requires
        events.len() > 0,
        0 <= k < events.len(),
    ensures
        events.drop_last().take(k) == events.take(k),
        events.take(events.len() as int) == events,
{
    assert(events.drop_last().take(k) =~= events.take(k));
    assert(events.take(events.len() as int) =~= events);
}

proof fn lemma_run_head<C>(nick: Seq<char>, events: Seq<LoginEventView<C>>)
    requires
        login_runs(nick, events),
        events.len() > 0,
    ensures
        login_runs(nick, events.drop_last()),
{
    let head = events.drop_last();
    assert forall|i: int| 0 <= i < head.len() implies (#[trigger] head[i] matches
        LoginEventView::Step { command, flow } ==> (login_run(head.take(i)) matches
        LoginPhaseView::Waiting(before) ==> leads_to(nick, before, command, flow))) by {
        lemma_take_last(events, i);
        assert(head[i] == events[i]);
    }
}

/// The first events of a run lead where they led before the last one.
proof fn lemma_heads<C>(events: Seq<LoginEventView<C>>)
    requires
        events.len() > 0,
    ensures
        forall|k: int|
            0 <= k < events.len() ==> #[trigger] login_run(events.take(k)) == login_run(
                events.drop_last().take(k),
            ),
        login_run(events.take(events.len() as int)) == login_run(events),
        login_run(events.take(events.len() - 1)) == login_run(events.drop_last()),
{
    let head = events.drop_last();
    let n = events.len() - 1;
    assert forall|k: int| 0 <= k < events.len() implies #[trigger] login_run(events.take(k))
        == login_run(head.take(k)) by {
        lemma_take_last(events, k);
    }
    lemma_take_last(events, n);
    assert(head.take(n) =~= head);
}

/// Only a private message completes a login.
proof fn lemma_message_completes<C>(
    nick: Seq<char>,
    flow: LoginFlowView<C>,
    command: CommandView,
    next: LoginFlowView<C>,
)
    requires
        !(flow is Complete),
        leads_to(nick, flow, command, next),
        next is Complete,
    ensures
        command is PRIVMSG,
{
    reveal(leads_to);
}

/// Whether a private message completed a login with a homeserver and a client, and the user is
/// being stored since.
pub open spec fn is_storing<C>(
    events: Seq<LoginEventView<C>>,
    homeserver: Seq<char>,
    client: C,
) -> bool {
    exists|i: int| storing_since(events, i, homeserver, client)
}

/// Whether a private message completed a login with a client, and the user was stored once
/// then, or was not, for the reason `failure`.
pub open spec fn was_completed<C>(
    events: Seq<LoginEventView<C>>,
    client: C,
    failure: Option<Seq<char>>,
) -> bool {
    exists|i: int, j: int, homeserver: Seq<char>|
        completed_at(events, i, j, homeserver, client, failure)
}

/// Whether a login was completed, and the user was not stored, for the reason `e`.
pub open spec fn was_not_stored<C>(events: Seq<LoginEventView<C>>, e: Seq<char>) -> bool {
    exists|client: C| was_completed(events, client, Some(e))
}

/// Whether the stream ended while a message was waited for.
pub open spec fn was_ended<C>(events: Seq<LoginEventView<C>>) -> bool {
    exists|i: int| ended_at(events, i)
}

/// Whether a message was waited for all the time.
pub open spec fn was_waiting<C>(events: Seq<LoginEventView<C>>) -> bool {
    forall|k: int| 0 <= k <= events.len() ==> (#[trigger] login_run(events.take(k))) is Waiting
}

/// Whether a login that stands like this came there as it has to.
pub open spec fn well_ended<C>(events: Seq<LoginEventView<C>>) -> bool {
    match login_run(events) {
        LoginPhaseView::Waiting(flow) => !(flow is Complete) && was_waiting(events),
        LoginPhaseView::Store { homeserver, client } => is_storing(events, homeserver, client),
        LoginPhaseView::Over(Ok(client)) => was_completed(events, client, None),
        LoginPhaseView::Over(Err(e)) => was_not_stored(events, e) || (e
            == "Stream finished in matrix login loop?"@ && was_ended(events)),
    }
}

proof fn lemma_from_waiting<C>(nick: Seq<char>, events: Seq<LoginEventView<C>>)
    requires
        events.len() > 0,
        login_runs(nick, events),
        login_run(events.drop_last()) is Waiting,
        well_ended(events.drop_last()),
    ensures
        well_ended(events),
{
    let n = events.len() - 1;
    let head = events.drop_last();
    let f = login_run(head)->Waiting_0;
    lemma_heads(events);
    assert(events[n] == events.last());
    assert forall|k: int| 0 <= k <= n implies (#[trigger] login_run(events.take(k))) is Waiting by {
        assert(login_run(head.take(k)) is Waiting);
    }
    match events.last() {
        LoginEventView::Step { command, flow } => {
            assert(login_run(events.take(n)) == LoginPhaseView::Waiting(f));
            assert(leads_to(nick, f, command, flow));
            assert(login_run(events) == phase_of(flow));
            if let LoginFlowView::Complete(h, c) = flow {
                lemma_message_completes(nick, f, command, flow);
                assert(storing_since(events, n, h, c));
                assert(is_storing(events, h, c));
            } else {
                assert(was_waiting(events));
            }
        },
        LoginEventView::StreamEnded => {
            assert(ended_at(events, n));
            assert(was_ended(events));
        },
        _ => {
            assert(was_waiting(events));
        },
    }
}

proof fn lemma_from_store<C>(events: Seq<LoginEventView<C>>, homeserver: Seq<char>, client: C)
    requires
        events.len() > 0,
        login_run(events.drop_last()) == (LoginPhaseView::Store { homeserver, client }),
        well_ended(events.drop_last()),
    ensures
        well_ended(events),
{
    let n = events.len() - 1;
    let head = events.drop_last();
    lemma_heads(events);
    assert(is_storing(head, homeserver, client));
    let i = choose|i: int| storing_since(head, i, homeserver, client);
    assert(head[i] == events[i]);
    match events.last() {
        LoginEventView::Stored(failure) => {
            assert(login_run(events) == phase_stored(client, failure));
            assert(completed_at(events, i, n, homeserver, client, failure));
            assert(was_completed(events, client, failure));
        },
        _ => {
            assert(login_run(events) == login_run(head));
            assert(storing_since(events, i, homeserver, client));
            assert(is_storing(events, homeserver, client));
        },
    }
}

proof fn lemma_still_completed<C>(
    events: Seq<LoginEventView<C>>,
    client: C,
    failure: Option<Seq<char>>,
)
    requires
        events.len() > 0,
        was_completed(events.drop_last(), client, failure),
        login_run(events.drop_last()) == phase_stored(client, failure),
    ensures
        was_completed(events, client, failure),
{
    let head = events.drop_last();
    lemma_heads(events);
    let (i, j, h) = choose|i: int, j: int, h: Seq<char>| completed_at(head, i, j, h, client, failure);
    assert(head[i] == events[i] && head[j] == events[j]);
    assert(login_run(events) == login_run(head));
    assert(completed_at(events, i, j, h, client, failure));
}

proof fn lemma_from_over<C>(events: Seq<LoginEventView<C>>, result: Result<C, Seq<char>>)
    requires
        events.len() > 0,
        login_run(events.drop_last()) == LoginPhaseView::Over(result),
        well_ended(events.drop_last()),
    ensures
        well_ended(events),
{
    let head = events.drop_last();
    assert(login_run(events) == login_run(head));
    match result {
        Ok(client) => lemma_still_completed(events, client, None),
        Err(e) => {
            if was_not_stored(head, e) {
                let client = choose|client: C| was_completed(head, client, Some(e));
                lemma_still_completed(events, client, Some(e));
            } else {
                let i = choose|i: int| ended_at(head, i);
                lemma_heads(events);
                assert(head[i] == events[i]);
                assert(ended_at(events, i));
                assert(was_ended(events));
            }
        },
    }
}

/// A login is over in one of two ways. Either a private message completed it, and the user was
/// stored once, with the homeserver and the client that it was completed with: where that
/// worked, the login ends with that client, and else with the error of storing. Or nothing came
/// from the client any more before that, which is the error.
pub proof fn logins_end_by_storing_once<C>(nick: Seq<char>, events: Seq<LoginEventView<C>>)
    requires
        login_runs(nick, events),
    ensures
        well_ended(events),
    decreases events.len(),
{
    if events.len() == 0 {
        assert forall|k: int| 0 <= k <= events.len() implies (#[trigger] login_run(events.take(k))) is
            Waiting by {
            assert(events.take(k) =~= events);
        }
    } else {
        lemma_run_head(nick, events);
        logins_end_by_storing_once(nick, events.drop_last());
        match login_run(events.drop_last()) {
            LoginPhaseView::Waiting(_) => lemma_from_waiting(nick, events),
            LoginPhaseView::Store { homeserver, client } => lemma_from_store(
                events,
                homeserver,
                client,
            ),
            LoginPhaseView::Over(result) => lemma_from_over(events, result),
        }
    }
}

/// Whatever a client writes, its words alone never complete a login: that takes a server that
/// let the user in.
pub proof fn words_never_complete_a_login<C>(
    nick: Seq<char>,
    flow: LoginFlowView<C>,
    command: CommandView,
)
    requires
        !(flow is Complete),
    ensures
        loop_step(nick, flow, command) matches LoginStepView::Wait { flow: next, .. } ==> !(next is Complete),
{
}

/// A text of words without spaces, with a space between each two, splits into these words.
proof fn lemma_split_words(a: Seq<char>, b: Seq<char>)
    requires
        !b.contains(' '),
    ensures
        split_on(a + seq![' '] + b, ' ') == split_on(a, ' ').push(b),
    decreases b.len(),
{
    let whole = a + seq![' '] + b;
    if b.len() == 0 {
        assert(b =~= Seq::empty());
        assert(whole.drop_last() =~= a);
        assert(whole.last() == ' ');
        assert(split_on(whole, ' ') =~= split_on(a, ' ').push(b));
    } else {
        let c = b.drop_last();
        assert(whole.drop_last() =~= a + seq![' '] + c);
        assert(forall|i: int| 0 <= i < c.len() ==> c[i] == b[i]);
        assert(b[b.len() - 1] != ' ');
        lemma_split_words(a, c);
        let before = split_on(a, ' ').push(c);
        assert(before.drop_last() =~= split_on(a, ' '));
        assert(c.push(b.last()) =~= b);
        assert(split_on(whole, ' ') =~= split_on(a, ' ').push(b));
    }
}

proof fn lemma_one_word(a: Seq<char>)
    requires
        !a.contains(' '),
    ensures
        split_on(a, ' ') == seq![a],
    decreases a.len(),
{
    if a.len() > 0 {
        let b = a.drop_last();
        assert(forall|i: int| 0 <= i < b.len() ==> b[i] == a[i]);
        assert(a[a.len() - 1] != ' ');
        lemma_one_word(b);
        assert(b.push(a.last()) =~= a);
        assert(split_on(a, ' ') =~= seq![a]);
    } else {
        assert(split_on(a, ' ') =~= seq![a]);
    }
}

/// Every choice that a client is offered can be taken by the reply that it is offered with:
/// single sign-on by that very line, where the identity provider has no space in its name; the
/// password by the line with a user and a password without spaces in place of the hints.
pub proof fn every_choice_can_be_taken<C>(
    nick: Seq<char>,
    homeserver: Seq<char>,
    client: C,
    types: Seq<LoginTypeView>,
    i: int,
    user: Seq<char>,
    pass: Seq<char>,
)
    requires
        0 <= i < offered(types).len(),
        !user.contains(' '),
        !pass.contains(' '),
    ensures
        ({
            let choices = offered(types);
            let flow = LoginFlowView::Homeserver(homeserver, client, choices);
            match choices[i] {
                LoginChoiceView::Password => login_step(
                    nick,
                    flow,
                    "password"@ + seq![' '] + user + seq![' '] + pass,
                ) == password_step(nick, homeserver, client, user, pass),
                LoginChoiceView::Sso(None) => login_step(nick, flow, choice_line(choices[i])) == (
                LoginStepView::Sso { homeserver, client, choices, idp: None }),
                LoginChoiceView::Sso(Some(idp)) => !idp.contains(' ') ==> login_step(
                    nick,
                    flow,
                    choice_line(choices[i]),
                ) == (LoginStepView::Sso { homeserver, client, choices, idp: Some(idp) }),
            }
        }),
{
    let choices = offered(types);
    reveal_strlit("password");
    reveal_strlit("sso");
    reveal_strlit("sso ");
    reveal_strlit("reset");
    assert(choices.contains(choices[i]));
    match choices[i] {
        LoginChoiceView::Password => {
            let a = "password"@ + seq![' '] + user;
            lemma_one_word("password"@);
            lemma_split_words("password"@, user);
            lemma_split_words(a, pass);
            let words = split_on(a + seq![' '] + pass, ' ');
            assert(words =~= seq!["password"@, user, pass]);
        },
        LoginChoiceView::Sso(None) => {
            lemma_one_word("sso"@);
            assert("sso"@[0] != "reset"@[0]);
            assert(seq!["sso"@][0] != seq!["reset"@][0]);
        },
        LoginChoiceView::Sso(Some(idp)) => {
            if !idp.contains(' ') {
                assert("sso "@ + idp =~= "sso"@ + seq![' '] + idp);
                lemma_one_word("sso"@);
                lemma_split_words("sso"@, idp);
                assert(split_on("sso "@ + idp, ' ') =~= seq!["sso"@, idp]);
            }
        },
    }
}

/// A client that is asked who it is says so with its nick, its password and its user name, each
/// of which is kept and leaves the others; the user name is the last. It is answered a `PING`
/// with the `PONG` of the same servers, and the question about capabilities of version 302 with
/// an empty list. Nothing else has an effect.
pub proof fn asked_clients_are_answered(s: AuthView, command: CommandView)
    ensures
        s.heard(command) == match command {
            CommandView::NICK(n) => AuthView { nick: Some(n), user: s.user, pass: s.pass },
            CommandView::PASS(p) => AuthView { nick: s.nick, user: s.user, pass: Some(p) },
            CommandView::USER(u) => AuthView { nick: s.nick, user: Some(u), pass: s.pass },
            _ => s,
        },
        auth_action(command) is Done <==> command is USER,
        command matches CommandView::PING(a, b) ==> auth_action(command) == AuthActionView::Send(
            MessageView { prefix: None, command: CommandView::PONG(a, b) },
        ),
        command matches CommandView::CAP(Some(code)) ==> code == seq!['3', '0', '2'] ==> auth_action(
            command,
        ) == AuthActionView::Send(
            MessageView { prefix: None, command: CommandView::Raw(":matrirc CAP * LS :"@) },
        ),
        auth_action(command) is Send ==> command is PING || command == CommandView::CAP(
            Some(seq!['3', '0', '2']),
        ),
{
    reveal_strlit("302");
    assert("302"@ =~= seq!['3', '0', '2']);
}

/// What the bridge says to a client is a private message to its nick, from the bridge.
pub proof fn the_bridge_speaks_for_itself(nick: Seq<char>, text: Seq<char>)
    ensures
        said(nick, text) == (MessageView {
            prefix: Some(PrefixView::Nickname("matrirc"@, seq!['m', 'a', 't', 'r', 'i', 'r'], "matrirc"@)),
            command: CommandView::PRIVMSG(nick, text),
        }),
{
    reveal_strlit("matrirc");
    ascii_nick_has_user("matrirc"@);
    assert("matrirc"@.take(6) =~= seq!['m', 'a', 't', 'r', 'i', 'r']);
}

/// A client is welcomed by its nick, and put into the bridge's own channel: it joins twice, as
/// nick and user, sees the bridge there, and that this was all.
pub proof fn clients_are_welcomed_by_name(nick: Seq<char>, user: Seq<char>)
    ensures
        welcome_line(nick) == raw_line(":matrirc 001 "@ + nick + " :Welcome to matrirc"@),
        client_prefix(nick, user) == nick + seq!['!'] + user + "@matrirc"@,
        ({
            let sent = own_chan_messages(nick, user);
            let own = message_from(
                Some(nick + seq!['!'] + user + "@matrirc"@),
                CommandView::JOIN("matrirc"@),
            );
            &&& sent.len() == 4
            &&& sent[0] == own && sent[1] == own
            &&& sent[2] == raw_line(":matrirc 353 "@ + nick + " = "@ + "matrirc"@ + " :@matrirc"@)
            &&& sent[3] == raw_line(":matrirc 366 "@ + nick + " "@ + "matrirc"@ + " :End"@)
        }),
{
    reveal_strlit("!");
    assert("!"@ =~= seq!['!']);
}

/// A client is offered what the server names, in its order: a password, single sign-on without
/// a provider where there is none to choose, and otherwise each provider by its name.
pub proof fn offers_follow_the_server(
    a: Seq<LoginTypeView>,
    b: Seq<LoginTypeView>,
    idps: Seq<Seq<char>>,
)
    ensures
        offered(a + b) == offered(a) + offered(b),
        offered(Seq::empty()) == Seq::<LoginChoiceView>::empty(),
        offered(seq![LoginTypeView::Password]) == seq![LoginChoiceView::Password],
        offered(seq![LoginTypeView::Other]) == Seq::<LoginChoiceView>::empty(),
        idps.len() == 0 ==> offered(seq![LoginTypeView::Sso(idps)]) == seq![
            LoginChoiceView::Sso(None),
        ],
        idps.len() > 0 ==> ({
            let choices = offered(seq![LoginTypeView::Sso(idps)]);
            &&& choices.len() == idps.len()
            &&& forall|i: int|
                0 <= i < idps.len() ==> #[trigger] choices[i] == LoginChoiceView::Sso(Some(idps[i]))
        }),
    decreases b.len(),
{
    reveal_with_fuel(offered, 2);
    if b.len() == 0 {
        assert(a + b =~= a);
        assert(offered(a) + offered(b) =~= offered(a));
    } else {
        offers_follow_the_server(a, b.drop_last(), idps);
        assert((a + b).drop_last() =~= a + b.drop_last());
        assert(offered(a + b) =~= offered(a) + offered(b));
    }
    let p = seq![LoginTypeView::Password];
    let o = seq![LoginTypeView::Other];
    let s = seq![LoginTypeView::Sso(idps)];
    assert(p.drop_last() =~= Seq::empty() && o.drop_last() =~= Seq::empty() && s.drop_last()
        =~= Seq::empty());
    assert(offered(p) =~= seq![LoginChoiceView::Password]);
    assert(offered(o) =~= Seq::<LoginChoiceView>::empty());
    if idps.len() == 0 {
        assert(offered(s) =~= seq![LoginChoiceView::Sso(None)]);
    } else {
        assert(offered(s) =~= choices_of(s[0]));
    }
}

/// A client that can choose is told which server was found, that it can start over, and then
/// each choice by what to reply: that is all.
pub proof fn choices_are_told(
    nick: Seq<char>,
    homeserver: Seq<char>,
    choices: Seq<LoginChoiceView>,
    i: int,
)
    ensures
        ({
            let told = choices_told(nick, homeserver, choices);
            &&& told.len() == choices.len() + 2
            &&& told[0] == said(
                nick,
                "Found server at "@ + homeserver
                    + "; complete connection with one the following:"@,
            )
            &&& told[1] == said(nick, "reset (start over)"@)
            &&& 0 <= i < choices.len() ==> told[i + 2] == said(
                nick,
                match choices[i] {
                    LoginChoiceView::Password => "password <user> <pass>"@,
                    LoginChoiceView::Sso(None) => "sso"@,
                    LoginChoiceView::Sso(Some(idp)) => "sso "@ + idp,
                },
            )
        }),
{
}

/// Two words with a space between them.
pub open spec fn two_words(a: Seq<char>, b: Seq<char>) -> Seq<char> {
    a + seq![' '] + b
}

proof fn lemma_words(a: Seq<char>, b: Seq<char>, c: Seq<char>)
    requires
        !a.contains(' '),
        !b.contains(' '),
        !c.contains(' '),
    ensures
        split_on(a, ' ') == seq![a],
        split_on(two_words(a, b), ' ') == seq![a, b],
        split_on(two_words(two_words(a, b), c), ' ') == seq![a, b, c],
{
    lemma_unsplit(a, ' ');
    lemma_split_words(a, b);
    assert(seq![a].push(b) =~= seq![a, b]);
    lemma_split_words(two_words(a, b), c);
    assert(seq![a, b].push(c) =~= seq![a, b, c]);
}

/// A login begins with what the client says to anyone: one word is a homeserver, whose ways to
/// log in are asked for; three words are a homeserver, a user and a password, which are tried.
/// With any other number of words it is told how to begin, and can begin again.
pub proof fn logins_begin_with_a_homeserver<C>(
    nick: Seq<char>,
    target: Seq<char>,
    a: Seq<char>,
    b: Seq<char>,
    c: Seq<char>,
    body: Seq<char>,
)
    requires
        !a.contains(' '),
        !b.contains(' '),
        !c.contains(' '),
    ensures
        ({
            let init = LoginFlowView::<C>::Init;
            let words = split_on(body, ' ');
            &&& loop_step(nick, init, CommandView::PRIVMSG(target, a)) == (LoginStepView::<C>::Connect {
                homeserver: a,
                login: None,
            })
            &&& loop_step(
                nick,
                init,
                CommandView::PRIVMSG(target, two_words(two_words(a, b), c)),
            ) == (LoginStepView::<C>::Connect { homeserver: a, login: Some((b, c)) })
            &&& words.len() != 1 && words.len() != 3 ==> loop_step(
                nick,
                init,
                CommandView::PRIVMSG(target, body),
            ) == (LoginStepView::Wait {
                send: seq![
                    said(nick, "Message not in <homeserver> [<user> <pass>] format, ignoring."@),
                ],
                flow: init,
            })
        }),
{
    lemma_words(a, b, c);
}

/// Each choice that a client has can be taken in the loop, whoever the reply is said to: the
/// password by `password` or `pass` with a user and a password, single sign-on by `sso`, alone
/// or with a provider. Where a provider is not among the choices, the client can choose again.
/// By `reset` it starts over.
pub proof fn choices_are_taken_in_the_loop<C>(
    nick: Seq<char>,
    target: Seq<char>,
    homeserver: Seq<char>,
    client: C,
    choices: Seq<LoginChoiceView>,
    user: Seq<char>,
    pass: Seq<char>,
    idp: Seq<char>,
)
    requires
        !user.contains(' '),
        !pass.contains(' '),
        !idp.contains(' '),
    ensures
        ({
            let flow = LoginFlowView::Homeserver(homeserver, client, choices);
            let reply = |body: Seq<char>|
                loop_step(nick, flow, CommandView::PRIVMSG(target, body));
            let tried = LoginStepView::Password {
                attempt: said(nick, "Attempting to login to "@ + homeserver + " with "@ + user),
                homeserver,
                client,
                user,
                pass,
            };
            let again = LoginStepView::Wait {
                send: seq![said(nick, "invalid idp for sso, try again"@)],
                flow,
            };
            let has = |choice: LoginChoiceView|
                exists|i: int| 0 <= i < choices.len() && choices[i] == choice;
            &&& has(LoginChoiceView::Password) ==> {
                &&& reply(two_words(two_words("password"@, user), pass)) == tried
                &&& reply(two_words(two_words("pass"@, user), pass)) == tried
            }
            &&& reply("sso"@) == if has(LoginChoiceView::Sso(None)) {
                LoginStepView::Sso { homeserver, client, choices, idp: None }
            } else {
                again
            }
            &&& reply(two_words("sso"@, idp)) == if has(LoginChoiceView::Sso(Some(idp))) {
                LoginStepView::Sso { homeserver, client, choices, idp: Some(idp) }
            } else {
                again
            }
            &&& reply("reset"@) == (LoginStepView::Wait {
                send: seq![said(nick, "Start over from: <homeserver> [<user> <pass>]"@)],
                flow: LoginFlowView::<C>::Init,
            })
        }),
{
    reveal_strlit("password");
    reveal_strlit("pass");
    reveal_strlit("sso");
    reveal_strlit("reset");
    lemma_words("password"@, user, pass);
    lemma_words("pass"@, user, pass);
    lemma_words("sso"@, idp, pass);
    lemma_words("reset"@, user, pass);
    assert("sso"@[0] != "reset"@[0]);
    assert("sso"@[0] != "pass"@[0]);
    assert("sso"@[0] != "password"@[0]);
    assert(seq!["sso"@][0] != seq!["reset"@][0]);
    assert(seq!["sso"@, idp].len() == 2);
    assert(seq!["password"@, user, pass].len() == 3);
    assert(seq!["pass"@, user, pass].len() == 3);
    let flow = LoginFlowView::Homeserver(homeserver, client, choices);
    let reply = |body: Seq<char>| loop_step(nick, flow, CommandView::PRIVMSG(target, body));
    let has = |choice: LoginChoiceView|
        exists|i: int| 0 <= i < choices.len() && choices[i] == choice;
    assert(has(LoginChoiceView::Password) == choices.contains(LoginChoiceView::Password));
    assert(has(LoginChoiceView::Sso(None)) == choices.contains(LoginChoiceView::Sso(None)));
    assert(has(LoginChoiceView::Sso(Some(idp))) == choices.contains(LoginChoiceView::Sso(Some(idp))));
}

/// What is no reply that a client can give to its choices is told to be none, and the login
/// starts over: it tries nothing. A login that is complete takes no more words.
pub proof fn other_replies_start_over<C>(
    nick: Seq<char>,
    target: Seq<char>,
    homeserver: Seq<char>,
    client: C,
    choices: Seq<LoginChoiceView>,
    body: Seq<char>,
)
    ensures
        ({
            let words = split_on(body, ' ');
            let flow = LoginFlowView::Homeserver(homeserver, client, choices);
            let by_password = words.len() == 3 && (words[0] == "password"@ || words[0] == "pass"@)
                && choices.contains(LoginChoiceView::Password);
            let by_sso = 1 <= words.len() <= 2 && words[0] == "sso"@;
            let reset = words.len() == 1 && words[0] == "reset"@;
            &&& !by_password && !by_sso && !reset ==> loop_step(
                nick,
                flow,
                CommandView::PRIVMSG(target, body),
            ) == (LoginStepView::Wait {
                send: seq![
                    said(
                        nick,
                        "Message not in recognized login format, try again (or 'reset')"@,
                    ),
                ],
                flow: LoginFlowView::<C>::Init,
            })
            &&& loop_step(
                nick,
                LoginFlowView::Complete(homeserver, client),
                CommandView::PRIVMSG(target, body),
            ) == LoginStepView::<C>::Failed("Should never be called with complete type"@)
        }),
{
    let words = split_on(body, ' ');
    assert(seq!["reset"@].len() == 1 && seq!["reset"@][0] == "reset"@);
    assert(seq!["sso"@].len() == 1 && seq!["sso"@][0] == "sso"@);
}

/// A login minds only what is said: a `PING` is answered with the `PONG` of the same servers,
/// and neither that nor anything else moves it.
pub proof fn logins_mind_only_words<C>(nick: Seq<char>, flow: LoginFlowView<C>, command: CommandView)
    requires
        !(command is PRIVMSG),
    ensures
        loop_step(nick, flow, command) == (LoginStepView::Wait {
            send: match command {
                CommandView::PING(a, b) => seq![
                    MessageView { prefix: None, command: CommandView::PONG(a, b) },
                ],
                _ => Seq::<MessageView>::empty(),
            },
            flow,
        }),
{
}

/// A client that could not be let in is told why, and begins again. Of a Matrix client that
/// could not be built it is told what that came from, if that is known.
pub proof fn failures_start_over<C>(nick: Seq<char>, e: LoginError)
    ensures
        ({
            let reason = if e.error@ == "Building matrix client"@ {
                "Could not build client: "@ + match e.cause {
                    Some(c) => c@,
                    None => "???"@,
                }
            } else {
                e.error@
            };
            let over = LoginStepView::Wait {
                send: seq![
                    said(nick, "Error: "@ + reason + "."@),
                    said(nick, "Try again from <homeserver> [<user> <pass>]"@),
                ],
                flow: LoginFlowView::<C>::Init,
            };
            failed_step::<C>(nick, e) == over
        }),
{
}

/// A user is stored exactly when the server let it in, with that server and that Matrix client,
/// and the login ends well exactly when it could be stored. Where the client says nothing more
/// before that, it ends with that for an error.
pub proof fn only_stored_users_are_logged_in<C>(
    homeserver: Seq<char>,
    client: C,
    choices: Seq<LoginChoiceView>,
    e: Seq<char>,
)
    ensures
        phase_of(LoginFlowView::Complete(homeserver, client)) == (LoginPhaseView::Store {
            homeserver,
            client,
        }),
        phase_of(LoginFlowView::<C>::Init) == LoginPhaseView::Waiting(LoginFlowView::<C>::Init),
        phase_of(LoginFlowView::Homeserver(homeserver, client, choices)) == LoginPhaseView::Waiting(
            LoginFlowView::Homeserver(homeserver, client, choices),
        ),
        phase_stored(client, None) == LoginPhaseView::Over(Ok(client)),
        phase_stored(client, Some(e)) == LoginPhaseView::<C>::Over(Err(e)),
        phase_ended::<C>() == LoginPhaseView::<C>::Over(Err("Stream finished in matrix login loop?"@)),
{
}

} // verus!
