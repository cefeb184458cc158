use matrirc::ircd::auth::{
    auth_broken, auth_heard, auth_logged_in, auth_looked_up, auth_restored, auth_started,
    auth_stream_ended, AuthPhase,
};
use matrirc::ircd::login::{
    auth_loop, join_own_chan, login_failed, login_greeting, login_stepped, login_stored,
    login_stream_ended, login_tried, matrix_login_choices, matrix_login_loop, matrix_login_state,
    matrix_restore_session, prefix_for, restore_greeting, sso_url, welcome, AuthAction, AuthState,
    Credentials, LoginChoice, LoginError, LoginFlow, LoginPhase, LoginStep, LoginType,
};
use matrirc::ircd::proto::{nick_has_user, Command, Message, Prefix};
use matrirc::state::{SerializedMatrixSession, Session};

fn show(m: &Message) -> String {
    let from = match &m.prefix {
        Some(Prefix::Nickname(n, u, h)) => format!("{}!{}@{} ", n, u, h),
        Some(Prefix::ServerName(s)) => format!("{} ", s),
        None => String::new(),
    };
    let what = match &m.command {
        Command::PRIVMSG(t, x) => format!("PRIVMSG {} :{}", t, x),
        Command::JOIN(c) => format!("JOIN {}", c),
        Command::PONG(a, b) => format!("PONG {} {:?}", a, b),
        Command::Raw(l) => l.clone(),
        other => format!("{:?}", other),
    };
    format!("{}{}", from, what)
}

fn text(m: &Message) -> String {
    match &m.command {
        Command::PRIVMSG(_, x) => x.clone(),
        other => panic!("{:?}", other),
    }
}

fn command(command: Command) -> Message {
    Message { prefix: None, command }
}

fn body(s: &str) -> Message {
    command(Command::PRIVMSG("matrirc".to_string(), s.to_string()))
}

fn waits(step: LoginStep<u32>) -> (Vec<String>, LoginFlow<u32>) {
    match step {
        LoginStep::Wait { send, flow } => (send.iter().map(show).collect(), flow),
        _ => panic!("not waiting"),
    }
}

fn homeserver() -> LoginFlow<u32> {
    LoginFlow::Homeserver(
        "https://m.org".to_string(),
        7,
        vec![LoginChoice::Password, LoginChoice::Sso(Some("idp".to_string()))],
    )
}

#[test]
fn clients_say_who_they_are() {
    let mut state = AuthState::new();
    let cap = command(Command::CAP(Some("302".to_string())));
    match auth_loop(&mut state, &cap) {
        AuthAction::Send(m) => assert_eq!(show(&m), ":matrirc CAP * LS :"),
        other => panic!("{:?}", other),
    }
    let other_cap = command(Command::CAP(Some("303".to_string())));
    assert!(matches!(auth_loop(&mut state, &other_cap), AuthAction::Wait));
    assert!(matches!(auth_loop(&mut state, &command(Command::CAP(None))), AuthAction::Wait));
    assert!(matches!(auth_loop(&mut state, &command(Command::NICK("first".to_string()))), AuthAction::Wait));
    assert!(matches!(auth_loop(&mut state, &command(Command::PASS("pw".to_string()))), AuthAction::Wait));
    assert!(matches!(auth_loop(&mut state, &command(Command::NICK("second".to_string()))), AuthAction::Wait));
    let ping = command(Command::PING("a".to_string(), Some("b".to_string())));
    match auth_loop(&mut state, &ping) {
        AuthAction::Send(m) => assert_eq!(show(&m), "PONG a Some(\"b\")"),
        other => panic!("{:?}", other),
    }
    assert!(matches!(auth_loop(&mut state, &command(Command::Other)), AuthAction::Wait));
    assert!(matches!(auth_loop(&mut state, &command(Command::USER("user".to_string()))), AuthAction::Done));
    let c = state.credentials().unwrap();
    assert_eq!((c.nick.as_str(), c.user.as_str(), c.pass.as_str()), ("second", "user", "pw"));
}

/// What a phase sends, with all of it sent, and the next phase.
fn sends(phase: AuthPhase<u32>) -> (Vec<String>, AuthPhase<u32>) {
    let sent = phase.outgoing().iter().map(show).collect();
    (sent, phase.sent(None))
}

fn says(phase: AuthPhase<u32>, c: Command) -> AuthPhase<u32> {
    match phase {
        AuthPhase::Asking(state) => auth_heard(state, &command(c)),
        _ => panic!("not asked"),
    }
}

/// A client that has said who it is.
fn introduced() -> AuthPhase<u32> {
    let phase = says(auth_started(), Command::NICK("first".to_string()));
    let phase = says(phase, Command::PASS("pw".to_string()));
    let (sent, phase) = sends(says(phase, Command::PING("a".to_string(), None)));
    assert_eq!(sent, vec!["PONG a None"]);
    let (sent, phase) = sends(says(phase, Command::CAP(Some("302".to_string()))));
    assert_eq!(sent, vec![":matrirc CAP * LS :"]);
    let phase = says(phase, Command::NICK("nick".to_string()));
    says(phase, Command::USER("user".to_string()))
}

/// A client that was welcomed, and what it was sent for that.
fn looked_up() -> Credentials {
    let (sent, phase) = sends(introduced());
    assert_eq!(sent, vec![":matrirc 001 nick :Welcome to matrirc"]);
    assert!(matches!(&phase, AuthPhase::Joining(_)));
    let (sent, phase) = sends(phase);
    assert_eq!(sent.len(), 4);
    assert_eq!(sent[0], "nick!user@matrirc!nick!u@matrirc JOIN matrirc");
    assert_eq!(sent[3], ":matrirc 366 nick matrirc :End");
    match phase {
        AuthPhase::LookingUp(who) => {
            assert_eq!((who.nick.as_str(), who.user.as_str(), who.pass.as_str()), ("nick", "user", "pw"));
            who
        }
        _ => panic!("nothing is looked up"),
    }
}

fn stored() -> Session {
    Session {
        homeserver: "https://m.org".to_string(),
        matrix_session: SerializedMatrixSession {
            access_token: "token".to_string(),
            refresh_token: None,
            user_id: "@me:m.org".to_string(),
            device_id: "DEV".to_string(),
        },
    }
}

#[test]
fn welcomed_clients_with_a_session_get_it_back() {
    let phase: AuthPhase<u32> = auth_looked_up(looked_up(), Ok(Some(stored())));
    let (sent, phase) = sends(phase);
    assert_eq!(
        sent,
        vec!["matrirc!matrir@matrirc PRIVMSG nick :Welcome to matrirc. Restoring session to https://m.org"]
    );
    match phase {
        AuthPhase::Restoring(who, session) => {
            assert_eq!(session.matrix_session.user_id, "@me:m.org");
            match auth_restored(who, Ok(7u32)) {
                AuthPhase::Over(Ok((nick, user, client))) => {
                    assert_eq!((nick.as_str(), user.as_str(), client), ("nick", "user", 7))
                }
                _ => panic!("not over"),
            }
        }
        _ => panic!("not restored"),
    }
}

#[test]
fn sessions_that_cannot_be_restored_lead_to_a_login() {
    let (sent, phase) = sends(auth_restored(looked_up(), Err("timeout".to_string())));
    assert_eq!(
        sent,
        vec!["matrirc!matrir@matrirc PRIVMSG nick :Restoring session failed: timeout. Login again as follow or try to reconnect later."]
    );
    let (sent, phase) = sends(phase);
    assert_eq!(
        sent,
        vec!["matrirc!matrir@matrirc PRIVMSG nick :Welcome to matrirc. Please login to matrix by replying with: <homeserver> [<user> <pass>]"]
    );
    assert!(matches!(phase, AuthPhase::LoggingIn(_)));
}

#[test]
fn clients_without_a_session_log_in() {
    let phase: AuthPhase<u32> = auth_looked_up(looked_up(), Ok(None));
    let (sent, phase) = sends(phase);
    assert_eq!(sent.len(), 1);
    let who = match phase {
        AuthPhase::LoggingIn(who) => who,
        _ => panic!("no login"),
    };
    match auth_logged_in(who, Ok(8u32)) {
        AuthPhase::Over(Ok((nick, user, client))) => {
            assert_eq!((nick.as_str(), user.as_str(), client), ("nick", "user", 8))
        }
        _ => panic!("not over"),
    }
    let failed: AuthPhase<u32> = auth_logged_in(looked_up(), Err("gone".to_string()));
    assert!(matches!(failed, AuthPhase::Over(Err(e)) if e == "gone"));
}

#[test]
fn clients_with_a_wrong_password_are_refused() {
    let phase: AuthPhase<u32> = auth_looked_up(looked_up(), Err("bad password".to_string()));
    assert!(matches!(&phase, AuthPhase::Over(Err(e)) if e == "bad password"));
    // nothing comes behind it
    assert!(phase.outgoing().is_empty());
    assert!(matches!(phase.sent(None), AuthPhase::Over(Err(e)) if e == "bad password"));
}

#[test]
fn clients_that_cannot_be_sent_anything_are_given_up() {
    let gone = || Some("broken pipe".to_string());
    let is_over = |phase: AuthPhase<u32>| matches!(phase, AuthPhase::Over(Err(e)) if e == "broken pipe");
    assert!(is_over(introduced().sent(gone())));
    assert!(is_over(introduced().sent(None).sent(gone())));
    assert!(is_over(says(auth_started(), Command::PING("a".to_string(), None)).sent(gone())));
    assert!(is_over(auth_broken("broken pipe".to_string())));
    // where nothing is sent nothing can fail
    assert!(matches!(auth_started::<u32>().sent(gone()), AuthPhase::Asking(_)));
}

#[test]
fn what_comes_behind_the_user_name_does_not_count() {
    let early = says(auth_started(), Command::NICK("nick".to_string()));
    // the password would come too late
    let phase = says(early, Command::USER("user".to_string()));
    assert!(matches!(phase, AuthPhase::Over(Err(e)) if e == "nick or pass wasn't set for client!"));
    match says(auth_started(), Command::PASS("pw".to_string())) {
        AuthPhase::Asking(state) => {
            let ended: AuthPhase<u32> = auth_stream_ended(state);
            assert!(matches!(ended, AuthPhase::Over(Err(e)) if e == "nick or pass wasn't set for client!"));
        }
        _ => panic!("not asked"),
    }
}

#[test]
fn clients_without_a_password_are_refused() {
    let mut state = AuthState::new();
    let _ = auth_loop(&mut state, &command(Command::NICK("nick".to_string())));
    let _ = auth_loop(&mut state, &command(Command::USER("user".to_string())));
    assert_eq!(state.credentials().unwrap_err(), "nick or pass wasn't set for client!");
    assert!(AuthState::new().credentials().is_err());
}

#[test]
fn clients_are_welcomed() {
    assert_eq!(show(&welcome("nick")), ":matrirc 001 nick :Welcome to matrirc");
    let lines: Vec<String> = join_own_chan("nick", "user").iter().map(show).collect();
    assert_eq!(
        lines,
        vec![
            "nick!user@matrirc!nick!u@matrirc JOIN matrirc",
            "nick!user@matrirc!nick!u@matrirc JOIN matrirc",
            ":matrirc 353 nick = matrirc :@matrirc",
            ":matrirc 366 nick matrirc :End",
        ]
    );
    assert!(nick_has_user(&prefix_for("nick", "user")));
    assert!(!nick_has_user(&prefix_for("abcdeé", "user")));
    assert!(!nick_has_user("abcdeé"));
}

#[test]
fn a_login_begins_with_a_homeserver() {
    match matrix_login_state("nick", LoginFlow::<u32>::Init, "https://m.org") {
        LoginStep::Connect { homeserver, login } => {
            assert_eq!(homeserver, "https://m.org");
            assert!(login.is_none());
        }
        _ => panic!("not connecting"),
    }
    match matrix_login_state("nick", LoginFlow::<u32>::Init, "https://m.org me secret") {
        LoginStep::Connect { homeserver, login } => {
            assert_eq!(homeserver, "https://m.org");
            assert_eq!(login, Some(("me".to_string(), "secret".to_string())));
        }
        _ => panic!("not connecting"),
    }
    let (told, flow) = waits(matrix_login_state("nick", LoginFlow::Init, "two words"));
    assert_eq!(
        told,
        vec!["matrirc!matrir@matrirc PRIVMSG nick :Message not in <homeserver> [<user> <pass>] format, ignoring."]
    );
    assert!(matches!(flow, LoginFlow::Init));
}

#[test]
fn choices_are_offered() {
    let types = vec![
        LoginType::Password,
        LoginType::Other,
        LoginType::Sso(vec!["a".to_string(), "b".to_string()]),
        LoginType::Sso(vec![]),
    ];
    let step = matrix_login_choices("nick", "https://m.org".to_string(), 7u32, &types);
    let (told, flow) = match step {
        LoginStep::Wait { send, flow } => (send.iter().map(text).collect::<Vec<_>>(), flow),
        _ => panic!("not waiting"),
    };
    assert_eq!(
        told,
        vec![
            "Found server at https://m.org; complete connection with one the following:",
            "reset (start over)",
            "password <user> <pass>",
            "sso a",
            "sso b",
            "sso",
        ]
    );
    match flow {
        LoginFlow::Homeserver(h, c, choices) => {
            assert_eq!((h.as_str(), c), ("https://m.org", 7));
            assert_eq!(choices.len(), 4);
        }
        _ => panic!("not at a homeserver"),
    }
}

#[test]
fn offered_choices_can_be_taken() {
    match matrix_login_state("nick", homeserver(), "password me secret") {
        LoginStep::Password { attempt, homeserver, client, user, pass } => {
            assert_eq!(text(&attempt), "Attempting to login to https://m.org with me");
            assert_eq!((homeserver.as_str(), client), ("https://m.org", 7));
            assert_eq!((user.as_str(), pass.as_str()), ("me", "secret"));
        }
        _ => panic!("no try"),
    }
    assert!(matches!(matrix_login_state("nick", homeserver(), "pass me secret"), LoginStep::Password { .. }));
    match matrix_login_state("nick", homeserver(), "sso idp") {
        LoginStep::Sso { idp, choices, .. } => {
            assert_eq!(idp, Some("idp".to_string()));
            assert_eq!(choices.len(), 2);
        }
        _ => panic!("no single sign-on"),
    }
}

#[test]
fn other_choices_are_refused() {
    for wrong in ["sso", "sso other"] {
        let (told, flow) = waits(matrix_login_state("nick", homeserver(), wrong));
        assert_eq!(told, vec!["matrirc!matrir@matrirc PRIVMSG nick :invalid idp for sso, try again"]);
        assert!(matches!(flow, LoginFlow::Homeserver(_, 7, _)));
    }
    let (told, flow) = waits(matrix_login_state("nick", homeserver(), "reset"));
    assert_eq!(
        told,
        vec!["matrirc!matrir@matrirc PRIVMSG nick :Start over from: <homeserver> [<user> <pass>]"]
    );
    assert!(matches!(flow, LoginFlow::Init));
    let (told, flow) = waits(matrix_login_state("nick", homeserver(), "what?"));
    assert_eq!(
        told,
        vec!["matrirc!matrir@matrirc PRIVMSG nick :Message not in recognized login format, try again (or 'reset')"]
    );
    assert!(matches!(flow, LoginFlow::Init));
    let no_password = LoginFlow::Homeserver("h".to_string(), 7, vec![]);
    let (_, flow) = waits(matrix_login_state("nick", no_password, "password me secret"));
    assert!(matches!(flow, LoginFlow::Init));
    match matrix_login_state("nick", LoginFlow::Complete("h".to_string(), 7u32), "x") {
        LoginStep::Failed(e) => assert_eq!(e, "Should never be called with complete type"),
        _ => panic!("went on"),
    }
}

#[test]
fn single_sign_on_needs_a_url() {
    let choices = || vec![LoginChoice::Sso(None)];
    match sso_url("nick", "h".to_string(), 7u32, choices(), Ok("https://sso".to_string())) {
        Ok((m, h, c)) => {
            assert_eq!(text(&m), "Login at this URL: https://sso");
            assert_eq!((h.as_str(), c), ("h", 7));
        }
        Err(_) => panic!("no url"),
    }
    match sso_url("nick", "h".to_string(), 7u32, choices(), Err("RecvError(())".to_string())) {
        Ok(_) => panic!("url"),
        Err(step) => {
            let (told, flow) = waits(step);
            assert_eq!(
                told,
                vec!["matrirc!matrir@matrirc PRIVMSG nick :Could not get login url: RecvError(())"]
            );
            assert!(matches!(flow, LoginFlow::Homeserver(_, 7, _)));
        }
    }
}

#[test]
fn the_login_loop_answers_pings_and_ignores_the_rest() {
    let ping = command(Command::PING("a".to_string(), None));
    let (told, flow) = waits(matrix_login_loop("nick", homeserver(), &ping));
    assert_eq!(told, vec!["PONG a None"]);
    assert!(matches!(flow, LoginFlow::Homeserver(_, 7, _)));
    let (told, flow) = waits(matrix_login_loop("nick", homeserver(), &command(Command::Other)));
    assert!(told.is_empty());
    assert!(matches!(flow, LoginFlow::Homeserver(_, 7, _)));
    assert!(matches!(
        matrix_login_loop("nick", LoginFlow::<u32>::Init, &body("m.org")),
        LoginStep::Connect { .. }
    ));
}

#[test]
fn failures_start_a_login_over() {
    let failed = |error: &str, cause: Option<&str>| {
        let e = LoginError { error: error.to_string(), cause: cause.map(|c| c.to_string()) };
        let (told, flow) = waits(login_failed("nick", e));
        assert!(matches!(flow, LoginFlow::Init));
        assert_eq!(
            told[1],
            "matrirc!matrir@matrirc PRIVMSG nick :Try again from <homeserver> [<user> <pass>]"
        );
        told[0].clone()
    };
    let to = "matrirc!matrir@matrirc PRIVMSG nick :";
    assert_eq!(failed("bad password", None), format!("{}Error: bad password.", to));
    assert_eq!(failed("bad password", Some("cause")), format!("{}Error: bad password.", to));
    assert_eq!(
        failed("Building matrix client", Some("no route")),
        format!("{}Error: Could not build client: no route.", to)
    );
    assert_eq!(
        failed("Building matrix client", None),
        format!("{}Error: Could not build client: ???.", to)
    );
}

#[test]
fn a_login_is_complete_when_the_server_says_so() {
    let (told, flow) = waits(login_tried("nick", "h".to_string(), 7, Ok(())));
    assert!(told.is_empty());
    match flow {
        LoginFlow::Complete(h, c) => assert_eq!((h.as_str(), c), ("h", 7)),
        _ => panic!("not complete"),
    }
    let e = LoginError { error: "no".to_string(), cause: None };
    let (told, flow) = waits(login_tried("nick", "h".to_string(), 7, Err(e)));
    assert_eq!(told.len(), 2);
    assert!(matches!(flow, LoginFlow::Init));
}

#[test]
fn sessions_are_restored() {
    assert_eq!(
        text(&login_greeting("nick")),
        "Welcome to matrirc. Please login to matrix by replying with: <homeserver> [<user> <pass>]"
    );
    assert_eq!(text(&restore_greeting("nick", "h")), "Welcome to matrirc. Restoring session to h");
    match matrix_restore_session("nick", Ok::<u32, String>(7)) {
        Ok(c) => assert_eq!(c, 7),
        Err(m) => panic!("{:?}", m),
    }
    match matrix_restore_session("nick", Err::<u32, String>("down".to_string())) {
        Ok(_) => panic!("restored"),
        Err(m) => assert_eq!(
            text(&m),
            "Restoring session failed: down. Login again as follow or try to reconnect later."
        ),
    }
}

#[test]
fn a_complete_login_is_stored_and_ends() {
    match login_stepped(LoginFlow::Complete("h".to_string(), 7u32)) {
        LoginPhase::Store { homeserver, client } => assert_eq!((homeserver.as_str(), client), ("h", 7)),
        _ => panic!("not stored"),
    }
    assert!(matches!(login_stepped(LoginFlow::<u32>::Init), LoginPhase::Waiting(LoginFlow::Init)));
    assert!(matches!(
        login_stepped(homeserver()),
        LoginPhase::Waiting(LoginFlow::Homeserver(_, 7, _))
    ));
    assert!(matches!(login_stored(7u32, Ok(())), LoginPhase::Over(Ok(7))));
    match login_stored(7u32, Err("disk full".to_string())) {
        LoginPhase::Over(Err(e)) => assert_eq!(e, "disk full"),
        _ => panic!("stored"),
    }
}

#[test]
fn a_login_without_a_client_ends() {
    match login_stream_ended::<u32>() {
        LoginPhase::Over(Err(e)) => assert_eq!(e, "Stream finished in matrix login loop?"),
        _ => panic!("goes on"),
    }
}
