use matrirc::ircd::client::IrcClient;
use matrirc::ircd::proto::{Command, Message, Prefix};
use matrirc::matrix::invite::{
    on_stripped_state_member, InvitationContext, InviteAction, InviteStep, JoinRetry, RetryAction,
};
use matrirc::matrix::room_mappings::{EventRoom, Mappings, MatrixMessageType, MessageHandler, RoomInfo};
use matrirc::matrix::room_target::{Delivery, Member, RoomTarget};
use matrirc::matrix::talk::Talk;
use matrirc::matrix::verification::{
    ask_about_emojis, handle_verification_request, request_changed, Emoji, RequestState, RequestTodo, SasState, SasTodo,
    VerifTodo, VerificationContext,
};

fn show(m: &Message) -> String {
    let from = match &m.prefix {
        Some(Prefix::Nickname(n, _, _)) => format!("{} ", n),
        Some(Prefix::ServerName(s)) => format!("{} ", s),
        None => String::new(),
    };
    let what = match &m.command {
        Command::PRIVMSG(t, x) => format!("PRIVMSG {} :{}", t, x),
        other => format!("{:?}", other),
    };
    format!("{}{}", from, what)
}

fn sent(d: &Delivery) -> Vec<String> {
    assert!(!d.joining);
    d.messages.iter().map(show).collect()
}

fn mappings() -> Mappings<u32> {
    Mappings::new(IrcClient::new("nick".to_string(), "user".to_string()))
}

fn invited(m: &mut Mappings<u32>) -> InvitationContext {
    match on_stripped_state_member(m, "@me:x", Some("@me:x"), true, "Room", 5) {
        Ok(Some((invite, d))) => {
            assert_eq!(
                sent(&d),
                vec!["invite PRIVMSG nick :Got an invitation for Room, accept? [yes/no]"]
            );
            invite
        }
        _ => panic!("not asked"),
    }
}

fn asked(m: &mut Mappings<u32>) -> VerificationContext<u8> {
    match handle_verification_request(m, true, "@b:x", 6) {
        Ok((verif, d)) => {
            assert_eq!(
                sent(&d),
                vec!["verif PRIVMSG nick :Got a verification request from @b:x, accept? [yes/no]"]
            );
            verif
        }
        Err(e) => panic!("{}", e),
    }
}

fn asked_again(m: &mut Mappings<u32>) -> VerificationContext<u8> {
    match handle_verification_request(m, true, "@c:x", 7) {
        Ok((verif, _)) => verif,
        Err(e) => panic!("{}", e),
    }
}

fn dogs() -> [Emoji; 7] {
    [Emoji { symbol: "🐶", description: "Dog" }; 7]
}

/// Answers, and is told what comes of it.
fn answer(verif: &mut VerificationContext<u8>, message: &str) -> (Vec<String>, VerifTodo) {
    let action = verif.handle_message("nick", MatrixMessageType::Text, message);
    let (told, failure) = match action.told {
        Ok(d) => (sent(&d), None),
        Err(e) => (vec![], Some(e)),
    };
    (told, verif.replied(action.reply, failure))
}

/// Answers, and cannot be told what comes of it.
fn answer_untold(verif: &mut VerificationContext<u8>, message: &str) -> VerifTodo {
    let action = verif.handle_message("nick", MatrixMessageType::Text, message);
    verif.replied(action.reply, Some("channel closed".to_string()))
}

fn room_of_bob() -> EventRoom<u32> {
    EventRoom {
        joined: true,
        room: RoomInfo { id: "!r:x".to_string(), display_name: Some("Bob".to_string()), name: None },
        members: Ok(vec![Member { user_id: "@b:x".to_string(), name: "Bob".to_string() }]),
        handler: 9,
    }
}

#[test]
fn talks_need_a_query() {
    let mut talk = Talk::new();
    assert_eq!(talk.to_irc("nick", "hi").err(), Some("target should always be set".to_string()));
    assert_eq!(talk.name().err(), Some("target should always be set".to_string()));
    talk.set_target(RoomTarget::query("q"));
    match talk.to_irc("nick", "hi\nyou") {
        Ok(d) => assert_eq!(sent(&d), vec!["q PRIVMSG nick :hi", "q PRIVMSG nick :you"]),
        Err(e) => panic!("{}", e),
    }
    assert_eq!(talk.name(), Ok("q".to_string()));
}

#[test]
fn what_waits_in_a_talk_is_sent_once() {
    let mut target = RoomTarget::query("q");
    target.set_error("oops");
    let mut talk = Talk::new();
    talk.set_target(target);
    let d = talk.to_irc("nick", "hi").unwrap();
    assert!(d.flushes);
    assert_eq!(d.messages.len(), 2);
    talk.sent("nick", 2);
    assert_eq!(sent(&talk.to_irc("nick", "you").unwrap()), vec!["q PRIVMSG nick :you"]);
    // the same through an invitation and a verification
    let mut waiting = RoomTarget::query("i");
    waiting.set_error("oops");
    let mut invite = InvitationContext::new("Room");
    invite.set_target(waiting);
    assert_eq!(invite.to_irc("nick", "hi").unwrap().messages.len(), 2);
    invite.sent("nick", 2);
    assert_eq!(sent(&invite.to_irc("nick", "you").unwrap()), vec!["i PRIVMSG nick :you"]);
    let mut waiting = RoomTarget::query("v");
    waiting.set_error("oops");
    let mut verif: VerificationContext<u8> = VerificationContext::new();
    verif.set_target(waiting);
    assert_eq!(verif.to_irc("nick", "hi").unwrap().messages.len(), 2);
    verif.sent("nick", 2);
    assert_eq!(sent(&verif.to_irc("nick", "you").unwrap()), vec!["v PRIVMSG nick :you"]);
}

#[test]
fn only_own_invitations_are_asked_about() {
    let mut m = mappings();
    let other = on_stripped_state_member(&mut m, "@b:x", Some("@me:x"), true, "Room", 1);
    assert!(matches!(other, Ok(None)));
    let no_invite = on_stripped_state_member(&mut m, "@me:x", Some("@me:x"), false, "Room", 1);
    assert!(matches!(no_invite, Ok(None)));
    let nobody = on_stripped_state_member(&mut m, "@me:x", None, true, "Room", 1);
    assert_eq!(nobody.err(), Some("Matrix client without user_id?".to_string()));
    assert!(m.to_matrix("invite").is_err());
}

#[test]
fn invitations_are_answered() {
    let mut m = mappings();
    let mut invite = invited(&mut m);
    assert_eq!(m.to_matrix("invite").ok(), Some(&5));
    match invite.handle_message("nick", MatrixMessageType::Text, "maybe") {
        InviteAction::Again(d) => assert_eq!(sent(&d), vec!["invite PRIVMSG nick :expecting yes or no"]),
        _ => panic!("understood"),
    }
    match invite.handle_message("nick", MatrixMessageType::Text, "no") {
        InviteAction::Reject(d) => assert_eq!(sent(&d), vec!["invite PRIVMSG nick :Okay"]),
        _ => panic!("not rejected"),
    }
    match invite.handle_message("nick", MatrixMessageType::Text, "yes") {
        InviteAction::Join(Ok(d)) => assert_eq!(sent(&d), vec!["invite PRIVMSG nick :Joining room Room"]),
        _ => panic!("not joined"),
    }
    assert!(invite.stop(&mut m).is_ok());
    assert!(m.to_matrix("invite").is_err());
}

#[test]
fn rejected_invitations_free_their_name() {
    let mut m = mappings();
    let invite = invited(&mut m);
    assert_eq!(invite.rejected(&mut m, Some("timeout".to_string())), Err("timeout".to_string()));
    assert_eq!(m.to_matrix("invite").ok(), Some(&5));
    assert_eq!(invite.rejected(&mut m, None), Ok(()));
    assert!(m.to_matrix("invite").is_err());
}

#[test]
fn joining_ends_with_a_free_name() {
    let mut m = mappings();
    let mut invite = invited(&mut m);
    let mut retry = JoinRetry::new();
    for i in 0..10 {
        match invite.tried(&mut m, &mut retry, Err("forbidden".to_string())) {
            InviteStep::Sleep(secs) => assert_eq!(secs, 2 << i),
            _ => panic!("ended after {}", i),
        }
        assert_eq!(m.to_matrix("invite").ok(), Some(&5));
    }
    match invite.tried(&mut m, &mut retry, Err("forbidden".to_string())) {
        InviteStep::GaveUp(Ok(d)) => {
            assert_eq!(sent(&d), vec!["invite PRIVMSG nick :Gave up joining room Room: forbidden"])
        }
        _ => panic!("not given up"),
    }
    assert!(m.to_matrix("invite").is_err());
    assert!(m.known_room("!r:x").is_none());
}

#[test]
fn joined_rooms_are_told_of() {
    let mut m = mappings();
    let mut invite = invited(&mut m);
    let mut retry = JoinRetry::new();
    assert!(matches!(invite.tried(&mut m, &mut retry, Err("not yet".to_string())), InviteStep::Sleep(2)));
    match invite.tried(&mut m, &mut retry, Ok(room_of_bob())) {
        InviteStep::Joined(told) => {
            assert_eq!(sent(&told.delivery), vec!["Bob PRIVMSG nick :Joined room Room"])
        }
        _ => panic!("not joined"),
    }
    assert_eq!(m.to_matrix("Bob").ok(), Some(&9));
    assert!(m.to_matrix("invite").is_err());
}

#[test]
fn invitations_without_a_query_fail() {
    let mut m = mappings();
    let mut invite = InvitationContext::new("Room");
    assert!(matches!(
        invite.handle_message("nick", MatrixMessageType::Text, "no"),
        InviteAction::Failed(e) if e == "target should always be set"
    ));
    assert!(matches!(
        invite.handle_message("nick", MatrixMessageType::Text, "yes"),
        InviteAction::Join(Err(_))
    ));
    assert!(invite.stop(&mut m).is_err());
    assert_eq!(invite.rejected(&mut m, None), Err("target should always be set".to_string()));
}

#[test]
fn joining_is_tried_again_with_longer_pauses() {
    let mut retry = JoinRetry::new();
    let mut pauses = Vec::new();
    loop {
        match retry.failed() {
            RetryAction::Sleep(secs) => pauses.push(secs),
            RetryAction::GiveUp => break,
        }
    }
    assert_eq!(pauses, vec![2, 4, 8, 16, 32, 64, 128, 256, 512, 1024]);
    assert_eq!(pauses.iter().sum::<u64>(), 2046);
    assert!(retry.failed() == RetryAction::GiveUp);
}

#[test]
fn verifications_go_their_way() {
    let mut m = mappings();
    let mut verif = asked(&mut m);
    assert_eq!(m.to_matrix("verif").ok(), Some(&6));
    let (told, todo) = answer(&mut verif, "what?");
    assert_eq!(told, vec!["verif PRIVMSG nick :Bad message, expecting yes or no"]);
    assert!(matches!(todo, VerifTodo::Nothing));
    let (told, todo) = answer(&mut verif, "yes");
    assert_eq!(told, vec!["verif PRIVMSG nick :Ok, starting..."]);
    assert!(matches!(todo, VerifTodo::Start));
    let (told, todo) = answer(&mut verif, "yes");
    assert_eq!(told, vec!["verif PRIVMSG nick :not expecting any message at this point"]);
    assert!(matches!(todo, VerifTodo::Nothing));
    verif.set_sas(3);
    assert_eq!(verif.sas(), Some(&3));
    let action = verif.sas_verification_handler("nick", &SasState::Other);
    assert!(action.told.is_none());
    assert!(matches!(action.todo, SasTodo::GoOn));
    let action = verif.sas_verification_handler("nick", &SasState::KeysExchanged(Some(dogs())));
    assert_eq!(
        sent(&action.told.unwrap()),
        vec![
            "verif PRIVMSG nick :Got the following emojis:".to_string(),
            format!("verif PRIVMSG nick :{}", "     🐶     ".repeat(7)),
            format!("verif PRIVMSG nick :{}", "    Dog     ".repeat(7)),
            "verif PRIVMSG nick :Ok? [yes/no]".to_string(),
        ]
    );
    assert!(matches!(action.todo, SasTodo::GoOn));
    let (told, todo) = answer(&mut verif, "hm");
    assert_eq!(told, vec!["verif PRIVMSG nick :Bad message, expecting yes or no"]);
    assert!(matches!(todo, VerifTodo::Nothing));
    let (told, todo) = answer(&mut verif, "yes");
    assert_eq!(told, vec!["verif PRIVMSG nick :Ok, accepting..."]);
    assert!(matches!(todo, VerifTodo::Confirm));
    let done = SasState::Done {
        user_id: "@b:x".to_string(),
        device_id: "DEV".to_string(),
        trust: "Verified".to_string(),
    };
    let action = verif.sas_verification_handler("nick", &done);
    assert_eq!(
        sent(&action.told.unwrap()),
        vec!["verif PRIVMSG nick :Successfully verified device @b:x DEV Verified"]
    );
    assert!(matches!(action.todo, SasTodo::Stop));
    assert!(!verif.stopped());
    assert!(verif.stop(&mut m).is_ok());
    assert!(verif.stopped());
    assert!(m.to_matrix("verif").is_err());
}

#[test]
fn clients_that_were_not_told_answer_again() {
    let mut m = mappings();
    let mut verif = asked(&mut m);
    assert!(matches!(answer_untold(&mut verif, "yes"), VerifTodo::Failed(e) if e == "channel closed"));
    assert!(matches!(answer_untold(&mut verif, "what?"), VerifTodo::Failed(e) if e == "channel closed"));
    // the question is still open
    let (told, todo) = answer(&mut verif, "yes");
    assert_eq!(told, vec!["verif PRIVMSG nick :Ok, starting..."]);
    assert!(matches!(todo, VerifTodo::Start));
    verif.set_sas(3);
    let _ = verif.sas_verification_handler("nick", &SasState::KeysExchanged(Some(dogs())));
    assert!(matches!(answer_untold(&mut verif, "yes"), VerifTodo::Failed(e) if e == "channel closed"));
    let (told, todo) = answer(&mut verif, "yes");
    assert_eq!(told, vec!["verif PRIVMSG nick :Ok, accepting..."]);
    assert!(matches!(todo, VerifTodo::Confirm));
    // a refusal counts all the same
    let mut verif = asked_again(&mut m);
    assert!(matches!(answer_untold(&mut verif, "no"), VerifTodo::Stop));
    verif.set_sas(3);
    let _ = verif.sas_verification_handler("nick", &SasState::KeysExchanged(Some(dogs())));
    assert!(matches!(answer_untold(&mut verif, "no"), VerifTodo::Cancel));
}

#[test]
fn verifications_can_be_refused() {
    let mut m = mappings();
    let mut verif = asked(&mut m);
    let (told, todo) = answer(&mut verif, "no");
    assert_eq!(told, vec!["verif PRIVMSG nick :Ok, bye"]);
    assert!(matches!(todo, VerifTodo::Stop));
    let _ = answer(&mut verif, "yes");
    verif.set_sas(3);
    let _ = verif.sas_verification_handler("nick", &SasState::KeysExchanged(Some(dogs())));
    let (told, todo) = answer(&mut verif, "no");
    assert_eq!(told, vec!["verif PRIVMSG nick :Ok, aborting"]);
    assert!(matches!(todo, VerifTodo::Cancel));
}

#[test]
fn verifications_can_fail() {
    let mut m = mappings();
    let not_found = handle_verification_request::<u32, u8>(&mut m, false, "@b:x", 6);
    assert_eq!(not_found.err(), Some("Could not find verification request".to_string()));
    let mut verif = asked(&mut m);
    let action = verif.sas_verification_handler("nick", &SasState::KeysExchanged(None));
    assert!(matches!(action.todo, SasTodo::Failed(e) if e == "Only support verification with emojis"));
    let action = verif.sas_verification_handler("nick", &SasState::Cancelled("mismatch".to_string()));
    assert_eq!(
        sent(&action.told.unwrap()),
        vec!["verif PRIVMSG nick :The verification has been cancelled, reason: mismatch"]
    );
    assert!(matches!(action.todo, SasTodo::End));
    let _ = answer(&mut verif, "yes");
    let _ = verif.sas_verification_handler("nick", &SasState::KeysExchanged(Some(dogs())));
    let (_, todo) = answer(&mut verif, "yes");
    assert!(matches!(todo, VerifTodo::Failed(e) if e == "Sas should be set at this point"));
    match verif.sas_failed("nick", "oops") {
        Ok(d) => assert_eq!(sent(&d), vec!["verif PRIVMSG nick :Error handling sas: oops"]),
        Err(e) => panic!("{}", e),
    }
    match verif.request_failed("nick", "oops") {
        Ok(d) => assert_eq!(sent(&d), vec!["verif PRIVMSG nick :Error handling verif: oops"]),
        Err(e) => panic!("{}", e),
    }
    let mut without: VerificationContext<u8> = VerificationContext::new();
    let (_, todo) = answer(&mut without, "yes");
    assert!(matches!(todo, VerifTodo::Failed(e) if e == "target should always be set"));
    let (_, todo) = answer(&mut without, "no");
    assert!(matches!(todo, VerifTodo::Stop));
    assert!(without.stop(&mut m).is_err());
    let action = without.sas_verification_handler("nick", &SasState::Cancelled("x".to_string()));
    assert!(matches!(action.todo, SasTodo::Failed(_)));
}

#[test]
fn emojis_are_asked_about() {
    assert_eq!(ask_about_emojis("x y"), "Got the following emojis:\nx y\nOk? [yes/no]");
}

#[test]
fn requests_lead_to_emojis() {
    assert!(request_changed(RequestState::Pending) == RequestTodo::GoOn);
    assert!(request_changed(RequestState::Sas) == RequestTodo::TakeUpSas);
    assert!(request_changed(RequestState::Over) == RequestTodo::End);
}
