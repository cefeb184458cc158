//! Verification of devices: the client is asked, is shown emojis to compare, and its answers
//! are carried out.

use vstd::prelude::*;
use vstd::string::*;

use crate::ircd::proto::{ascii_nick_has_user, messages, opt_text};
use crate::matrix::room_mappings::{Mappings, MatrixMessageType, MessageHandler};
use crate::matrix::room_target::{
    deduped, Delivery, RoomTarget, RoomTargetType, RoomTargetView,
};
use crate::matrix::talk::{says, talk_sent, Talk};
use crate::text::{cat2, cat3, cat5, same};

verus! {

/// How far a verification is.
#[derive(Debug, Clone, Copy, PartialEq, Eq, Structural)]
pub enum VerifState {
    ConfirmStart,
    WaitingSas,
    ConfirmEmoji,
    WaitingDone,
}

/// A verification that the client was asked about, with the exchange of emojis once there is
/// one.
pub struct VerificationContext<S> {
    talk: Talk,
    sas: Option<S>,
    step: VerifState,
    stop: bool,
}

/// What a [`VerificationContext`] holds.
pub struct VerificationView<S> {
    pub target: Option<RoomTargetView>,
    pub sas: Option<S>,
    pub step: VerifState,
    pub stop: bool,
}

impl<S> View for VerificationContext<S> {
    type V = VerificationView<S>;

    closed spec fn view(&self) -> VerificationView<S> {
        VerificationView { target: self.talk@, sas: self.sas, step: self.step, stop: self.stop }
    }
}

/// What an answer of the client was.
#[derive(Debug, Clone, Copy, PartialEq, Eq, Structural)]
pub enum VerifReply {
    /// The client wants the verification.
    Start,
    /// The client does not want the verification.
    Bye,
    /// The emojis are the same.
    Confirm,
    /// The emojis are not the same.
    Abort,
    /// No answer that was asked for.
    Other,
}

/// What is to be done when the client answered and was told so.
#[derive(Debug)]
pub enum VerifTodo {
    /// The request is accepted, and its changes are waited for.
    Start,
    /// The emojis are confirmed.
    Confirm,
    /// The exchange of emojis is cancelled, and then the talk is over.
    Cancel,
    /// The talk is over.
    Stop,
    Nothing,
    /// It cannot go on, for this reason.
    Failed(String),
}

/// What a [`VerifTodo`] holds.
pub enum VerifTodoView {
    Start,
    Confirm,
    Cancel,
    Stop,
    Nothing,
    Failed(Seq<char>),
}

impl View for VerifTodo {
    type V = VerifTodoView;

    open spec fn view(&self) -> VerifTodoView {
        match *self {
            VerifTodo::Start => VerifTodoView::Start,
            VerifTodo::Confirm => VerifTodoView::Confirm,
            VerifTodo::Cancel => VerifTodoView::Cancel,
            VerifTodo::Stop => VerifTodoView::Stop,
            VerifTodo::Nothing => VerifTodoView::Nothing,
            VerifTodo::Failed(e) => VerifTodoView::Failed(e@),
        }
    }
}

/// What the client is to be sent, if it can be, and what its answer was.
pub struct VerifAction {
    pub told: Result<Delivery, String>,
    pub reply: VerifReply,
}

impl<S> VerificationView<S> {
    /// What the client is told when it answered.
    pub open spec fn answer_text(self, message: Seq<char>) -> Seq<char> {
        match self.step {
            VerifState::ConfirmStart => if message == "yes"@ {
                "Ok, starting..."@
            } else if message == "no"@ {
                "Ok, bye"@
            } else {
                "Bad message, expecting yes or no"@
            },
            VerifState::ConfirmEmoji => if message == "yes"@ {
                "Ok, accepting..."@
            } else if message == "no"@ {
                "Ok, aborting"@
            } else {
                "Bad message, expecting yes or no"@
            },
            _ => "not expecting any message at this point"@,
        }
    }

    /// What an answer of the client is.
    pub open spec fn reply(self, message: Seq<char>) -> VerifReply {
        match self.step {
            VerifState::ConfirmStart => if message == "yes"@ {
                VerifReply::Start
            } else if message == "no"@ {
                VerifReply::Bye
            } else {
                VerifReply::Other
            },
            VerifState::ConfirmEmoji => if message == "yes"@ {
                VerifReply::Confirm
            } else if message == "no"@ {
                VerifReply::Abort
            } else {
                VerifReply::Other
            },
            _ => VerifReply::Other,
        }
    }

    /// What is to be done when the client was told what its answer led to, or could not be told,
    /// for a reason: that only a refusal can do without.
    pub open spec fn replied_todo(
        self,
        reply: VerifReply,
        failure: Option<Seq<char>>,
    ) -> VerifTodoView {
        match reply {
            VerifReply::Bye => VerifTodoView::Stop,
            VerifReply::Abort => if self.sas is Some {
                VerifTodoView::Cancel
            } else {
                VerifTodoView::Failed("Sas should be set at this point"@)
            },
            _ => match failure {
                Some(e) => VerifTodoView::Failed(e),
                None => match reply {
                    VerifReply::Start => VerifTodoView::Start,
                    VerifReply::Confirm => if self.sas is Some {
                        VerifTodoView::Confirm
                    } else {
                        VerifTodoView::Failed("Sas should be set at this point"@)
                    },
                    _ => VerifTodoView::Nothing,
                },
            },
        }
    }

    /// How far the verification is when the client was told what its answer led to, or could
    /// not be told.
    pub open spec fn replied_step(
        self,
        reply: VerifReply,
        failure: Option<Seq<char>>,
    ) -> VerifState {
        if failure is Some {
            self.step
        } else {
            match reply {
                VerifReply::Start => VerifState::WaitingSas,
                VerifReply::Confirm => VerifState::WaitingDone,
                _ => self.step,
            }
        }
    }
}

/// Whether `action` is what an answer leads to, and `after` the verification then.
pub open spec fn answered<S>(
    before: VerificationView<S>,
    nick: Seq<char>,
    message: Seq<char>,
    after: VerificationView<S>,
    action: VerifAction,
) -> bool {
    &&& says(before.target, nick, before.answer_text(message), after.target, action.told)
    &&& action.reply == before.reply(message)
    &&& after == (VerificationView { target: after.target, ..before })
}

/// One of the emojis that are compared.
#[derive(Debug, Clone, Copy)]
pub struct Emoji {
    pub symbol: &'static str,
    pub description: &'static str,
}

/// What a sequence of emojis holds: symbols and descriptions.
pub open spec fn emoji_views(emojis: Seq<Emoji>) -> Seq<(Seq<char>, Seq<char>)> {
    emojis.map_values(|e: Emoji| (e.symbol@, e.description@))
}

/// The text that `matrix_sdk::encryption::verification::format_emojis` makes of emojis, given
/// as their symbols and descriptions.
pub uninterp spec fn emojis_formatted(emojis: Seq<(Seq<char>, Seq<char>)>) -> Seq<char>;

/// `matrix_sdk::encryption::verification::format_emojis` puts seven emojis on a line, and their
/// descriptions below them on another.
#[verifier::external_body]
fn format_emojis(emojis: &[Emoji; 7]) -> (r: String)
    ensures
        r@ == emojis_formatted(emoji_views(emojis@)),
{
    matrix_sdk::encryption::verification::format_emojis(
        (*emojis).map(|e| matrix_sdk::encryption::verification::Emoji {
            symbol: e.symbol,
            description: e.description,
        }),
    )
}

/// What the client is asked about emojis.
pub open spec fn emoji_question(emojis: Seq<char>) -> Seq<char> {
    "Got the following emojis:\n"@ + emojis + "\nOk? [yes/no]"@
}

/// What the client is asked about emojis.
pub fn ask_about_emojis(emojis: &str) -> (r: String)
    ensures
        r@ == emoji_question(emojis@),
{
    cat3("Got the following emojis:\n", emojis, "\nOk? [yes/no]")
}

/// What became of the exchange of emojis.
#[derive(Debug)]
pub enum SasState {
    /// The emojis are there, unless the other side wants something else compared.
    KeysExchanged(Option<[Emoji; 7]>),
    Done { user_id: String, device_id: String, trust: String },
    Cancelled(String),
    /// Nothing that the client is told.
    Other,
}

/// What is to be done when the exchange of emojis went on.
#[derive(Debug)]
pub enum SasTodo {
    /// The next change is waited for.
    GoOn,
    /// The talk is over, and no more changes are waited for.
    Stop,
    /// No more changes are waited for.
    End,
    /// It cannot go on, for this reason.
    Failed(String),
}

/// What a [`SasTodo`] holds.
pub enum SasTodoView {
    GoOn,
    Stop,
    End,
    Failed(Seq<char>),
}

impl View for SasTodo {
    type V = SasTodoView;

    open spec fn view(&self) -> SasTodoView {
        match *self {
            SasTodo::GoOn => SasTodoView::GoOn,
            SasTodo::Stop => SasTodoView::Stop,
            SasTodo::End => SasTodoView::End,
            SasTodo::Failed(e) => SasTodoView::Failed(e@),
        }
    }
}

impl SasState {
    /// What the client is told, if anything.
    pub open spec fn told(self) -> Option<Seq<char>> {
        match self {
            SasState::KeysExchanged(Some(emojis)) => Some(
                emoji_question(emojis_formatted(emoji_views(emojis@))),
            ),
            SasState::KeysExchanged(None) => None,
            SasState::Done { user_id, device_id, trust } => Some(
                "Successfully verified device "@ + user_id@ + " "@ + device_id@ + " "@ + trust@,
            ),
            SasState::Cancelled(reason) => Some(
                "The verification has been cancelled, reason: "@ + reason@,
            ),
            SasState::Other => None,
        }
    }

    /// What is to be done, where the talk has a query or not.
    pub open spec fn todo(self, has_target: bool) -> SasTodoView {
        match self {
            SasState::KeysExchanged(None) => SasTodoView::Failed(
                "Only support verification with emojis"@,
            ),
            SasState::Other => SasTodoView::GoOn,
            _ => if !has_target {
                SasTodoView::Failed("target should always be set"@)
            } else {
                match self {
                    SasState::Done { .. } => SasTodoView::Stop,
                    SasState::Cancelled(_) => SasTodoView::End,
                    _ => SasTodoView::GoOn,
                }
            },
        }
    }
}

/// What the client is to be sent, if anything, and what is to be done then.
pub struct SasAction {
    pub told: Option<Delivery>,
    pub todo: SasTodo,
}

/// Whether `action` is what a change in the exchange of emojis leads to, and `after` the
/// verification then.
pub open spec fn sas_changed<S>(
    before: VerificationView<S>,
    nick: Seq<char>,
    state: SasState,
    after: VerificationView<S>,
    action: SasAction,
) -> bool {
    &&& action.todo@ == state.todo(before.target is Some)
    &&& after.step == if state matches SasState::KeysExchanged(Some(_)) {
        VerifState::ConfirmEmoji
    } else {
        before.step
    }
    &&& after.sas == before.sas
    &&& after.stop == before.stop
    &&& match (state.told(), action.told) {
        (Some(text), Some(d)) => says(before.target, nick, text, after.target, Ok(d)),
        (Some(_), None) => before.target is None && after.target is None,
        (None, Some(_)) => false,
        (None, None) => after.target == before.target,
    }
}

/// What became of a request for verification.
#[derive(Debug, Clone, Copy, PartialEq, Eq, Structural)]
pub enum RequestState {
    /// It goes on.
    Pending,
    /// The exchange of emojis begins.
    Sas,
    /// It is done, or was cancelled.
    Over,
}

/// What is to be done when a request for verification went on.
#[derive(Debug, Clone, Copy, PartialEq, Eq, Structural)]
pub enum RequestTodo {
    /// The next change is waited for.
    GoOn,
    /// The exchange of emojis is taken up, and no more changes are waited for.
    TakeUpSas,
    /// No more changes are waited for.
    End,
}

/// What is to be done when a request for verification went on.
pub fn request_changed(state: RequestState) -> (r: RequestTodo)
    ensures
        r == match state {
            RequestState::Pending => RequestTodo::GoOn,
            RequestState::Sas => RequestTodo::TakeUpSas,
            RequestState::Over => RequestTodo::End,
        },
{
    match state {
        RequestState::Pending => RequestTodo::GoOn,
        RequestState::Sas => RequestTodo::TakeUpSas,
        RequestState::Over => RequestTodo::End,
    }
}

impl<S> VerificationContext<S> {
    /// The talk is in order.
    pub closed spec fn wf(self) -> bool {
        self.talk.wf()
    }

    /// A verification that the client was not asked about yet.
    pub fn new() -> (r: Self)
        ensures
            r.wf(),
            r@ == (VerificationView::<S> {
                target: None,
                sas: None,
                step: VerifState::ConfirmStart,
                stop: false,
            }),
    {
        VerificationContext {
            talk: Talk::new(),
            sas: None,
            step: VerifState::ConfirmStart,
            stop: false,
        }
    }

    /// Gives the verification its exchange of emojis.
    pub fn set_sas(&mut self, sas: S)
        requires
            old(self).wf(),
        ensures
            final(self).wf(),
            final(self)@ == (VerificationView { sas: Some(sas), ..old(self)@ }),
    {
        self.sas = Some(sas);
    }

    /// The exchange of emojis.
    pub fn sas(&self) -> (r: Option<&S>)
        ensures
            (match r {
                Some(s) => self@.sas == Some(*s),
                None => self@.sas is None,
            }),
    {
        match &self.sas {
            Some(s) => Some(s),
            None => None,
        }
    }

    /// Whether the talk is over.
    pub fn stopped(&self) -> (r: bool)
        ensures
            r == self@.stop,
    {
        self.stop
    }

    /// Says something to the client.
    pub fn to_irc(&mut self, nick: &str, message: &str) -> (r: Result<Delivery, String>)
        requires
            old(self).wf(),
        ensures
            final(self).wf(),
            final(self)@ == (VerificationView { target: final(self)@.target, ..old(self)@ }),
            says(old(self)@.target, nick@, message@, final(self)@.target, r),
    {
        self.talk.to_irc(nick, message)
    }

    /// Takes in how much of what the client was to be sent could be sent.
    pub fn sent(&mut self, nick: &str, sent: usize)
        requires
            old(self).wf(),
        ensures
            final(self).wf(),
            final(self)@ == (VerificationView {
                target: talk_sent(old(self)@.target, nick@, sent as nat),
                ..old(self)@
            }),
    {
        self.talk.sent(nick, sent);
    }

    /// Ends the talk: its name is free again.
    pub fn stop<H>(&mut self, mappings: &mut Mappings<H>) -> (r: Result<(), String>)
        requires
            old(self).wf(),
            old(mappings).wf(),
        ensures
            final(self).wf(),
            final(mappings).wf(),
            (match r {
                Ok(()) => {
                    &&& old(self)@.target matches Some(t) && final(mappings)@
                        == old(mappings)@.without_handler(t.target)
                    &&& final(self)@ == (VerificationView { stop: true, ..old(self)@ })
                },
                Err(e) => {
                    &&& old(self)@.target is None
                    &&& e@ == "target should always be set"@
                    &&& final(mappings)@ == old(mappings)@
                    &&& final(self)@ == old(self)@
                },
            }),
    {
        match self.talk.name() {
            Ok(name) => {
                mappings.remove_target(&name);
                self.stop = true;
                Ok(())
            },
            Err(e) => Err(e),
        }
    }

    fn handle_confirm_start(&mut self, nick: &str, message: &str) -> (r: VerifAction)
        requires
            old(self).wf(),
            old(self)@.step == VerifState::ConfirmStart,
        ensures
            final(self).wf(),
            answered(old(self)@, nick@, message@, final(self)@, r),
    {
        if same(message, "yes") {
            let told = self.to_irc(nick, "Ok, starting...");
            VerifAction { told, reply: VerifReply::Start }
        } else if same(message, "no") {
            let told = self.to_irc(nick, "Ok, bye");
            VerifAction { told, reply: VerifReply::Bye }
        } else {
            let told = self.to_irc(nick, "Bad message, expecting yes or no");
            VerifAction { told, reply: VerifReply::Other }
        }
    }

    fn handle_confirm_emoji(&mut self, nick: &str, message: &str) -> (r: VerifAction)
        requires
            old(self).wf(),
            old(self)@.step == VerifState::ConfirmEmoji,
        ensures
            final(self).wf(),
            answered(old(self)@, nick@, message@, final(self)@, r),
    {
        if same(message, "yes") {
            let told = self.to_irc(nick, "Ok, accepting...");
            VerifAction { told, reply: VerifReply::Confirm }
        } else if same(message, "no") {
            let told = self.to_irc(nick, "Ok, aborting");
            VerifAction { told, reply: VerifReply::Abort }
        } else {
            let told = self.to_irc(nick, "Bad message, expecting yes or no");
            VerifAction { told, reply: VerifReply::Other }
        }
    }

    /// What is to be done when the client was told what its answer led to, or could not be told,
    /// for a reason. Only a client that was told takes the verification further.
    pub fn replied(&mut self, reply: VerifReply, failure: Option<String>) -> (r: VerifTodo)
        requires
            old(self).wf(),
        ensures
            final(self).wf(),
            r@ == old(self)@.replied_todo(reply, opt_text(failure)),
            final(self)@ == (VerificationView {
                step: old(self)@.replied_step(reply, opt_text(failure)),
                ..old(self)@
            }),
    {
        match reply {
            VerifReply::Bye => VerifTodo::Stop,
            VerifReply::Abort => match &self.sas {
                Some(_) => VerifTodo::Cancel,
                None => VerifTodo::Failed("Sas should be set at this point".to_owned()),
            },
            _ => match failure {
                Some(e) => VerifTodo::Failed(e),
                None => match reply {
                    VerifReply::Start => {
                        self.step = VerifState::WaitingSas;
                        VerifTodo::Start
                    },
                    VerifReply::Confirm => {
                        self.step = VerifState::WaitingDone;
                        match &self.sas {
                            Some(_) => VerifTodo::Confirm,
                            None => VerifTodo::Failed("Sas should be set at this point".to_owned()),
                        }
                    },
                    _ => VerifTodo::Nothing,
                },
            },
        }
    }

    fn say_then(&mut self, nick: &str, message: &str, todo: SasTodo) -> (r: SasAction)
        requires
            old(self).wf(),
        ensures
            final(self).wf(),
            final(self)@ == (VerificationView { target: final(self)@.target, ..old(self)@ }),
            (match r.told {
                Some(d) => {
                    &&& says(old(self)@.target, nick@, message@, final(self)@.target, Ok(d))
                    &&& old(self)@.target is Some
                    &&& r.todo@ == todo@
                },
                None => {
                    &&& old(self)@.target is None && final(self)@.target is None
                    &&& r.todo@ == SasTodoView::Failed("target should always be set"@)
                },
            }),
    {
        match self.to_irc(nick, message) {
            Ok(d) => SasAction { told: Some(d), todo },
            Err(e) => SasAction { told: None, todo: SasTodo::Failed(e) },
        }
    }

    /// Takes in a change in the exchange of emojis.
    pub fn sas_verification_handler(&mut self, nick: &str, state: &SasState) -> (r: SasAction)
        requires
            old(self).wf(),
        ensures
            final(self).wf(),
            sas_changed(old(self)@, nick@, *state, final(self)@, r),
    {
        match state {
            SasState::KeysExchanged(None) => SasAction {
                told: None,
                todo: SasTodo::Failed("Only support verification with emojis".to_owned()),
            },
            SasState::KeysExchanged(Some(emojis)) => {
                self.step = VerifState::ConfirmEmoji;
                let text = ask_about_emojis(&format_emojis(emojis));
                self.say_then(nick, &text, SasTodo::GoOn)
            },
            SasState::Done { user_id, device_id, trust } => {
                let device = cat5("Successfully verified device ", user_id, " ", device_id, " ");
                let text = cat2(&device, trust);
                self.say_then(nick, &text, SasTodo::Stop)
            },
            SasState::Cancelled(reason) => {
                let text = cat2("The verification has been cancelled, reason: ", reason);
                self.say_then(nick, &text, SasTodo::End)
            },
            SasState::Other => SasAction { told: None, todo: SasTodo::GoOn },
        }
    }

    /// Tells the client that the exchange of emojis cannot go on.
    pub fn sas_failed(&mut self, nick: &str, e: &str) -> (r: Result<Delivery, String>)
        requires
            old(self).wf(),
        ensures
            final(self).wf(),
            final(self)@ == (VerificationView { target: final(self)@.target, ..old(self)@ }),
            says(old(self)@.target, nick@, "Error handling sas: "@ + e@, final(self)@.target, r),
    {
        self.to_irc(nick, &cat2("Error handling sas: ", e))
    }

    /// Tells the client that the request cannot go on.
    pub fn request_failed(&mut self, nick: &str, e: &str) -> (r: Result<Delivery, String>)
        requires
            old(self).wf(),
        ensures
            final(self).wf(),
            final(self)@ == (VerificationView { target: final(self)@.target, ..old(self)@ }),
            says(old(self)@.target, nick@, "Error handling verif: "@ + e@, final(self)@.target, r),
    {
        self.to_irc(nick, &cat2("Error handling verif: ", e))
    }
}

impl<S> MessageHandler for VerificationContext<S> {
    type Action = VerifAction;

    open spec fn ready(&self) -> bool {
        self.wf()
    }

    open spec fn handled(
        before: Self,
        nick: Seq<char>,
        message_type: MatrixMessageType,
        message: Seq<char>,
        after: Self,
        action: VerifAction,
    ) -> bool {
        answered(before@, nick, message, after@, action)
    }

    open spec fn targeted(before: Self, target: RoomTargetView, after: Self) -> bool {
        after@ == (VerificationView { target: Some(target), ..before@ })
    }

    fn handle_message(&mut self, nick: &str, message_type: MatrixMessageType, message: &str) -> (r: VerifAction) {
        match self.step {
            VerifState::ConfirmStart => self.handle_confirm_start(nick, message),
            VerifState::ConfirmEmoji => self.handle_confirm_emoji(nick, message),
            _ => {
                let told = self.to_irc(nick, "not expecting any message at this point");
                VerifAction { told, reply: VerifReply::Other }
            },
        }
    }

    fn set_target(&mut self, target: RoomTarget) {
        self.talk.set_target(target);
    }
}

/// What the client is asked about a request for verification.
pub open spec fn verification_question(sender: Seq<char>) -> Seq<char> {
    "Got a verification request from "@ + sender + ", accept? [yes/no]"@
}

/// Asks the client about a request for verification, where there is one.
pub fn handle_verification_request<H, S>(
    mappings: &mut Mappings<H>,
    found: bool,
    sender: &str,
    handler: H,
) -> (r: Result<(VerificationContext<S>, Delivery), String>)
    requires
        old(mappings).wf(),
    ensures
        final(mappings).wf(),
        (match r {
            Err(e) => {
                &&& !found
                &&& e@ == "Could not find verification request"@
                &&& final(mappings)@ == old(mappings)@
            },
            Ok((verif, d)) => {
                let name = deduped(old(mappings)@.targets.dom(), "verif"@);
                let query = RoomTargetView::fresh(RoomTargetType::Query, name);
                let m = query.own_text(verification_question(sender@));
                &&& found
                &&& final(mappings)@ == old(mappings)@.with_handler("verif"@, handler)
                &&& verif.wf()
                &&& verif@ == (VerificationView::<S> {
                    target: Some(query),
                    sas: None,
                    step: VerifState::ConfirmStart,
                    stop: false,
                })
                &&& messages(d.messages@) == query.text_messages(old(mappings)@.nick, m)
                &&& !d.joining && d.flushes
            },
        }),
{
    if !found {
        return Err("Could not find verification request".to_owned());
    }
    proof {
        reveal_strlit("verif");
        ascii_nick_has_user("verif"@);
    }
    let mut verif: VerificationContext<S> = VerificationContext::new();
    let target = mappings.insert_deduped("verif", handler);
    verif.set_target(target);
    let question = cat3("Got a verification request from ", sender, ", accept? [yes/no]");
    let nick = mappings.client().nick.clone();
    match verif.to_irc(&nick, &question) {
        Ok(d) => Ok((verif, d)),
        Err(e) => Err(e),
    }
}

/// A device is confirmed only when the client was shown its emojis, said yes and was told so,
/// and a verification is started only when the client was asked, said yes and was told so.
pub proof fn only_a_yes_confirms<S>(
    v: VerificationView<S>,
    message: Seq<char>,
    failure: Option<Seq<char>>,
)
    ensures
        v.replied_todo(v.reply(message), failure) == VerifTodoView::Confirm ==> {
            &&& v.step == VerifState::ConfirmEmoji
            &&& message == "yes"@
            &&& failure is None
        },
        v.replied_todo(v.reply(message), failure) == VerifTodoView::Start ==> {
            &&& v.step == VerifState::ConfirmStart
            &&& message == "yes"@
            &&& failure is None
        },
{
}

/// The client is asked about emojis only once they were shown: what it says never leads there.
pub proof fn emojis_are_shown_first<S>(
    v: VerificationView<S>,
    message: Seq<char>,
    failure: Option<Seq<char>>,
)
    requires
        v.step != VerifState::ConfirmEmoji,
    ensures
        v.replied_step(v.reply(message), failure) != VerifState::ConfirmEmoji,
{
}

/// An answer takes the verification no further where the client could not be told: it can be
/// given again, and is taken the same way.
pub proof fn untold_answers_can_be_given_again<S>(
    v: VerificationView<S>,
    message: Seq<char>,
    failure: Seq<char>,
)
    ensures
        ({
            let w = VerificationView {
                step: v.replied_step(v.reply(message), Some(failure)),
                ..v
            };
            w.reply(message) == v.reply(message) && w.answer_text(message) == v.answer_text(message)
        }),
{
}

/// While the client is asked, `yes` takes the verification on and `no` ends it, each with a
/// confirmation of its own; anything else is asked for again. While it is not asked, nothing that
/// it says is an answer.
pub proof fn answers_fit_the_question<S>(v: VerificationView<S>, message: Seq<char>)
    ensures
        v.step == VerifState::ConfirmStart ==> {
            &&& v.reply("yes"@) == VerifReply::Start
            &&& v.answer_text("yes"@) == "Ok, starting..."@
            &&& v.reply("no"@) == VerifReply::Bye
            &&& v.answer_text("no"@) == "Ok, bye"@
        },
        v.step == VerifState::ConfirmEmoji ==> {
            &&& v.reply("yes"@) == VerifReply::Confirm
            &&& v.answer_text("yes"@) == "Ok, accepting..."@
            &&& v.reply("no"@) == VerifReply::Abort
            &&& v.answer_text("no"@) == "Ok, aborting"@
        },
        v.step == VerifState::ConfirmStart || v.step == VerifState::ConfirmEmoji ==> {
            &&& v.reply(message) == VerifReply::Other <==> message != "yes"@ && message != "no"@
            &&& v.reply(message) == VerifReply::Other ==> v.answer_text(message)
                == "Bad message, expecting yes or no"@
        },
        v.step == VerifState::WaitingSas || v.step == VerifState::WaitingDone ==> {
            &&& v.reply(message) == VerifReply::Other
            &&& v.answer_text(message) == "not expecting any message at this point"@
        },
{
    reveal_strlit("yes");
    reveal_strlit("no");
    assert("yes"@.len() != "no"@.len());
}

/// An answer that the client was told of is carried out: a start begins the verification, which
/// then waits for the emojis; a confirmation confirms them, and it waits for the end; a refusal
/// ends the talk, or cancels the exchange, even if the client could not be told. Without an
/// exchange there is nothing to confirm or cancel. Anything else leaves everything as it was.
pub proof fn told_answers_are_carried_out<S>(v: VerificationView<S>, failure: Seq<char>)
    ensures
        v.replied_todo(VerifReply::Start, None) == VerifTodoView::Start,
        v.replied_step(VerifReply::Start, None) == VerifState::WaitingSas,
        v.replied_todo(VerifReply::Bye, None) == VerifTodoView::Stop,
        v.replied_todo(VerifReply::Bye, Some(failure)) == VerifTodoView::Stop,
        v.replied_step(VerifReply::Confirm, None) == VerifState::WaitingDone,
        v.sas is Some ==> {
            &&& v.replied_todo(VerifReply::Confirm, None) == VerifTodoView::Confirm
            &&& v.replied_todo(VerifReply::Abort, None) == VerifTodoView::Cancel
            &&& v.replied_todo(VerifReply::Abort, Some(failure)) == VerifTodoView::Cancel
        },
        v.sas is None ==> ({
            let none = VerifTodoView::Failed("Sas should be set at this point"@);
            &&& v.replied_todo(VerifReply::Confirm, None) == none
            &&& v.replied_todo(VerifReply::Abort, None) == none
            &&& v.replied_todo(VerifReply::Abort, Some(failure)) == none
        }),
        v.replied_todo(VerifReply::Other, None) == VerifTodoView::Nothing,
        v.replied_todo(VerifReply::Start, Some(failure)) == VerifTodoView::Failed(failure),
        v.replied_todo(VerifReply::Confirm, Some(failure)) == VerifTodoView::Failed(failure),
        v.replied_todo(VerifReply::Other, Some(failure)) == VerifTodoView::Failed(failure),
        forall|reply: VerifReply| #[trigger] v.replied_step(reply, Some(failure)) == v.step,
        forall|reply: VerifReply|
            reply != VerifReply::Start && reply != VerifReply::Confirm ==> #[trigger] v.replied_step(
                reply,
                None,
            ) == v.step,
{
}

/// Emojis are shown to the client, who is asked about them, and its answer is taken from then on;
/// a verified device and a cancelled verification are told of, after which no more is waited for.
/// Where the other side has no emojis it cannot go on, and any other change is passed over. None
/// of that changes the exchange, or whether the talk is over.
pub proof fn exchanges_are_followed<S>(
    before: VerificationView<S>,
    nick: Seq<char>,
    state: SasState,
    after: VerificationView<S>,
    action: SasAction,
)
    requires
        sas_changed(before, nick, state, after, action),
        before.target is Some,
    ensures
        after.sas == before.sas,
        after.stop == before.stop,
        match state {
            SasState::KeysExchanged(Some(emojis)) => {
                let text = "Got the following emojis:\n"@ + emojis_formatted(
                    emojis@.map_values(|e: Emoji| (e.symbol@, e.description@)),
                ) + "\nOk? [yes/no]"@;
                &&& after.step == VerifState::ConfirmEmoji
                &&& action.todo is GoOn
                &&& action.told matches Some(d) && says(
                    before.target,
                    nick,
                    text,
                    after.target,
                    Ok(d),
                )
            },
            SasState::KeysExchanged(None) => {
                &&& after == before
                &&& action.told is None
                &&& action.todo@ == SasTodoView::Failed("Only support verification with emojis"@)
            },
            SasState::Done { user_id, device_id, trust } => {
                let text = "Successfully verified device "@ + user_id@ + " "@ + device_id@ + " "@
                    + trust@;
                &&& after.step == before.step
                &&& action.todo is Stop
                &&& action.told matches Some(d) && says(
                    before.target,
                    nick,
                    text,
                    after.target,
                    Ok(d),
                )
            },
            SasState::Cancelled(reason) => {
                let text = "The verification has been cancelled, reason: "@ + reason@;
                &&& after.step == before.step
                &&& action.todo is End
                &&& action.told matches Some(d) && says(
                    before.target,
                    nick,
                    text,
                    after.target,
                    Ok(d),
                )
            },
            SasState::Other => after == before && action.told is None && action.todo is GoOn,
        },
{
}

/// A verification that has no query cannot say anything: with what would be said it cannot go on.
pub proof fn exchanges_need_a_query<S>(
    before: VerificationView<S>,
    nick: Seq<char>,
    state: SasState,
    after: VerificationView<S>,
    action: SasAction,
)
    requires
        sas_changed(before, nick, state, after, action),
        before.target is None,
    ensures
        action.told is None,
        after.target is None,
        match state {
            SasState::KeysExchanged(Some(_)) | SasState::Done { .. } | SasState::Cancelled(_) =>
                action.todo@ == SasTodoView::Failed("target should always be set"@),
            SasState::KeysExchanged(None) => action.todo@ == SasTodoView::Failed(
                "Only support verification with emojis"@,
            ),
            SasState::Other => action.todo is GoOn,
        },
{
}

/// An answer is told and taken by how far the verification is, and changes nothing of it but the
/// query; the client is asked about a request by who sent it.
pub proof fn answers_are_told<S>(
    before: VerificationView<S>,
    nick: Seq<char>,
    message: Seq<char>,
    after: VerificationView<S>,
    action: VerifAction,
    sender: Seq<char>,
)
    ensures
        answered(before, nick, message, after, action) ==> {
            &&& action.reply == before.reply(message)
            &&& says(before.target, nick, before.answer_text(message), after.target, action.told)
            &&& after.sas == before.sas && after.step == before.step && after.stop == before.stop
        },
        verification_question(sender) == "Got a verification request from "@ + sender
            + ", accept? [yes/no]"@,
{
}

/// A verification keeps the query that it is given, and how far it is; it takes what the client
/// writes to it as an answer, however it was written.
pub proof fn verifications_keep_their_query<S>(
    before: VerificationContext<S>,
    target: RoomTargetView,
    nick: Seq<char>,
    message_type: MatrixMessageType,
    message: Seq<char>,
    after: VerificationContext<S>,
    action: VerifAction,
)
    ensures
        before.ready() <==> before.wf(),
        VerificationContext::<S>::targeted(before, target, after) <==> {
            &&& after@.target == Some(target)
            &&& after@.sas == before@.sas && after@.step == before@.step && after@.stop
                == before@.stop
        },
        VerificationContext::<S>::handled(before, nick, message_type, message, after, action)
            <==> answered(before@, nick, message, after@, action),
{
}

} // verus!
