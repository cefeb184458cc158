//! Joining a channel: the client is told that it joined, who is there, and that this was all.

use vstd::prelude::*;
use vstd::string::*;
use vstd::utf8::*;

use crate::ircd::proto::{join, message_from, messages, raw_line, raw_msg, CommandView, Message, MessageView};
use crate::text::{cat5, same, texts};

verus! {

/// What a line that lists names begins with.
pub open spec fn names_header(nick: Seq<char>, chan: Seq<char>) -> Seq<char> {
    ":matrirc 353 "@ + nick + " = "@ + chan + " :"@
}

/// The line that ends a list of names.
pub open spec fn names_end(nick: Seq<char>, chan: Seq<char>) -> Seq<char> {
    ":matrirc 366 "@ + nick + " "@ + chan + " :End"@
}

/// A list of names under way: the lines that are full, and the one that is being filled.
pub struct NamesFill {
    pub full: Seq<Seq<char>>,
    pub line: Seq<char>,
}

/// The list of names once all of `members` are in it. A name ends its line as soon as the line
/// is longer than 400 bytes; otherwise a space follows.
pub open spec fn names_filled(header: Seq<char>, members: Seq<Seq<char>>) -> NamesFill
    decreases members.len(),
{
    if members.len() == 0 {
        NamesFill { full: Seq::empty(), line: header }
    } else {
        let before = names_filled(header, members.drop_last());
        let line = before.line + members.last();
        if encode_utf8(line).len() > 400 {
            NamesFill { full: before.full.push(line), line: header }
        } else {
            NamesFill { full: before.full, line: line + " "@ }
        }
    }
}

/// The lines that list the names of `members`.
pub open spec fn names_lines(header: Seq<char>, members: Seq<Seq<char>>) -> Seq<Seq<char>> {
    let filled = names_filled(header, members);
    if filled.line != header {
        filled.full.push(filled.line)
    } else {
        filled.full
    }
}

/// What ends the joining of a channel: the names of its members and the end of the list.
pub open spec fn join_finish_messages(
    nick: Seq<char>,
    chan: Seq<char>,
    members: Seq<Seq<char>>,
) -> Seq<MessageView> {
    names_lines(names_header(nick, chan), members).map_values(|l: Seq<char>| raw_line(l)).push(
        raw_line(names_end(nick, chan)),
    )
}

/// The client's own `JOIN` of a channel.
pub open spec fn own_join(chan: Seq<char>) -> MessageView {
    message_from(None, CommandView::JOIN(chan))
}

/// Each name with a space behind it, one after the other.
pub open spec fn names_told(members: Seq<Seq<char>>) -> Seq<char>
    decreases members.len(),
{
    if members.len() == 0 {
        Seq::empty()
    } else {
        names_told(members.drop_last()) + members.last() + " "@
    }
}

/// What the lines hold behind their header, each with a space behind it.
pub open spec fn bodies_told(header: Seq<char>, lines: Seq<Seq<char>>) -> Seq<char> {
    names_told(lines.map_values(|l: Seq<char>| l.skip(header.len() as int)))
}

proof fn lemma_names_filled(header: Seq<char>, members: Seq<Seq<char>>)
    ensures
        ({
            let f = names_filled(header, members);
            &&& header.is_prefix_of(f.line)
            &&& forall|i: int| 0 <= i < f.full.len() ==> header.is_prefix_of(#[trigger] f.full[i])
            &&& bodies_told(header, f.full) + f.line.skip(header.len() as int) == names_told(members)
        }),
    decreases members.len(),
{
    let f = names_filled(header, members);
    let n = header.len() as int;
    if members.len() == 0 {
        assert(header.subrange(0, n) =~= header);
        assert(f.full.map_values(|l: Seq<char>| l.skip(n)) =~= Seq::<Seq<char>>::empty());
        assert(bodies_told(header, f.full) + f.line.skip(n) =~= Seq::empty());
    } else {
        let before = names_filled(header, members.drop_last());
        let line = before.line + members.last();
        lemma_names_filled(header, members.drop_last());
        assert(line.subrange(0, n) =~= before.line.subrange(0, n));
        assert(line.skip(n) =~= before.line.skip(n) + members.last());
        if encode_utf8(line).len() > 400 {
            let bodies = f.full.map_values(|l: Seq<char>| l.skip(n));
            assert(bodies.drop_last() =~= before.full.map_values(|l: Seq<char>| l.skip(n)));
            assert(bodies.last() == line.skip(n));
            assert(header.subrange(0, n) =~= header);
            assert(f.line.skip(n) =~= Seq::empty());
            assert(bodies_told(header, f.full) + f.line.skip(n) =~= (bodies_told(
                header,
                before.full,
            ) + before.line.skip(n)) + members.last() + " "@);
        } else {
            assert((line + " "@).subrange(0, n) =~= header);
            assert((line + " "@).skip(n) =~= line.skip(n) + " "@);
            assert(bodies_told(header, f.full) + f.line.skip(n) =~= (bodies_told(
                header,
                before.full,
            ) + before.line.skip(n)) + members.last() + " "@);
        }
    }
}

/// Every member is told, once and in order: each line begins with the header, and the rest of
/// the lines, put together, is the list of all names. Only the last line can end in a space of
/// its own.
pub proof fn all_names_are_told(header: Seq<char>, members: Seq<Seq<char>>)
    ensures
        ({
            let lines = names_lines(header, members);
            let told = names_told(members);
            &&& forall|i: int| 0 <= i < lines.len() ==> header.is_prefix_of(#[trigger] lines[i])
            &&& bodies_told(header, lines) == told || bodies_told(header, lines) == told + " "@
        }),
{
    let n = header.len() as int;
    let f = names_filled(header, members);
    let lines = names_lines(header, members);
    lemma_names_filled(header, members);
    assert(f.line == header ==> f.line.skip(n) =~= Seq::empty());
    if f.line != header {
        let bodies = lines.map_values(|l: Seq<char>| l.skip(n));
        assert(bodies.drop_last() =~= f.full.map_values(|l: Seq<char>| l.skip(n)));
        assert(bodies.last() == f.line.skip(n));
        assert(bodies_told(header, lines) =~= names_told(members) + " "@);
    } else {
        assert(bodies_told(header, lines) =~= names_told(members));
    }
}

/// A line longer than 400 bytes is so only because of its last name: without it, it had room.
pub proof fn lines_end_when_full(header: Seq<char>, members: Seq<Seq<char>>, i: int)
    requires
        0 <= i < names_filled(header, members).full.len(),
    ensures
        ({
            let line = names_filled(header, members).full[i];
            exists|rest: Seq<char>, m: int|
                0 <= m < members.len() && line == rest + members[m] && (rest == header
                    || encode_utf8(rest).len() <= 401)
        }),
    decreases members.len(),
{
    let before = names_filled(header, members.drop_last());
    let line = before.line + members.last();
    if i < before.full.len() {
        lines_end_when_full(header, members.drop_last(), i);
        let (rest, m) = choose|rest: Seq<char>, m: int|
            0 <= m < members.drop_last().len() && before.full[i] == rest + members.drop_last()[m] && (
            rest == header || encode_utf8(rest).len() <= 401);
        assert(names_filled(header, members).full[i] == rest + members[m]);
    } else {
        lemma_line_has_room(header, members.drop_last());
        assert(names_filled(header, members).full[i] == before.line + members[members.len() - 1]);
    }
}

proof fn lemma_line_has_room(header: Seq<char>, members: Seq<Seq<char>>)
    ensures
        ({
            let line = names_filled(header, members).line;
            line == header || encode_utf8(line).len() <= 401
        }),
{
    if members.len() > 0 {
        let before = names_filled(header, members.drop_last());
        let line = before.line + members.last();
        crate::ircd::proto::lemma_encode_concat(line, " "@);
        reveal_strlit(" ");
        is_ascii_chars_encode_utf8(" "@);
    }
}

/// The messages that end the joining of a channel.
pub fn join_irc_chan_finish(nick: &str, chan: &str, members: &Vec<String>) -> (r: Vec<Message>)
    ensures
        messages(r@) == join_finish_messages(nick@, chan@, texts(members@)),
{
    let header = cat5(":matrirc 353 ", nick, " = ", chan, " :");
    let ghost names = texts(members@);
    let mut r: Vec<Message> = Vec::new();
    let mut line = header.clone();
    let mut i: usize = 0;
    let ghost told = |l: Seq<char>| raw_line(l);
    assert(names.take(0) =~= Seq::empty());
    assert(messages(r@) =~= Seq::<Seq<char>>::empty().map_values(told));
    while i < members.len()
        invariant
            names == texts(members@),
            i <= members@.len(),
            told == (|l: Seq<char>| raw_line(l)),
            line@ == names_filled(header@, names.take(i as int)).line,
            messages(r@) == names_filled(header@, names.take(i as int)).full.map_values(told),
        decreases members@.len() - i,
    {
        let ghost before = names_filled(header@, names.take(i as int));
        assert(names.take(i + 1).drop_last() =~= names.take(i as int));
        assert(names.take(i + 1).last() == members@[i as int]@);
        line.append(&members[i]);
        if line.as_str().as_bytes().len() > 400 {
            let message = raw_msg(&line);
            r.push(message);
            assert(messages(r@) =~= before.full.map_values(told).push(message@));
            assert(messages(r@) =~= before.full.push(line@).map_values(told));
            line = header.clone();
        } else {
            line.append(" ");
        }
        i = i + 1;
    }
    assert(names.take(i as int) =~= names);
    let ghost filled = names_filled(header@, names);
    if !same(&line, &header) {
        let message = raw_msg(&line);
        r.push(message);
        assert(messages(r@) =~= filled.full.map_values(told).push(message@));
        assert(messages(r@) =~= filled.full.push(line@).map_values(told));
    }
    assert(messages(r@) =~= names_lines(header@, names).map_values(told));
    let ghost listed = r@;
    r.push(raw_msg(&cat5(":matrirc 366 ", nick, " ", chan, " :End")));
    assert(messages(r@) =~= messages(listed).push(raw_line(names_end(nick@, chan@))));
    r
}

/// All the messages that make the client join a channel.
pub fn join_irc_chan(nick: &str, chan: &str, members: &Vec<String>) -> (r: Vec<Message>)
    ensures
        messages(r@) == seq![own_join(chan@)] + join_finish_messages(nick@, chan@, texts(members@)),
{
    let mut r: Vec<Message> = Vec::new();
    r.push(join(None, chan));
    let mut finish = join_irc_chan_finish(nick, chan, members);
    let ghost tail = finish@;
    let ghost head = r@;
    r.append(&mut finish);
    assert(messages(r@) =~= messages(head) + messages(tail));
    assert(messages(head) =~= seq![own_join(chan@)]);
    r
}

proof fn lemma_full_lines(header: Seq<char>, members: Seq<Seq<char>>, i: int)
    requires
        0 <= i < names_filled(header, members).full.len(),
    ensures
        encode_utf8(names_filled(header, members).full[i]).len() > 400,
    decreases members.len(),
{
    let before = names_filled(header, members.drop_last());
    if i < before.full.len() {
        lemma_full_lines(header, members.drop_last(), i);
        assert(names_filled(header, members).full[i] == before.full[i]);
    }
}

/// The joining of a channel ends with lines that list names, each beginning alike with the
/// client and the channel, and the line that says that this was all. Where anyone is there, some
/// name is listed; and a line is ended before the last one only when it is longer than 400
/// bytes.
pub proof fn joins_end_with_the_names(nick: Seq<char>, chan: Seq<char>, members: Seq<Seq<char>>)
    ensures
        ({
            let told = join_finish_messages(nick, chan, members);
            let header = ":matrirc 353 "@ + nick + " = "@ + chan + " :"@;
            let lines = names_lines(header, members);
            &&& told.len() == lines.len() + 1
            &&& told.last() == raw_line(":matrirc 366 "@ + nick + " "@ + chan + " :End"@)
            &&& forall|i: int| 0 <= i < lines.len() ==> #[trigger] told[i] == raw_line(lines[i])
            &&& forall|i: int| 0 <= i < lines.len() ==> header.is_prefix_of(#[trigger] lines[i])
            &&& forall|i: int|
                0 <= i < lines.len() - 1 ==> encode_utf8(#[trigger] lines[i]).len() > 400
            &&& lines.len() > 0 <==> members.len() > 0
        }),
{
    let header = ":matrirc 353 "@ + nick + " = "@ + chan + " :"@;
    let f = names_filled(header, members);
    let lines = names_lines(header, members);
    all_names_are_told(header, members);
    assert forall|i: int| 0 <= i < lines.len() - 1 implies encode_utf8(#[trigger] lines[i]).len()
        > 400 by {
        lemma_full_lines(header, members, i);
    }
    if members.len() > 0 {
        let before = names_filled(header, members.drop_last());
        lemma_names_filled(header, members.drop_last());
        let line = before.line + members.last();
        reveal_strlit(" ");
        if encode_utf8(line).len() <= 400 {
            assert(f.line.len() > header.len());
        }
    }
}

/// The client joins a channel by a `JOIN` of its own, from nobody else.
pub proof fn clients_join_by_themselves(chan: Seq<char>)
    ensures
        own_join(chan) == (MessageView { prefix: None, command: CommandView::JOIN(chan) }),
{
}

/// In the list of all names each stands in its place, with one space behind it.
pub proof fn names_stand_apart(members: Seq<Seq<char>>, name: Seq<char>, header: Seq<char>)
    ensures
        names_told(Seq::empty()) == Seq::<char>::empty(),
        names_told(members.push(name)) == names_told(members) + name + seq![' '],
        bodies_told(header, members.push(header + name)) == bodies_told(header, members) + name + seq![
            ' ',
        ],
{
    reveal_strlit(" ");
    assert(" "@ =~= seq![' ']);
    let cut = |l: Seq<char>| l.skip(header.len() as int);
    assert(members.push(name).drop_last() =~= members);
    assert(members.push(header + name).map_values(cut).drop_last() =~= members.map_values(cut));
    assert((header + name).skip(header.len() as int) =~= name);
}

} // verus!
