use vstd::prelude::*;
use crate::client::{
    deliver, deliveries_view, generated_form, Client, ClientView, Command, Delivery, DeliveryView,
    Message, MessageView,
};
use crate::command::{
    broadcast_outcome, color_cmd, color_outcome, fan_out, lemma_color_keeps_wf,
    lemma_nick_keeps_wf, list_cmd, list_outcome, nick_cmd, nick_outcome, privmsg_cmd,
    privmsg_outcome, notify_all_except, send_join_msg, send_leave_msg, send_normal_msg,
};
use crate::laws::lemma_fan_out;
use crate::registry::{id_held, index_of_id, name_held, registry_wf, Registry};
use crate::text::{is_white_space, lines, split_lines, split_words, trim, trimmed, words};

verus! {

/// What `str::to_uppercase` makes of a string.
pub uninterp spec fn upper_of(s: Seq<char>) -> Seq<char>;

/// Relies on `str::to_uppercase`: the result depends on the characters
/// alone.
#[verifier::external_body]
fn uppercase(s: &str) -> (r: String)
    ensures
        r@ == upper_of(s@),
{
    s.to_uppercase()
}

/// What `String::from_utf8_lossy` makes of bytes.
pub uninterp spec fn lossy_text(b: Seq<u8>) -> Seq<char>;

/// Relies on `String::from_utf8_lossy`: the text of the bytes, with each
/// invalid sequence replaced.
#[verifier::external_body]
fn decode_lossy(b: &[u8]) -> (r: String)
    ensures
        r@ == lossy_text(b@),
{
    String::from_utf8_lossy(b).into_owned()
}

/// The command that an upper-cased first word names.
pub open spec fn keyword_command(k: Seq<char>) -> Option<Command> {
    if k == seq!['/', 'N', 'I', 'C', 'K'] {
        Some(Command::Nick)
    } else if k == seq!['/', 'P', 'R', 'I', 'V', 'M', 'S', 'G'] {
        Some(Command::Privmsg)
    } else if k == seq!['/', 'C', 'O', 'L', 'O', 'R'] {
        Some(Command::Color)
    } else if k == seq!['/', 'L', 'I', 'S', 'T'] {
        Some(Command::List)
    } else {
        None
    }
}

/// Which command an upper-cased first word names, if any.
pub fn command_of(keyword: &String) -> (r: Option<Command>)
    ensures
        r == keyword_command(keyword@),
{
    let nick = String::from_str("/NICK");
    let privmsg = String::from_str("/PRIVMSG");
    let color = String::from_str("/COLOR");
    let list = String::from_str("/LIST");
    proof {
        reveal_strlit("/NICK");
        reveal_strlit("/PRIVMSG");
        reveal_strlit("/COLOR");
        reveal_strlit("/LIST");
    }
    assert(nick@ =~= seq!['/', 'N', 'I', 'C', 'K']);
    assert(privmsg@ =~= seq!['/', 'P', 'R', 'I', 'V', 'M', 'S', 'G']);
    assert(color@ =~= seq!['/', 'C', 'O', 'L', 'O', 'R']);
    assert(list@ =~= seq!['/', 'L', 'I', 'S', 'T']);
    if *keyword == nick {
        Some(Command::Nick)
    } else if *keyword == privmsg {
        Some(Command::Privmsg)
    } else if *keyword == color {
        Some(Command::Color)
    } else if *keyword == list {
        Some(Command::List)
    } else {
        None
    }
}

/// What a command line of the client at index `i` produces, given its
/// upper-cased first word and the words after it.
pub open spec fn command_outcome(
    reg: Seq<ClientView>,
    i: int,
    keyword: Seq<char>,
    args: Seq<Seq<char>>,
) -> (Seq<ClientView>, Seq<DeliveryView>) {
    match keyword_command(keyword) {
        Some(Command::Nick) => nick_outcome(reg, i, args),
        Some(Command::Privmsg) => (reg, privmsg_outcome(reg, i, args)),
        Some(Command::Color) => color_outcome(reg, i, args),
        Some(Command::List) => (reg, list_outcome(reg, i, true)),
        None => (
            reg,
            seq![deliver(reg[i].id, true, MessageView::UnknownCommand { keyword })],
        ),
    }
}

/// A command keeps the registry's invariant and its length.
pub proof fn lemma_command_keeps_wf(
    reg: Seq<ClientView>,
    i: int,
    keyword: Seq<char>,
    args: Seq<Seq<char>>,
)
    requires
        registry_wf(reg),
        0 <= i < reg.len(),
    ensures
        registry_wf(command_outcome(reg, i, keyword, args).0),
        command_outcome(reg, i, keyword, args).0.len() == reg.len(),
{
    lemma_nick_keeps_wf(reg, i, args);
    lemma_color_keeps_wf(reg, i, args);
}

/// Runs the command named by `keyword`, an upper-cased first word, with
/// `args` for the client at index `client`.
pub fn run_command(ctx: &mut Registry, client: usize, keyword: String, args: &Vec<String>) -> (r:
    Vec<Delivery>)
    requires
        old(ctx).wf(),
        client < old(ctx)@.len(),
    ensures
        final(ctx).wf(),
        (final(ctx)@, deliveries_view(r@)) == command_outcome(
            old(ctx)@,
            client as int,
            keyword@,
            args.deep_view(),
        ),
{
    match command_of(&keyword) {
        Some(Command::Nick) => nick_cmd(ctx, client, args),
        Some(Command::Privmsg) => privmsg_cmd(ctx, client, args),
        Some(Command::Color) => color_cmd(ctx, client, args),
        Some(Command::List) => list_cmd(ctx, client, true),
        None => {
            let r = vec![
                ctx.clients[client].send_server(Message::UnknownCommand { keyword }, true),
            ];
            assert(deliveries_view(r@) =~= command_outcome(
                ctx@,
                client as int,
                keyword@,
                args.deep_view(),
            ).1);
            r
        },
    }
}

/// What one line from the client at index `i` produces. Once trimmed, an
/// empty line or one that starts with a NUL does nothing, one that starts
/// with `/` is a command, and any other is a chat line.
pub open spec fn line_outcome(reg: Seq<ClientView>, i: int, line: Seq<char>) -> (
    Seq<ClientView>,
    Seq<DeliveryView>,
) {
    let t = trimmed(line);
    if t.len() == 0 {
        (reg, Seq::empty())
    } else if t[0] == '/' {
        let ws = words(t);
        command_outcome(reg, i, upper_of(ws[0]), ws.drop_first())
    } else if t[0] == '\0' {
        (reg, Seq::empty())
    } else {
        (reg, broadcast_outcome(reg, i, t))
    }
}

/// A text that starts with a character other than white space has a
/// first word.
pub proof fn lemma_words_nonempty(s: Seq<char>)
    requires
        s.len() > 0,
        !is_white_space(s[0]),
    ensures
        words(s).len() > 0,
    decreases s.len(),
{
    if s.len() > 1 {
        lemma_words_nonempty(s.drop_last());
    }
}

/// A line keeps the registry's invariant and its length.
pub proof fn lemma_line_keeps_wf(reg: Seq<ClientView>, i: int, line: Seq<char>)
    requires
        registry_wf(reg),
        0 <= i < reg.len(),
    ensures
        registry_wf(line_outcome(reg, i, line).0),
        line_outcome(reg, i, line).0.len() == reg.len(),
{
    let t = trimmed(line);
    if t.len() > 0 && t[0] == '/' {
        let ws = words(t);
        lemma_command_keeps_wf(reg, i, upper_of(ws[0]), ws.drop_first());
    }
}

/// Handles one line from the client at index `client`.
pub fn handle_line(ctx: &mut Registry, client: usize, line: &str) -> (r: Vec<Delivery>)
    requires
        old(ctx).wf(),
        client < old(ctx)@.len(),
    ensures
        final(ctx).wf(),
        (final(ctx)@, deliveries_view(r@)) == line_outcome(old(ctx)@, client as int, line@),
{
    let t = trim(line);
    if t.unicode_len() == 0 {
        let r: Vec<Delivery> = Vec::new();
        assert(deliveries_view(r@) =~= Seq::<DeliveryView>::empty());
        return r;
    }
    let first = t.get_char(0);
    if first == '/' {
        proof {
            lemma_words_nonempty(t@);
        }
        let mut args = split_words(t);
        let ghost ws = args.deep_view();
        let head = args.remove(0);
        assert(args.deep_view() =~= ws.drop_first());
        assert(head@ == ws[0]);
        let keyword = uppercase(head.as_str());
        run_command(ctx, client, keyword, &args)
    } else if first == '\0' {
        let r: Vec<Delivery> = Vec::new();
        assert(deliveries_view(r@) =~= Seq::<DeliveryView>::empty());
        r
    } else {
        send_normal_msg(ctx, client, String::from_str(t))
    }
}

/// What the lines `ls` produce, one after another.
pub open spec fn lines_outcome(reg: Seq<ClientView>, i: int, ls: Seq<Seq<char>>) -> (
    Seq<ClientView>,
    Seq<DeliveryView>,
)
    decreases ls.len(),
{
    if ls.len() == 0 {
        (reg, Seq::empty())
    } else {
        let before = lines_outcome(reg, i, ls.drop_last());
        let last = line_outcome(before.0, i, ls.last());
        (last.0, before.1 + last.1)
    }
}

/// Lines keep the registry's invariant and its length.
pub proof fn lemma_lines_keep_wf(reg: Seq<ClientView>, i: int, ls: Seq<Seq<char>>)
    requires
        registry_wf(reg),
        0 <= i < reg.len(),
    ensures
        registry_wf(lines_outcome(reg, i, ls).0),
        lines_outcome(reg, i, ls).0.len() == reg.len(),
    decreases ls.len(),
{
    if ls.len() > 0 {
        lemma_lines_keep_wf(reg, i, ls.drop_last());
        lemma_line_keeps_wf(lines_outcome(reg, i, ls.drop_last()).0, i, ls.last());
    }
}

/// What a piece of text from the client at index `i` produces: it is
/// trimmed, then each of its lines is handled in order.
pub open spec fn input_outcome(reg: Seq<ClientView>, i: int, text: Seq<char>) -> (
    Seq<ClientView>,
    Seq<DeliveryView>,
) {
    lines_outcome(reg, i, lines(trimmed(text)))
}

/// Handles a piece of text from the client at index `client`.
pub fn handle_input(ctx: &mut Registry, client: usize, text: &str) -> (r: Vec<Delivery>)
    requires
        old(ctx).wf(),
        client < old(ctx)@.len(),
    ensures
        final(ctx).wf(),
        final(ctx)@.len() == old(ctx)@.len(),
        (final(ctx)@, deliveries_view(r@)) == input_outcome(old(ctx)@, client as int, text@),
{
    let ls = split_lines(trim(text));
    let ghost lv = ls.deep_view();
    let mut r: Vec<Delivery> = Vec::new();
    let mut k: usize = 0;
    assert(lv.take(0) =~= Seq::<Seq<char>>::empty());
    assert(deliveries_view(r@) =~= Seq::<DeliveryView>::empty());
    while k < ls.len()
        invariant
            k <= ls@.len(),
            lv == ls.deep_view(),
            client < old(ctx)@.len(),
            ctx.wf(),
            ctx@.len() == old(ctx)@.len(),
            (ctx@, deliveries_view(r@)) == lines_outcome(old(ctx)@, client as int, lv.take(k as int)),
        decreases ls@.len() - k,
    {
        assert(lv.take(k + 1).drop_last() =~= lv.take(k as int));
        assert(lv.take(k + 1).last() == ls@[k as int]@);
        proof {
            lemma_line_keeps_wf(ctx@, client as int, ls@[k as int]@);
        }
        let ghost before = r@;
        let mut more = handle_line(ctx, client, ls[k].as_str());
        let ghost added = more@;
        r.append(&mut more);
        assert(deliveries_view(r@) =~= deliveries_view(before) + deliveries_view(added));
        k = k + 1;
    }
    assert(lv.take(ls@.len() as int) =~= lv);
    r
}

/// What a chunk read from the client at index `i` produces: a chunk of
/// one byte asks for a redraw of its input line; any other is decoded and
/// handled as text.
pub open spec fn chunk_outcome(reg: Seq<ClientView>, i: int, bytes: Seq<u8>) -> (
    Seq<ClientView>,
    Seq<DeliveryView>,
) {
    if bytes.len() == 1 {
        (reg, seq![deliver(reg[i].id, true, MessageView::Redraw)])
    } else {
        input_outcome(reg, i, lossy_text(bytes))
    }
}

/// Handles a chunk of bytes read from the client at index `client`.
pub fn handle_chunk(ctx: &mut Registry, client: usize, bytes: &[u8]) -> (r: Vec<Delivery>)
    requires
        old(ctx).wf(),
        client < old(ctx)@.len(),
    ensures
        final(ctx).wf(),
        final(ctx)@.len() == old(ctx)@.len(),
        (final(ctx)@, deliveries_view(r@)) == chunk_outcome(old(ctx)@, client as int, bytes@),
{
    if bytes.len() == 1 {
        let r = vec![ctx.clients[client].send_server(Message::Redraw, true)];
        assert(deliveries_view(r@) =~= chunk_outcome(ctx@, client as int, bytes@).1);
        return r;
    }
    let text = decode_lossy(bytes);
    handle_input(ctx, client, text.as_str())
}

/// What the client at index `i`, just registered, is told, and then the
/// others: a welcome, its name, the member list, and its joining.
pub open spec fn greeting_outcome(reg: Seq<ClientView>, i: int) -> Seq<DeliveryView> {
    let me = reg[i];
    seq![
        deliver(me.id, false, MessageView::Welcome),
        deliver(me.id, false, MessageView::YourName { name: me.name }),
    ] + list_outcome(reg, i, false) + fan_out(
        reg,
        me.name,
        false,
        MessageView::Joined { name: me.name },
    )
}

/// Greets the client at index `client` and announces it to the others.
pub fn greet(ctx: &Registry, client: usize) -> (r: Vec<Delivery>)
    requires
        client < ctx@.len(),
    ensures
        deliveries_view(r@) == greeting_outcome(ctx@, client as int),
{
    let me = &ctx.clients[client];
    let mut r = vec![
        me.send_server(Message::Welcome, false),
        me.send_server(Message::YourName { name: me.name.clone() }, false),
    ];
    let ghost first = r@;
    let mut listing = list_cmd(ctx, client, false);
    let ghost second = listing@;
    r.append(&mut listing);
    let ghost both = r@;
    let mut joined = send_join_msg(ctx, &me.name);
    let ghost third = joined@;
    r.append(&mut joined);
    assert(deliveries_view(r@) =~= deliveries_view(first) + deliveries_view(second)
        + deliveries_view(third));
    assert(deliveries_view(first) =~= seq![
        deliver(ctx@[client as int].id, false, MessageView::Welcome),
        deliver(
            ctx@[client as int].id,
            false,
            MessageView::YourName { name: ctx@[client as int].name },
        ),
    ]);
    r
}

/// Registers a new client on connection `id` under a generated name and
/// greets it. Gives `None`, and leaves the registry as it was, where the
/// id or the generated name is held already.
pub fn open_session(ctx: &mut Registry, id: u64) -> (r: Option<Vec<Delivery>>)
    requires
        old(ctx).wf(),
    ensures
        final(ctx).wf(),
        id_held(old(ctx)@, id) ==> r is None,
        r is None ==> final(ctx)@ == old(ctx)@,
        r is None && !id_held(old(ctx)@, id) ==> exists|j: int|
            0 <= j < old(ctx)@.len() && generated_form(#[trigger] old(ctx)@[j].name),
        r matches Some(ds) ==> {
            &&& final(ctx)@.len() == old(ctx)@.len() + 1
            &&& final(ctx)@.drop_last() == old(ctx)@
            &&& final(ctx)@.last().id == id
            &&& final(ctx)@.last().color == 255
            &&& generated_form(final(ctx)@.last().name)
            &&& deliveries_view(ds@) == greeting_outcome(final(ctx)@, old(ctx)@.len() as int)
        },
{
    let client = Client::new(id);
    let ghost drawn = client.name@;
    if !ctx.connect(client) {
        proof {
            if !id_held(ctx@, id) {
                let j = choose|j: int| 0 <= j < ctx@.len() && ctx@[j].name == drawn;
                assert(generated_form(ctx@[j].name));
            }
        }
        return None;
    }
    let k = ctx.len() - 1;
    assert(ctx@.drop_last() =~= old(ctx)@);
    Some(greet(ctx, k))
}

/// What the disconnection of connection `id` produces. A registered
/// entry leaves the registry and every other client is told, under its
/// current name and color. Where the entry is gone already, the registry
/// stays as it is and every client in it is told, under the name and color
/// the session last knew: no registered name is empty, so an empty
/// exception leaves no one out.
pub open spec fn close_outcome(reg: Seq<ClientView>, id: u64, name: Seq<char>, color: u8) -> (
    Seq<ClientView>,
    Seq<DeliveryView>,
) {
    if id_held(reg, id) {
        let k = index_of_id(reg, id);
        let gone = reg[k];
        let after = reg.remove(k);
        (
            after,
            fan_out(
                after,
                gone.name,
                false,
                MessageView::Left { name: gone.name, color: gone.color },
            ),
        )
    } else {
        (reg, fan_out(reg, Seq::empty(), false, MessageView::Left { name, color }))
    }
}

/// Deregisters connection `id` and tells the others that it left. `name`
/// and `color` are what the session last knew of its client; they are
/// used where the entry has been removed already.
pub fn close_session(ctx: &mut Registry, id: u64, name: &String, color: u8) -> (r: Vec<Delivery>)
    requires
        old(ctx).wf(),
    ensures
        final(ctx).wf(),
        (final(ctx)@, deliveries_view(r@)) == close_outcome(old(ctx)@, id, name@, color),
        !id_held(old(ctx)@, id) ==> r@.len() == old(ctx)@.len(),
{
    match ctx.position_of_id(id) {
        Some(k) => {
            let gone = ctx.remove_at(k);
            send_leave_msg(ctx, &gone.name, gone.color)
        },
        None => {
            let nobody = String::new();
            let r = notify_all_except(
                ctx,
                &nobody,
                false,
                &Message::Left { name: name.clone(), color },
            );
            proof {
                lemma_fan_out(
                    ctx@,
                    Seq::empty(),
                    false,
                    MessageView::Left { name: name@, color },
                );
                if name_held(ctx@, Seq::empty()) {
                    let j = choose|j: int| 0 <= j < ctx@.len() && ctx@[j].name == Seq::<char>::empty();
                    assert(ctx@[j].name.len() > 0);
                }
                assert(deliveries_view(r@).len() == r@.len());
            }
            r
        },
    }
}

} // verus!
