use vstd::prelude::*;
use crate::client::{
    deliver, deliveries_view, Client, ClientView, Command, Delivery, DeliveryView, Message,
    MessageView,
};
use crate::registry::{
    index_of_name, members_of, name_held, registry_wf, Registry,
};

verus! {

/// The deliveries of `m` to every client of `reg` not named `except`, in
/// join order.
pub open spec fn fan_out(
    reg: Seq<ClientView>,
    except: Seq<char>,
    reset_line: bool,
    m: MessageView,
) -> Seq<DeliveryView>
    decreases reg.len(),
{
    if reg.len() == 0 {
        Seq::empty()
    } else {
        let rest = fan_out(reg.drop_last(), except, reset_line, m);
        if reg.last().name == except {
            rest
        } else {
            rest.push(deliver(reg.last().id, reset_line, m))
        }
    }
}

/// Delivers `m` to every client not named `except`.
pub(crate) fn notify_all_except(ctx: &Registry, except: &String, reset_line: bool, m: &Message) -> (r: Vec<
    Delivery,
>)
    ensures
        deliveries_view(r@) == fan_out(ctx@, except@, reset_line, m@),
{
    let n = ctx.clients.len();
    let mut r: Vec<Delivery> = Vec::new();
    let mut k: usize = 0;
    while k < n
        invariant
            n == ctx@.len(),
            k <= n,
            deliveries_view(r@) == fan_out(ctx@.take(k as int), except@, reset_line, m@),
        decreases n - k,
    {
        assert(ctx@.take(k + 1).drop_last() =~= ctx@.take(k as int));
        assert(ctx@.take(k + 1).last() == ctx@[k as int]);
        if ctx.clients[k].name != *except {
            let ghost before = r@;
            r.push(ctx.clients[k].send_server(m.duplicate(), reset_line));
            assert(deliveries_view(r@) =~= deliveries_view(before).push(
                deliver(ctx@[k as int].id, reset_line, m@),
            ));
        }
        k = k + 1;
    }
    assert(ctx@.take(n as int) =~= ctx@);
    r
}

/// Tells every other client that `client_name` joined.
pub fn send_join_msg(ctx: &Registry, client_name: &String) -> (r: Vec<Delivery>)
    ensures
        deliveries_view(r@) == fan_out(
            ctx@,
            client_name@,
            false,
            MessageView::Joined { name: client_name@ },
        ),
{
    notify_all_except(ctx, client_name, false, &Message::Joined { name: client_name.clone() })
}

/// Tells every client but one named `client_name` that it left; the one
/// that left is out of the registry already.
pub fn send_leave_msg(ctx: &Registry, client_name: &String, client_color: u8) -> (r: Vec<
    Delivery,
>)
    ensures
        deliveries_view(r@) == fan_out(
            ctx@,
            client_name@,
            false,
            MessageView::Left { name: client_name@, color: client_color },
        ),
{
    notify_all_except(
        ctx,
        client_name,
        false,
        &Message::Left { name: client_name.clone(), color: client_color },
    )
}

/// What a chat line from the client at index `i` produces: the line to
/// every other client, then the echo to the sender.
pub open spec fn broadcast_outcome(reg: Seq<ClientView>, i: int, text: Seq<char>) -> Seq<
    DeliveryView,
> {
    let me = reg[i];
    fan_out(reg, me.name, false, MessageView::Chat { from: me.name, color: me.color, text }).push(
        deliver(me.id, true, MessageView::Echo { name: me.name, color: me.color, text }),
    )
}

/// Sends a chat line from the client at index `client` to all others,
/// and its echo to the sender.
pub fn send_normal_msg(ctx: &Registry, client: usize, message: String) -> (r: Vec<Delivery>)
    requires
        client < ctx@.len(),
    ensures
        deliveries_view(r@) == broadcast_outcome(ctx@, client as int, message@),
{
    let me: &Client = &ctx.clients[client];
    let chat = Message::Chat { from: me.name.clone(), color: me.color, text: message.clone() };
    let mut r = notify_all_except(ctx, &me.name, false, &chat);
    let ghost before = r@;
    r.push(me.send_self(message));
    assert(deliveries_view(r@) =~= deliveries_view(before).push(
        deliver(
            ctx@[client as int].id,
            true,
            MessageView::Echo {
                name: ctx@[client as int].name,
                color: ctx@[client as int].color,
                text: message@,
            },
        ),
    ));
    r
}

/// What the list command produces: the member list, to the asking client.
pub open spec fn list_outcome(reg: Seq<ClientView>, i: int, reqcmd: bool) -> Seq<DeliveryView> {
    seq![deliver(reg[i].id, reqcmd, MessageView::Members { list: members_of(reg) })]
}

/// Sends the member list to the client at index `client`; `reqcmd` says
/// whether the client asked for it, so that it overwrites the input line.
pub fn list_cmd(ctx: &Registry, client: usize, reqcmd: bool) -> (r: Vec<Delivery>)
    requires
        client < ctx@.len(),
    ensures
        deliveries_view(r@) == list_outcome(ctx@, client as int, reqcmd),
{
    let list = ctx.members();
    let d = ctx.clients[client].send_server(Message::Members { list }, reqcmd);
    let r = vec![d];
    assert(deliveries_view(r@) =~= list_outcome(ctx@, client as int, reqcmd));
    r
}

/// The value of a string of decimal digits.
pub open spec fn decimal_value(d: Seq<char>) -> int
    decreases d.len(),
{
    if d.len() == 0 {
        0
    } else {
        decimal_value(d.drop_last()) * 10 + (d.last() as int - '0' as int)
    }
}

pub open spec fn is_digit(c: char) -> bool {
    '0' <= c && c <= '9'
}

/// The digits of a color argument: all of it but an optional leading `+`.
pub open spec fn color_digits(s: Seq<char>) -> Seq<char> {
    if s.len() > 0 && s[0] == '+' {
        s.drop_first()
    } else {
        s
    }
}

/// A color written in decimal: an optional `+` and at least one digit, of
/// a value from 0 to 255.
pub open spec fn color_value(s: Seq<char>) -> Option<u8> {
    let d = color_digits(s);
    if d.len() > 0 && (forall|k: int| 0 <= k < d.len() ==> is_digit(#[trigger] d[k]))
        && decimal_value(d) <= 255 {
        Some(decimal_value(d) as u8)
    } else {
        None
    }
}

/// Reads a color value 0 to 255 written in decimal.
pub fn parse_color(s: &str) -> (r: Option<u8>)
    ensures
        r == color_value(s@),
{
    let n = s.unicode_len();
    let mut start: usize = 0;
    if n > 0 && s.get_char(0) == '+' {
        start = 1;
    }
    let ghost d = color_digits(s@);
    assert(d =~= s@.subrange(start as int, n as int));
    if start == n {
        return None;
    }
    let mut k: usize = start;
    let mut acc: u32 = 0;
    while k < n
        invariant
            start <= k <= n,
            n == s@.len(),
            d == s@.subrange(start as int, n as int),
            d == color_digits(s@),
            d.len() > 0,
            forall|j: int| 0 <= j < k - start ==> is_digit(#[trigger] d[j]),
            acc == if decimal_value(d.take(k - start)) > 255 {
                256
            } else {
                decimal_value(d.take(k - start))
            },
        decreases n - k,
    {
        let c = s.get_char(k);
        if !('0' <= c && c <= '9') {
            assert(!is_digit(d[k - start]));
            assert(color_value(s@) is None);
            return None;
        }
        let ghost j = k - start;
        assert(d.take(j + 1).drop_last() =~= d.take(j));
        assert(d.take(j + 1).last() == c);
        let digit = (c as u32) - ('0' as u32);
        if acc < 256 {
            acc = acc * 10 + digit;
            if acc > 255 {
                acc = 256;
            }
        }
        k = k + 1;
    }
    assert(d.take(n - start) =~= d);
    if acc > 255 {
        None
    } else {
        Some(acc as u8)
    }
}

/// The words of a private message, joined with single spaces.
pub open spec fn join_words(ws: Seq<Seq<char>>) -> Seq<char>
    decreases ws.len(),
{
    if ws.len() == 0 {
        Seq::empty()
    } else if ws.len() == 1 {
        ws[0]
    } else {
        join_words(ws.drop_last()) + seq![' '] + ws.last()
    }
}

/// Joins `args[from..]` with single spaces.
fn join_from(args: &Vec<String>, from: usize) -> (r: String)
    requires
        from <= args@.len(),
    ensures
        r@ == join_words(args.deep_view().subrange(from as int, args@.len() as int)),
{
    let ghost ws = args.deep_view();
    let mut r = String::new();
    if from == args.len() {
        assert(ws.subrange(from as int, from as int) =~= Seq::<Seq<char>>::empty());
        return r;
    }
    r.append(args[from].as_str());
    assert(ws.subrange(from as int, from + 1) =~= seq![args@[from as int]@]);
    let mut k: usize = from + 1;
    while k < args.len()
        invariant
            from < k <= args@.len(),
            ws == args.deep_view(),
            r@ == join_words(ws.subrange(from as int, k as int)),
        decreases args@.len() - k,
    {
        r.append(" ");
        proof {
            reveal_strlit(" ");
        }
        r.append(args[k].as_str());
        assert(ws.subrange(from as int, k + 1).drop_last() =~= ws.subrange(from as int, k as int));
        assert(ws.subrange(from as int, k + 1).last() == args@[k as int]@);
        k = k + 1;
    }
    r
}

/// What a name change of the client at index `i` produces: the registry
/// after it, and the deliveries.
pub open spec fn nick_outcome(reg: Seq<ClientView>, i: int, args: Seq<Seq<char>>) -> (
    Seq<ClientView>,
    Seq<DeliveryView>,
) {
    let me = reg[i];
    if args.len() != 1 || args[0].len() == 0 {
        (reg, seq![deliver(me.id, true, MessageView::Usage { command: Command::Nick })])
    } else if name_held(reg, args[0]) {
        (reg, seq![deliver(me.id, true, MessageView::NameTaken { name: args[0] })])
    } else {
        let after = reg.update(i, ClientView { name: args[0], ..me });
        (
            after,
            fan_out(
                after,
                args[0],
                false,
                MessageView::Renamed { old: me.name, new: args[0] },
            ).push(deliver(me.id, true, MessageView::NameChanged { old: me.name, new: args[0] })),
        )
    }
}

/// A name change keeps the registry's invariant.
pub proof fn lemma_nick_keeps_wf(reg: Seq<ClientView>, i: int, args: Seq<Seq<char>>)
    requires
        registry_wf(reg),
        0 <= i < reg.len(),
    ensures
        registry_wf(nick_outcome(reg, i, args).0),
        nick_outcome(reg, i, args).0.len() == reg.len(),
{
    if args.len() == 1 && args[0].len() > 0 && !name_held(reg, args[0]) {
        let after = nick_outcome(reg, i, args).0;
        assert forall|a: int, b: int|
            0 <= a < after.len() && 0 <= b < after.len() && a != b implies after[a].name
            != after[b].name && after[a].id != after[b].id by {
            if a == i && after[a].name == after[b].name {
                assert(reg[b].name == args[0]);
            }
            if b == i && after[a].name == after[b].name {
                assert(reg[a].name == args[0]);
            }
        }
    }
}

/// Changes the name of the client at index `client` to the one argument,
/// unless a connected client holds that name, itself included.
pub fn nick_cmd(ctx: &mut Registry, client: usize, args: &Vec<String>) -> (r: Vec<Delivery>)
    requires
        old(ctx).wf(),
        client < old(ctx)@.len(),
    ensures
        final(ctx).wf(),
        (final(ctx)@, deliveries_view(r@)) == nick_outcome(
            old(ctx)@,
            client as int,
            args.deep_view(),
        ),
{
    proof {
        lemma_nick_keeps_wf(ctx@, client as int, args.deep_view());
    }
    let ghost ws = args.deep_view();
    if args.len() != 1 || args[0].as_str().unicode_len() == 0 {
        let d = ctx.clients[client].send_server(Message::Usage { command: Command::Nick }, true);
        let r = vec![d];
        assert(deliveries_view(r@) =~= nick_outcome(ctx@, client as int, ws).1);
        return r;
    }
    let new_name = args[0].clone();
    assert(new_name@ == ws[0]);
    if ctx.find_by_name(&new_name).is_some() {
        let d = ctx.clients[client].send_server(Message::NameTaken { name: new_name }, true);
        let r = vec![d];
        assert(deliveries_view(r@) =~= nick_outcome(ctx@, client as int, ws).1);
        return r;
    }
    let old_name = ctx.clients[client].name.clone();
    ctx.clients[client].name = new_name.clone();
    assert(ctx@ =~= old(ctx)@.update(
        client as int,
        ClientView { name: ws[0], ..old(ctx)@[client as int] },
    ));
    let mut r = notify_all_except(
        ctx,
        &new_name,
        false,
        &Message::Renamed { old: old_name.clone(), new: new_name.clone() },
    );
    let ghost before = r@;
    r.push(
        ctx.clients[client].send_server(Message::NameChanged { old: old_name, new: new_name }, true),
    );
    assert(deliveries_view(r@) =~= deliveries_view(before).push(
        deliver(
            old(ctx)@[client as int].id,
            true,
            MessageView::NameChanged { old: old(ctx)@[client as int].name, new: ws[0] },
        ),
    ));
    r
}

/// What a private message from the client at index `i` produces.
pub open spec fn privmsg_outcome(reg: Seq<ClientView>, i: int, args: Seq<Seq<char>>) -> Seq<
    DeliveryView,
> {
    let me = reg[i];
    if args.len() < 2 {
        seq![deliver(me.id, true, MessageView::Usage { command: Command::Privmsg })]
    } else {
        let target = args[0];
        let text = join_words(args.subrange(1, args.len() as int));
        if name_held(reg, target) {
            let t = reg[index_of_name(reg, target)];
            seq![
                deliver(t.id, false, MessageView::Private { from: me.name, color: me.color, text }),
                deliver(
                    me.id,
                    true,
                    MessageView::PrivateEcho {
                        name: me.name,
                        color: me.color,
                        target,
                        target_color: t.color,
                        text,
                    },
                ),
            ]
        } else {
            seq![deliver(me.id, true, MessageView::UserNotFound { name: target })]
        }
    }
}

/// Sends the words after the first argument, joined by spaces, to the
/// client named by the first argument, and a copy to the sender.
pub fn privmsg_cmd(ctx: &Registry, client: usize, args: &Vec<String>) -> (r: Vec<Delivery>)
    requires
        ctx.wf(),
        client < ctx@.len(),
    ensures
        deliveries_view(r@) == privmsg_outcome(ctx@, client as int, args.deep_view()),
{
    let ghost ws = args.deep_view();
    let me = &ctx.clients[client];
    if args.len() < 2 {
        let r = vec![me.send_server(Message::Usage { command: Command::Privmsg }, true)];
        assert(deliveries_view(r@) =~= privmsg_outcome(ctx@, client as int, ws));
        return r;
    }
    let target = args[0].clone();
    assert(target@ == ws[0]);
    let text = join_from(args, 1);
    match ctx.find_by_name(&target) {
        Some(k) => {
            let t = &ctx.clients[k];
            let target_color = t.color;
            let first = t.send_priv(me.name.clone(), me.color, text.clone());
            let second = me.send_self_priv(target, target_color, text);
            let r = vec![first, second];
            assert(deliveries_view(r@) =~= privmsg_outcome(ctx@, client as int, ws));
            r
        },
        None => {
            let r = vec![me.send_server(Message::UserNotFound { name: target }, true)];
            assert(deliveries_view(r@) =~= privmsg_outcome(ctx@, client as int, ws));
            r
        },
    }
}

/// What a color change of the client at index `i` produces.
pub open spec fn color_outcome(reg: Seq<ClientView>, i: int, args: Seq<Seq<char>>) -> (
    Seq<ClientView>,
    Seq<DeliveryView>,
) {
    let me = reg[i];
    if args.len() == 1 && color_value(args[0]) is Some {
        let c = color_value(args[0])->0;
        (
            reg.update(i, ClientView { color: c, ..me }),
            seq![deliver(me.id, true, MessageView::ColorSet { name: me.name, color: c })],
        )
    } else {
        (reg, seq![deliver(me.id, true, MessageView::Usage { command: Command::Color })])
    }
}

/// A color change keeps the registry's invariant.
pub proof fn lemma_color_keeps_wf(reg: Seq<ClientView>, i: int, args: Seq<Seq<char>>)
    requires
        registry_wf(reg),
        0 <= i < reg.len(),
    ensures
        registry_wf(color_outcome(reg, i, args).0),
        color_outcome(reg, i, args).0.len() == reg.len(),
{
    let after = color_outcome(reg, i, args).0;
    assert forall|a: int, b: int|
        0 <= a < after.len() && 0 <= b < after.len() && a != b implies after[a].name
        != after[b].name && after[a].id != after[b].id by {
        assert(reg[a].name != reg[b].name);
    }
    assert forall|a: int| 0 <= a < after.len() implies (#[trigger] after[a]).name.len() > 0 by {
        assert(reg[a].name.len() > 0);
    }
}

/// Sets the display color of the client at index `client` to the one
/// argument, a number from 0 to 255; tells no one else.
pub fn color_cmd(ctx: &mut Registry, client: usize, args: &Vec<String>) -> (r: Vec<Delivery>)
    requires
        old(ctx).wf(),
        client < old(ctx)@.len(),
    ensures
        final(ctx).wf(),
        (final(ctx)@, deliveries_view(r@)) == color_outcome(
            old(ctx)@,
            client as int,
            args.deep_view(),
        ),
{
    let ghost ws = args.deep_view();
    proof {
        lemma_color_keeps_wf(ctx@, client as int, ws);
    }
    if args.len() == 1 {
        assert(args[0]@ == ws[0]);
        if let Some(val) = parse_color(args[0].as_str()) {
            ctx.clients[client].color = val;
            assert(ctx@ =~= old(ctx)@.update(
                client as int,
                ClientView { color: val, ..old(ctx)@[client as int] },
            ));
            let name = ctx.clients[client].name.clone();
            let r = vec![
                ctx.clients[client].send_server(Message::ColorSet { name, color: val }, true),
            ];
            assert(deliveries_view(r@) =~= color_outcome(old(ctx)@, client as int, ws).1);
            return r;
        }
    }
    let r = vec![ctx.clients[client].send_server(Message::Usage { command: Command::Color }, true)];
    assert(deliveries_view(r@) =~= color_outcome(old(ctx)@, client as int, ws).1);
    r
}

} // verus!
