use vstd::prelude::*;
use crate::client::{deliver, ClientView, Command, DeliveryView, MessageView};
use crate::command::{
    broadcast_outcome, color_outcome, color_value, fan_out, nick_outcome, privmsg_outcome,
};
use crate::registry::{ids_unique, members_of, name_held, names_unique, registry_wf};

verus! {

/// A fan-out reaches each client not named `except` once, and no other:
/// one delivery per such client, to distinct connections.
#[verifier::rlimit(50)]
pub proof fn lemma_fan_out(
    reg: Seq<ClientView>,
    except: Seq<char>,
    reset_line: bool,
    m: MessageView,
)
    requires
        names_unique(reg),
        ids_unique(reg),
    ensures
        fan_out(reg, except, reset_line, m).len() == reg.len() - (if name_held(reg, except) {
            1int
        } else {
            0int
        }),
        forall|k: int|
            0 <= k < fan_out(reg, except, reset_line, m).len() ==> exists|j: int|
                0 <= j < reg.len() && reg[j].name != except && #[trigger] fan_out(
                    reg,
                    except,
                    reset_line,
                    m,
                )[k] == deliver(reg[j].id, reset_line, m),
        forall|j: int|
            0 <= j < reg.len() && reg[j].name != except ==> exists|k: int|
                0 <= k < fan_out(reg, except, reset_line, m).len() && #[trigger] fan_out(
                    reg,
                    except,
                    reset_line,
                    m,
                )[k].to == #[trigger] reg[j].id,
        forall|k1: int, k2: int|
            0 <= k1 < fan_out(reg, except, reset_line, m).len() && 0 <= k2 < fan_out(
                reg,
                except,
                reset_line,
                m,
            ).len() && k1 != k2 ==> #[trigger] fan_out(reg, except, reset_line, m)[k1].to
                != #[trigger] fan_out(reg, except, reset_line, m)[k2].to,
    decreases reg.len(),
{
    if reg.len() > 0 {
        let p = reg.drop_last();
        let n = reg.len() - 1;
        assert(forall|a: int| 0 <= a < p.len() ==> p[a] == reg[a]);
        lemma_fan_out(p, except, reset_line, m);
        let fp = fan_out(p, except, reset_line, m);
        let f = fan_out(reg, except, reset_line, m);
        if reg[n].name == except {
            assert(f == fp);
            if name_held(p, except) {
                let j = choose|j: int| 0 <= j < p.len() && p[j].name == except;
                assert(reg[j].name == reg[n].name);
            }
            assert(name_held(reg, except));
        } else {
            assert(f == fp.push(deliver(reg[n].id, reset_line, m)));
            if name_held(reg, except) {
                let j = choose|j: int| 0 <= j < reg.len() && reg[j].name == except;
                assert(p[j].name == except);
            }
            if name_held(p, except) {
                let j = choose|j: int| 0 <= j < p.len() && p[j].name == except;
                assert(reg[j].name == except);
            }
            assert forall|k: int| 0 <= k < f.len() implies exists|j: int|
                0 <= j < reg.len() && reg[j].name != except && #[trigger] f[k] == deliver(
                    reg[j].id,
                    reset_line,
                    m,
                ) by {
                if k < fp.len() {
                    let j = choose|j: int|
                        0 <= j < p.len() && p[j].name != except && #[trigger] fp[k] == deliver(
                            p[j].id,
                            reset_line,
                            m,
                        );
                    assert(reg[j] == p[j]);
                } else {
                    assert(f[k] == deliver(reg[n].id, reset_line, m));
                }
            }
            assert forall|j: int| 0 <= j < reg.len() && reg[j].name != except implies exists|k: int|
                0 <= k < f.len() && #[trigger] f[k].to == #[trigger] reg[j].id by {
                if j < n {
                    assert(p[j] == reg[j]);
                    let k = choose|k: int| 0 <= k < fp.len() && #[trigger] fp[k].to == p[j].id;
                    assert(f[k] == fp[k]);
                } else {
                    assert(f[fp.len() as int].to == reg[j].id);
                }
            }
            assert forall|k1: int, k2: int|
                0 <= k1 < f.len() && 0 <= k2 < f.len() && k1 != k2 implies #[trigger] f[k1].to
                != #[trigger] f[k2].to by {
                if k1 == fp.len() || k2 == fp.len() {
                    let k = if k1 == fp.len() {
                        k2
                    } else {
                        k1
                    };
                    let j = choose|j: int|
                        0 <= j < p.len() && p[j].name != except && #[trigger] fp[k] == deliver(
                            p[j].id,
                            reset_line,
                            m,
                        );
                    assert(reg[j] == p[j]);
                    assert(f[k] == fp[k]);
                } else {
                    assert(f[k1] == fp[k1]);
                    assert(f[k2] == fp[k2]);
                }
            }
        }
    }
}

/// A fan-out reaches the client at index `j`, not named `except`.
pub proof fn lemma_fan_out_reaches(
    reg: Seq<ClientView>,
    except: Seq<char>,
    reset_line: bool,
    m: MessageView,
    j: int,
)
    requires
        names_unique(reg),
        ids_unique(reg),
        0 <= j < reg.len(),
        reg[j].name != except,
    ensures
        exists|k: int|
            0 <= k < fan_out(reg, except, reset_line, m).len() && fan_out(
                reg,
                except,
                reset_line,
                m,
            )[k].to == reg[j].id,
{
    lemma_fan_out(reg, except, reset_line, m);
}

/// A chat line from one of N registered clients reaches each of the N-1
/// others once, as a chat line from the sender, and the sender once, as
/// its echo, last.
#[verifier::rlimit(50)]
pub proof fn law_broadcast_reaches_each_other_once(reg: Seq<ClientView>, i: int, text: Seq<char>)
    requires
        registry_wf(reg),
        0 <= i < reg.len(),
    ensures
        ({
            let out = broadcast_outcome(reg, i, text);
            let me = reg[i];
            &&& out.len() == reg.len()
            &&& out.last() == deliver(
                me.id,
                true,
                MessageView::Echo { name: me.name, color: me.color, text },
            )
            &&& forall|k: int|
                0 <= k < out.len() - 1 ==> (#[trigger] out[k]).to != me.id && out[k].message
                    == MessageView::Chat { from: me.name, color: me.color, text }
                    && !out[k].reset_line
            &&& forall|j: int|
                0 <= j < reg.len() && j != i ==> exists|k: int|
                    0 <= k < out.len() - 1 && out[k].to == (#[trigger] reg[j]).id
            &&& forall|k1: int, k2: int|
                0 <= k1 < out.len() - 1 && 0 <= k2 < out.len() - 1 && k1 != k2 ==> #[trigger] out[k1].to
                    != #[trigger] out[k2].to
        }),
{
    let me = reg[i];
    let m = MessageView::Chat { from: me.name, color: me.color, text };
    let f = fan_out(reg, me.name, false, m);
    let out = broadcast_outcome(reg, i, text);
    let echo = deliver(me.id, true, MessageView::Echo { name: me.name, color: me.color, text });
    assert(out == f.push(echo));
    assert(name_held(reg, me.name));
    assert(f.len() == reg.len() - 1) by {
        lemma_fan_out(reg, me.name, false, m);
    }
    assert forall|k: int| 0 <= k < out.len() - 1 implies (#[trigger] out[k]).to != me.id
        && out[k].message == m && !out[k].reset_line by {
        lemma_fan_out(reg, me.name, false, m);
        assert(out[k] == f[k]);
        let j = choose|j: int|
            0 <= j < reg.len() && reg[j].name != me.name && #[trigger] f[k] == deliver(
                reg[j].id,
                false,
                m,
            );
        assert(j != i);
    }
    assert forall|j: int| 0 <= j < reg.len() && j != i implies exists|k: int|
        0 <= k < out.len() - 1 && out[k].to == (#[trigger] reg[j]).id by {
        assert(reg[j].name != me.name);
        lemma_fan_out_reaches(reg, me.name, false, m, j);
        let k = choose|k: int| 0 <= k < f.len() && f[k].to == reg[j].id;
        assert(out[k] == f[k]);
    }
    assert forall|k1: int, k2: int|
        0 <= k1 < out.len() - 1 && 0 <= k2 < out.len() - 1 && k1 != k2 implies #[trigger] out[k1].to
        != #[trigger] out[k2].to by {
        lemma_fan_out(reg, me.name, false, m);
        assert(out[k1] == f[k1]);
        assert(out[k2] == f[k2]);
    }
}

/// Renaming to a name that another connected client holds fails with a
/// name-taken reply to the renaming client alone, and changes no name.
pub proof fn law_rename_to_taken_name(reg: Seq<ClientView>, i: int, j: int)
    requires
        registry_wf(reg),
        0 <= i < reg.len(),
        0 <= j < reg.len(),
        i != j,
    ensures
        nick_outcome(reg, i, seq![reg[j].name]) == (
            reg,
            seq![deliver(reg[i].id, true, MessageView::NameTaken { name: reg[j].name })],
        ),
{
    assert(reg[j].name.len() > 0);
    assert(name_held(reg, reg[j].name));
}

/// Renaming to one's own current name is refused as taken, always, and
/// changes nothing.
pub proof fn law_rename_to_own_name(reg: Seq<ClientView>, i: int)
    requires
        registry_wf(reg),
        0 <= i < reg.len(),
    ensures
        nick_outcome(reg, i, seq![reg[i].name]) == (
            reg,
            seq![deliver(reg[i].id, true, MessageView::NameTaken { name: reg[i].name })],
        ),
{
    assert(reg[i].name.len() > 0);
    assert(name_held(reg, reg[i].name));
}

/// A successful rename keeps names unique: no name is then held twice.
pub proof fn law_rename_keeps_names_unique(reg: Seq<ClientView>, i: int, args: Seq<Seq<char>>)
    requires
        registry_wf(reg),
        0 <= i < reg.len(),
    ensures
        names_unique(nick_outcome(reg, i, args).0),
{
    crate::command::lemma_nick_keeps_wf(reg, i, args);
}

/// A private message to a name that no client holds delivers nothing to
/// any other client and one not-found reply to the sender.
pub proof fn law_privmsg_to_missing_name(reg: Seq<ClientView>, i: int, args: Seq<Seq<char>>)
    requires
        0 <= i < reg.len(),
        args.len() >= 2,
        !name_held(reg, args[0]),
    ensures
        privmsg_outcome(reg, i, args) == seq![
            deliver(reg[i].id, true, MessageView::UserNotFound { name: args[0] }),
        ],
{
}

/// A refused color leaves the registry as it was and tells the client the
/// usage; an accepted one shows in the member list from then on.
pub proof fn law_color_retained_or_listed(reg: Seq<ClientView>, i: int, args: Seq<Seq<char>>)
    requires
        0 <= i < reg.len(),
    ensures
        (args.len() != 1 || color_value(args[0]) is None) ==> color_outcome(reg, i, args) == (
            reg,
            seq![deliver(reg[i].id, true, MessageView::Usage { command: Command::Color })],
        ),
        (args.len() == 1 && color_value(args[0]) is Some) ==> members_of(
            color_outcome(reg, i, args).0,
        )[i] == (reg[i].name, color_value(args[0])->0),
{
}

} // verus!
