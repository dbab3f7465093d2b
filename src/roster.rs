use vstd::prelude::*;
use crate::client::{deliver, ClientView, Command, MessageView};
use crate::command::nick_outcome;
use crate::registry::{id_held, name_held, names_unique, registry_wf};

verus! {

/// A change to who is connected under which name.
pub enum RosterEvent {
    /// A client asks to join, as `Registry::connect` admits it.
    Join { client: ClientView },
    /// The client at `index` asks for the name `name`.
    Rename { index: nat, name: Seq<char> },
}

/// The registry after one event.
pub open spec fn after_event(reg: Seq<ClientView>, e: RosterEvent) -> Seq<ClientView> {
    match e {
        RosterEvent::Join { client } => {
            if client.name.len() > 0 && !name_held(reg, client.name) && !id_held(reg, client.id) {
                reg.push(client)
            } else {
                reg
            }
        },
        RosterEvent::Rename { index, name } => {
            if index < reg.len() {
                nick_outcome(reg, index as int, seq![name]).0
            } else {
                reg
            }
        },
    }
}

/// The registry after the events, in order.
pub open spec fn after_events(reg: Seq<ClientView>, es: Seq<RosterEvent>) -> Seq<ClientView>
    decreases es.len(),
{
    if es.len() == 0 {
        reg
    } else {
        after_event(after_events(reg, es.drop_last()), es.last())
    }
}

/// Whatever joins and renames happen, in whatever order, no two connected
/// clients ever share a name (nor a connection id).
pub proof fn law_names_unique_across_events(reg: Seq<ClientView>, es: Seq<RosterEvent>)
    requires
        registry_wf(reg),
    ensures
        registry_wf(after_events(reg, es)),
        names_unique(after_events(reg, es)),
    decreases es.len(),
{
    if es.len() > 0 {
        law_names_unique_across_events(reg, es.drop_last());
        let before = after_events(reg, es.drop_last());
        match es.last() {
            RosterEvent::Join { client } => {
                if client.name.len() > 0 && !name_held(before, client.name) && !id_held(
                    before,
                    client.id,
                ) {
                    let after = before.push(client);
                    assert forall|a: int, b: int|
                        0 <= a < after.len() && 0 <= b < after.len() && a != b implies after[a].name
                        != after[b].name && after[a].id != after[b].id by {
                        if a == before.len() {
                            assert(before[b] == after[b]);
                        } else if b == before.len() {
                            assert(before[a] == after[a]);
                        }
                    }
                }
            },
            RosterEvent::Rename { index, name } => {
                if index < before.len() {
                    crate::command::lemma_nick_keeps_wf(before, index as int, seq![name]);
                }
            },
        }
    }
}

/// Two clients asking in turn for the same free name: the first gets it,
/// the second is told it is taken and keeps its name, and names stay
/// unique. An empty name is refused to both with the usage reply.
pub proof fn law_same_new_name_in_turn(reg: Seq<ClientView>, x: int, y: int, n: Seq<char>)
    requires
        registry_wf(reg),
        0 <= x < reg.len(),
        0 <= y < reg.len(),
        x != y,
        !name_held(reg, n),
    ensures
        ({
            let first = nick_outcome(reg, x, seq![n]);
            let second = nick_outcome(first.0, y, seq![n]);
            &&& registry_wf(second.0)
            &&& n.len() > 0 ==> {
                &&& first.0[x].name == n
                &&& second.0 == first.0
                &&& second.0[y].name == reg[y].name
                &&& second.1 == seq![deliver(reg[y].id, true, MessageView::NameTaken { name: n })]
            }
            &&& n.len() == 0 ==> {
                &&& second.0 == reg
                &&& second.1 == seq![
                    deliver(reg[y].id, true, MessageView::Usage { command: Command::Nick }),
                ]
            }
        }),
{
    let first = nick_outcome(reg, x, seq![n]);
    crate::command::lemma_nick_keeps_wf(reg, x, seq![n]);
    crate::command::lemma_nick_keeps_wf(first.0, y, seq![n]);
    if n.len() > 0 {
        assert(first.0[x].name == n);
        assert(name_held(first.0, n));
        assert(first.0[y] == reg[y]);
    }
}

} // verus!
