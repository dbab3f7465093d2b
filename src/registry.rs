use vstd::prelude::*;
use crate::client::{Client, ClientView, Member};

verus! {

/// No two entries share a name.
pub open spec fn names_unique(reg: Seq<ClientView>) -> bool {
    forall|a: int, b: int|
        0 <= a < reg.len() && 0 <= b < reg.len() && a != b ==> reg[a].name != reg[b].name
}

/// No two entries share a connection id.
pub open spec fn ids_unique(reg: Seq<ClientView>) -> bool {
    forall|a: int, b: int|
        0 <= a < reg.len() && 0 <= b < reg.len() && a != b ==> reg[a].id != reg[b].id
}

pub open spec fn names_nonempty(reg: Seq<ClientView>) -> bool {
    forall|a: int| 0 <= a < reg.len() ==> (#[trigger] reg[a]).name.len() > 0
}

/// The invariant of the registry.
pub open spec fn registry_wf(reg: Seq<ClientView>) -> bool {
    names_unique(reg) && ids_unique(reg) && names_nonempty(reg)
}

pub open spec fn name_held(reg: Seq<ClientView>, name: Seq<char>) -> bool {
    exists|j: int| 0 <= j < reg.len() && reg[j].name == name
}

pub open spec fn id_held(reg: Seq<ClientView>, id: u64) -> bool {
    exists|j: int| 0 <= j < reg.len() && reg[j].id == id
}

/// The index of the entry named `name`, where one is.
pub open spec fn index_of_name(reg: Seq<ClientView>, name: Seq<char>) -> int {
    choose|j: int| 0 <= j < reg.len() && reg[j].name == name
}

/// The index of the entry with connection id `id`, where one is.
pub open spec fn index_of_id(reg: Seq<ClientView>, id: u64) -> int {
    choose|j: int| 0 <= j < reg.len() && reg[j].id == id
}

/// The names and colors of the entries, in join order.
pub open spec fn members_of(reg: Seq<ClientView>) -> Seq<(Seq<char>, u8)> {
    reg.map_values(|c: ClientView| (c.name, c.color))
}

/// Where the name is unique, the index found for it is the one holding it.
pub proof fn lemma_index_of_name(reg: Seq<ClientView>, k: int)
    requires
        names_unique(reg),
        0 <= k < reg.len(),
    ensures
        name_held(reg, reg[k].name),
        index_of_name(reg, reg[k].name) == k,
{
    assert(reg[k].name == reg[k].name);
}

/// Where the id is unique, the index found for it is the one holding it.
pub proof fn lemma_index_of_id(reg: Seq<ClientView>, k: int)
    requires
        ids_unique(reg),
        0 <= k < reg.len(),
    ensures
        id_held(reg, reg[k].id),
        index_of_id(reg, reg[k].id) == k,
{
    assert(reg[k].id == reg[k].id);
}

/// The clients connected to the server, in the order they joined.
pub struct Registry {
    pub clients: Vec<Client>,
}

impl View for Registry {
    type V = Seq<ClientView>;

    open spec fn view(&self) -> Seq<ClientView> {
        self.clients@.map_values(|c: Client| c@)
    }
}

impl Registry {
    pub open spec fn wf(&self) -> bool {
        registry_wf(self@)
    }

    pub fn new() -> (r: Registry)
        ensures
            r@ == Seq::<ClientView>::empty(),
            r.wf(),
    {
        let r = Registry { clients: Vec::new() };
        assert(r@ =~= Seq::<ClientView>::empty());
        r
    }

    pub fn len(&self) -> (r: usize)
        ensures
            r == self@.len(),
    {
        self.clients.len()
    }

    /// The index of the client named `name`, if one is connected.
    pub fn find_by_name(&self, name: &String) -> (r: Option<usize>)
        requires
            self.wf(),
        ensures
            r is Some <==> name_held(self@, name@),
            r matches Some(k) ==> k == index_of_name(self@, name@) && k < self@.len(),
    {
        let n = self.clients.len();
        let mut k: usize = 0;
        while k < n
            invariant
                n == self@.len(),
                k <= n,
                self.wf(),
                forall|j: int| 0 <= j < k ==> self@[j].name != name@,
            decreases n - k,
        {
            if self.clients[k].name == *name {
                proof {
                    lemma_index_of_name(self@, k as int);
                }
                return Some(k);
            }
            k = k + 1;
        }
        None
    }

    /// The index of the client on connection `id`, if it is connected.
    pub fn position_of_id(&self, id: u64) -> (r: Option<usize>)
        requires
            self.wf(),
        ensures
            r is Some <==> id_held(self@, id),
            r matches Some(k) ==> k == index_of_id(self@, id) && k < self@.len(),
    {
        let n = self.clients.len();
        let mut k: usize = 0;
        while k < n
            invariant
                n == self@.len(),
                k <= n,
                self.wf(),
                forall|j: int| 0 <= j < k ==> self@[j].id != id,
            decreases n - k,
        {
            if self.clients[k].id == id {
                proof {
                    lemma_index_of_id(self@, k as int);
                }
                return Some(k);
            }
            k = k + 1;
        }
        None
    }

    /// Adds a client whose name and id no connected client holds.
    pub fn join(&mut self, client: Client)
        requires
            old(self).wf(),
            client.name@.len() > 0,
            !name_held(old(self)@, client.name@),
            !id_held(old(self)@, client.id),
        ensures
            final(self)@ == old(self)@.push(client@),
            final(self).wf(),
    {
        let ghost c = client@;
        self.clients.push(client);
        assert(self@ =~= old(self)@.push(c));
        assert forall|a: int| 0 <= a < self@.len() - 1 implies self@[a].name != c.name
            && self@[a].id != c.id by {
            if self@[a].name == c.name {
                assert(name_held(old(self)@, c.name));
            }
            if self@[a].id == c.id {
                assert(id_held(old(self)@, c.id));
            }
        }
    }

    /// Adds `client` unless its name or its id is held already; says
    /// whether it was added.
    pub fn connect(&mut self, client: Client) -> (r: bool)
        requires
            old(self).wf(),
        ensures
            r == (client.name@.len() > 0 && !name_held(old(self)@, client.name@) && !id_held(
                old(self)@,
                client.id,
            )),
            r ==> final(self)@ == old(self)@.push(client@),
            !r ==> final(self)@ == old(self)@,
            final(self).wf(),
    {
        if client.name.as_str().unicode_len() == 0 {
            return false;
        }
        if self.find_by_name(&client.name).is_some() {
            return false;
        }
        if self.position_of_id(client.id).is_some() {
            return false;
        }
        self.join(client);
        true
    }

    /// Removes the client named `name`; says whether one was connected.
    pub fn leave(&mut self, name: &String) -> (r: bool)
        requires
            old(self).wf(),
        ensures
            r == name_held(old(self)@, name@),
            r ==> final(self)@ == old(self)@.remove(index_of_name(old(self)@, name@)),
            !r ==> final(self)@ == old(self)@,
            final(self).wf(),
    {
        match self.find_by_name(name) {
            Some(k) => {
                self.remove_at(k);
                true
            },
            None => false,
        }
    }

    /// Removes the client at index `k`.
    pub fn remove_at(&mut self, k: usize) -> (r: Client)
        requires
            old(self).wf(),
            k < old(self)@.len(),
        ensures
            final(self)@ == old(self)@.remove(k as int),
            r@ == old(self)@[k as int],
            final(self).wf(),
    {
        let r = self.clients.remove(k);
        assert(self@ =~= old(self)@.remove(k as int));
        assert forall|a: int, b: int|
            0 <= a < self@.len() && 0 <= b < self@.len() && a != b implies self@[a].name
            != self@[b].name && self@[a].id != self@[b].id by {
            let oa = if a < k { a } else { a + 1 };
            let ob = if b < k { b } else { b + 1 };
            assert(self@[a] == old(self)@[oa]);
            assert(self@[b] == old(self)@[ob]);
        }
        assert forall|a: int| 0 <= a < self@.len() implies (#[trigger] self@[a]).name.len() > 0 by {
            let oa = if a < k { a } else { a + 1 };
            assert(self@[a] == old(self)@[oa]);
        }
        r
    }

    /// The names and colors of the connected clients, in join order.
    pub fn members(&self) -> (r: Vec<Member>)
        ensures
            r@.map_values(|m: Member| m@) == members_of(self@),
    {
        let n = self.clients.len();
        let mut r: Vec<Member> = Vec::new();
        let mut k: usize = 0;
        while k < n
            invariant
                n == self@.len(),
                k <= n,
                r@.map_values(|m: Member| m@) =~= members_of(self@.take(k as int)),
            decreases n - k,
        {
            let m = Member { name: self.clients[k].name.clone(), color: self.clients[k].color };
            assert(m@ == (self@[k as int].name, self@[k as int].color));
            let ghost before = r@;
            r.push(m);
            assert(r@.map_values(|m: Member| m@) =~= before.map_values(|m: Member| m@).push(
                (self@[k as int].name, self@[k as int].color),
            ));
            assert(self@.take(k + 1) =~= self@.take(k as int).push(self@[k as int]));
            assert(r@.map_values(|m: Member| m@) =~= members_of(self@.take(k + 1)));
            k = k + 1;
        }
        assert(self@.take(n as int) =~= self@);
        r
    }
}

} // verus!
