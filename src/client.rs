use vstd::prelude::*;

verus! {

/// The slash commands.
#[derive(Clone, Copy, Debug, PartialEq, Eq, Structural)]
pub enum Command {
    Nick,
    Privmsg,
    Color,
    List,
}

/// A connected client as the registry sees it.
pub struct ClientView {
    pub id: u64,
    pub name: Seq<char>,
    pub color: u8,
}

/// One connected client: a connection id chosen by the transport, a display
/// name and a display color.
#[derive(Debug, PartialEq, Eq)]
pub struct Client {
    pub id: u64,
    pub name: String,
    pub color: u8,
}

impl View for Client {
    type V = ClientView;

    open spec fn view(&self) -> ClientView {
        ClientView { id: self.id, name: self.name@, color: self.color }
    }
}

/// A name and a color, as listed to a client.
#[derive(Debug, PartialEq, Eq)]
pub struct Member {
    pub name: String,
    pub color: u8,
}

impl View for Member {
    type V = (Seq<char>, u8);

    open spec fn view(&self) -> (Seq<char>, u8) {
        (self.name@, self.color)
    }
}

/// What one client is told; how it is rendered is up to the transport.
#[derive(Debug, PartialEq, Eq)]
pub enum Message {
    /// A chat line from another client.
    Chat { from: String, color: u8, text: String },
    /// A private message from another client.
    Private { from: String, color: u8, text: String },
    /// The copy of a client's own chat line.
    Echo { name: String, color: u8, text: String },
    /// The copy of a private message that a client sent.
    PrivateEcho { name: String, color: u8, target: String, target_color: u8, text: String },
    Welcome,
    YourName { name: String },
    Members { list: Vec<Member> },
    Joined { name: String },
    Left { name: String, color: u8 },
    /// Told to the others when a client changes its name.
    Renamed { old: String, new: String },
    /// Told to the client that changed its name.
    NameChanged { old: String, new: String },
    NameTaken { name: String },
    UserNotFound { name: String },
    ColorSet { name: String, color: u8 },
    Usage { command: Command },
    UnknownCommand { keyword: String },
    /// Asks the client to redraw its input line.
    Redraw,
}

/// A message as a value, its texts as character sequences.
pub enum MessageView {
    Chat { from: Seq<char>, color: u8, text: Seq<char> },
    Private { from: Seq<char>, color: u8, text: Seq<char> },
    Echo { name: Seq<char>, color: u8, text: Seq<char> },
    PrivateEcho {
        name: Seq<char>,
        color: u8,
        target: Seq<char>,
        target_color: u8,
        text: Seq<char>,
    },
    Welcome,
    YourName { name: Seq<char> },
    Members { list: Seq<(Seq<char>, u8)> },
    Joined { name: Seq<char> },
    Left { name: Seq<char>, color: u8 },
    Renamed { old: Seq<char>, new: Seq<char> },
    NameChanged { old: Seq<char>, new: Seq<char> },
    NameTaken { name: Seq<char> },
    UserNotFound { name: Seq<char> },
    ColorSet { name: Seq<char>, color: u8 },
    Usage { command: Command },
    UnknownCommand { keyword: Seq<char> },
    Redraw,
}

impl View for Message {
    type V = MessageView;

    open spec fn view(&self) -> MessageView {
        match self {
            Message::Chat { from, color, text } => MessageView::Chat {
                from: from@,
                color: *color,
                text: text@,
            },
            Message::Private { from, color, text } => MessageView::Private {
                from: from@,
                color: *color,
                text: text@,
            },
            Message::Echo { name, color, text } => MessageView::Echo {
                name: name@,
                color: *color,
                text: text@,
            },
            Message::PrivateEcho { name, color, target, target_color, text } =>
                MessageView::PrivateEcho {
                name: name@,
                color: *color,
                target: target@,
                target_color: *target_color,
                text: text@,
            },
            Message::Welcome => MessageView::Welcome,
            Message::YourName { name } => MessageView::YourName { name: name@ },
            Message::Members { list } => MessageView::Members {
                list: list@.map_values(|m: Member| m@),
            },
            Message::Joined { name } => MessageView::Joined { name: name@ },
            Message::Left { name, color } => MessageView::Left { name: name@, color: *color },
            Message::Renamed { old, new } => MessageView::Renamed { old: old@, new: new@ },
            Message::NameChanged { old, new } => MessageView::NameChanged {
                old: old@,
                new: new@,
            },
            Message::NameTaken { name } => MessageView::NameTaken { name: name@ },
            Message::UserNotFound { name } => MessageView::UserNotFound { name: name@ },
            Message::ColorSet { name, color } => MessageView::ColorSet {
                name: name@,
                color: *color,
            },
            Message::Usage { command } => MessageView::Usage { command: *command },
            Message::UnknownCommand { keyword } => MessageView::UnknownCommand {
                keyword: keyword@,
            },
            Message::Redraw => MessageView::Redraw,
        }
    }
}

impl Member {
    pub fn duplicate(&self) -> (r: Member)
        ensures
            r@ == self@,
    {
        Member { name: self.name.clone(), color: self.color }
    }
}

/// A copy of a member list.
pub fn copy_members(list: &Vec<Member>) -> (r: Vec<Member>)
    ensures
        r@.map_values(|m: Member| m@) == list@.map_values(|m: Member| m@),
{
    let mut r: Vec<Member> = Vec::new();
    let mut k: usize = 0;
    while k < list.len()
        invariant
            k <= list@.len(),
            r@.map_values(|m: Member| m@) =~= list@.take(k as int).map_values(|m: Member| m@),
        decreases list@.len() - k,
    {
        let ghost before = r@;
        r.push(list[k].duplicate());
        assert(r@.map_values(|m: Member| m@) =~= before.map_values(|m: Member| m@).push(
            list@[k as int]@,
        ));
        assert(list@.take(k + 1) =~= list@.take(k as int).push(list@[k as int]));
        k = k + 1;
    }
    assert(list@.take(list@.len() as int) =~= list@);
    r
}

impl Message {
    pub fn duplicate(&self) -> (r: Message)
        ensures
            r@ == self@,
    {
        match self {
            Message::Chat { from, color, text } => Message::Chat {
                from: from.clone(),
                color: *color,
                text: text.clone(),
            },
            Message::Private { from, color, text } => Message::Private {
                from: from.clone(),
                color: *color,
                text: text.clone(),
            },
            Message::Echo { name, color, text } => Message::Echo {
                name: name.clone(),
                color: *color,
                text: text.clone(),
            },
            Message::PrivateEcho { name, color, target, target_color, text } =>
                Message::PrivateEcho {
                name: name.clone(),
                color: *color,
                target: target.clone(),
                target_color: *target_color,
                text: text.clone(),
            },
            Message::Welcome => Message::Welcome,
            Message::YourName { name } => Message::YourName { name: name.clone() },
            Message::Members { list } => Message::Members { list: copy_members(list) },
            Message::Joined { name } => Message::Joined { name: name.clone() },
            Message::Left { name, color } => Message::Left { name: name.clone(), color: *color },
            Message::Renamed { old, new } => Message::Renamed { old: old.clone(), new: new.clone() },
            Message::NameChanged { old, new } => Message::NameChanged {
                old: old.clone(),
                new: new.clone(),
            },
            Message::NameTaken { name } => Message::NameTaken { name: name.clone() },
            Message::UserNotFound { name } => Message::UserNotFound { name: name.clone() },
            Message::ColorSet { name, color } => Message::ColorSet {
                name: name.clone(),
                color: *color,
            },
            Message::Usage { command } => Message::Usage { command: *command },
            Message::UnknownCommand { keyword } => Message::UnknownCommand {
                keyword: keyword.clone(),
            },
            Message::Redraw => Message::Redraw,
        }
    }
}

/// A message addressed to one connection. `reset_line` asks the client to
/// overwrite the line it last displayed instead of adding one.
#[derive(Debug, PartialEq, Eq)]
pub struct Delivery {
    pub to: u64,
    pub reset_line: bool,
    pub message: Message,
}

/// A delivery as a value.
pub struct DeliveryView {
    pub to: u64,
    pub reset_line: bool,
    pub message: MessageView,
}

impl View for Delivery {
    type V = DeliveryView;

    open spec fn view(&self) -> DeliveryView {
        DeliveryView { to: self.to, reset_line: self.reset_line, message: self.message@ }
    }
}

pub open spec fn deliver(to: u64, reset_line: bool, message: MessageView) -> DeliveryView {
    DeliveryView { to, reset_line, message }
}

/// The deliveries of a list, as values.
pub open spec fn deliveries_view(ds: Seq<Delivery>) -> Seq<DeliveryView> {
    ds.map_values(|d: Delivery| d@)
}

pub open spec fn is_lower_hex(c: char) -> bool {
    ('0' <= c && c <= '9') || ('a' <= c && c <= 'f')
}

/// Relies on uuid's `Uuid::new_v4` and the `Display` of `Uuid::as_simple`:
/// a random version 4 uuid, written as 32 lowercase hexadecimal digits.
#[verifier::external_body]
fn random_token() -> (r: String)
    ensures
        r@.len() == 32,
        forall|i: int| 0 <= i < 32 ==> is_lower_hex(#[trigger] r@[i]),
{
    uuid::Uuid::new_v4().as_simple().to_string()
}

/// The length of a generated name.
pub const GENERATED_NAME_LEN: usize = 9;

/// The name given to a new client: `u-` and the first seven characters of
/// a random token.
pub open spec fn generated_name(token: Seq<char>) -> Seq<char> {
    seq!['u', '-'] + token.subrange(0, 7)
}

/// The shape of a generated name: `u-` and seven lowercase hexadecimal
/// digits.
pub open spec fn generated_form(name: Seq<char>) -> bool {
    &&& name.len() == 9
    &&& name[0] == 'u'
    &&& name[1] == '-'
    &&& forall|i: int| 2 <= i < 9 ==> is_lower_hex(#[trigger] name[i])
}

/// Builds the default name of a client from a random token.
pub fn name_from_token(token: &str) -> (r: String)
    requires
        token@.len() >= 7,
    ensures
        r@ == generated_name(token@),
{
    let mut name = String::from_str("u-");
    proof {
        reveal_strlit("u-");
    }
    name.append(token.substring_char(0, 7));
    assert(name@ =~= generated_name(token@));
    name
}

impl Client {
    /// A new client on connection `id`, with a generated name and the
    /// default color 255.
    pub fn new(id: u64) -> (r: Client)
        ensures
            r.id == id,
            r.color == 255,
            r.name@.len() == GENERATED_NAME_LEN,
            generated_form(r.name@),
    {
        let token = random_token();
        let name = name_from_token(token.as_str());
        assert(forall|i: int| 2 <= i < 9 ==> name@[i] == token@[i - 2]);
        Client { id, name, color: 255 }
    }

    /// A chat line from `from` to this client.
    pub fn send_msg(&self, from: String, from_color: u8, msg: String) -> (r: Delivery)
        ensures
            r@ == deliver(
                self.id,
                false,
                MessageView::Chat { from: from@, color: from_color, text: msg@ },
            ),
    {
        Delivery {
            to: self.id,
            reset_line: false,
            message: Message::Chat { from, color: from_color, text: msg },
        }
    }

    /// A private message from `from` to this client.
    pub fn send_priv(&self, from: String, from_color: u8, msg: String) -> (r: Delivery)
        ensures
            r@ == deliver(
                self.id,
                false,
                MessageView::Private { from: from@, color: from_color, text: msg@ },
            ),
    {
        Delivery {
            to: self.id,
            reset_line: false,
            message: Message::Private { from, color: from_color, text: msg },
        }
    }

    /// The copy of this client's own chat line, overwriting its input line.
    pub fn send_self(&self, msg: String) -> (r: Delivery)
        ensures
            r@ == deliver(
                self.id,
                true,
                MessageView::Echo { name: self.name@, color: self.color, text: msg@ },
            ),
    {
        Delivery {
            to: self.id,
            reset_line: true,
            message: Message::Echo { name: self.name.clone(), color: self.color, text: msg },
        }
    }

    /// The copy of a private message this client sent to `target`.
    pub fn send_self_priv(&self, target: String, target_color: u8, msg: String) -> (r: Delivery)
        ensures
            r@ == deliver(
                self.id,
                true,
                MessageView::PrivateEcho {
                    name: self.name@,
                    color: self.color,
                    target: target@,
                    target_color,
                    text: msg@,
                },
            ),
    {
        Delivery {
            to: self.id,
            reset_line: true,
            message: Message::PrivateEcho {
                name: self.name.clone(),
                color: self.color,
                target,
                target_color,
                text: msg,
            },
        }
    }

    /// A notice from the server to this client.
    pub fn send_server(&self, msg: Message, reset_line: bool) -> (r: Delivery)
        ensures
            r@ == deliver(self.id, reset_line, msg@),
    {
        Delivery { to: self.id, reset_line, message: msg }
    }
}

} // verus!
