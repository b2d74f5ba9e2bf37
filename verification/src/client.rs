//! What a client does with the messages a server sends it, and with the lines its user
//! types.

use vstd::prelude::*;
use vstd::utf8::*;
use vstd::string::StringExecFns;
use crate::crypto::{ed25519_public, ed25519_signature, ed25519_verifies, sign_message};
use crate::definitions::{
    Channel, ClientKickRequest, ClientRequestMessages, ClientTextMessage, Peer, PublicKey,
    SecretKey, ServerStatus, ServerTextMessage, TextNetworkMessage, UserOverview, UserStatus,
    UserStatusChange,
};
use crate::peers::{PeerMap, PeerView};
use crate::text::{joined, split_whitespace, words};

verus! {

/// Whether chrono can place a count of seconds since the UNIX epoch on its calendar: the
/// seconds of `DateTime::<Utc>::MIN_UTC` (the first second of the year -262143) to those of
/// `MAX_UTC` (the last second of the year 262142).
pub open spec fn chrono_timestamp_valid(timestamp: i64) -> bool {
    -8334601228800 <= timestamp <= 8210266876799
}

/// `TimeZone::timestamp_opt` of `Utc` at whole seconds, followed by `single`: whether it
/// gives a time, which chrono's `DateTime::from_timestamp` does exactly for the seconds
/// whose day lies within its range of years.
#[verifier::external_body]
fn timestamp_is_valid(timestamp: i64) -> (ok: bool)
    ensures
        ok == chrono_timestamp_valid(timestamp),
{
    chrono::TimeZone::timestamp_opt(&chrono::Utc, timestamp, 0).single().is_some()
}

/// Why a message from the server was not shown.
#[derive(Clone, Copy, Debug, PartialEq, Eq, Structural)]
pub enum ClientError {
    /// The message belongs to another channel than the one the user is in.
    WrongChannel,
    /// The message's time cannot be placed on the calendar.
    InvalidTimestamp,
}

/// Everything a command-line client keeps about its server.
#[derive(Debug)]
pub struct ClientState {
    pub peers: PeerMap,
    pub current_message_id: u32,
    pub signing_key: SecretKey,
    pub current_channel: Channel,
    pub current_messages: Vec<ServerTextMessage>,
    pub message_channels: Vec<Channel>,
    pub voice_channels: Vec<Channel>,
}

/// A message ready to be printed with its time and its sender's name.
#[derive(Clone, Debug)]
pub struct MessageLine {
    /// Seconds since the UNIX epoch.
    pub timestamp: i64,
    pub sender: String,
    pub text: String,
}

/// The name shown for the sender of a message: the peer's username, or `Error` when the
/// key is unknown.
pub open spec fn sender_name(peers: Map<Seq<u8>, PeerView>, key: Seq<u8>) -> Seq<char> {
    if peers.contains_key(key) {
        peers[key].username
    } else {
        "Error"@
    }
}

fn name_of_sender(peers: &PeerMap, key: &PublicKey) -> (name: String)
    requires
        peers.wf(),
    ensures
        name@ == sender_name(peers@, key@),
{
    match peers.get(key) {
        Some(p) => p.username.clone(),
        None => String::from_str("Error"),
    }
}

/// Takes a text message from the server: it must belong to the current channel and have
/// a valid time. The answer is the name of its sender.
pub fn receive_server_text(incoming: &ServerTextMessage, client_state: &ClientState) -> (res: Result<
    String,
    ClientError,
>)
    requires
        client_state.peers.wf(),
    ensures
        match res {
            Ok(name) => incoming.channel_id == client_state.current_channel.id
                && chrono_timestamp_valid(incoming.timestamp) && name@ == sender_name(
                client_state.peers@,
                incoming.sender@,
            ),
            Err(e) => if incoming.channel_id != client_state.current_channel.id {
                e == ClientError::WrongChannel
            } else {
                e == ClientError::InvalidTimestamp && !chrono_timestamp_valid(incoming.timestamp)
            },
        },
{
    if incoming.channel_id != client_state.current_channel.id {
        return Err(ClientError::WrongChannel);
    }
    let sender_username = name_of_sender(&client_state.peers, &incoming.sender);
    if !timestamp_is_valid(incoming.timestamp) {
        return Err(ClientError::InvalidTimestamp);
    }
    Ok(sender_username)
}

/// The record a client keeps of a user the server describes.
pub open spec fn peer_of(u: UserOverview) -> PeerView {
    PeerView { username: u.username@, address: u.address@, roles: u.roles@, status: u.status }
}

/// The peers after recording each described user in turn; a later record of a key
/// replaces an earlier one.
pub open spec fn with_users(peers: Map<Seq<u8>, PeerView>, users: Seq<UserOverview>) -> Map<
    Seq<u8>,
    PeerView,
>
    decreases users.len(),
{
    if users.len() == 0 {
        peers
    } else {
        with_users(peers, users.drop_last()).insert(users.last().public_key@, peer_of(users.last()))
    }
}

fn peer_from(u: &UserOverview) -> (p: Peer)
    ensures
        p@ == peer_of(*u),
{
    Peer {
        username: u.username.clone(),
        address: u.address.clone(),
        roles: crate::definitions::copy_bytes(&u.roles),
        status: u.status,
    }
}

/// Records every user of a description, in order.
pub fn record_users(peers: &mut PeerMap, users: &Vec<UserOverview>)
    requires
        old(peers).wf(),
    ensures
        final(peers).wf(),
        final(peers)@ == with_users(old(peers)@, users@),
{
    let mut i: usize = 0;
    while i < users.len()
        invariant
            i <= users@.len(),
            peers.wf(),
            peers@ == with_users(old(peers)@, users@.take(i as int)),
        decreases users@.len() - i,
    {
        let ghost before = users@.take(i as int);
        let u = &users[i];
        peers.insert(u.public_key, peer_from(u));
        proof {
            let after = users@.take(i + 1);
            assert(after.drop_last() =~= before);
            assert(after.last() == users@[i as int]);
        }
        i = i + 1;
    }
    assert(users@.take(users@.len() as int) =~= users@);
}

/// Takes the server's welcome: its users join the known peers, and its default channel,
/// channel lists and latest messages replace the client's.
pub fn receive_server_status(incoming: ServerStatus, client_state: &mut ClientState)
    requires
        old(client_state).peers.wf(),
    ensures
        final(client_state).peers.wf(),
        final(client_state).peers@ == with_users(old(client_state).peers@, incoming.users@),
        final(client_state).current_channel == incoming.default_channel,
        final(client_state).message_channels == incoming.message_channels,
        final(client_state).voice_channels == incoming.voice_channels,
        final(client_state).current_messages == incoming.messages,
        final(client_state).current_message_id == old(client_state).current_message_id,
        final(client_state).signing_key == old(client_state).signing_key,
{
    record_users(&mut client_state.peers, &incoming.users);
    client_state.current_channel = incoming.default_channel;
    client_state.message_channels = incoming.message_channels;
    client_state.voice_channels = incoming.voice_channels;
    client_state.current_messages = incoming.messages;
}

/// The lines for a list of messages, oldest first, each with its sender's name.
pub fn message_lines(messages: &Vec<ServerTextMessage>, peers: &PeerMap) -> (lines: Vec<MessageLine>)
    requires
        peers.wf(),
    ensures
        lines@.len() == messages@.len(),
        forall|i: int|
            0 <= i < lines@.len() ==> (#[trigger] lines@[i]).timestamp == messages@[i].timestamp
                && lines@[i].sender@ == sender_name(peers@, messages@[i].sender@)
                && lines@[i].text@ == messages@[i].plaintext@,
{
    let mut lines: Vec<MessageLine> = Vec::new();
    let mut i: usize = 0;
    while i < messages.len()
        invariant
            peers.wf(),
            i <= messages@.len(),
            lines@.len() == i,
            forall|k: int|
                0 <= k < i ==> (#[trigger] lines@[k]).timestamp == messages@[k].timestamp
                    && lines@[k].sender@ == sender_name(peers@, messages@[k].sender@)
                    && lines@[k].text@ == messages@[k].plaintext@,
        decreases messages@.len() - i,
    {
        let m = &messages[i];
        lines.push(
            MessageLine {
                timestamp: m.timestamp,
                sender: name_of_sender(peers, &m.sender),
                text: m.plaintext.clone(),
            },
        );
        i = i + 1;
    }
    lines
}

/// What the user should see after a message from the server.
#[derive(Debug)]
pub enum ClientNotice {
    /// A new message in the current channel.
    Message(MessageLine),
    /// A message that is not shown, and why.
    Rejected(ClientError),
    /// The screen starts over with these messages.
    Welcome(Vec<MessageLine>),
    /// Messages that were asked for.
    History(Vec<MessageLine>),
    /// Nothing to show.
    Nothing,
}

/// What a message from the server does to the client's state, and what the user is told
/// (see `manage_request`): `before` and `after` are the state around it.
pub open spec fn server_message_managed(
    before: ClientState,
    msg: TextNetworkMessage,
    after: ClientState,
    notice: ClientNotice,
) -> bool {
    match msg {
        TextNetworkMessage::ServerText(m) => after == before && match notice {
            ClientNotice::Message(line) => line.timestamp == m.timestamp && line.text@
                == m.plaintext@ && m.channel_id == before.current_channel.id
                && chrono_timestamp_valid(m.timestamp) && line.sender@ == sender_name(
                before.peers@,
                m.sender@,
            ),
            ClientNotice::Rejected(e) => if m.channel_id != before.current_channel.id {
                e == ClientError::WrongChannel
            } else {
                e == ClientError::InvalidTimestamp && !chrono_timestamp_valid(m.timestamp)
            },
            _ => false,
        },
        TextNetworkMessage::ServerStatus(s) => {
            &&& after.peers@ == with_users(before.peers@, s.users@)
            &&& after.current_channel == s.default_channel
            &&& after.message_channels == s.message_channels
            &&& after.voice_channels == s.voice_channels
            &&& after.current_messages == s.messages
            &&& notice matches ClientNotice::Welcome(lines)
            &&& lines@.len() == s.messages@.len()
            &&& forall|i: int|
                0 <= i < lines@.len() ==> (#[trigger] lines@[i]).timestamp
                    == s.messages@[i].timestamp && lines@[i].text@ == s.messages@[i].plaintext@
                    && lines@[i].sender@ == sender_name(
                    after.peers@,
                    s.messages@[i].sender@,
                )
        },
        TextNetworkMessage::ServerRequestMessages(r) => {
            &&& after == before
            &&& notice matches ClientNotice::History(lines)
            &&& lines@.len() == r.messages@.len()
            &&& forall|i: int|
                0 <= i < lines@.len() ==> (#[trigger] lines@[i]).timestamp
                    == r.messages@[i].timestamp && lines@[i].text@ == r.messages@[i].plaintext@
                    && lines@[i].sender@ == sender_name(
                    before.peers@,
                    r.messages@[i].sender@,
                )
        },
        TextNetworkMessage::UserStatusChange(c) => {
            &&& notice is Nothing
            &&& after == (ClientState { peers: after.peers, ..before })
            &&& before.peers@.contains_key(c.public_key@) ==> after.peers@
                == before.peers@.insert(
                c.public_key@,
                PeerView { status: c.status, ..before.peers@[c.public_key@] },
            )
            &&& !before.peers@.contains_key(c.public_key@) ==> after.peers@ == before.peers@
        },
        TextNetworkMessage::UserJoin(j) => notice is Nothing && after == (ClientState {
            peers: after.peers,
            ..before
        }) && after.peers@ == before.peers@.insert(
            j.public_key@,
            PeerView {
                username: j.username@,
                address: j.address@,
                roles: Seq::empty(),
                status: UserStatus::Online,
            },
        ),
        _ => notice is Nothing && after == before,
    }
}

/// Takes any message from the server: text messages are checked and shown, the welcome
/// and user changes update the state, and messages meant for servers are ignored.
pub fn manage_request(msg: TextNetworkMessage, client_state: &mut ClientState) -> (notice: ClientNotice)
    requires
        old(client_state).peers.wf(),
    ensures
        final(client_state).peers.wf(),
        server_message_managed(*old(client_state), msg, *final(client_state), notice),

{
    match msg {
        TextNetworkMessage::ServerText(m) => {
            match receive_server_text(&m, client_state) {
                Ok(sender) => ClientNotice::Message(
                    MessageLine { timestamp: m.timestamp, sender, text: m.plaintext },
                ),
                Err(e) => ClientNotice::Rejected(e),
            }
        },
        TextNetworkMessage::ServerStatus(s) => {
            receive_server_status(s, client_state);
            ClientNotice::Welcome(message_lines(&client_state.current_messages, &client_state.peers))
        },
        TextNetworkMessage::ServerRequestMessages(r) => {
            ClientNotice::History(message_lines(&r.messages, &client_state.peers))
        },
        TextNetworkMessage::UserStatusChange(c) => {
            client_state.peers.set_status(&c.public_key, c.status);
            ClientNotice::Nothing
        },
        TextNetworkMessage::UserJoin(j) => {
            let peer = Peer {
                username: j.username,
                address: j.address,
                status: UserStatus::Online,
                roles: Vec::new(),
            };
            proof {
                assert(peer@.roles =~= Seq::<u8>::empty());
            }
            client_state.peers.insert(j.public_key, peer);
            ClientNotice::Nothing
        },
        _ => ClientNotice::Nothing,
    }
}


/// What a line the user typed asks the client to do, in order.
#[derive(Debug)]
pub enum CommandEffect {
    /// List the channels and the known peers.
    ShowChannelsAndPeers,
    /// Tell the user something.
    Say(String),
    /// Clear the screen.
    ClearScreen,
    /// Send a message to the server.
    Send(TextNetworkMessage),
}

/// The channels named `name`, in order.
pub open spec fn channels_named(channels: Seq<Channel>, name: Seq<char>) -> Seq<Channel>
    decreases channels.len(),
{
    if channels.len() == 0 {
        Seq::empty()
    } else if channels.last().name@ == name {
        channels_named(channels.drop_last(), name).push(channels.last())
    } else {
        channels_named(channels.drop_last(), name)
    }
}

/// A line that is neither `/list` nor starts with the word `/swap` or `/kick`: a chat
/// message.
pub open spec fn is_chat_line(line: Seq<char>) -> bool {
    line != "/list"@ && !(words(line).len() > 0 && (words(line)[0] == "/swap"@ || words(line)[0]
        == "/kick"@))
}

/// The request for the latest messages of a channel that switching to it sends.
pub open spec fn history_request(channel: Channel) -> TextNetworkMessage {
    TextNetworkMessage::ClientRequestMessages(
        ClientRequestMessages { range: core::ops::Range { start: 0u64, end: 255u64 }, channel },
    )
}

/// What a line the user typed does to the client's state and asks the client to do (see
/// `manage_commands`): `before` and `after` are the state around it, `line` the trimmed
/// line.
pub open spec fn command_answered(
    before: ClientState,
    line: Seq<char>,
    after: ClientState,
    effects: Seq<CommandEffect>,
) -> bool {
    &&& (after.peers == before.peers)
    &&& (after.signing_key == before.signing_key)
    &&& (after.message_channels == before.message_channels)
    &&& (after.current_messages == before.current_messages)
    &&& (after.voice_channels == before.voice_channels)
    &&& (line == "/list"@ ==> after == before && effects.len()
        == 1 && effects[0] is ShowChannelsAndPeers)
    &&& (is_chat_line(line) ==> {
        &&& after.current_message_id == before.current_message_id + 1
        &&& after.current_channel == before.current_channel
        &&& effects.len() == 1
        &&& effects[0] matches CommandEffect::Send(TextNetworkMessage::ClientText(m))
        &&& m.plaintext@ == line
        &&& m.signed_message@ == ed25519_signature(
            before.signing_key@,
            encode_utf8(line),
        )
        &&& ed25519_verifies(
            ed25519_public(before.signing_key@),
            encode_utf8(line),
            m.signed_message@,
        )
        &&& m.id == before.current_message_id
        &&& m.channel == before.current_channel
    })
    &&& (line != "/list"@ && words(line).len() > 0 && words(line)[0] == "/swap"@ ==> {
        let args = words(line);
        let matched = channels_named(before.message_channels@, args[1]);
        &&& after.current_message_id == before.current_message_id
        &&& args.len() != 2 ==> (after.current_channel == before.current_channel && effects.len() == 1 && (effects[0] matches CommandEffect::Say(t)
            && t@ == "Invalid command"@))
        &&& args.len() == 2 ==> {
            &&& effects.len() == 3 * matched.len()
            &&& forall|k: int|
                0 <= k < matched.len() ==> {
                    &&& (#[trigger] effects[3 * k]) matches CommandEffect::Send(r) && r
                        == history_request(matched[k])
                    &&& effects[3 * k + 1] is ClearScreen
                    &&& effects[3 * k + 2] matches CommandEffect::Say(t) && t@
                        == "You are now in: #"@ + matched[k].name@
                }
            &&& matched.len() > 0 ==> after.current_channel == matched.last()
            &&& matched.len() == 0 ==> after.current_channel == before.current_channel
        }
    })
    &&& (line != "/list"@ && words(line).len() > 0 && words(line)[0] == "/kick"@ ==> {
        let args = words(line);
        &&& after == before
        &&& effects.len() == 1
        &&& args.len() < 3 ==> (effects[0] matches CommandEffect::Say(t) && t@
            == "Incorrect amount of arguements (/kick user reason)"@)
        &&& args.len() >= 3 ==> match effects[0] {
            CommandEffect::Say(t) => t@ == "User not found"@ && forall|key: Seq<u8>|
                #[trigger] before.peers@.contains_key(key) ==> before.peers@[key].username != args[1],
            CommandEffect::Send(TextNetworkMessage::ClientKickRequest(k)) => before.peers@.contains_key(k.recipient@) && before.peers@[k.recipient@].username
                == args[1] && k.reason@ == joined(args.skip(2)),
            _ => false,
        }
    })
}

/// Acts on a line the user typed (already trimmed):
/// `/list` lists channels and peers; `/swap <channel>` switches to every channel of that
/// name in turn, asking each for its latest messages; `/kick <user> <reason...>` asks the
/// server to remove a peer of that name; anything else is signed and sent as a message
/// to the current channel, with the next message id.
pub fn manage_commands(trimmed_message: &str, client_state: &mut ClientState) -> (effects: Vec<
    CommandEffect,
>)
    requires
        old(client_state).peers.wf(),
        is_chat_line(trimmed_message@) ==> old(client_state).current_message_id < u32::MAX,
    ensures
        command_answered(*old(client_state), trimmed_message@, *final(client_state), effects@),

{
    proof {
        reveal_strlit("/swap");
        reveal_strlit("/kick");
        assert("/swap"@[1] != "/kick"@[1]);
    }
    let mut effects: Vec<CommandEffect> = Vec::new();
    let line = String::from_str(trimmed_message);
    if line == String::from_str("/list") {
        effects.push(CommandEffect::ShowChannelsAndPeers);
        return effects;
    }
    let args = split_whitespace(trimmed_message);
    if args.len() > 0 && args[0] == String::from_str("/swap") {
        if args.len() != 2 {
            effects.push(CommandEffect::Say(String::from_str("Invalid command")));
            return effects;
        }
        let ghost chs = client_state.message_channels@;
        let ghost name = args@[1]@;
        let mut i: usize = 0;
        while i < client_state.message_channels.len()
            invariant
                i <= chs.len(),
                chs == client_state.message_channels@,
                client_state.peers == old(client_state).peers,
                client_state.signing_key == old(client_state).signing_key,
                client_state.message_channels == old(client_state).message_channels,
                client_state.current_messages == old(client_state).current_messages,
                client_state.voice_channels == old(client_state).voice_channels,
                client_state.current_message_id == old(client_state).current_message_id,
                args@.len() == 2,
                name == args@[1]@,
                effects@.len() == 3 * channels_named(chs.take(i as int), name).len(),
                forall|k: int|
                    0 <= k < channels_named(chs.take(i as int), name).len() ==> {
                        &&& (#[trigger] effects@[3 * k]) matches CommandEffect::Send(r) && r
                            == history_request(channels_named(chs.take(i as int), name)[k])
                        &&& effects@[3 * k + 1] is ClearScreen
                        &&& effects@[3 * k + 2] matches CommandEffect::Say(t) && t@
                            == "You are now in: #"@ + channels_named(chs.take(i as int), name)[k].name@
                    },
                channels_named(chs.take(i as int), name).len() > 0 ==> client_state.current_channel
                    == channels_named(chs.take(i as int), name).last(),
                channels_named(chs.take(i as int), name).len() == 0 ==> client_state.current_channel
                    == old(client_state).current_channel,
            decreases chs.len() - i,
        {
            let ghost before = channels_named(chs.take(i as int), name);
            proof {
                assert(chs.take(i + 1).drop_last() =~= chs.take(i as int));
                assert(chs.take(i + 1).last() == chs[i as int]);
            }
            if client_state.message_channels[i].name == args[1] {
                let channel = client_state.message_channels[i].duplicate();
                client_state.current_channel = channel.duplicate();
                let ghost ch = channel;
                let mut note = String::from_str("You are now in: #");
                note.append(channel.name.as_str());
                effects.push(
                    CommandEffect::Send(
                        TextNetworkMessage::ClientRequestMessages(
                            ClientRequestMessages { range: 0..255, channel },
                        ),
                    ),
                );
                effects.push(CommandEffect::ClearScreen);
                effects.push(CommandEffect::Say(note));
                proof {
                    let after = channels_named(chs.take(i + 1), name);
                    assert(after == before.push(ch));
                    assert forall|k: int| 0 <= k < after.len() implies {
                        &&& (#[trigger] effects@[3 * k]) matches CommandEffect::Send(r) && r
                            == history_request(after[k])
                        &&& effects@[3 * k + 1] is ClearScreen
                        &&& effects@[3 * k + 2] matches CommandEffect::Say(t) && t@
                            == "You are now in: #"@ + after[k].name@
                    } by {
                        if k < before.len() {
                            assert(after[k] == before[k]);
                        }
                    }
                }
            }
            i = i + 1;
        }
        proof {
            assert(chs.take(chs.len() as int) =~= chs);
        }
        return effects;
    }
    if args.len() > 0 && args[0] == String::from_str("/kick") {
        if args.len() < 3 {
            effects.push(
                CommandEffect::Say(
                    String::from_str("Incorrect amount of arguements (/kick user reason)"),
                ),
            );
            return effects;
        }
        match client_state.peers.find_by_username(&args[1]) {
            None => {
                effects.push(CommandEffect::Say(String::from_str("User not found")));
            },
            Some(recipient) => {
                let reason = crate::text::join_with_spaces(&args, 2);
                proof {
                    assert(args@.skip(2).map_values(|p: String| p@) =~= words(trimmed_message@).skip(2));
                }
                effects.push(
                    CommandEffect::Send(
                        TextNetworkMessage::ClientKickRequest(ClientKickRequest { recipient, reason }),
                    ),
                );
            },
        }
        return effects;
    }
    let current_id = client_state.current_message_id;
    client_state.current_message_id = current_id + 1;
    let signed = sign_message(trimmed_message, &client_state.signing_key);
    effects.push(
        CommandEffect::Send(
            TextNetworkMessage::ClientText(
                ClientTextMessage {
                    plaintext: line,
                    signed_message: signed,
                    id: current_id,
                    channel: client_state.current_channel.duplicate(),
                },
            ),
        ),
    );
    effects
}

/// A status change from the server gives a known peer the status it carries and keeps
/// the rest of its entry; other peers and the rest of the state stay as they were, and a
/// change for an unknown key changes nothing. The user is told nothing.
pub proof fn law_client_status_change_applied(
    before: ClientState,
    change: UserStatusChange,
    after: ClientState,
    notice: ClientNotice,
)
    requires
        server_message_managed(before, TextNetworkMessage::UserStatusChange(change), after, notice),
    ensures
        notice is Nothing,
        before.peers@.contains_key(change.public_key@) ==> {
            &&& after.peers@.contains_key(change.public_key@)
            &&& after.peers@[change.public_key@].status == change.status
            &&& after.peers@[change.public_key@].username == before.peers@[change.public_key@].username
            &&& after.peers@[change.public_key@].address == before.peers@[change.public_key@].address
            &&& after.peers@[change.public_key@].roles == before.peers@[change.public_key@].roles
        },
        forall|k: Seq<u8>|
            k != change.public_key@ ==> (#[trigger] after.peers@.contains_key(k)
                == before.peers@.contains_key(k) && (before.peers@.contains_key(k)
                ==> after.peers@[k] == before.peers@[k])),
        !before.peers@.contains_key(change.public_key@) ==> after.peers@ == before.peers@,
        after == (ClientState { peers: after.peers, ..before }),
{
}

/// A chat text from the server is shown only when it is for the current channel and its
/// time can be placed, with its text and time and its sender's name; one for another
/// channel is turned away as such. The state does not change.
pub proof fn law_client_text_shown_in_its_channel(
    before: ClientState,
    m: ServerTextMessage,
    after: ClientState,
    notice: ClientNotice,
)
    requires
        server_message_managed(before, TextNetworkMessage::ServerText(m), after, notice),
    ensures
        after == before,
        notice is Message <==> m.channel_id == before.current_channel.id && chrono_timestamp_valid(
            m.timestamp,
        ),
        m.channel_id != before.current_channel.id ==> notice == ClientNotice::Rejected(
            ClientError::WrongChannel,
        ),
        notice matches ClientNotice::Message(line) ==> line.text@ == m.plaintext@ && line.timestamp
            == m.timestamp && (before.peers@.contains_key(m.sender@) ==> line.sender@
            == before.peers@[m.sender@].username),
{
}

/// A typed line that is no command is sent as one chat message: the line itself, signed
/// so that it verifies under the user's public key, numbered with the current message
/// number, for the current channel; the number then goes up by one and nothing else
/// changes.
pub proof fn law_chat_line_is_sent_signed(
    before: ClientState,
    line: Seq<char>,
    after: ClientState,
    effects: Seq<CommandEffect>,
)
    requires
        line != "/list"@,
        words(line).len() == 0 || (words(line)[0] != "/swap"@ && words(line)[0] != "/kick"@),
        command_answered(before, line, after, effects),
    ensures
        effects.len() == 1,
        effects[0] matches CommandEffect::Send(TextNetworkMessage::ClientText(m)) && {
            &&& m.plaintext@ == line
            &&& m.id == before.current_message_id
            &&& m.channel == before.current_channel
            &&& ed25519_verifies(ed25519_public(before.signing_key@), encode_utf8(line), m.signed_message@)
        },
        after == (ClientState { current_message_id: after.current_message_id, ..before }),
        after.current_message_id == before.current_message_id + 1,
{
}

/// `/kick <user> <reason...>` asks the server to remove a known peer of that username,
/// with the rest of the words as the reason, and tells the user when no peer has the
/// name; the state does not change.
pub proof fn law_kick_names_a_known_peer(
    before: ClientState,
    line: Seq<char>,
    after: ClientState,
    effects: Seq<CommandEffect>,
)
    requires
        line != "/list"@,
        words(line).len() >= 3,
        words(line)[0] == "/kick"@,
        command_answered(before, line, after, effects),
    ensures
        after == before,
        effects.len() == 1,
        effects[0] matches CommandEffect::Send(TextNetworkMessage::ClientKickRequest(k)) ==> before.peers@.contains_key(
            k.recipient@,
        ) && before.peers@[k.recipient@].username == words(line)[1] && k.reason@ == joined(
            words(line).skip(2),
        ),
        (exists|key: Seq<u8>|
            #[trigger] before.peers@.contains_key(key) && before.peers@[key].username == words(line)[1])
            ==> effects[0] is Send,
{
}

/// `/swap <name>` moves to a channel of that name when there is one, asking for its
/// latest messages (0 to 255); with no such channel it stays where it is.
pub proof fn law_swap_moves_to_the_named_channel(
    before: ClientState,
    line: Seq<char>,
    after: ClientState,
    effects: Seq<CommandEffect>,
)
    requires
        line != "/list"@,
        words(line).len() == 2,
        words(line)[0] == "/swap"@,
        command_answered(before, line, after, effects),
    ensures
        channels_named(before.message_channels@, words(line)[1]).len() > 0 ==> {
            &&& after.current_channel.name@ == words(line)[1]
            &&& before.message_channels@.contains(after.current_channel)
            &&& effects[0] matches CommandEffect::Send(TextNetworkMessage::ClientRequestMessages(r))
            &&& r.range.start == 0
            &&& r.range.end == 255
        },
        channels_named(before.message_channels@, words(line)[1]).len() == 0 ==> after.current_channel
            == before.current_channel && effects.len() == 0,
        after.current_message_id == before.current_message_id,
{
    lemma_channels_named(before.message_channels@, words(line)[1]);
    let matched = channels_named(before.message_channels@, words(line)[1]);
    if matched.len() > 0 {
        assert(command_answered(before, line, after, effects));
        let z: int = 0;
        assert(effects[3 * z] matches CommandEffect::Send(r) && r == history_request(matched[0]));
        assert(matched.contains(matched.last()));
    }
}

proof fn lemma_channels_named(channels: Seq<Channel>, name: Seq<char>)
    ensures
        forall|c: Channel|
            #[trigger] channels_named(channels, name).contains(c) ==> c.name@ == name
                && channels.contains(c),
    decreases channels.len(),
{
    if channels.len() > 0 {
        lemma_channels_named(channels.drop_last(), name);
        let rest = channels_named(channels.drop_last(), name);
        assert forall|c: Channel|
            #[trigger] channels_named(channels, name).contains(c) implies c.name@ == name
                && channels.contains(c) by {
            if rest.contains(c) {
                let i = choose|i: int| 0 <= i < rest.len() && rest[i] == c;
                assert(channels.drop_last().contains(c));
                let j = choose|j: int| 0 <= j < channels.drop_last().len() && channels.drop_last()[j] == c;
                assert(channels[j] == c);
            } else {
                assert(c == channels.last());
                assert(channels[channels.len() - 1] == c);
            }
        }
    }
}

} // verus!
