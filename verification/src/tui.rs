//! The state of the terminal chat client and how it answers keys and server messages.

use vstd::prelude::*;
use crate::definitions::{ServerRequestMessages, ServerStatus, UserOverview, UserStatusChange};
use vstd::string::StringExecFns;
use crate::definitions::{Channel, Peer, PublicKey, SecretKey};
use crate::editor::{edit_backspace, edit_delete, edit_insert, edit_left, edit_right, is_boundary, LineEditor};
use crate::peers::{PeerMap, PeerView};
use crate::text::{
    chars_of, contains_char, joined, parse_u64, parsed_u64, push_char, split_whitespace, starts_with,
    text_of, trim_end, trimmed_end, utf8_len, words,
};
use crate::definitions::{
    ClientKickRequest, ClientRequestMessages, ClientTextMessage, ServerTextMessage,
    TextNetworkMessage, UserStatus,
};
use crate::crypto::{ed25519_public, ed25519_signature, ed25519_verifies, sign_message};
use crate::client::chrono_timestamp_valid;

verus! {

/// A command the user can type, for the command palette.
#[derive(Clone, Copy, Debug)]
pub struct Command {
    pub name: &'static str,
    pub usage: &'static str,
    pub description: &'static str,
}

/// The commands the chat screen offers.
pub fn commands() -> (cs: Vec<Command>)
    ensures
        cs@.len() == 1,
        cs@[0].name@ == "/kick"@,
{
    let mut cs = Vec::new();
    cs.push(
        Command {
            name: "/kick",
            usage: "/kick <user> <reason>",
            description: "Kick a user from the server",
        },
    );
    cs
}

/// A chat message ready for display.
#[derive(Clone, Debug)]
pub struct DisplayMessage {
    pub sender: String,
    pub text: String,
    pub time: String,
}

/// The screen the client shows.
#[derive(Clone, Copy, Debug, PartialEq, Eq, Structural)]
pub enum Screen {
    Login,
    Register,
    Connecting,
    Chat,
    ServerSettings,
    UserSettings,
}

/// The focused field of the login screen.
#[derive(Clone, Copy, Debug, PartialEq, Eq, Structural)]
pub enum LoginField {
    ServerUrl,
    Account,
    Password,
}

impl LoginField {
    /// The field that Tab moves to: server address, account, password, and around.
    pub fn next(&self) -> (f: LoginField)
        ensures
            f == match *self {
                LoginField::ServerUrl => LoginField::Account,
                LoginField::Account => LoginField::Password,
                LoginField::Password => LoginField::ServerUrl,
            },
    {
        match self {
            LoginField::ServerUrl => LoginField::Account,
            LoginField::Account => LoginField::Password,
            LoginField::Password => LoginField::ServerUrl,
        }
    }
}

/// The focused field of the registration screen.
#[derive(Clone, Copy, Debug, PartialEq, Eq, Structural)]
pub enum RegisterField {
    HomeAddress,
    Username,
    Password,
}

impl RegisterField {
    /// The field that Tab moves to: home address, username, password, and around.
    pub fn next(&self) -> (f: RegisterField)
        ensures
            f == match *self {
                RegisterField::HomeAddress => RegisterField::Username,
                RegisterField::Username => RegisterField::Password,
                RegisterField::Password => RegisterField::HomeAddress,
            },
    {
        match self {
            RegisterField::HomeAddress => RegisterField::Username,
            RegisterField::Username => RegisterField::Password,
            RegisterField::Password => RegisterField::HomeAddress,
        }
    }
}

/// A time of day as `%H:%M` writes it: two digits of an hour below 24, a colon, and two
/// digits of a minute below 60.
pub open spec fn is_clock_text(t: Seq<char>) -> bool {
    &&& t.len() == 5
    &&& '0' <= t[0] <= '2'
    &&& '0' <= t[1] <= '9'
    &&& t[0] == '2' ==> t[1] <= '3'
    &&& t[2] == ':'
    &&& '0' <= t[3] <= '5'
    &&& '0' <= t[4] <= '9'
}

/// The time shown beside a message sent at `timestamp`: a time of day where chrono can
/// place the timestamp, and nothing where it cannot.
pub open spec fn shown_time(timestamp: i64, time: Seq<char>) -> bool {
    if chrono_timestamp_valid(timestamp) {
        is_clock_text(time)
    } else {
        time.len() == 0
    }
}

/// `TimeZone::timestamp_opt` of `Utc` at whole seconds, shown as `%H:%M` in the local time
/// zone, or the empty text when chrono cannot place the time. Which hour and minute come
/// out depends on the machine's time zone; the contract claims only the shape of the
/// text and when it is empty.
#[verifier::external_body]
fn local_time_of_day(timestamp: i64) -> (time: String)
    ensures
        chrono_timestamp_valid(timestamp) ==> is_clock_text(time@),
        !chrono_timestamp_valid(timestamp) ==> time@.len() == 0,
{
    chrono::TimeZone::timestamp_opt(&chrono::Utc, timestamp, 0)
        .single()
        .map(|dt| dt.with_timezone(&chrono::Local).format("%H:%M").to_string())
        .unwrap_or_default()
}

/// The whole state of the terminal client.
#[derive(Debug)]
pub struct App {
    pub screen: Screen,
    pub login_field: LoginField,
    pub server_url: String,
    pub username: String,
    pub password: String,
    pub login_error: Option<String>,
    pub login_info: Option<String>,
    pub accounts: Vec<String>,
    pub selected_account: usize,
    pub register_field: RegisterField,
    pub register_home_address: String,
    pub register_username: String,
    pub register_password: String,
    pub register_error: Option<String>,
    pub status_message: Option<String>,
    pub server_name: String,
    pub messages: Vec<DisplayMessage>,
    pub channels: Vec<Channel>,
    pub voice_channels: Vec<Channel>,
    pub current_channel: Channel,
    pub peers: PeerMap,
    pub input: String,
    /// Byte offset of the cursor in `input`.
    pub input_cursor: usize,
    pub selected_channel: usize,
    pub channel_list_focused: bool,
    pub signing_key: Option<SecretKey>,
    pub verifying_key: Option<PublicKey>,
    pub session_id: String,
    pub server_ip: String,
    pub current_message_id: u32,
    pub command_selected: usize,
    pub quit: bool,
}

impl App {
    /// The state is consistent: each peer key once, and the cursor between characters.
    pub open spec fn wf(&self) -> bool {
        &&& self.peers.wf()
        &&& is_boundary(self.input@, self.input_cursor as int)
    }

    /// A client on the login screen, knowing the given local accounts, pointed at a
    /// server on this machine.
    pub fn new(accounts: Vec<String>) -> (app: App)
        ensures
            app.wf(),
            app.screen == Screen::Login,
            app.login_field == LoginField::ServerUrl,
            app.server_url@ == "ws://127.0.0.1:6767"@,
            app.accounts == accounts,
            app.selected_account == 0,
            app.current_channel.id == 0,
            app.current_channel.name@ == "general"@,
            app.peers@ == Map::<Seq<u8>, PeerView>::empty(),
            app.input@.len() == 0,
            app.input_cursor == 0,
            app.messages@.len() == 0,
            app.current_message_id == 0,
            !app.quit,
    {
        let editor = LineEditor::new();
        App {
            screen: Screen::Login,
            login_field: LoginField::ServerUrl,
            server_url: String::from_str("ws://127.0.0.1:6767"),
            username: String::new(),
            password: String::new(),
            login_error: None,
            login_info: None,
            accounts,
            selected_account: 0,
            register_field: RegisterField::HomeAddress,
            register_home_address: String::new(),
            register_username: String::new(),
            register_password: String::new(),
            register_error: None,
            status_message: None,
            server_name: String::new(),
            messages: Vec::new(),
            channels: Vec::new(),
            voice_channels: Vec::new(),
            current_channel: Channel { id: 0, name: String::from_str("general") },
            peers: PeerMap::new(),
            input: editor.text,
            input_cursor: editor.cursor,
            selected_channel: 0,
            channel_list_focused: false,
            signing_key: None,
            verifying_key: None,
            session_id: String::new(),
            server_ip: String::new(),
            current_message_id: 0,
            command_selected: 0,
            quit: false,
        }
    }

    /// Takes a fresh list of local accounts; a selection past its end moves to its last
    /// entry (or to 0 when it is empty).
    pub fn refresh_accounts(&mut self, accounts: Vec<String>)
        requires
            old(self).wf(),
        ensures
            final(self).wf(),
            final(self).accounts == accounts,
            final(self).selected_account == if old(self).selected_account >= accounts@.len() {
                if accounts@.len() == 0 {
                    0
                } else {
                    accounts@.len() - 1
                }
            } else {
                old(self).selected_account as int
            },
            *final(self) == (App {
                accounts: final(self).accounts,
                selected_account: final(self).selected_account,
                ..*old(self)
            }),
    {
        self.accounts = accounts;
        if self.selected_account >= self.accounts.len() {
            self.selected_account = if self.accounts.len() == 0 {
                0
            } else {
                self.accounts.len() - 1
            };
        }
    }

    /// The name of the selected account, if the selection is in the list.
    pub fn selected_account_name(&self) -> (name: Option<String>)
        ensures
            match name {
                Some(n) => self.selected_account < self.accounts@.len() && n
                    == self.accounts@[self.selected_account as int],
                None => self.selected_account >= self.accounts@.len(),
            },
    {
        if self.selected_account < self.accounts.len() {
            Some(self.accounts[self.selected_account].clone())
        } else {
            None
        }
    }

    /// Adds a message to the chat, with its time of day in the local time zone.
    pub fn add_message(&mut self, sender: String, text: String, timestamp: i64)
        requires
            old(self).wf(),
        ensures
            final(self).wf(),
            final(self).messages@.len() == old(self).messages@.len() + 1,
            final(self).messages@.drop_last() == old(self).messages@,
            final(self).messages@.last().sender == sender,
            final(self).messages@.last().text == text,
            shown_time(timestamp, final(self).messages@.last().time@),
            *final(self) == (App { messages: final(self).messages, ..*old(self) }),
    {
        let time = local_time_of_day(timestamp);
        self.messages.push(DisplayMessage { sender, text, time });
        proof {
            assert(final(self).messages@.drop_last() =~= old(self).messages@);
        }
    }

    /// The name shown for a key: the peer's username, or `???` when the key is unknown.
    pub fn resolve_username(&self, key: &PublicKey) -> (name: String)
        requires
            self.wf(),
        ensures
            name@ == if self.peers@.contains_key(key@) {
                self.peers@[key@].username
            } else {
                "???"@
            },
    {
        match self.peers.get(key) {
            Some(p) => p.username.clone(),
            None => String::from_str("???"),
        }
    }

    fn with_editor(&mut self) -> (e: LineEditor)
        requires
            old(self).wf(),
        ensures
            e.wf(),
            e.text == old(self).input,
            e.cursor == old(self).input_cursor,
            *final(self) == (App { input: final(self).input, ..*old(self) }),
    {
        let mut text = String::new();
        core::mem::swap(&mut text, &mut self.input);
        LineEditor { text, cursor: self.input_cursor }
    }

    fn put_editor(&mut self, e: LineEditor)
        requires
            e.wf(),
        ensures
            final(self).wf() <==> old(self).peers.wf(),
            *final(self) == (App { input: e.text, input_cursor: e.cursor, ..*old(self) }),
    {
        self.input = e.text;
        self.input_cursor = e.cursor;
    }

    /// Types a character at the cursor.
    pub fn input_insert(&mut self, c: char)
        requires
            old(self).wf(),
        ensures
            final(self).wf(),
            (final(self).input@, final(self).input_cursor as int) == edit_insert(
                old(self).input@,
                old(self).input_cursor as int,
                c,
            ),
            *final(self) == (App { input: final(self).input, input_cursor: final(self).input_cursor, ..*old(self) }),
    {
        let mut e = self.with_editor();
        e.insert(c);
        self.put_editor(e);
    }

    /// Deletes the character before the cursor.
    pub fn input_backspace(&mut self)
        requires
            old(self).wf(),
        ensures
            final(self).wf(),
            (final(self).input@, final(self).input_cursor as int) == edit_backspace(
                old(self).input@,
                old(self).input_cursor as int,
            ),
            *final(self) == (App { input: final(self).input, input_cursor: final(self).input_cursor, ..*old(self) }),
    {
        let mut e = self.with_editor();
        e.backspace();
        self.put_editor(e);
    }

    /// Deletes the character after the cursor.
    pub fn input_delete(&mut self)
        requires
            old(self).wf(),
        ensures
            final(self).wf(),
            (final(self).input@, final(self).input_cursor as int) == edit_delete(
                old(self).input@,
                old(self).input_cursor as int,
            ),
            *final(self) == (App { input: final(self).input, input_cursor: final(self).input_cursor, ..*old(self) }),
    {
        let mut e = self.with_editor();
        e.delete();
        self.put_editor(e);
    }

    /// Moves the cursor back over one character.
    pub fn input_move_left(&mut self)
        requires
            old(self).wf(),
        ensures
            final(self).wf(),
            final(self).input_cursor == edit_left(old(self).input@, old(self).input_cursor as int),
            *final(self) == (App { input_cursor: final(self).input_cursor, ..*old(self) }),
    {
        let mut e = self.with_editor();
        e.move_left();
        self.put_editor(e);
    }

    /// Moves the cursor forward over one character.
    pub fn input_move_right(&mut self)
        requires
            old(self).wf(),
        ensures
            final(self).wf(),
            final(self).input_cursor == edit_right(old(self).input@, old(self).input_cursor as int),
            *final(self) == (App { input_cursor: final(self).input_cursor, ..*old(self) }),
    {
        let mut e = self.with_editor();
        e.move_right();
        self.put_editor(e);
    }

    /// Moves the cursor to the start of the input.
    pub fn input_home(&mut self)
        requires
            old(self).wf(),
        ensures
            final(self).wf(),
            *final(self) == (App { input_cursor: 0, ..*old(self) }),
    {
        let mut e = self.with_editor();
        e.home();
        self.put_editor(e);
    }

    /// Moves the cursor to the end of the input.
    pub fn input_end(&mut self)
        requires
            old(self).wf(),
        ensures
            final(self).wf(),
            final(self).input_cursor == utf8_len(old(self).input@),
            *final(self) == (App { input_cursor: final(self).input_cursor, ..*old(self) }),
    {
        let mut e = self.with_editor();
        e.end();
        self.put_editor(e);
    }

    /// Hands out the input and empties it.
    pub fn take_input(&mut self) -> (s: String)
        requires
            old(self).wf(),
        ensures
            final(self).wf(),
            s == old(self).input,
            final(self).input@.len() == 0,
            final(self).input_cursor == 0,
            *final(self) == (App { input: final(self).input, input_cursor: 0, ..*old(self) }),
    {
        let mut e = self.with_editor();
        let s = e.take();
        self.put_editor(e);
        s
    }

    /// The next message id; the counter moves on by one.
    pub fn next_message_id(&mut self) -> (id: u32)
        requires
            old(self).current_message_id < u32::MAX,
        ensures
            id == old(self).current_message_id,
            *final(self) == (App { current_message_id: (id + 1) as u32, ..*old(self) }),
    {
        let id = self.current_message_id;
        self.current_message_id = id + 1;
        id
    }

    /// The commands the palette offers for the input: while the input (without trailing
    /// white space) starts with `/` and the input holds no space (the command is still
    /// being typed), the commands whose names start with it.
    pub fn matching_commands(&self) -> (cs: Vec<Command>)
        ensures
            cs@.len() == matching_count(self.input@),
            cs@.len() == 1 ==> cs@[0].name@ == "/kick"@,
    {
        let prefix = trim_end(self.input.as_str());
        let mut out: Vec<Command> = Vec::new();
        let chars = chars_of(prefix.as_str());
        if chars.len() == 0 || chars[0] != '/' || contains_char(self.input.as_str(), ' ') {
            return out;
        }
        let all = commands();
        let mut i: usize = 0;
        while i < all.len()
            invariant
                all@.len() == 1,
                all@[0].name@ == "/kick"@,
                i <= 1,
                prefix@ == trimmed_end(self.input@),
                out@.len() == (if i == 1 && prefix@.is_prefix_of("/kick"@) { 1int } else { 0int }),
                out@.len() == 1 ==> out@[0].name@ == "/kick"@,
            decreases 1 - i,
        {
            if starts_with(all[i].name, prefix.as_str()) {
                out.push(all[i]);
            }
            i = i + 1;
        }
        out
    }

    /// Whether the command palette shows: the input starts with `/`, holds no space, and
    /// some command matches it.
    pub fn show_command_palette(&self) -> (b: bool)
        ensures
            b == palette_shown(self.input@),
    {
        let chars = chars_of(self.input.as_str());
        chars.len() > 0 && chars[0] == '/' && !contains_char(self.input.as_str(), ' ')
            && self.matching_commands().len() > 0
    }
}


/// The palette is open while the input, without trailing white space, starts with `/` and
/// the input holds no space.
pub open spec fn palette_open_for(input: Seq<char>) -> bool {
    let p = trimmed_end(input);
    p.len() > 0 && p[0] == '/' && !input.contains(' ')
}


/// A key the user pressed.
#[derive(Clone, Copy, Debug, PartialEq, Eq, Structural)]
pub enum Key {
    Char(char),
    Backspace,
    Delete,
    Left,
    Right,
    Up,
    Down,
    Home,
    End,
    Tab,
    Enter,
    Esc,
    Other,
}

/// What the client's caller must do after a key or an event.
#[derive(Debug)]
pub enum UiEffect {
    /// Sign in and connect to `url`.
    StartNetwork { url: String, username: String, password: String },
    /// Create a local account.
    SignUp { username: String, password: String, home_address: String },
    /// Send a message to the server, if connected.
    Send(TextNetworkMessage),
    /// Download the stored file with this id and offer to save it; once it has come,
    /// report with `download_finished`, which sends the typed line `text`.
    Download { id: u64, text: String },
    /// Pick a file and upload it.
    Upload,
    /// Write an error line to the log.
    Log(String),
    /// Forget the connection to the server.
    Disconnect,
}

/// A text field after one edit key: `Backspace` removes the last character and a
/// character key appends it.
pub open spec fn edited_field(field: Seq<char>, key: Key) -> Seq<char> {
    match key {
        Key::Backspace => if field.len() > 0 {
            field.drop_last()
        } else {
            field
        },
        Key::Char(c) => field.push(c),
        _ => field,
    }
}

fn edit_field(field: &mut String, key: Key)
    ensures
        final(field)@ == edited_field(old(field)@, key),
{
    match key {
        Key::Backspace => {
            let chars = chars_of(field.as_str());
            if chars.len() > 0 {
                *field = text_of(&chars, 0, chars.len() - 1);
                assert(chars@.subrange(0, chars@.len() - 1) =~= chars@.drop_last());
            }
        },
        Key::Char(c) => {
            push_char(field, c);
        },
        _ => {},
    }
}

/// What a key on the registration screen does to the client's state.
pub open spec fn register_key_answered(before: App, key: Key, after: App) -> bool {
    &&& (key == Key::Tab || key == Key::Down ==> after == (App {
            register_field: before.register_field.next_spec(),
            ..before
        }))
    &&& (!(key == Key::Tab || key == Key::Down) ==> match before.register_field {
            RegisterField::HomeAddress => after.register_home_address@ == edited_field(
                before.register_home_address@,
                key,
            ) && after == (App { register_home_address: after.register_home_address, ..before }),
            RegisterField::Username => after.register_username@ == edited_field(
                before.register_username@,
                key,
            ) && after == (App { register_username: after.register_username, ..before }),
            RegisterField::Password => after.register_password@ == edited_field(
                before.register_password@,
                key,
            ) && after == (App { register_password: after.register_password, ..before }),
        })
}

/// Answers a key on the registration screen: Tab and Down move to the next field, other
/// keys edit the focused field.
pub fn handle_register_input(app: &mut App, key: Key)
    requires
        old(app).wf(),
    ensures
        final(app).wf(),
        register_key_answered(*old(app), key, *final(app)),
{
    if key == Key::Tab || key == Key::Down {
        app.register_field = app.register_field.next();
        return;
    }
    match app.register_field {
        RegisterField::HomeAddress => edit_field(&mut app.register_home_address, key),
        RegisterField::Username => edit_field(&mut app.register_username, key),
        RegisterField::Password => edit_field(&mut app.register_password, key),
    }
}

impl RegisterField {
    /// The field that Tab moves to.
    pub open spec fn next_spec(self) -> RegisterField {
        match self {
            RegisterField::HomeAddress => RegisterField::Username,
            RegisterField::Username => RegisterField::Password,
            RegisterField::Password => RegisterField::HomeAddress,
        }
    }
}

impl LoginField {
    /// The field that Tab moves to.
    pub open spec fn next_spec(self) -> LoginField {
        match self {
            LoginField::ServerUrl => LoginField::Account,
            LoginField::Account => LoginField::Password,
            LoginField::Password => LoginField::ServerUrl,
        }
    }
}

/// What a key on the login screen does to the client's state.
pub open spec fn login_key_answered(before: App, key: Key, after: App) -> bool {
    &&& (before.login_field == LoginField::Account ==> after == match key {
            Key::Tab => App { login_field: LoginField::Password, ..before },
            Key::Up => if before.selected_account > 0 {
                App { selected_account: (before.selected_account - 1) as usize, ..before }
            } else {
                before
            },
            Key::Down => if before.selected_account + 1 < before.accounts@.len() {
                App { selected_account: (before.selected_account + 1) as usize, ..before }
            } else {
                before
            },
            Key::Esc => App { quit: true, ..before },
            _ => before,
        })
    &&& (before.login_field != LoginField::Account ==> (if key == Key::Tab || key == Key::Down {
            after == (App { login_field: before.login_field.next_spec(), ..before })
        } else if key == Key::Esc {
            after == (App { quit: true, ..before })
        } else if before.login_field == LoginField::ServerUrl {
            after.server_url@ == edited_field(before.server_url@, key) && after == (
            App { server_url: after.server_url, ..before })
        } else {
            after.password@ == edited_field(before.password@, key) && after == (App {
                password: after.password,
                ..before
            })
        }))
}

/// Answers a key on the login screen. On the account list Tab moves on, Up and Down move
/// the selection within the list, and Esc quits; on the text fields Tab and Down move on,
/// Esc quits, and other keys edit the field.
pub fn handle_login_input(app: &mut App, key: Key)
    requires
        old(app).wf(),
    ensures
        final(app).wf(),
        login_key_answered(*old(app), key, *final(app)),
{
    if app.login_field == LoginField::Account {
        match key {
            Key::Tab => {
                app.login_field = app.login_field.next();
            },
            Key::Up => {
                if app.selected_account > 0 {
                    app.selected_account = app.selected_account - 1;
                }
            },
            Key::Down => {
                if app.selected_account < app.accounts.len() && app.selected_account + 1
                    < app.accounts.len() {
                    app.selected_account = app.selected_account + 1;
                }
            },
            Key::Esc => {
                app.quit = true;
            },
            _ => {},
        }
        return;
    }
    if key == Key::Tab || key == Key::Down {
        app.login_field = app.login_field.next();
    } else if key == Key::Esc {
        app.quit = true;
    } else if app.login_field == LoginField::ServerUrl {
        edit_field(&mut app.server_url, key);
    } else {
        edit_field(&mut app.password, key);
    }
}


/// The name the chat shows for a key: the peer's username, or `???`.
pub open spec fn shown_name(peers: Map<Seq<u8>, PeerView>, key: Seq<u8>) -> Seq<char> {
    if peers.contains_key(key) {
        peers[key].username
    } else {
        "???"@
    }
}

/// The messages now shown are exactly `msgs`, each with its sender's shown name.
pub open spec fn shows_messages(app: App, msgs: Seq<ServerTextMessage>) -> bool {
    &&& app.messages@.len() == msgs.len()
    &&& forall|i: int|
        0 <= i < msgs.len() ==> (#[trigger] app.messages@[i]).sender@ == shown_name(
            app.peers@,
            msgs[i].sender@,
        ) && app.messages@[i].text@ == msgs[i].plaintext@ && shown_time(
            msgs[i].timestamp,
            app.messages@[i].time@,
        )
}

fn show_messages(app: &mut App, msgs: &Vec<ServerTextMessage>)
    requires
        old(app).wf(),
    ensures
        final(app).wf(),
        shows_messages(*final(app), msgs@),
        *final(app) == (App { messages: final(app).messages, ..*old(app) }),
{
    app.messages = Vec::new();
    let mut i: usize = 0;
    while i < msgs.len()
        invariant
            app.wf(),
            i <= msgs@.len(),
            *app == (App { messages: app.messages, ..*old(app) }),
            shows_messages(*app, msgs@.take(i as int)),
        decreases msgs@.len() - i,
    {
        let m = &msgs[i];
        let sender = app.resolve_username(&m.sender);
        app.add_message(sender, m.plaintext.clone(), m.timestamp);
        proof {
            assert forall|k: int| 0 <= k < i + 1 implies (#[trigger] app.messages@[k]).sender@
                == shown_name(app.peers@, msgs@.take(i + 1)[k].sender@) && app.messages@[k].text@
                == msgs@.take(i + 1)[k].plaintext@ && shown_time(
                msgs@.take(i + 1)[k].timestamp,
                app.messages@[k].time@,
            ) by {
                if k < i {
                    assert(app.messages@[k] == app.messages@.drop_last()[k]);
                    assert(msgs@.take(i + 1)[k] == msgs@.take(i as int)[k]);
                }
            }
        }
        i = i + 1;
    }
    assert(msgs@.take(msgs@.len() as int) =~= msgs@);
}

/// What a message from the server does to the chat state (see `handle_incoming`):
/// `before` and `after` are the state around it.
pub open spec fn incoming_applied(before: App, msg: TextNetworkMessage, after: App) -> bool {
    match msg {
        TextNetworkMessage::ServerText(m) => if m.channel_id != before.current_channel.id {
            after == before
        } else {
            &&& after.messages@.len() == before.messages@.len() + 1
            &&& after.messages@.drop_last() == before.messages@
            &&& after.messages@.last().sender@ == shown_name(before.peers@, m.sender@)
            &&& after.messages@.last().text == m.plaintext
            &&& shown_time(m.timestamp, after.messages@.last().time@)
            &&& after == (App { messages: after.messages, ..before })
        },
        TextNetworkMessage::ServerStatus(st) => {
            &&& after.server_name == st.name
            &&& after.peers@ == crate::client::with_users(Map::empty(), st.users@)
            &&& after.current_channel == st.default_channel
            &&& after.channels == st.message_channels
            &&& after.voice_channels == st.voice_channels
            &&& shows_messages(after, st.messages@)
            &&& after == (App {
                server_name: after.server_name,
                peers: after.peers,
                current_channel: after.current_channel,
                channels: after.channels,
                voice_channels: after.voice_channels,
                messages: after.messages,
                ..before
            })
        },
        TextNetworkMessage::UserJoin(j) => after == (App { peers: after.peers, ..before })
            && after.peers@ == before.peers@.insert(
            j.public_key@,
            PeerView {
                username: j.username@,
                address: j.address@,
                roles: Seq::empty(),
                status: UserStatus::Online,
            },
        ),
        TextNetworkMessage::ServerRequestMessages(r) => after == (App {
            messages: after.messages,
            ..before
        }) && shows_messages(after, r.messages@),
        TextNetworkMessage::UserStatusChange(c) => {
            &&& after == (App { peers: after.peers, ..before })
            &&& before.peers@.contains_key(c.public_key@) ==> after.peers@ == before.peers@.insert(
                c.public_key@,
                PeerView { status: c.status, ..before.peers@[c.public_key@] },
            )
            &&& !before.peers@.contains_key(c.public_key@) ==> after.peers@ == before.peers@
        },
        _ => after == before,
    }
}

/// Takes a message from the server into the chat state: text for the current channel is
/// shown, the welcome replaces peers, channels and messages, answers to requests replace
/// the messages, and user changes update the peers.
pub fn handle_incoming(msg: TextNetworkMessage, app: &mut App)
    requires
        old(app).wf(),
    ensures
        final(app).wf(),
        incoming_applied(*old(app), msg, *final(app)),
{
    match msg {
        TextNetworkMessage::ServerText(m) => {
            if m.channel_id != app.current_channel.id {
                return;
            }
            let sender = app.resolve_username(&m.sender);
            app.add_message(sender, m.plaintext, m.timestamp);
        },
        TextNetworkMessage::ServerStatus(st) => {
            app.server_name = st.name;
            app.peers = PeerMap::new();
            crate::client::record_users(&mut app.peers, &st.users);
            app.current_channel = st.default_channel;
            app.channels = st.message_channels;
            app.voice_channels = st.voice_channels;
            show_messages(app, &st.messages);
        },
        TextNetworkMessage::UserJoin(j) => {
            let peer = Peer {
                username: j.username,
                address: j.address,
                roles: Vec::new(),
                status: UserStatus::Online,
            };
            proof {
                assert(peer@.roles =~= Seq::<u8>::empty());
            }
            app.peers.insert(j.public_key, peer);
        },
        TextNetworkMessage::ServerRequestMessages(r) => {
            show_messages(app, &r.messages);
        },
        TextNetworkMessage::UserStatusChange(c) => {
            app.peers.set_status(&c.public_key, c.status);
        },
        _ => {},
    }
}

/// An event that the network task reports.
#[derive(Debug)]
pub enum NetEvent {
    Connected,
    HandshakeOk(String),
    SessionGranted(String),
    SigningKey(SecretKey),
    VerifyingKey(PublicKey),
    Error(String),
    Incoming(TextNetworkMessage),
    Disconnected,
}

/// Takes an event of the network task. The answer says whether the connection is to be
/// forgotten (after an error or a disconnection, which also send the user back to the
/// login screen with a message).
pub fn handle_net_event(app: &mut App, ev: NetEvent) -> (drop_connection: bool)
    requires
        old(app).wf(),
    ensures
        final(app).wf(),
        drop_connection == (ev is Error || ev is Disconnected),
        match ev {
            NetEvent::Connected => (final(app).status_message matches Some(m) && m@
                == "Authenticating..."@) && *final(app) == (App {
                status_message: final(app).status_message,
                ..*old(app)
            }),
            NetEvent::HandshakeOk(_) => *final(app) == (App { screen: Screen::Chat, ..*old(app) }),
            NetEvent::SigningKey(k) => *final(app) == (App { signing_key: Some(k), ..*old(app) }),
            NetEvent::VerifyingKey(k) => *final(app) == (App { verifying_key: Some(k), ..*old(app) }),
            NetEvent::SessionGranted(id) => *final(app) == (App { session_id: id, ..*old(app) }),
            NetEvent::Error(e) => *final(app) == (App {
                login_error: Some(e),
                screen: Screen::Login,
                ..*old(app)
            }),
            NetEvent::Disconnected => (final(app).login_error matches Some(m) && m@
                == "Disconnected from server"@) && *final(app) == (App {
                login_error: final(app).login_error,
                screen: Screen::Login,
                ..*old(app)
            }),
            NetEvent::Incoming(m) => incoming_applied(*old(app), m, *final(app)),
        },
{
    match ev {
        NetEvent::Connected => {
            app.status_message = Some(String::from_str("Authenticating..."));
            false
        },
        NetEvent::HandshakeOk(_) => {
            app.screen = Screen::Chat;
            false
        },
        NetEvent::SigningKey(k) => {
            app.signing_key = Some(k);
            false
        },
        NetEvent::VerifyingKey(k) => {
            app.verifying_key = Some(k);
            false
        },
        NetEvent::SessionGranted(id) => {
            app.session_id = id;
            false
        },
        NetEvent::Error(e) => {
            app.login_error = Some(e);
            app.screen = Screen::Login;
            true
        },
        NetEvent::Incoming(m) => {
            handle_incoming(m, app);
            false
        },
        NetEvent::Disconnected => {
            app.login_error = Some(String::from_str("Disconnected from server"));
            app.screen = Screen::Login;
            true
        },
    }
}


/// The command palette shows for this input.
pub open spec fn palette_shown(input: Seq<char>) -> bool {
    input.len() > 0 && input[0] == '/' && !input.contains(' ') && palette_open_for(input)
        && trimmed_end(input).is_prefix_of("/kick"@)
}

/// Enter on the chat screen sends the typed line as a chat message: the line is not empty,
/// not taken by the channel list or the palette, not a `/kick` command and not a
/// `/download` command that fails, the client is connected, and it holds a signing key.
pub open spec fn sends_chat_text(app: App, key: Key, ctrl: bool, connected: bool) -> bool {
    let t = app.input@;
    &&& !(ctrl && key == Key::Char('l'))
    &&& !app.channel_list_focused
    &&& key == Key::Enter
    &&& !palette_shown(t)
    &&& t.len() > 0
    &&& connected
    &&& !"/kick "@.is_prefix_of(t)
    &&& !"/download "@.is_prefix_of(t)
    &&& app.signing_key is Some
}

/// The number of palette commands that match the input (see `App::matching_commands`).
pub open spec fn matching_count(input: Seq<char>) -> int {
    if palette_open_for(input) && trimmed_end(input).is_prefix_of("/kick"@) {
        1
    } else {
        0
    }
}

/// The palette shows and the key is one of those it answers: Up, Down, Tab and Enter.
pub open spec fn palette_takes(app: App, key: Key) -> bool {
    palette_shown(app.input@) && (key == Key::Up || key == Key::Down || key == Key::Tab || key
        == Key::Enter)
}

/// The state that a key the palette does not answer starts from: while the palette shows,
/// its selection goes back to the first command.
pub open spec fn palette_reset(app: App) -> App {
    if palette_shown(app.input@) {
        App { command_selected: 0, ..app }
    } else {
        app
    }
}

/// What a key on the chat screen does: `before` and `after` are the client's state around
/// it and `effects` what the caller must do (see `handle_chat_input`).
pub open spec fn chat_key_answered(
    before: App,
    key: Key,
    ctrl: bool,
    alt: bool,
    connected: bool,
    after: App,
    effects: Seq<UiEffect>,
) -> bool {
    &&& (ctrl && key == Key::Char('l') ==> effects.len() == 0 && after == (App {
            channel_list_focused: !before.channel_list_focused,
            ..before
        }))
    &&& (!(ctrl && key == Key::Char('l')) && before.channel_list_focused ==> {
            let sel = before.selected_channel;
            match key {
                Key::Up | Key::Char('k') => effects.len() == 0 && after == if sel > 0 {
                    App { selected_channel: (sel - 1) as usize, ..before }
                } else {
                    before
                },
                Key::Down | Key::Char('j') => effects.len() == 0 && after == if sel + 1
                    < before.channels@.len() {
                    App { selected_channel: (sel + 1) as usize, ..before }
                } else {
                    before
                },
                Key::Enter => if sel < before.channels@.len() {
                    &&& after.current_channel == before.channels@[sel as int]
                    &&& after.messages@.len() == 0
                    &&& !after.channel_list_focused
                    &&& effects.len() == 1
                    &&& effects[0] matches UiEffect::Send(r)
                    &&& r == crate::client::history_request(before.channels@[sel as int])
                } else {
                    effects.len() == 0 && after == before
                },
                Key::Esc | Key::Tab => effects.len() == 0 && after == (App {
                    channel_list_focused: false,
                    ..before
                }),
                _ => effects.len() == 0 && after == before,
            }
        })
    &&& (!(ctrl && key == Key::Char('l')) && !before.channel_list_focused && palette_shown(before.input@) && (key == Key::Tab || key == Key::Enter) ==> {
            &&& effects.len() == 0
            &&& after.input@ == "/kick "@
            &&& after == (App { input: after.input, input_cursor: 6, command_selected: 0, ..before })
        })
    &&& (!(ctrl && key == Key::Char('l')) && !before.channel_list_focused && palette_shown(before.input@) && key == Key::Down ==> effects.len() == 0 && after == if before.command_selected
            + 1 < matching_count(before.input@) {
            App { command_selected: (before.command_selected + 1) as usize, ..before }
        } else {
            before
        })
    &&& (!(ctrl && key == Key::Char('l')) && !before.channel_list_focused && palette_shown(before.input@) && key == Key::Up ==> effects.len() == 0 && after == if before.command_selected
            > 0 {
            App { command_selected: (before.command_selected - 1) as usize, ..before }
        } else {
            before
        })
    &&& (sends_chat_text(before, key, ctrl, connected) ==> {
            let t = before.input@;
            &&& after.input@.len() == 0
            &&& after.current_message_id == before.current_message_id + 1
            &&& effects.len() >= 1
            &&& effects.last() matches UiEffect::Send(TextNetworkMessage::ClientText(m))
            &&& m.plaintext@ == t
            &&& m.signed_message@ == ed25519_signature(
                before.signing_key->0@,
                vstd::utf8::encode_utf8(t),
            )
            &&& ed25519_verifies(
                ed25519_public(before.signing_key->0@),
                vstd::utf8::encode_utf8(t),
                m.signed_message@,
            )
            &&& m.id == before.current_message_id
            &&& m.channel == before.current_channel
            &&& effects.len() == 1
        })
    &&& (!(ctrl && key == Key::Char('l')) && !before.channel_list_focused && !palette_shown(before.input@) && key == Key::Enter ==> {
            let t = before.input@;
            let args = words(t);
            &&& after == (App {
                input: after.input,
                input_cursor: 0,
                current_message_id: after.current_message_id,
                ..before
            })
            &&& after.input@.len() == 0
            &&& (t.len() == 0 || !connected) ==> effects.len() == 0 && after.current_message_id
                == before.current_message_id
            &&& (t.len() > 0 && connected && !"/kick "@.is_prefix_of(t) && "/download "@.is_prefix_of(t)) ==> {
                &&& after.current_message_id == before.current_message_id
                &&& effects.len() == 1
                &&& if args.len() != 2 {
                    effects[0] matches UiEffect::Log(m) && m@
                        == "Incorrect arguement count for download command, should be 2, was "@
                        + crate::text::decimal(args.len())
                } else if parsed_u64(args[1]) is None {
                    effects[0] matches UiEffect::Log(m) && m@
                        == "Unable to convert ID into u64 for download command"@
                } else {
                    effects[0] matches UiEffect::Download { id, text } && id == parsed_u64(args[1])->0
                        && text@ == t
                }
            }
            &&& (t.len() > 0 && connected && !"/kick "@.is_prefix_of(t) && !"/download "@.is_prefix_of(t)
                && before.signing_key is None) ==> effects.len() == 0 && after.current_message_id
                == before.current_message_id
        })
    &&& (!(ctrl && key == Key::Char('l')) && !before.channel_list_focused && !palette_shown(before.input@) && key == Key::Enter && connected && "/kick "@.is_prefix_of(before.input@) ==> {
            let args = words(before.input@);
            &&& after.input@.len() == 0
            &&& after.current_message_id == before.current_message_id
            &&& args.len() < 3 ==> effects.len() == 0
            &&& args.len() >= 3 ==> if exists|k: Seq<u8>|
                #[trigger] before.peers@.contains_key(k) && before.peers@[k].username == args[1] {
                &&& effects.len() == 1
                &&& effects[0] matches UiEffect::Send(TextNetworkMessage::ClientKickRequest(kr))
                &&& before.peers@.contains_key(kr.recipient@)
                &&& before.peers@[kr.recipient@].username == args[1]
                &&& kr.reason@ == joined(args.skip(2))
            } else {
                effects.len() == 0
            }
        })
    &&& (!(ctrl && key == Key::Char('l')) && !before.channel_list_focused && !palette_takes(before, key) ==> {
            let b = palette_reset(before);
            match key {
                Key::Backspace => effects.len() == 0 && (after.input@, after.input_cursor as int)
                    == edit_backspace(b.input@, b.input_cursor as int) && after == (App {
                    input: after.input,
                    input_cursor: after.input_cursor,
                    ..b
                }),
                Key::Delete => effects.len() == 0 && (after.input@, after.input_cursor as int)
                    == edit_delete(b.input@, b.input_cursor as int) && after == (App {
                    input: after.input,
                    input_cursor: after.input_cursor,
                    ..b
                }),
                Key::Left => effects.len() == 0 && after == (App {
                    input_cursor: edit_left(b.input@, b.input_cursor as int) as usize,
                    ..b
                }),
                Key::Right => effects.len() == 0 && after == (App {
                    input_cursor: edit_right(b.input@, b.input_cursor as int) as usize,
                    ..b
                }),
                Key::Home => effects.len() == 0 && after == (App { input_cursor: 0, ..b }),
                Key::End => effects.len() == 0 && after == (App {
                    input_cursor: utf8_len(b.input@) as usize,
                    ..b
                }),
                Key::Tab => effects.len() == 0 && after == (App { channel_list_focused: true, ..b }),
                Key::Esc => effects.len() == 0 && after == (App { quit: true, ..b }),
                Key::Char(c) => if c == 'u' && alt {
                    effects.len() == 1 && effects[0] is Upload && after == b
                } else {
                    effects.len() == 0 && (after.input@, after.input_cursor as int) == edit_insert(
                        b.input@,
                        b.input_cursor as int,
                        c,
                    ) && after == (App { input: after.input, input_cursor: after.input_cursor, ..b })
                },
                Key::Enter => true,
                _ => effects.len() == 0 && after == b,
            }
        })
}

/// Answers a key on the chat screen (`ctrl` and `alt` tell the held modifiers; `connected`
/// whether there is a connection to send on). Ctrl+L toggles the channel list. In the
/// channel list, Up/k and Down/j move the selection, Enter switches to the selected
/// channel and asks for its messages, and Esc or Tab leave the list. While the command
/// palette shows, Up and Down move its selection and Tab or Enter complete the command.
/// Otherwise Enter sends the line (a `/kick <user> <reason>` command, a
/// `/download <id>` request followed by the line itself, or a chat message), editing keys
/// edit the line, Tab opens the channel list, Esc quits, and Alt+U uploads a file.
pub fn handle_chat_input(app: &mut App, key: Key, ctrl: bool, alt: bool, connected: bool) -> (effects:
    Vec<UiEffect>)
    requires
        old(app).wf(),
        sends_chat_text(*old(app), key, ctrl, connected) ==> old(app).current_message_id
            < u32::MAX,
    ensures
        final(app).wf(),
        chat_key_answered(*old(app), key, ctrl, alt, connected, *final(app), effects@),

{
    let mut effects: Vec<UiEffect> = Vec::new();
    if ctrl && key == Key::Char('l') {
        app.channel_list_focused = !app.channel_list_focused;
        return effects;
    }
    if app.channel_list_focused {
        match key {
            Key::Up | Key::Char('k') => {
                if app.selected_channel > 0 {
                    app.selected_channel = app.selected_channel - 1;
                }
            },
            Key::Down | Key::Char('j') => {
                if app.selected_channel < app.channels.len() && app.selected_channel + 1
                    < app.channels.len() {
                    app.selected_channel = app.selected_channel + 1;
                }
            },
            Key::Enter => {
                if app.selected_channel < app.channels.len() {
                    let channel = app.channels[app.selected_channel].duplicate();
                    app.current_channel = channel.duplicate();
                    app.messages = Vec::new();
                    effects.push(
                        UiEffect::Send(
                            TextNetworkMessage::ClientRequestMessages(
                                ClientRequestMessages { range: 0..255, channel },
                            ),
                        ),
                    );
                    app.channel_list_focused = false;
                }
            },
            Key::Esc | Key::Tab => {
                app.channel_list_focused = false;
            },
            _ => {},
        }
        return effects;
    }
    if app.show_command_palette() {
        let matches = app.matching_commands();
        match key {
            Key::Up => {
                if app.command_selected > 0 {
                    app.command_selected = app.command_selected - 1;
                }
                return effects;
            },
            Key::Down => {
                if app.command_selected < matches.len() && app.command_selected + 1 < matches.len() {
                    app.command_selected = app.command_selected + 1;
                }
                return effects;
            },
            Key::Tab | Key::Enter => {
                let name = matches[app.command_selected % matches.len()].name;
                let mut text = String::from_str(name);
                push_char(&mut text, ' ');
                proof {
                    reveal_strlit("/kick");
                    reveal_strlit("/kick ");
                    assert(text@ =~= "/kick "@);
                    vstd::utf8::is_ascii_chars_encode_utf8(text@);
                }
                let mut e = app.with_editor();
                e.replace(text);
                app.put_editor(e);
                app.command_selected = 0;
                return effects;
            },
            _ => {
                app.command_selected = 0;
            },
        }
    }
    match key {
        Key::Enter => {
            let text = app.take_input();
            if text.as_str().is_empty() || !connected {
                return effects;
            }
            if starts_with(text.as_str(), "/kick ") {
                let args = split_whitespace(text.as_str());
                if args.len() < 3 {
                    return effects;
                }
                match app.peers.find_by_username(&args[1]) {
                    Some(recipient) => {
                        let reason = crate::text::join_with_spaces(&args, 2);
                        proof {
                            assert(args@.skip(2).map_values(|p: String| p@) =~= words(text@).skip(2));
                        }
                        effects.push(
                            UiEffect::Send(
                                TextNetworkMessage::ClientKickRequest(
                                    ClientKickRequest { recipient, reason },
                                ),
                            ),
                        );
                    },
                    None => {},
                }
                return effects;
            } else if starts_with(text.as_str(), "/download ") {
                let args = split_whitespace(text.as_str());
                if args.len() != 2 {
                    let mut line = String::from_str(
                        "Incorrect arguement count for download command, should be 2, was ",
                    );
                    crate::text::push_decimal(&mut line, args.len() as u64);
                    effects.push(UiEffect::Log(line));
                    return effects;
                }
                match parse_u64(args[1].as_str()) {
                    Some(id) => {
                        effects.push(UiEffect::Download { id, text });
                        return effects;
                    },
                    None => {
                        effects.push(
                            UiEffect::Log(
                                String::from_str("Unable to convert ID into u64 for download command"),
                            ),
                        );
                        return effects;
                    },
                }
            }
            match app.signing_key {
                Some(key) => {
                    let id = app.next_message_id();
                    let signed = sign_message(text.as_str(), &key);
                    effects.push(
                        UiEffect::Send(
                            TextNetworkMessage::ClientText(
                                ClientTextMessage {
                                    plaintext: text,
                                    signed_message: signed,
                                    id,
                                    channel: app.current_channel.duplicate(),
                                },
                            ),
                        ),
                    );
                },
                None => {},
            }
        },
        Key::Backspace => app.input_backspace(),
        Key::Delete => app.input_delete(),
        Key::Left => app.input_move_left(),
        Key::Right => app.input_move_right(),
        Key::Home => app.input_home(),
        Key::End => app.input_end(),
        Key::Tab => {
            app.channel_list_focused = true;
        },
        Key::Esc => {
            app.quit = true;
        },
        Key::Char(c) => {
            if c == 'u' && alt {
                effects.push(UiEffect::Upload);
            } else {
                app.input_insert(c);
            }
        },
        _ => {},
    }
    effects
}


/// What a key does on any screen (see `handle_key`): `before` and `after` are the
/// client's state around it and `effects` what the caller must do.
pub open spec fn key_answered(
    before: App,
    key: Key,
    ctrl: bool,
    alt: bool,
    connected: bool,
    after: App,
    effects: Seq<UiEffect>,
) -> bool {
    &&& (ctrl && key == Key::Char('c') ==> effects.len() == 0 && after == (App {
        quit: true,
        ..before
    }))
    &&& (!(ctrl && key == Key::Char('c')) ==> match before.screen {
        Screen::Login => if ctrl && key == Key::Char('n') {
            effects.len() == 0 && after == (App {
                screen: Screen::Register,
                login_error: None,
                login_info: None,
                ..before
            })
        } else if key == Key::Enter {
            if before.accounts@.len() == 0 {
                &&& effects.len() == 0
                &&& after.login_error matches Some(m)
                &&& m@ == "No accounts. Press Ctrl+N to create one."@
                &&& after == (App { login_error: after.login_error, ..before })
            } else if before.selected_account >= before.accounts@.len() {
                &&& effects.len() == 0
                &&& after.login_error matches Some(m)
                &&& m@ == "Select an account"@
                &&& after == (App { login_error: after.login_error, ..before })
            } else if before.password@.len() == 0 {
                &&& effects.len() == 0
                &&& after.login_error matches Some(m)
                &&& m@ == "Password required"@
                &&& after == (App { login_error: after.login_error, ..before })
            } else {
                &&& after.username == before.accounts@[before.selected_account as int]
                &&& after.status_message matches Some(m)
                &&& m@ == "Signing in..."@
                &&& after == (App {
                    username: after.username,
                    login_error: None,
                    login_info: None,
                    screen: Screen::Connecting,
                    status_message: after.status_message,
                    ..before
                })
                &&& effects.len() == 1
                &&& effects[0] matches UiEffect::StartNetwork { url, username, password }
                &&& url == before.server_url
                &&& username == after.username
                &&& password == before.password
            }
        } else {
            effects.len() == 0 && login_key_answered(before, key, after)
        },
        Screen::Register => if key == Key::Esc {
            effects.len() == 0 && after == (App {
                screen: Screen::Login,
                register_error: None,
                ..before
            })
        } else if key == Key::Enter {
            if before.register_home_address@.len() == 0 {
                &&& effects.len() == 0
                &&& after.register_error matches Some(m)
                &&& m@ == "Home address required"@
                &&& after == (App { register_error: after.register_error, ..before })
            } else if before.register_username@.len() == 0 {
                &&& effects.len() == 0
                &&& after.register_error matches Some(m)
                &&& m@ == "Username required"@
                &&& after == (App { register_error: after.register_error, ..before })
            } else if before.register_password@.len() == 0 {
                &&& effects.len() == 0
                &&& after.register_error matches Some(m)
                &&& m@ == "Password required"@
                &&& after == (App { register_error: after.register_error, ..before })
            } else {
                &&& after == before
                &&& effects.len() == 1
                &&& effects[0] matches UiEffect::SignUp { username, password, home_address }
                &&& username == before.register_username
                &&& password == before.register_password
                &&& home_address == before.register_home_address
            }
        } else {
            effects.len() == 0 && register_key_answered(before, key, after)
        },
        Screen::Connecting => effects.len() == 0 && after == if key == Key::Esc {
            App { quit: true, ..before }
        } else {
            before
        },
        Screen::Chat => chat_key_answered(before, key, ctrl, alt, connected, after, effects),
        _ => effects.len() == 0 && after == before,
    })
}

/// Answers a key on any screen (`ctrl` and `alt` tell the held modifiers; `connected`
/// whether there is a connection to send on). Ctrl+C quits everywhere. On the login screen
/// Ctrl+N opens the registration screen and Enter signs in with the selected account (after
/// checking that there is one and that a password was typed); on the registration screen
/// Esc goes back and Enter asks for the account to be created (after checking that every
/// field was filled); Esc on the connecting screen quits; the chat screen answers as
/// `handle_chat_input` says. Other keys edit the focused screen.
pub fn handle_key(app: &mut App, key: Key, ctrl: bool, alt: bool, connected: bool) -> (effects: Vec<UiEffect>)
    requires
        old(app).wf(),
        old(app).screen == Screen::Chat && sends_chat_text(*old(app), key, ctrl, connected)
            ==> old(app).current_message_id < u32::MAX,
    ensures
        final(app).wf(),
        key_answered(*old(app), key, ctrl, alt, connected, *final(app), effects@),

{
    let mut effects: Vec<UiEffect> = Vec::new();
    if ctrl && key == Key::Char('c') {
        app.quit = true;
        return effects;
    }
    match app.screen {
        Screen::Login => {
            if ctrl && key == Key::Char('n') {
                app.screen = Screen::Register;
                app.login_error = None;
                app.login_info = None;
            } else if key == Key::Enter {
                if app.accounts.len() == 0 {
                    app.login_error = Some(String::from_str("No accounts. Press Ctrl+N to create one."));
                    return effects;
                }
                let selected = match app.selected_account_name() {
                    Some(name) => name,
                    None => {
                        app.login_error = Some(String::from_str("Select an account"));
                        return effects;
                    },
                };
                if app.password.as_str().is_empty() {
                    app.login_error = Some(String::from_str("Password required"));
                    return effects;
                }
                app.username = selected;
                app.login_error = None;
                app.login_info = None;
                app.screen = Screen::Connecting;
                app.status_message = Some(String::from_str("Signing in..."));
                effects.push(
                    UiEffect::StartNetwork {
                        url: app.server_url.clone(),
                        username: app.username.clone(),
                        password: app.password.clone(),
                    },
                );
            } else {
                handle_login_input(app, key);
            }
        },
        Screen::Register => {
            if key == Key::Esc {
                app.screen = Screen::Login;
                app.register_error = None;
            } else if key == Key::Enter {
                if app.register_home_address.as_str().is_empty() {
                    app.register_error = Some(String::from_str("Home address required"));
                } else if app.register_username.as_str().is_empty() {
                    app.register_error = Some(String::from_str("Username required"));
                } else if app.register_password.as_str().is_empty() {
                    app.register_error = Some(String::from_str("Password required"));
                } else {
                    effects.push(
                        UiEffect::SignUp {
                            username: app.register_username.clone(),
                            password: app.register_password.clone(),
                            home_address: app.register_home_address.clone(),
                        },
                    );
                }
            } else {
                handle_register_input(app, key);
            }
        },
        Screen::Connecting => {
            if key == Key::Esc {
                app.quit = true;
            }
        },
        Screen::Chat => {
            effects = handle_chat_input(app, key, ctrl, alt, connected);
        },
        _ => {},
    }
    effects
}

/// The index of the first entry equal to `name`, if any.
pub open spec fn position_of(names: Seq<String>, name: Seq<char>) -> Option<int> {
    if exists|i: int| 0 <= i < names.len() && names[i]@ == name {
        Some(choose|i: int| 0 <= i < names.len() && names[i]@ == name && forall|j: int| 0 <= j < i ==> names[j]@ != name)
    } else {
        None
    }
}

/// Takes the outcome of creating the account that the registration screen asked for, with
/// the local accounts as they now stand. On success the registration fields and the
/// password are cleared, the new account is selected, and the login screen says that the
/// account was created; on failure the registration screen shows the error.
pub fn register_finished(app: &mut App, outcome: Result<(), String>, accounts: Vec<String>)
    requires
        old(app).wf(),
    ensures
        final(app).wf(),
        match outcome {
            Ok(()) => {
                let name = old(app).register_username@;
                &&& final(app).screen == Screen::Login
                &&& final(app).password@.len() == 0
                &&& final(app).register_username@.len() == 0
                &&& final(app).register_password@.len() == 0
                &&& final(app).register_home_address@.len() == 0
                &&& final(app).register_error is None
                &&& final(app).accounts == accounts
                &&& final(app).login_info matches Some(m)
                &&& m@ == "Account created. Sign in below."@
                &&& match position_of(accounts@, name) {
                    Some(i) => final(app).selected_account == i,
                    None => final(app).selected_account == if old(app).selected_account
                        >= accounts@.len() {
                        if accounts@.len() == 0 {
                            0
                        } else {
                            accounts@.len() - 1
                        }
                    } else {
                        old(app).selected_account as int
                    },
                }
            },
            Err(e) => {
                &&& final(app).register_error matches Some(m)
                &&& m@ == "Sign up failed: "@ + e@
                &&& *final(app) == (App { register_error: final(app).register_error, ..*old(app) })
            },
        },
{
    match outcome {
        Ok(()) => {
            let new_name = app.register_username.clone();
            app.password = String::new();
            app.register_username = String::new();
            app.register_password = String::new();
            app.register_home_address = String::new();
            app.register_error = None;
            app.refresh_accounts(accounts);
            let mut i: usize = 0;
            let mut found: Option<usize> = None;
            let ghost settled = *app;
            while found.is_none() && i < app.accounts.len()
                invariant
                    *app == settled,
                    i <= app.accounts@.len(),
                    match found {
                        Some(k) => k < app.accounts@.len() && app.accounts@[k as int]@ == new_name@
                            && forall|j: int| 0 <= j < k ==> app.accounts@[j]@ != new_name@,
                        None => forall|j: int| 0 <= j < i ==> app.accounts@[j]@ != new_name@,
                    },
                decreases app.accounts@.len() - i + if found is None { 1int } else { 0int },
            {
                if app.accounts[i] == new_name {
                    found = Some(i);
                } else {
                    i = i + 1;
                }
            }
            match found {
                Some(k) => {
                    proof {
                        let names = app.accounts@;
                        let c = choose|c: int| 0 <= c < names.len() && names[c]@ == new_name@
                            && forall|j: int| 0 <= j < c ==> names[j]@ != new_name@;
                        assert(0 <= c < names.len() && names[c]@ == new_name@);
                        if c < k {
                            assert(names[c]@ != new_name@);
                        }
                        if (k as int) < c {
                            assert(names[k as int]@ != new_name@);
                        }
                    }
                    app.selected_account = k;
                },
                None => {},
            }
            app.login_info = Some(String::from_str("Account created. Sign in below."));
            app.screen = Screen::Login;
        },
        Err(e) => {
            let mut m = String::from_str("Sign up failed: ");
            m.append(e.as_str());
            app.register_error = Some(m);
        },
    }
}


/// Takes the outcome of a download that a `/download` line asked for. Once the file has
/// come, the line is sent as a chat message, signed and numbered, if the client holds a
/// signing key; after a failed download nothing is sent.
pub fn download_finished(app: &mut App, text: String, downloaded: bool) -> (effects: Vec<UiEffect>)
    requires
        old(app).wf(),
        downloaded && old(app).signing_key is Some ==> old(app).current_message_id < u32::MAX,
    ensures
        final(app).wf(),
        !(downloaded && old(app).signing_key is Some) ==> effects@.len() == 0 && *final(app) == *old(app),
        downloaded && old(app).signing_key is Some ==> {
            &&& *final(app) == (App {
                current_message_id: (old(app).current_message_id + 1) as u32,
                ..*old(app)
            })
            &&& effects@.len() == 1
            &&& effects@[0] matches UiEffect::Send(TextNetworkMessage::ClientText(m))
            &&& m.plaintext == text
            &&& m.signed_message@ == ed25519_signature(
                old(app).signing_key->0@,
                vstd::utf8::encode_utf8(text@),
            )
            &&& ed25519_verifies(
                ed25519_public(old(app).signing_key->0@),
                vstd::utf8::encode_utf8(text@),
                m.signed_message@,
            )
            &&& m.id == old(app).current_message_id
            &&& m.channel == old(app).current_channel
        },
{
    let mut effects: Vec<UiEffect> = Vec::new();
    if !downloaded {
        return effects;
    }
    match app.signing_key {
        Some(key) => {
            let id = app.next_message_id();
            let signed = sign_message(text.as_str(), &key);
            effects.push(
                UiEffect::Send(
                    TextNetworkMessage::ClientText(
                        ClientTextMessage {
                            plaintext: text,
                            signed_message: signed,
                            id,
                            channel: app.current_channel.duplicate(),
                        },
                    ),
                ),
            );
        },
        None => {},
    }
    effects
}

/// In the focused channel list, Up and `k` move the selection one channel up, and keep it
/// on the first channel there; the list stays focused, nothing else changes and nothing
/// is sent.
pub proof fn law_channel_list_up(
    before: App,
    key: Key,
    ctrl: bool,
    alt: bool,
    connected: bool,
    after: App,
    effects: Seq<UiEffect>,
)
    requires
        before.channel_list_focused,
        key == Key::Up || key == Key::Char('k'),
        chat_key_answered(before, key, ctrl, alt, connected, after, effects),
    ensures
        effects.len() == 0,
        before.selected_channel > 0 ==> after.selected_channel == before.selected_channel - 1,
        before.selected_channel == 0 ==> after.selected_channel == 0,
        after == (App { selected_channel: after.selected_channel, ..before }),
{
}

/// In the focused channel list, Down and `j` move the selection one channel down while
/// there is a channel below, and else keep it; nothing else changes and nothing is sent.
pub proof fn law_channel_list_down(
    before: App,
    key: Key,
    ctrl: bool,
    alt: bool,
    connected: bool,
    after: App,
    effects: Seq<UiEffect>,
)
    requires
        before.channel_list_focused,
        key == Key::Down || key == Key::Char('j'),
        chat_key_answered(before, key, ctrl, alt, connected, after, effects),
    ensures
        effects.len() == 0,
        before.selected_channel + 1 < before.channels@.len() ==> after.selected_channel
            == before.selected_channel + 1,
        before.selected_channel + 1 >= before.channels@.len() ==> after.selected_channel
            == before.selected_channel,
        after == (App { selected_channel: after.selected_channel, ..before }),
{
    assert(before.channels@.len() == before.channels.len());
}

/// In the focused channel list, a step down to a channel below followed by a step up
/// comes back to the channel it started from, with the state as it was.
pub proof fn law_channel_list_down_then_up(
    first: App,
    down: Key,
    up: Key,
    ctrl: bool,
    alt: bool,
    connected: bool,
    middle: App,
    last: App,
    down_effects: Seq<UiEffect>,
    up_effects: Seq<UiEffect>,
)
    requires
        first.channel_list_focused,
        first.selected_channel + 1 < first.channels@.len(),
        down == Key::Down || down == Key::Char('j'),
        up == Key::Up || up == Key::Char('k'),
        chat_key_answered(first, down, ctrl, alt, connected, middle, down_effects),
        chat_key_answered(middle, up, ctrl, alt, connected, last, up_effects),
    ensures
        last == first,
{
    law_channel_list_down(first, down, ctrl, alt, connected, middle, down_effects);
    law_channel_list_up(middle, up, ctrl, alt, connected, last, up_effects);
}

/// A status change from the server gives a known user the status it carries and keeps
/// the rest of that user's entry; every other user, and everything else, stays as it
/// was. A change for an unknown user changes nothing.
pub proof fn law_status_change_applied(before: App, change: UserStatusChange, after: App)
    requires
        incoming_applied(before, TextNetworkMessage::UserStatusChange(change), after),
    ensures
        before.peers@.contains_key(change.public_key@) ==> {
            &&& after.peers@.contains_key(change.public_key@)
            &&& after.peers@[change.public_key@].status == change.status
            &&& after.peers@[change.public_key@].username == before.peers@[change.public_key@].username
            &&& after.peers@[change.public_key@].address == before.peers@[change.public_key@].address
            &&& after.peers@[change.public_key@].roles == before.peers@[change.public_key@].roles
        },
        forall|k: Seq<u8>|
            k != change.public_key@ ==> (#[trigger] after.peers@.contains_key(k)
                == before.peers@.contains_key(k) && (before.peers@.contains_key(k)
                ==> after.peers@[k] == before.peers@[k])),
        !before.peers@.contains_key(change.public_key@) ==> after.peers@ == before.peers@,
        after == (App { peers: after.peers, ..before }),
{
}

/// Enter on the chat line, with the list and the palette closed, sends what was typed as
/// one chat message when it is neither empty nor a `/kick ` or `/download ` command and
/// the client is connected and holds its key: the message carries the line, the current
/// message number and channel, and a signature of the line that verifies under the
/// client's public key; the line is cleared and the number goes up by one.
pub proof fn law_enter_sends_the_typed_line(
    before: App,
    ctrl: bool,
    alt: bool,
    after: App,
    effects: Seq<UiEffect>,
)
    requires
        !before.channel_list_focused,
        !palette_shown(before.input@),
        before.input@.len() > 0,
        !"/kick "@.is_prefix_of(before.input@),
        !"/download "@.is_prefix_of(before.input@),
        before.signing_key is Some,
        chat_key_answered(before, Key::Enter, ctrl, alt, true, after, effects),
    ensures
        effects.len() == 1,
        effects[0] matches UiEffect::Send(TextNetworkMessage::ClientText(m)) && {
            &&& m.plaintext@ == before.input@
            &&& m.id == before.current_message_id
            &&& m.channel == before.current_channel
            &&& ed25519_verifies(
                ed25519_public(before.signing_key->0@),
                vstd::utf8::encode_utf8(before.input@),
                m.signed_message@,
            )
        },
        after.input@.len() == 0,
        after.current_message_id == before.current_message_id + 1,
{
}

/// Typing on the chat line (a character other than Alt+U, with the list closed) changes
/// only the line and its cursor, so it keeps the number the next chat message gets.
pub proof fn law_typing_keeps_the_message_number(
    before: App,
    c: char,
    ctrl: bool,
    alt: bool,
    connected: bool,
    after: App,
    effects: Seq<UiEffect>,
)
    requires
        !(ctrl && c == 'l'),
        !(alt && c == 'u'),
        !before.channel_list_focused,
        chat_key_answered(before, Key::Char(c), ctrl, alt, connected, after, effects),
    ensures
        effects.len() == 0,
        after.current_message_id == before.current_message_id,
        after.current_channel == before.current_channel,
        after.signing_key == before.signing_key,
{
}

/// Two chat messages sent one after the other, whatever was typed between them, carry
/// successive numbers.
pub proof fn law_successive_messages_are_numbered_in_order(
    first: App,
    after_first: App,
    second: App,
    after_second: App,
    ctrl: bool,
    alt: bool,
    first_effects: Seq<UiEffect>,
    second_effects: Seq<UiEffect>,
)
    requires
        sends_chat_text(first, Key::Enter, ctrl, true),
        chat_key_answered(first, Key::Enter, ctrl, alt, true, after_first, first_effects),
        second.current_message_id == after_first.current_message_id,
        sends_chat_text(second, Key::Enter, ctrl, true),
        chat_key_answered(second, Key::Enter, ctrl, alt, true, after_second, second_effects),
    ensures
        first_effects.last() matches UiEffect::Send(TextNetworkMessage::ClientText(m1))
            && second_effects.last() matches UiEffect::Send(TextNetworkMessage::ClientText(m2))
            && m2.id == m1.id + 1,
{
}

/// Enter in the focused channel list switches to the selected channel: the chat shows
/// no messages, the list closes, and the channel's latest messages (0 to 255) are asked
/// for; nothing else is sent.
pub proof fn law_enter_switches_channel(
    before: App,
    ctrl: bool,
    alt: bool,
    connected: bool,
    after: App,
    effects: Seq<UiEffect>,
)
    requires
        before.channel_list_focused,
        before.selected_channel < before.channels@.len(),
        chat_key_answered(before, Key::Enter, ctrl, alt, connected, after, effects),
    ensures
        after.current_channel == before.channels@[before.selected_channel as int],
        after.messages@.len() == 0,
        !after.channel_list_focused,
        effects.len() == 1,
        effects[0] matches UiEffect::Send(TextNetworkMessage::ClientRequestMessages(r)) && r.range.start
            == 0 && r.range.end == 255 && r.channel == before.channels@[before.selected_channel as int],
{
}

/// A chat text from the server for the current channel is added after the messages shown,
/// with its text, its sender's username (or `???` for an unknown key) and its time; one
/// for another channel changes nothing.
pub proof fn law_server_text_is_shown_in_its_channel(before: App, m: ServerTextMessage, after: App)
    requires
        incoming_applied(before, TextNetworkMessage::ServerText(m), after),
    ensures
        m.channel_id != before.current_channel.id ==> after == before,
        m.channel_id == before.current_channel.id ==> {
            &&& after.messages@.len() == before.messages@.len() + 1
            &&& after.messages@.take(before.messages@.len() as int) == before.messages@
            &&& after.messages@.last().text@ == m.plaintext@
            &&& before.peers@.contains_key(m.sender@) ==> after.messages@.last().sender@
                == before.peers@[m.sender@].username
            &&& !before.peers@.contains_key(m.sender@) ==> after.messages@.last().sender@ == "???"@
            &&& shown_time(m.timestamp, after.messages@.last().time@)
            &&& after == (App { messages: after.messages, ..before })
        },
{
    if m.channel_id == before.current_channel.id {
        assert(after.messages@.take(before.messages@.len() as int) =~= after.messages@.drop_last());
    }
}

/// An answer to a request for messages replaces the messages shown by the answer's
/// messages, in order, each with its text, its sender's shown name and its time.
pub proof fn law_history_replaces_messages(before: App, r: ServerRequestMessages, after: App)
    requires
        incoming_applied(before, TextNetworkMessage::ServerRequestMessages(r), after),
    ensures
        after.messages@.len() == r.messages@.len(),
        forall|i: int|
            0 <= i < r.messages@.len() ==> (#[trigger] after.messages@[i]).text@
                == r.messages@[i].plaintext@ && shown_time(
                r.messages@[i].timestamp,
                after.messages@[i].time@,
            ) && (before.peers@.contains_key(r.messages@[i].sender@) ==> after.messages@[i].sender@
                == before.peers@[r.messages@[i].sender@].username),
        after == (App { messages: after.messages, ..before }),
{
}

/// The welcome from the server sets the server's name, its channels, the current channel
/// and the known users (exactly those it lists), and shows its messages with their
/// texts.
pub proof fn law_welcome_sets_the_scene(before: App, st: ServerStatus, after: App)
    requires
        incoming_applied(before, TextNetworkMessage::ServerStatus(st), after),
    ensures
        after.server_name == st.name,
        after.channels == st.message_channels,
        after.voice_channels == st.voice_channels,
        after.current_channel == st.default_channel,
        forall|k: Seq<u8>|
            #[trigger] after.peers@.contains_key(k) <==> exists|i: int|
                0 <= i < st.users@.len() && #[trigger] st.users@[i].public_key@ == k,
        after.messages@.len() == st.messages@.len(),
        forall|i: int|
            0 <= i < st.messages@.len() ==> (#[trigger] after.messages@[i]).text@
                == st.messages@[i].plaintext@,
{
    lemma_with_users_keys(st.users@);
}

proof fn lemma_with_users_keys(users: Seq<UserOverview>)
    ensures
        forall|k: Seq<u8>|
            #[trigger] crate::client::with_users(Map::empty(), users).contains_key(k) <==> exists|i: int|
                0 <= i < users.len() && #[trigger] users[i].public_key@ == k,
    decreases users.len(),
{
    if users.len() > 0 {
        let rest = users.drop_last();
        lemma_with_users_keys(rest);
        assert forall|k: Seq<u8>|
            #[trigger] crate::client::with_users(Map::empty(), users).contains_key(k) <==> exists|i: int|
                0 <= i < users.len() && #[trigger] users[i].public_key@ == k by {
            if crate::client::with_users(Map::empty(), rest).contains_key(k) {
                let i = choose|i: int| 0 <= i < rest.len() && #[trigger] rest[i].public_key@ == k;
                assert(users[i].public_key@ == k);
            }
            if exists|i: int| 0 <= i < users.len() && #[trigger] users[i].public_key@ == k {
                let i = choose|i: int| 0 <= i < users.len() && #[trigger] users[i].public_key@ == k;
                if i < users.len() - 1 {
                    assert(rest[i].public_key@ == k);
                }
            }
        }
    }
}

/// Ctrl+C quits from every screen and changes nothing else.
pub proof fn law_ctrl_c_quits(before: App, alt: bool, connected: bool, after: App, effects: Seq<UiEffect>)
    requires
        key_answered(before, Key::Char('c'), true, alt, connected, after, effects),
    ensures
        after.quit,
        effects.len() == 0,
        after == (App { quit: true, ..before }),
{
}

/// Enter on the login screen, with an account selected and a password typed, signs in
/// as that account: the client connects to the typed server with the account's name and
/// the typed password, and shows the connecting screen.
pub proof fn law_login_signs_in_as_the_selected_account(
    before: App,
    alt: bool,
    connected: bool,
    after: App,
    effects: Seq<UiEffect>,
)
    requires
        before.screen == Screen::Login,
        before.selected_account < before.accounts@.len(),
        before.password@.len() > 0,
        key_answered(before, Key::Enter, false, alt, connected, after, effects),
    ensures
        after.screen == Screen::Connecting,
        effects.len() == 1,
        effects[0] matches UiEffect::StartNetwork { url, username, password } && url
            == before.server_url && username == before.accounts@[before.selected_account as int]
            && password == before.password,
{
}

/// Enter on the login screen without an account to use or without a password starts
/// nothing: the screen stays, with an error shown.
pub proof fn law_login_needs_an_account_and_a_password(
    before: App,
    alt: bool,
    connected: bool,
    after: App,
    effects: Seq<UiEffect>,
)
    requires
        before.screen == Screen::Login,
        before.selected_account >= before.accounts@.len() || before.password@.len() == 0,
        key_answered(before, Key::Enter, false, alt, connected, after, effects),
    ensures
        effects.len() == 0,
        after.screen == Screen::Login,
        after.login_error is Some,
        after == (App { login_error: after.login_error, ..before }),
{
}

/// Enter on the registration screen asks for an account to be made from the three typed
/// fields when all are filled, and otherwise asks for nothing and shows an error.
pub proof fn law_register_signs_up_with_the_typed_fields(
    before: App,
    alt: bool,
    connected: bool,
    after: App,
    effects: Seq<UiEffect>,
)
    requires
        before.screen == Screen::Register,
        key_answered(before, Key::Enter, false, alt, connected, after, effects),
    ensures
        before.register_home_address@.len() > 0 && before.register_username@.len() > 0
            && before.register_password@.len() > 0 ==> {
            &&& after == before
            &&& effects.len() == 1
            &&& effects[0] matches UiEffect::SignUp { username, password, home_address }
            &&& username == before.register_username
            &&& password == before.register_password
            &&& home_address == before.register_home_address
        },
        before.register_home_address@.len() == 0 || before.register_username@.len() == 0
            || before.register_password@.len() == 0 ==> effects.len() == 0 && after.register_error
            is Some && after == (App { register_error: after.register_error, ..before }),
{
}

/// On the chat screen every key other than Ctrl+C is answered as `chat_key_answered`
/// says.
pub proof fn law_chat_screen_keys(
    before: App,
    key: Key,
    ctrl: bool,
    alt: bool,
    connected: bool,
    after: App,
    effects: Seq<UiEffect>,
)
    requires
        before.screen == Screen::Chat,
        !(ctrl && key == Key::Char('c')),
        key_answered(before, key, ctrl, alt, connected, after, effects),
    ensures
        chat_key_answered(before, key, ctrl, alt, connected, after, effects),
{
}

/// Enter on `/kick <user> <reason...>` asks the server to remove a known peer of that
/// username, giving the rest of the words as the reason, and sends nothing when no peer
/// has the name; the line is cleared and no chat message is numbered.
pub proof fn law_enter_kicks_a_known_peer(
    before: App,
    ctrl: bool,
    alt: bool,
    after: App,
    effects: Seq<UiEffect>,
)
    requires
        !before.channel_list_focused,
        !palette_shown(before.input@),
        "/kick "@.is_prefix_of(before.input@),
        words(before.input@).len() >= 3,
        chat_key_answered(before, Key::Enter, ctrl, alt, true, after, effects),
    ensures
        after.input@.len() == 0,
        after.current_message_id == before.current_message_id,
        effects.len() <= 1,
        effects.len() == 1 ==> {
            &&& effects[0] matches UiEffect::Send(TextNetworkMessage::ClientKickRequest(k))
            &&& before.peers@.contains_key(k.recipient@)
            &&& before.peers@[k.recipient@].username == words(before.input@)[1]
            &&& k.reason@ == joined(words(before.input@).skip(2))
        },
        (exists|key: Seq<u8>|
            #[trigger] before.peers@.contains_key(key) && before.peers@[key].username == words(
                before.input@,
            )[1]) <==> effects.len() == 1,
{
    reveal_strlit("/kick ");
    reveal_strlit("/download ");
    assert(!"/download "@.is_prefix_of(before.input@)) by {
        if "/download "@.is_prefix_of(before.input@) {
            assert(before.input@[1] == "/kick "@[1]);
            assert(before.input@[1] == "/download "@[1]);
        }
    }
}

/// Enter on `/download <id>` with a readable number asks the caller to fetch that file,
/// carrying the line, and numbers no chat message; a wrong word count or an unreadable
/// number is only reported in the log.
pub proof fn law_enter_downloads_the_named_file(
    before: App,
    ctrl: bool,
    alt: bool,
    after: App,
    effects: Seq<UiEffect>,
)
    requires
        !before.channel_list_focused,
        !palette_shown(before.input@),
        "/download "@.is_prefix_of(before.input@),
        chat_key_answered(before, Key::Enter, ctrl, alt, true, after, effects),
    ensures
        after.input@.len() == 0,
        after.current_message_id == before.current_message_id,
        effects.len() == 1,
        words(before.input@).len() == 2 && parsed_u64(words(before.input@)[1]) is Some ==> {
            &&& effects[0] matches UiEffect::Download { id, text }
            &&& id == parsed_u64(words(before.input@)[1])->0
            &&& text@ == before.input@
        },
        !(words(before.input@).len() == 2 && parsed_u64(words(before.input@)[1]) is Some) ==> effects[0] is Log,
{
    reveal_strlit("/kick ");
    reveal_strlit("/download ");
    assert(before.input@.len() > 0);
    assert(!"/kick "@.is_prefix_of(before.input@)) by {
        if "/kick "@.is_prefix_of(before.input@) {
            assert(before.input@[1] == "/kick "@[1]);
            assert(before.input@[1] == "/download "@[1]);
        }
    }
}

} // verus!
