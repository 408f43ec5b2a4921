//! What the program is told to do when it is started.

use vstd::prelude::*;

use crate::http::PORT;
use crate::identity::DeviceConfig;
use crate::number::{parse_u16, parsed_u16};
use crate::text::{chars_of, same_text, strings};

verus! {

/// What the program is told to do.
pub enum Command {
    /// To show the clips that match a query.
    Search { query: String },
    /// To capture clips.
    Watch,
    /// To serve requests.
    Serve,
    /// To show who this device is.
    Whoami,
    /// To add a peer.
    AddPeer { name: String, ip: String, port: u16, secret: String },
    /// To remove a peer.
    RemovePeer { name: String },
    /// To show the peers.
    ListPeers,
    /// To capture clips and to serve requests.
    Combined,
}

/// What a `Command` holds.
pub enum CommandView {
    Search { query: Seq<char> },
    Watch,
    Serve,
    Whoami,
    AddPeer { name: Seq<char>, ip: Seq<char>, port: u16, secret: Seq<char> },
    RemovePeer { name: Seq<char> },
    ListPeers,
    Combined,
}

impl View for Command {
    type V = CommandView;

    open spec fn view(&self) -> CommandView {
        match self {
            Command::Search { query } => CommandView::Search { query: query@ },
            Command::Watch => CommandView::Watch,
            Command::Serve => CommandView::Serve,
            Command::Whoami => CommandView::Whoami,
            Command::AddPeer { name, ip, port, secret } => CommandView::AddPeer {
                name: name@,
                ip: ip@,
                port: *port,
                secret: secret@,
            },
            Command::RemovePeer { name } => CommandView::RemovePeer { name: name@ },
            Command::ListPeers => CommandView::ListPeers,
            Command::Combined => CommandView::Combined,
        }
    }
}

/// `args`, the first of which is the program itself, start with the word `word`
/// and have `count` words behind it.
pub open spec fn asks(args: Seq<Seq<char>>, word: Seq<char>, count: int) -> bool {
    args.len() >= 2 + count && args[1] == word
}

/// The port that `text` gives, or the usual one.
pub open spec fn port_of(text: Seq<char>) -> u16 {
    match parsed_u16(text) {
        Some(port) => port,
        None => PORT,
    }
}

/// What `args` tell the program to do.
pub open spec fn command_of(args: Seq<Seq<char>>) -> CommandView {
    if asks(args, "search"@, 1) {
        CommandView::Search { query: args[2] }
    } else if asks(args, "watch"@, 0) {
        CommandView::Watch
    } else if asks(args, "serve"@, 0) {
        CommandView::Serve
    } else if asks(args, "whoami"@, 0) {
        CommandView::Whoami
    } else if asks(args, "add-peer"@, 4) {
        CommandView::AddPeer {
            name: args[2],
            ip: args[3],
            port: port_of(args[4]),
            secret: args[5],
        }
    } else if asks(args, "remove-peer"@, 1) {
        CommandView::RemovePeer { name: args[2] }
    } else if asks(args, "list-peers"@, 0) {
        CommandView::ListPeers
    } else {
        CommandView::Combined
    }
}

/// The lines that tell who a device is.
pub open spec fn identity_lines(config: DeviceConfig) -> Seq<Seq<char>> {
    seq![
        "Device name: "@ + config.device_name@,
        "Device ID:   "@ + config.device_id@,
        "Secret:      "@ + config.secret@,
        ""@,
        "Share your device name, your LAN IP, port 8080, and this secret"@,
        "with any device you want to authorize to sync with you."@,
    ]
}

/// Whether `args` start with `word` and have `count` words behind it.
fn is_asked(args: &Vec<String>, word: &str, count: usize) -> (asked: bool)
    requires
        count < 10,
    ensures
        asked == asks(strings(args@), word@, count as int),
{
    args.len() >= 2 + count && same_text(args[1].as_str(), word)
}

/// What `args` tell the program to do; the first of them is the program itself.
pub fn parse_command(args: &Vec<String>) -> (command: Command)
    ensures
        command@ == command_of(strings(args@)),
{
    if is_asked(args, "search", 1) {
        Command::Search { query: args[2].clone() }
    } else if is_asked(args, "watch", 0) {
        Command::Watch
    } else if is_asked(args, "serve", 0) {
        Command::Serve
    } else if is_asked(args, "whoami", 0) {
        Command::Whoami
    } else if is_asked(args, "add-peer", 4) {
        let port: u16 = match parse_u16(chars_of(args[4].as_str()).as_slice()) {
            Some(given) => given,
            None => PORT,
        };
        Command::AddPeer {
            name: args[2].clone(),
            ip: args[3].clone(),
            port,
            secret: args[5].clone(),
        }
    } else if is_asked(args, "remove-peer", 1) {
        Command::RemovePeer { name: args[2].clone() }
    } else if is_asked(args, "list-peers", 0) {
        Command::ListPeers
    } else {
        Command::Combined
    }
}

/// The lines that tell who a device is.
pub fn whoami_lines(config: &DeviceConfig) -> (lines: Vec<String>)
    ensures
        strings(lines@) == identity_lines(*config),
{
    let mut name = "Device name: ".to_string();
    name.append(config.device_name.as_str());
    let mut id = "Device ID:   ".to_string();
    id.append(config.device_id.as_str());
    let mut secret = "Secret:      ".to_string();
    secret.append(config.secret.as_str());
    let lines = vec![
        name,
        id,
        secret,
        "".to_string(),
        "Share your device name, your LAN IP, port 8080, and this secret".to_string(),
        "with any device you want to authorize to sync with you.".to_string(),
    ];
    assert(strings(lines@) =~= identity_lines(*config));
    lines
}

/// What the words behind the program's own name tell it to do, whatever that name
/// is and whatever else stands behind them.
pub proof fn law_words_are_understood(
    program: Seq<char>,
    a: Seq<char>,
    b: Seq<char>,
    c: Seq<char>,
    d: Seq<char>,
    more: Seq<Seq<char>>,
)
    ensures
        command_of(seq![program, "search"@, a] + more) == (CommandView::Search { query: a }),
        command_of(seq![program, "watch"@] + more) == CommandView::Watch,
        command_of(seq![program, "serve"@] + more) == CommandView::Serve,
        command_of(seq![program, "whoami"@] + more) == CommandView::Whoami,
        command_of(seq![program, "add-peer"@, a, b, c, d] + more) == (CommandView::AddPeer {
            name: a,
            ip: b,
            port: match parsed_u16(c) {
                Some(port) => port,
                None => 8080,
            },
            secret: d,
        }),
        command_of(seq![program, "remove-peer"@, a] + more) == (CommandView::RemovePeer {
            name: a,
        }),
        command_of(seq![program, "list-peers"@] + more) == CommandView::ListPeers,
{
    lemma_words_differ();
    assert((seq![program, "search"@, a] + more)[1] == "search"@);
    assert((seq![program, "watch"@] + more)[1] == "watch"@);
    assert((seq![program, "serve"@] + more)[1] == "serve"@);
    assert((seq![program, "whoami"@] + more)[1] == "whoami"@);
    assert((seq![program, "add-peer"@, a, b, c, d] + more)[1] == "add-peer"@);
    assert((seq![program, "remove-peer"@, a] + more)[1] == "remove-peer"@);
    assert((seq![program, "list-peers"@] + more)[1] == "list-peers"@);
}

/// Any other words, and words with too few behind them, leave the program to do
/// everything.
pub proof fn law_other_words_run_everything(args: Seq<Seq<char>>)
    requires
        args.len() >= 2 ==> args[1] != "watch"@ && args[1] != "serve"@ && args[1] != "whoami"@
            && args[1] != "list-peers"@,
        args.len() >= 3 ==> args[1] != "search"@ && args[1] != "remove-peer"@,
        args.len() >= 6 ==> args[1] != "add-peer"@,
    ensures
        command_of(args) == CommandView::Combined,
{
}

/// The words by which the program is told what to do are all different.
proof fn lemma_words_differ()
    ensures
        "watch"@ != "search"@,
        "serve"@ != "search"@,
        "serve"@ != "watch"@,
        "whoami"@ != "search"@,
        "whoami"@ != "watch"@,
        "whoami"@ != "serve"@,
        "add-peer"@ != "search"@,
        "add-peer"@ != "watch"@,
        "add-peer"@ != "serve"@,
        "add-peer"@ != "whoami"@,
        "remove-peer"@ != "search"@,
        "remove-peer"@ != "watch"@,
        "remove-peer"@ != "serve"@,
        "remove-peer"@ != "whoami"@,
        "remove-peer"@ != "add-peer"@,
        "list-peers"@ != "search"@,
        "list-peers"@ != "watch"@,
        "list-peers"@ != "serve"@,
        "list-peers"@ != "whoami"@,
        "list-peers"@ != "add-peer"@,
        "list-peers"@ != "remove-peer"@,
{
    reveal_strlit("search");
    reveal_strlit("watch");
    reveal_strlit("serve");
    reveal_strlit("whoami");
    reveal_strlit("add-peer");
    reveal_strlit("remove-peer");
    reveal_strlit("list-peers");
    assert("search"@.len() == 6 && "watch"@.len() == 5 && "serve"@.len() == 5);
    assert("whoami"@.len() == 6 && "add-peer"@.len() == 8 && "remove-peer"@.len() == 11);
    assert("list-peers"@.len() == 10);
    assert("search"@[0] == 's' && "whoami"@[0] == 'w' && "watch"@[0] == 'w' && "serve"@[0] == 's');
}

/// Who a device is is told by its name, its id and its secret, each on a line of
/// its own.
pub proof fn law_identity_is_told_whole(config: DeviceConfig, command: Command)
    ensures
        identity_lines(config).len() == 6,
        identity_lines(config)[0] == "Device name: "@ + config.device_name@,
        identity_lines(config)[1] == "Device ID:   "@ + config.device_id@,
        identity_lines(config)[2] == "Secret:      "@ + config.secret@,
        identity_lines(config)[3] == ""@,
        identity_lines(config)[4]
            == "Share your device name, your LAN IP, port 8080, and this secret"@,
        identity_lines(config)[5] == "with any device you want to authorize to sync with you."@,
        command matches Command::Search { query } ==> command@ == (CommandView::Search {
            query: query@,
        }),
        command is Watch ==> command@ is Watch,
        command is Serve ==> command@ is Serve,
        command is Whoami ==> command@ is Whoami,
        command matches Command::AddPeer { name, ip, port, secret } ==> command@ == (
        CommandView::AddPeer { name: name@, ip: ip@, port, secret: secret@ }),
        command matches Command::RemovePeer { name } ==> command@ == (CommandView::RemovePeer {
            name: name@,
        }),
        command is ListPeers ==> command@ is ListPeers,
        command is Combined ==> command@ is Combined,
{
}

} // verus!
