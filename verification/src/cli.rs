//! The command line: which invocations are commands, how `send` reads its
//! options, and where the API key and sender name come from.

use vstd::prelude::*;

use crate::config::{AppConfig, ConfigV};
use crate::compose::stored_secret;
use crate::crypto::{decrypt_spec, decrypt_with_password, error_text, CryptoError, CryptoErrorKind};
use crate::draft::strings_view;
use crate::text::{str_eq, string_from_chars, to_chars};

verus! {

/// The argument at `i`, or the empty text past the end.
pub open spec fn arg_at(args: Seq<Seq<char>>, i: int) -> Seq<char> {
    if 0 <= i < args.len() {
        args[i]
    } else {
        Seq::empty()
    }
}

/// The options of `send`.
pub struct SendArgs {
    pub to: String,
    pub subject: String,
    pub body: String,
    pub from: String,
    pub api_key: String,
    pub password: String,
    pub html: bool,
    pub attachments: Vec<String>,
}

/// The options of `send` in mathematical form.
pub struct SendArgsV {
    pub to: Seq<char>,
    pub subject: Seq<char>,
    pub body: Seq<char>,
    pub from: Seq<char>,
    pub api_key: Seq<char>,
    pub password: Seq<char>,
    pub html: bool,
    pub attachments: Seq<Seq<char>>,
}

impl View for SendArgs {
    type V = SendArgsV;

    open spec fn view(&self) -> SendArgsV {
        SendArgsV {
            to: self.to@,
            subject: self.subject@,
            body: self.body@,
            from: self.from@,
            api_key: self.api_key@,
            password: self.password@,
            html: self.html,
            attachments: strings_view(self.attachments@),
        }
    }
}

pub open spec fn no_send_args() -> SendArgsV {
    SendArgsV {
        to: Seq::empty(),
        subject: Seq::empty(),
        body: Seq::empty(),
        from: Seq::empty(),
        api_key: Seq::empty(),
        password: Seq::empty(),
        html: false,
        attachments: Seq::empty(),
    }
}

/// Reads the options from position `i` on into `acc`. An option that takes
/// a value takes the next argument (empty past the end) and skips it; an
/// unknown argument is skipped; `--attach` may repeat; a later option
/// overrides an earlier one.
pub open spec fn scan_send(args: Seq<Seq<char>>, i: int, acc: SendArgsV) -> SendArgsV
    decreases args.len() + 1 - i,
{
    if i < 0 || i >= args.len() {
        acc
    } else {
        let a = args[i];
        let v = arg_at(args, i + 1);
        if a == "--to"@ {
            scan_send(args, i + 2, SendArgsV { to: v, ..acc })
        } else if a == "--subject"@ {
            scan_send(args, i + 2, SendArgsV { subject: v, ..acc })
        } else if a == "--body"@ {
            scan_send(args, i + 2, SendArgsV { body: v, ..acc })
        } else if a == "--from"@ {
            scan_send(args, i + 2, SendArgsV { from: v, ..acc })
        } else if a == "--api-key"@ {
            scan_send(args, i + 2, SendArgsV { api_key: v, ..acc })
        } else if a == "--password"@ {
            scan_send(args, i + 2, SendArgsV { password: v, ..acc })
        } else if a == "--html"@ {
            scan_send(args, i + 1, SendArgsV { html: true, ..acc })
        } else if a == "--attach"@ {
            scan_send(args, i + 2, SendArgsV { attachments: acc.attachments.push(v), ..acc })
        } else {
            scan_send(args, i + 1, acc)
        }
    }
}

/// The options of `send`, read from the arguments after the command word.
pub open spec fn send_args_spec(args: Seq<Seq<char>>) -> SendArgsV {
    scan_send(args, 1, no_send_args())
}

/// Reading the options from `i` on leaves a field as it was when its
/// option does not occur from `i` on.
proof fn lemma_scan_keeps(args: Seq<Seq<char>>, i: int, acc: SendArgsV)
    ensures
        (forall|j: int| i <= j < args.len() ==> args[j] != "--to"@) ==> scan_send(args, i, acc).to == acc.to,
        (forall|j: int| i <= j < args.len() ==> args[j] != "--subject"@) ==> scan_send(args, i, acc).subject == acc.subject,
        (forall|j: int| i <= j < args.len() ==> args[j] != "--body"@) ==> scan_send(args, i, acc).body == acc.body,
        (forall|j: int| i <= j < args.len() ==> args[j] != "--from"@) ==> scan_send(args, i, acc).from == acc.from,
        (forall|j: int| i <= j < args.len() ==> args[j] != "--api-key"@) ==> scan_send(args, i, acc).api_key == acc.api_key,
        (forall|j: int| i <= j < args.len() ==> args[j] != "--password"@) ==> scan_send(args, i, acc).password == acc.password,
        (forall|j: int| i <= j < args.len() ==> args[j] != "--html"@) ==> scan_send(args, i, acc).html == acc.html,
        (forall|j: int| i <= j < args.len() ==> args[j] != "--attach"@) ==> scan_send(args, i, acc).attachments
            == acc.attachments,
    decreases args.len() + 1 - i,
{
    if 0 <= i < args.len() {
        let a = args[i];
        let v = arg_at(args, i + 1);
        if a == "--to"@ {
            lemma_scan_keeps(args, i + 2, SendArgsV { to: v, ..acc });
        } else if a == "--subject"@ {
            lemma_scan_keeps(args, i + 2, SendArgsV { subject: v, ..acc });
        } else if a == "--body"@ {
            lemma_scan_keeps(args, i + 2, SendArgsV { body: v, ..acc });
        } else if a == "--from"@ {
            lemma_scan_keeps(args, i + 2, SendArgsV { from: v, ..acc });
        } else if a == "--api-key"@ {
            lemma_scan_keeps(args, i + 2, SendArgsV { api_key: v, ..acc });
        } else if a == "--password"@ {
            lemma_scan_keeps(args, i + 2, SendArgsV { password: v, ..acc });
        } else if a == "--html"@ {
            lemma_scan_keeps(args, i + 1, SendArgsV { html: true, ..acc });
        } else if a == "--attach"@ {
            lemma_scan_keeps(args, i + 2, SendArgsV { attachments: acc.attachments.push(v), ..acc });
        } else {
            lemma_scan_keeps(args, i + 1, acc);
        }
    }
}

/// Once set, HTML stays set.
proof fn lemma_scan_html(args: Seq<Seq<char>>, i: int, acc: SendArgsV)
    requires
        acc.html,
    ensures
        scan_send(args, i, acc).html,
    decreases args.len() + 1 - i,
{
    if 0 <= i < args.len() {
        let a = args[i];
        let v = arg_at(args, i + 1);
        if a == "--to"@ {
            lemma_scan_html(args, i + 2, SendArgsV { to: v, ..acc });
        } else if a == "--subject"@ {
            lemma_scan_html(args, i + 2, SendArgsV { subject: v, ..acc });
        } else if a == "--body"@ {
            lemma_scan_html(args, i + 2, SendArgsV { body: v, ..acc });
        } else if a == "--from"@ {
            lemma_scan_html(args, i + 2, SendArgsV { from: v, ..acc });
        } else if a == "--api-key"@ {
            lemma_scan_html(args, i + 2, SendArgsV { api_key: v, ..acc });
        } else if a == "--password"@ {
            lemma_scan_html(args, i + 2, SendArgsV { password: v, ..acc });
        } else if a == "--html"@ {
            lemma_scan_html(args, i + 1, acc);
        } else if a == "--attach"@ {
            lemma_scan_html(args, i + 2, SendArgsV { attachments: acc.attachments.push(v), ..acc });
        } else {
            lemma_scan_html(args, i + 1, acc);
        }
    }
}

/// An option that is not given leaves its field empty (no HTML, no
/// attachment).
pub proof fn lemma_send_option_absent(args: Seq<Seq<char>>)
    ensures
        !args.contains("--to"@) ==> send_args_spec(args).to == Seq::<char>::empty(),
        !args.contains("--subject"@) ==> send_args_spec(args).subject == Seq::<char>::empty(),
        !args.contains("--body"@) ==> send_args_spec(args).body == Seq::<char>::empty(),
        !args.contains("--from"@) ==> send_args_spec(args).from == Seq::<char>::empty(),
        !args.contains("--api-key"@) ==> send_args_spec(args).api_key == Seq::<char>::empty(),
        !args.contains("--password"@) ==> send_args_spec(args).password == Seq::<char>::empty(),
        !args.contains("--html"@) ==> !send_args_spec(args).html,
        !args.contains("--attach"@) ==> send_args_spec(args).attachments == Seq::<Seq<char>>::empty(),
{
    lemma_scan_keeps(args, 1, no_send_args());
}

/// An option given right after the command word, and not again later,
/// sets its field to the argument that follows it: `--api-key v` gives the
/// API key `v`, `--to v` the recipients `v`, and so on; `--attach v` the
/// one attachment `v`; `--html` sends HTML.
pub proof fn lemma_send_option_first(cmd: Seq<char>, v: Seq<char>, rest: Seq<Seq<char>>)
    ensures
        !rest.contains("--to"@) ==> send_args_spec(seq![cmd, "--to"@, v] + rest).to == v,
        !rest.contains("--subject"@) ==> send_args_spec(seq![cmd, "--subject"@, v] + rest).subject == v,
        !rest.contains("--body"@) ==> send_args_spec(seq![cmd, "--body"@, v] + rest).body == v,
        !rest.contains("--from"@) ==> send_args_spec(seq![cmd, "--from"@, v] + rest).from == v,
        !rest.contains("--api-key"@) ==> send_args_spec(seq![cmd, "--api-key"@, v] + rest).api_key == v,
        !rest.contains("--password"@) ==> send_args_spec(seq![cmd, "--password"@, v] + rest).password == v,
        !rest.contains("--attach"@) ==> send_args_spec(seq![cmd, "--attach"@, v] + rest).attachments == seq![v],
        send_args_spec(seq![cmd, "--html"@] + rest).html,
{
    reveal_strlit("--to");
    reveal_strlit("--subject");
    reveal_strlit("--body");
    reveal_strlit("--from");
    reveal_strlit("--api-key");
    reveal_strlit("--password");
    reveal_strlit("--html");
    reveal_strlit("--attach");
    assert("--subject"@[2] == 's' && "--api-key"@[2] == 'a' && "--attach"@[2] == 'a');
    assert("--body"@[2] == 'b' && "--from"@[2] == 'f' && "--html"@[2] == 'h');
    assert("--to"@.len() == 4 && "--password"@.len() == 10 && "--attach"@.len() == 8);
    let e = no_send_args();
    assert(!rest.contains("--to"@) ==> send_args_spec(seq![cmd, "--to"@, v] + rest).to == v) by {
        if !rest.contains("--to"@) {
            let args = seq![cmd, "--to"@, v] + rest;
            assert(args[1] == "--to"@ && args[2] == v && arg_at(args, 2) == v);
            assert forall|j: int| 3 <= j < args.len() implies args[j] != "--to"@ by {
                assert(args[j] == rest[j - 3]);
            }
            assert(scan_send(args, 1, e) == scan_send(args, 3, SendArgsV { to: v, ..e }));
            lemma_scan_keeps(args, 3, SendArgsV { to: v, ..e });
        }
    }
    assert(!rest.contains("--subject"@) ==> send_args_spec(seq![cmd, "--subject"@, v] + rest).subject == v) by {
        if !rest.contains("--subject"@) {
            let args = seq![cmd, "--subject"@, v] + rest;
            assert(args[1] == "--subject"@ && args[2] == v && arg_at(args, 2) == v);
            assert forall|j: int| 3 <= j < args.len() implies args[j] != "--subject"@ by {
                assert(args[j] == rest[j - 3]);
            }
            assert(scan_send(args, 1, e) == scan_send(args, 3, SendArgsV { subject: v, ..e }));
            lemma_scan_keeps(args, 3, SendArgsV { subject: v, ..e });
        }
    }
    assert(!rest.contains("--body"@) ==> send_args_spec(seq![cmd, "--body"@, v] + rest).body == v) by {
        if !rest.contains("--body"@) {
            let args = seq![cmd, "--body"@, v] + rest;
            assert(args[1] == "--body"@ && args[2] == v && arg_at(args, 2) == v);
            assert forall|j: int| 3 <= j < args.len() implies args[j] != "--body"@ by {
                assert(args[j] == rest[j - 3]);
            }
            assert(scan_send(args, 1, e) == scan_send(args, 3, SendArgsV { body: v, ..e }));
            lemma_scan_keeps(args, 3, SendArgsV { body: v, ..e });
        }
    }
    assert(!rest.contains("--from"@) ==> send_args_spec(seq![cmd, "--from"@, v] + rest).from == v) by {
        if !rest.contains("--from"@) {
            let args = seq![cmd, "--from"@, v] + rest;
            assert(args[1] == "--from"@ && args[2] == v && arg_at(args, 2) == v);
            assert forall|j: int| 3 <= j < args.len() implies args[j] != "--from"@ by {
                assert(args[j] == rest[j - 3]);
            }
            assert(scan_send(args, 1, e) == scan_send(args, 3, SendArgsV { from: v, ..e }));
            lemma_scan_keeps(args, 3, SendArgsV { from: v, ..e });
        }
    }
    assert(!rest.contains("--api-key"@) ==> send_args_spec(seq![cmd, "--api-key"@, v] + rest).api_key == v) by {
        if !rest.contains("--api-key"@) {
            let args = seq![cmd, "--api-key"@, v] + rest;
            assert(args[1] == "--api-key"@ && args[2] == v && arg_at(args, 2) == v);
            assert forall|j: int| 3 <= j < args.len() implies args[j] != "--api-key"@ by {
                assert(args[j] == rest[j - 3]);
            }
            assert(scan_send(args, 1, e) == scan_send(args, 3, SendArgsV { api_key: v, ..e }));
            lemma_scan_keeps(args, 3, SendArgsV { api_key: v, ..e });
        }
    }
    assert(!rest.contains("--password"@) ==> send_args_spec(seq![cmd, "--password"@, v] + rest).password == v) by {
        if !rest.contains("--password"@) {
            let args = seq![cmd, "--password"@, v] + rest;
            assert(args[1] == "--password"@ && args[2] == v && arg_at(args, 2) == v);
            assert forall|j: int| 3 <= j < args.len() implies args[j] != "--password"@ by {
                assert(args[j] == rest[j - 3]);
            }
            assert(scan_send(args, 1, e) == scan_send(args, 3, SendArgsV { password: v, ..e }));
            lemma_scan_keeps(args, 3, SendArgsV { password: v, ..e });
        }
    }
    assert(!rest.contains("--attach"@) ==> send_args_spec(seq![cmd, "--attach"@, v] + rest).attachments
        == seq![v]) by {
        if !rest.contains("--attach"@) {
            let args = seq![cmd, "--attach"@, v] + rest;
            assert(args[1] == "--attach"@ && args[2] == v && arg_at(args, 2) == v);
            assert forall|j: int| 3 <= j < args.len() implies args[j] != "--attach"@ by {
                assert(args[j] == rest[j - 3]);
            }
            assert(e.attachments.push(v) =~= seq![v]);
            assert(scan_send(args, 1, e) == scan_send(args, 3, SendArgsV { attachments: seq![v], ..e }));
            lemma_scan_keeps(args, 3, SendArgsV { attachments: seq![v], ..e });
        }
    }
    assert(send_args_spec(seq![cmd, "--html"@] + rest).html) by {
        let args = seq![cmd, "--html"@] + rest;
        assert(args[1] == "--html"@);
        assert(scan_send(args, 1, e) == scan_send(args, 2, SendArgsV { html: true, ..e }));
        lemma_scan_html(args, 2, SendArgsV { html: true, ..e });
    }
}

fn arg_or_empty(args: &[String], i: usize) -> (r: String)
    ensures
        r@ == arg_at(strings_view(args@), i as int),
{
    if i < args.len() {
        args[i].clone()
    } else {
        String::new()
    }
}

/// Reads the options of `send`; `args` starts with the command word.
pub fn parse_send_args(args: &[String]) -> (r: SendArgs)
    ensures
        r@ == send_args_spec(strings_view(args@)),
{
    let ghost av = strings_view(args@);
    let mut r = SendArgs {
        to: String::new(),
        subject: String::new(),
        body: String::new(),
        from: String::new(),
        api_key: String::new(),
        password: String::new(),
        html: false,
        attachments: Vec::new(),
    };
    assert(strings_view(r.attachments@) =~= Seq::<Seq<char>>::empty());
    let n = args.len();
    let mut i: usize = 1;
    while i < n
        invariant
            n == args@.len() == av.len(),
            av == strings_view(args@),
            1 <= i,
            send_args_spec(av) == scan_send(av, i as int, r@),
        decreases n - i,
    {
        let a = args[i].as_str();
        assert(a@ == av[i as int]);
        let ghost acc = r@;
        let ghost v = arg_at(av, i + 1);
        let next2: usize = if i + 1 < n {
            i + 2
        } else {
            n
        };
        assert(forall|x: SendArgsV| scan_send(av, next2 as int, x) == scan_send(av, i + 2, x));
        if str_eq(a, "--to") {
            r.to = arg_or_empty(args, i + 1);
            assert(r@ == SendArgsV { to: v, ..acc });
            i = next2;
        } else if str_eq(a, "--subject") {
            r.subject = arg_or_empty(args, i + 1);
            assert(r@ == SendArgsV { subject: v, ..acc });
            i = next2;
        } else if str_eq(a, "--body") {
            r.body = arg_or_empty(args, i + 1);
            assert(r@ == SendArgsV { body: v, ..acc });
            i = next2;
        } else if str_eq(a, "--from") {
            r.from = arg_or_empty(args, i + 1);
            assert(r@ == SendArgsV { from: v, ..acc });
            i = next2;
        } else if str_eq(a, "--api-key") {
            r.api_key = arg_or_empty(args, i + 1);
            assert(r@ == SendArgsV { api_key: v, ..acc });
            i = next2;
        } else if str_eq(a, "--password") {
            r.password = arg_or_empty(args, i + 1);
            assert(r@ == SendArgsV { password: v, ..acc });
            i = next2;
        } else if str_eq(a, "--html") {
            r.html = true;
            i = i + 1;
        } else if str_eq(a, "--attach") {
            let w = arg_or_empty(args, i + 1);
            let ghost before = strings_view(r.attachments@);
            r.attachments.push(w);
            assert(strings_view(r.attachments@) =~= before.push(w@));
            assert(r@ == SendArgsV { attachments: acc.attachments.push(v), ..acc });
            i = next2;
        } else {
            i = i + 1;
        }
    }
    r
}

impl SendArgs {
    /// Whether recipients, subject and body are all given.
    pub fn is_complete(&self) -> (r: bool)
        ensures
            r == (self.to@.len() > 0 && self.subject@.len() > 0 && self.body@.len() > 0),
    {
        !self.to.as_str().is_empty() && !self.subject.as_str().is_empty()
            && !self.body.as_str().is_empty()
    }
}

/// A command line command.
pub enum Command {
    /// `send` with its options.
    Send(SendArgs),
    /// `run <name> [args...]`: runs a registered automation handler.
    Run(String, Vec<String>),
    /// `version`, `--version` or `-V`.
    Version,
    /// `check-update`.
    CheckUpdate,
    /// Anything else: the usage text.
    Help,
}

/// Whether `a` is a version flag.
pub open spec fn is_version_word(a: Seq<char>) -> bool {
    a == "version"@ || a == "--version"@ || a == "-V"@
}

/// Whether the program's arguments (the program name first) ask for a
/// command line command rather than the graphical interface.
pub open spec fn is_command_spec(args: Seq<Seq<char>>) -> bool {
    args.len() > 1 && {
        let a = args[1];
        a == "send"@ || a == "run"@ || a == "help"@ || a == "--help"@ || a == "-h"@
            || is_version_word(a) || a == "check-update"@
    }
}

/// Whether the program's arguments (the program name first) ask for a
/// command line command.
pub fn is_command(args: &[String]) -> (r: bool)
    ensures
        r == is_command_spec(strings_view(args@)),
{
    if args.len() <= 1 {
        return false;
    }
    let a = args[1].as_str();
    str_eq(a, "send") || str_eq(a, "run") || str_eq(a, "help") || str_eq(a, "--help") || str_eq(
        a,
        "-h",
    ) || str_eq(a, "version") || str_eq(a, "--version") || str_eq(a, "-V") || str_eq(
        a,
        "check-update",
    )
}

/// The arguments from position 2 on (none when there are fewer).
pub open spec fn run_args(args: Seq<Seq<char>>) -> Seq<Seq<char>> {
    if args.len() >= 2 {
        args.skip(2)
    } else {
        Seq::empty()
    }
}

/// What the arguments after the program name ask for.
pub open spec fn command_matches(r: Command, av: Seq<Seq<char>>) -> bool {
    let first = arg_at(av, 0);
    match r {
        Command::Send(s) => av.len() > 0 && first == "send"@ && s@ == send_args_spec(av),
        Command::Run(name, rest) => av.len() > 0 && first == "run"@ && name@ == arg_at(av, 1)
            && strings_view(rest@) == run_args(av),
        Command::Version => av.len() > 0 && is_version_word(first),
        Command::CheckUpdate => av.len() > 0 && first == "check-update"@,
        Command::Help => av.len() == 0 || !(first == "send"@ || first == "run"@ || is_version_word(
            first,
        ) || first == "check-update"@),
    }
}

/// The command that the arguments after the program name name.
pub fn parse_command(args: &[String]) -> (r: Command)
    ensures
        command_matches(r, strings_view(args@)),
{
    let ghost av = strings_view(args@);
    if args.len() == 0 {
        return Command::Help;
    }
    let a = args[0].as_str();
    assert(a@ == av[0]);
    if str_eq(a, "send") {
        Command::Send(parse_send_args(args))
    } else if str_eq(a, "run") {
        let name = arg_or_empty(args, 1);
        let mut rest: Vec<String> = Vec::new();
        let n = args.len();
        if n >= 2 {
            let mut i: usize = 2;
            assert(av.subrange(2, 2) =~= Seq::<Seq<char>>::empty());
            while i < n
                invariant
                    2 <= i <= n,
                    n == args@.len() == av.len(),
                    av == strings_view(args@),
                    strings_view(rest@) == av.subrange(2, i as int),
                decreases n - i,
            {
                let ghost before = strings_view(rest@);
                rest.push(args[i].clone());
                assert(strings_view(rest@) =~= before.push(av[i as int]));
                assert(av.subrange(2, i + 1) =~= av.subrange(2, i as int).push(av[i as int]));
                i = i + 1;
            }
            assert(av.subrange(2, n as int) =~= av.skip(2));
        } else {
            assert(strings_view(rest@) =~= Seq::<Seq<char>>::empty());
        }
        Command::Run(name, rest)
    } else if str_eq(a, "version") || str_eq(a, "--version") || str_eq(a, "-V") {
        Command::Version
    } else if str_eq(a, "check-update") {
        Command::CheckUpdate
    } else {
        Command::Help
    }
}

// ===========================================================================
// Identity
// ===========================================================================

/// Why the API key could not be had.
pub enum KeyError {
    /// The stored key is encrypted and no password was given.
    NeedPassword,
    /// Decrypting the stored key failed.
    Decrypt(CryptoError),
}

impl KeyError {
    /// A human readable description.
    pub fn message(&self) -> (r: String)
        ensures
            self is NeedPassword ==> r@ == "API Key 已加密，请用 --password 提供密码"@,
            self matches KeyError::Decrypt(e) ==> r@ == "解密失败: "@ + error_text(e.kind, e.detail@),
    {
        match self {
            KeyError::NeedPassword => String::from_str("API Key 已加密，请用 --password 提供密码"),
            KeyError::Decrypt(e) => {
                let mut out = to_chars("解密失败: ");
                out.append(&mut to_chars(e.message().as_str()));
                string_from_chars(out.as_slice())
            },
        }
    }
}

/// The API key a send uses: the one given on the command line, else the
/// stored one, decrypted with the password when it is stored encrypted.
/// `Err(None)`: the stored key is encrypted and no password was given;
/// `Err(Some(k))`: decrypting failed with `k`.
pub open spec fn api_key_spec(cli_key: Seq<char>, stored: Seq<char>, enc: bool, password: Seq<char>) -> Result<
    Seq<char>,
    Option<CryptoErrorKind>,
> {
    if cli_key.len() > 0 {
        Ok(cli_key)
    } else if !enc {
        Ok(stored)
    } else if password.len() == 0 {
        Err(None)
    } else {
        match decrypt_spec(stored, password) {
            Ok(s) => Ok(s),
            Err(k) => Err(Some(k)),
        }
    }
}

/// The API key to use: the command line's, else the stored one, decrypted
/// with the password when it is stored encrypted.
pub fn resolve_api_key(cli_key: &str, cfg: &AppConfig, password: &str) -> (r: Result<
    String,
    KeyError,
>)
    ensures
        match api_key_spec(cli_key@, cfg.api_key@, cfg.api_key_enc, password@) {
            Ok(k) => r matches Ok(x) && x@ == k,
            Err(None) => r matches Err(KeyError::NeedPassword),
            Err(Some(k)) => r matches Err(KeyError::Decrypt(e)) && e.kind == k,
        },
{
    if !cli_key.is_empty() {
        return Ok(String::from_str(cli_key));
    }
    if cfg.api_key_enc {
        if password.is_empty() {
            return Err(KeyError::NeedPassword);
        }
        match decrypt_with_password(cfg.api_key.as_str(), password) {
            Ok(s) => Ok(s),
            Err(e) => Err(KeyError::Decrypt(e)),
        }
    } else {
        Ok(cfg.api_key.clone())
    }
}

/// The sender name a send uses: the one given on the command line, else
/// the stored one, decrypted when it is stored encrypted and a password is
/// given (empty when that fails).
pub open spec fn from_name_spec(cli_from: Seq<char>, stored: Seq<char>, enc: bool, password: Seq<char>) -> Seq<
    char,
> {
    if cli_from.len() > 0 {
        cli_from
    } else if enc && password.len() > 0 {
        match decrypt_spec(stored, password) {
            Ok(s) => s,
            Err(_) => Seq::empty(),
        }
    } else {
        stored
    }
}

/// The sender name to use.
pub fn resolve_from(cli_from: &str, cfg: &AppConfig, password: &str) -> (r: String)
    ensures
        r@ == from_name_spec(cli_from@, cfg.from_name@, cfg.from_name_enc, password@),
{
    if !cli_from.is_empty() {
        return String::from_str(cli_from);
    }
    if cfg.from_name_enc && !password.is_empty() {
        match decrypt_with_password(cfg.from_name.as_str(), password) {
            Ok(s) => s,
            Err(_) => String::new(),
        }
    } else {
        cfg.from_name.clone()
    }
}

/// What the settings form stores is what a send from the command line
/// uses: with the password the settings were saved with (and no key or
/// name given on the command line), a stored API key or sender name
/// resolves to the one that was entered.
pub proof fn lemma_stored_identity_resolves(stored: Seq<char>, enc: bool, plain: Seq<char>, password: Seq<char>)
    requires
        stored_secret(stored, enc, plain, password),
        enc ==> password.len() > 0,
    ensures
        api_key_spec(Seq::empty(), stored, enc, password) == Ok::<Seq<char>, Option<CryptoErrorKind>>(
            plain,
        ),
        from_name_spec(Seq::empty(), stored, enc, password) == plain,
{
}

/// Stores the identity a command line send uses, in plain text, so that
/// scripts read it: the API key always, the sender name when it is not
/// empty.
pub fn inject_identity(cfg: &mut AppConfig, api_key: &str, from: &str)
    ensures
        from@.len() > 0 ==> final(cfg)@ == (ConfigV {
            api_key: api_key@,
            api_key_enc: false,
            from_name: from@,
            from_name_enc: false,
            ..old(cfg)@
        }),
        from@.len() == 0 ==> final(cfg)@ == (ConfigV { api_key: api_key@, api_key_enc: false, ..old(cfg)@ }),
{
    cfg.api_key = String::from_str(api_key);
    cfg.api_key_enc = false;
    if !from.is_empty() {
        cfg.from_name = String::from_str(from);
        cfg.from_name_enc = false;
    }
}

// ===========================================================================
// What the commands print
// ===========================================================================

/// The usage of `send`, printed when a required argument is missing.
pub const SEND_USAGE: &'static str = "用法: resender send --to <收件人> --subject <主题> --body <正文> [--html] [--from <发信名>] [--api-key <key>] [--password <解密密码>] [--attach <附件路径>]...";

/// The usage of `run`, printed when the handler name is missing.
pub const RUN_USAGE: &'static str = "用法: resender run <handler名称> [参数...]";

/// The help printed for an unknown command.
pub const HELP_TEXT: &'static str = "Resender 命令行用法:
  resender send --to <收件人> --subject <主题> --body <正文> [--html] [--from <发信名>] [--api-key <key>] [--password <解密密码>] [--attach <附件>]...
  resender run <handler名称> [参数...]   运行脚本注册的自动化 handler
  resender version | --version | -V      打印版本
  resender check-update                   检查更新（需在设置中配置 update_url）";

fn prefixed(p: &str, s: &str) -> (r: String)
    ensures
        r@ == p@ + s@,
{
    let mut out = to_chars(p);
    out.append(&mut to_chars(s));
    string_from_chars(out.as_slice())
}

/// How `send` ends once the script ran: exit code and line. The status the
/// script left is printed after a check mark, or after a cross with exit
/// code 1 when it reports an error.
pub fn send_report(status: &str, is_err: bool) -> (r: (i32, String))
    ensures
        is_err ==> r.0 == 1 && r.1@ == "✗ "@ + status@,
        !is_err ==> r.0 == 0 && r.1@ == "✓ "@ + status@,
{
    if is_err {
        (1, prefixed("✗ ", status))
    } else {
        (0, prefixed("✓ ", status))
    }
}

/// How `run <name>` ends: exit code and line. Success prints the name and
/// the handler's answer; failure prints the failure with exit code 1.
pub fn run_report(name: &str, ok: bool, msg: &str) -> (r: (i32, String))
    ensures
        ok ==> r.0 == 0 && r.1@ == "✓ "@ + name@ + ": "@ + msg@,
        !ok ==> r.0 == 1 && r.1@ == "✗ "@ + msg@,
{
    if ok {
        let mut out = to_chars("✓ ");
        out.append(&mut to_chars(name));
        out.append(&mut to_chars(": "));
        out.append(&mut to_chars(msg));
        (0, string_from_chars(out.as_slice()))
    } else {
        (1, prefixed("✗ ", msg))
    }
}

} // verus!
