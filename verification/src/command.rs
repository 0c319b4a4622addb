//! One executable, several jobs, chosen by argument.

use vstd::prelude::*;

use crate::text::{chars_of, lower_chars, part, string_of};

verus! {

/// What the program was asked to do.
#[derive(Debug, Clone, Copy, PartialEq, Eq, Structural)]
pub enum Command {
    Tray,
    Service,
    Install,
    Uninstall,
    /// Sets the per-user run entry as the user who is actually logging in,
    /// which an elevated installer cannot do for them.
    EnableStartup,
    StartService,
    StopService,
    Help,
}

/// Text without the dashes and slashes in front of it.
pub open spec fn bare(s: Seq<char>) -> Seq<char>
    decreases s.len(),
{
    if s.len() > 0 && (s[0] == '-' || s[0] == '/') {
        bare(s.skip(1))
    } else {
        s
    }
}

/// What a single argument asks for, in either style and either case.
pub open spec fn meant(arg: Seq<char>) -> Command {
    let word = crate::text::lowered(bare(arg));
    if word == "service"@ || word == "s"@ {
        Command::Service
    } else if word == "install"@ || word == "i"@ {
        Command::Install
    } else if word == "uninstall"@ || word == "u"@ {
        Command::Uninstall
    } else if word == "enable-startup"@ {
        Command::EnableStartup
    } else if word == "start-service"@ {
        Command::StartService
    } else if word == "stop-service"@ {
        Command::StopService
    } else {
        Command::Help
    }
}

impl Command {
    /// What the arguments ask for. Only the first decides, and without one it
    /// is the window.
    pub fn parse(args: &Vec<String>) -> (r: Self)
        ensures
            r == if args@.len() == 0 {
                Command::Tray
            } else {
                meant(args@[0]@)
            },
    {
        if args.len() == 0 {
            return Command::Tray;
        }
        let chars = chars_of(args[0].as_str());
        let ghost arg = args@[0]@;
        let mut from: usize = 0;
        proof {
            assert(chars@.skip(0) =~= arg);
        }
        while from < chars.len() && (chars[from] == '-' || chars[from] == '/')
            invariant
                from <= chars@.len(),
                bare(arg) == bare(chars@.skip(from as int)),
            decreases chars@.len() - from,
        {
            proof {
                assert(chars@.skip(from as int)[0] == chars@[from as int]);
                assert(chars@.skip(from as int).skip(1) =~= chars@.skip(from + 1));
            }
            from += 1;
        }
        proof {
            if from < chars@.len() {
                assert(chars@.skip(from as int)[0] == chars@[from as int]);
            }
            assert(chars@.subrange(from as int, chars@.len() as int) =~= chars@.skip(from as int));
        }
        let word = string_of(&lower_chars(&part(&chars, from, chars.len())));
        let word = word.as_str();
        if is(word, "service") || is(word, "s") {
            Command::Service
        } else if is(word, "install") || is(word, "i") {
            Command::Install
        } else if is(word, "uninstall") || is(word, "u") {
            Command::Uninstall
        } else if is(word, "enable-startup") {
            Command::EnableStartup
        } else if is(word, "start-service") {
            Command::StartService
        } else if is(word, "stop-service") {
            Command::StopService
        } else {
            Command::Help
        }
    }
}

fn is(word: &str, other: &str) -> (r: bool)
    ensures
        r == (word@ == other@),
{
    crate::text::same(word, other)
}

/// What the program says about how to call it.
pub fn usage(version: &str) -> (r: String)
    ensures
        r@ == "Yamato "@ + version@
            + "\n\nUsage:\n  yamato              open the window and tray icon\n  yamato --install    install and start the service\n  yamato --uninstall  stop and remove the service\n  yamato --service    run as the service (the service manager does this)\n"@,
{
    let mut s = "Yamato ".to_owned();
    s.append(version);
    s.append(
        "\n\nUsage:\n  yamato              open the window and tray icon\n  yamato --install    install and start the service\n  yamato --uninstall  stop and remove the service\n  yamato --service    run as the service (the service manager does this)\n",
    );
    s
}

/// One dash or slash more in front of an argument changes nothing, and neither
/// does writing it in capitals.
pub proof fn both_styles_mean_the_same(arg: Seq<char>)
    ensures
        meant(seq!['-'] + arg) == meant(arg),
        meant(seq!['/'] + arg) == meant(arg),
{
    assert((seq!['-'] + arg).skip(1) =~= arg);
    assert((seq!['/'] + arg).skip(1) =~= arg);
}

proof fn what_stands_behind_the_dashes(arg: Seq<char>, k: int)
    requires
        0 <= k <= arg.len(),
        forall|i: int| 0 <= i < k ==> #[trigger] arg[i] == '-' || arg[i] == '/',
        k < arg.len() ==> arg[k] != '-' && arg[k] != '/',
    ensures
        bare(arg) == arg.subrange(k, arg.len() as int),
    decreases k,
{
    if k == 0 {
        assert(arg.subrange(0, arg.len() as int) =~= arg);
    } else {
        assert(arg[0] == '-' || arg[0] == '/');
        let rest = arg.skip(1);
        assert forall|i: int| 0 <= i < k - 1 implies #[trigger] rest[i] == '-' || rest[i]
            == '/' by {
            assert(rest[i] == arg[i + 1]);
        }
        if k < arg.len() {
            assert(rest[k - 1] == arg[k]);
        }
        what_stands_behind_the_dashes(rest, k - 1);
        assert(rest.subrange(k - 1, rest.len() as int) =~= arg.subrange(k, arg.len() as int));
    }
}

/// An argument is read behind its dashes or slashes and in any case: a word, or
/// for three of them its first letter, that is known asks for what it says,
/// and any other for help.
pub proof fn an_argument_asks_by_its_word(arg: Seq<char>, k: int)
    requires
        0 <= k <= arg.len(),
        forall|i: int| 0 <= i < k ==> #[trigger] arg[i] == '-' || arg[i] == '/',
        k < arg.len() ==> arg[k] != '-' && arg[k] != '/',
    ensures
        ({
            let word = crate::text::lowered(arg.subrange(k, arg.len() as int));
            &&& word == "service"@ || word == "s"@ ==> meant(arg) == Command::Service
            &&& word == "install"@ || word == "i"@ ==> meant(arg) == Command::Install
            &&& word == "uninstall"@ || word == "u"@ ==> meant(arg) == Command::Uninstall
            &&& word == "enable-startup"@ ==> meant(arg) == Command::EnableStartup
            &&& word == "start-service"@ ==> meant(arg) == Command::StartService
            &&& word == "stop-service"@ ==> meant(arg) == Command::StopService
            &&& word != "service"@ && word != "s"@ && word != "install"@ && word != "i"@ && word
                != "uninstall"@ && word != "u"@ && word != "enable-startup"@ && word
                != "start-service"@ && word != "stop-service"@ ==> meant(arg) == Command::Help
        }),
{
    what_stands_behind_the_dashes(arg, k);
    reveal_strlit("service");
    reveal_strlit("s");
    reveal_strlit("install");
    reveal_strlit("i");
    reveal_strlit("uninstall");
    reveal_strlit("u");
    reveal_strlit("enable-startup");
    reveal_strlit("start-service");
    reveal_strlit("stop-service");
    assert("service"@.len() == 7 && "install"@.len() == 7 && "uninstall"@.len() == 9);
    assert("service"@[0] == 's' && "install"@[0] == 'i');
    assert("s"@.len() == 1 && "i"@.len() == 1 && "u"@.len() == 1);
    assert("s"@[0] == 's' && "i"@[0] == 'i' && "u"@[0] == 'u');
    assert("enable-startup"@.len() == 14 && "start-service"@.len() == 13);
    assert("stop-service"@.len() == 12);
}

} // verus!
