//! The command line: the subcommand, the configuration file, and the rest.

use vstd::prelude::*;

use crate::fault_inject::Failure;
use crate::text::{opt_view, same_text, views};

verus! {

/// What `--help` prints.
pub const HELP: &'static str = "echod <grandparent|supervisor|processor|plain|tls|scanner|upgrade|status|drain|reload>

  grandparent  respawn the supervisor on crash (thin systemd alternative)
  supervisor   spawn and supervise all workers (default)
  processor    UDS line-echo worker
  plain        plaintext TCP acceptor
  tls          TLS acceptor (rustls)
  scanner      outbound auxiliary lookups (identd)
  upgrade      admin client: ask supervisor to upgrade workers
               flags: --target <path>, --role <worker>, --include-tls, --canary <secs>
  status       admin client: print per-worker generation/pid/uptime/in-flight
  drain        admin client: stop accepting new connections; keep existing sessions
  reload       admin client: re-read config; refresh auth allowlist + TLS cert
";

/// The arguments from place `i` on without the configuration flags that have a value, and the
/// value of the last of these. A flag at the very end has no value and is left alone.
pub open spec fn split_config(args: Seq<Seq<char>>, i: int) -> (Option<Seq<char>>, Seq<Seq<char>>)
    decreases args.len() - i,
{
    if i >= args.len() {
        (None, seq![])
    } else if args[i] == "--config"@ && i + 1 < args.len() {
        let (path, rest) = split_config(args, i + 2);
        (
            match path {
                Some(p) => Some(p),
                None => Some(args[i + 1]),
            },
            rest,
        )
    } else {
        let (path, rest) = split_config(args, i + 1);
        (path, seq![args[i]] + rest)
    }
}

/// Takes the configuration flag out of the arguments.
pub fn extract_config_flag(args: &Vec<String>) -> (r: (Option<String>, Vec<String>))
    ensures
        (opt_view(r.0), views(r.1@)) == split_config(views(args@), 0),
{
    let ghost all = views(args@);
    let mut path: Option<String> = None;
    let mut rest: Vec<String> = Vec::new();
    let mut i: usize = 0;
    proof {
        assert(views(rest@) =~= seq![]);
        assert(views(rest@) + split_config(all, 0).1 =~= split_config(all, 0).1);
    }
    while i < args.len()
        invariant
            all == views(args@),
            i <= args@.len(),
            split_config(all, 0) == (
                match split_config(all, i as int).0 {
                    Some(p) => Some(p),
                    None => opt_view(path),
                },
                views(rest@) + split_config(all, i as int).1,
            ),
        decreases args.len() - i,
    {
        proof {
            assert(all[i as int] == args@[i as int]@);
        }
        if same_text(args[i].as_str(), "--config") && args.len() - i > 1 {
            proof {
                assert(all[i + 1] == args@[i + 1]@);
            }
            path = Some(args[i + 1].clone());
            i = i + 2;
        } else {
            let ghost before = rest@;
            rest.push(args[i].clone());
            proof {
                assert(views(rest@) =~= views(before).push(all[i as int]));
                let tail = split_config(all, i + 1).1;
                assert(views(before) + (seq![all[i as int]] + tail) =~= views(rest@) + tail);
            }
            i = i + 1;
        }
    }
    proof {
        assert(views(rest@) + split_config(all, i as int).1 =~= views(rest@));
    }
    (path, rest)
}

/// There is such a subcommand.
pub open spec fn is_subcommand(s: Seq<char>) -> bool {
    ||| s == "grandparent"@
    ||| s == "supervisor"@
    ||| s == "processor"@
    ||| s == "plain"@
    ||| s == "tls"@
    ||| s == "scanner"@
    ||| s == "upgrade"@
    ||| s == "status"@
    ||| s == "drain"@
    ||| s == "reload"@
    ||| s == "help"@
    ||| s == "--help"@
    ||| s == "-h"@
}

fn known_subcommand(s: &str) -> (r: bool)
    ensures
        r == is_subcommand(s@),
{
    same_text(s, "grandparent") || same_text(s, "supervisor") || same_text(s, "processor")
        || same_text(s, "plain") || same_text(s, "tls") || same_text(s, "scanner") || same_text(
        s,
        "upgrade",
    ) || same_text(s, "status") || same_text(s, "drain") || same_text(s, "reload") || same_text(
        s,
        "help",
    ) || same_text(s, "--help") || same_text(s, "-h")
}

/// Whether a subcommand asks for help.
pub fn is_help(role: &str) -> (r: bool)
    ensures
        r == (role@ == "help"@ || role@ == "--help"@ || role@ == "-h"@),
{
    same_text(role, "help") || same_text(role, "--help") || same_text(role, "-h")
}

/// A command line that was understood.
#[derive(Debug)]
pub struct CliArgs {
    pub role: String,
    pub config_path: Option<String>,
    pub rest: Vec<String>,
}

/// The subcommand among the arguments that are left: the first, or the supervisor.
pub open spec fn subcommand_of(rest: Seq<Seq<char>>) -> Seq<char> {
    if rest.len() > 0 {
        rest[0]
    } else {
        "supervisor"@
    }
}

/// Reads the command line. The configuration flag may stand anywhere.
pub fn parse_cli_args(args: &Vec<String>) -> (r: Result<CliArgs, Failure>)
    ensures
        ({
            let (path, rest) = split_config(views(args@), 0);
            let sub = subcommand_of(rest);
            match r {
                Ok(cli) => {
                    &&& is_subcommand(sub)
                    &&& cli.role@ == sub
                    &&& opt_view(cli.config_path) == path
                    &&& views(cli.rest@) == (if rest.len() > 0 {
                        rest.skip(1)
                    } else {
                        seq![]
                    })
                },
                Err(e) => !is_subcommand(sub) && e.shown() == "unknown subcommand: "@ + sub,
            }
        }),
{
    let (config_path, mut args) = extract_config_flag(args);
    let ghost rest = views(args@);
    let role: String = if args.len() > 0 {
        proof {
            assert(rest[0] == args@[0]@);
        }
        args.remove(0)
    } else {
        "supervisor".to_owned()
    };
    proof {
        assert(role@ == subcommand_of(rest));
        if rest.len() > 0 {
            assert(views(args@) =~= rest.skip(1));
        } else {
            assert(views(args@) =~= seq![]);
        }
    }
    if !known_subcommand(role.as_str()) {
        let mut text = "unknown subcommand: ".to_owned();
        text.append(role.as_str());
        return Err(Failure::new(text.as_str()));
    }
    Ok(CliArgs { role, config_path, rest: args })
}

/// No argument from `from` to `to` is the configuration flag.
pub open spec fn no_flag(args: Seq<Seq<char>>, from: int, to: int) -> bool {
    forall|k: int| from <= k < to ==> #[trigger] args[k] != "--config"@
}

proof fn lemma_no_flag_ahead(args: Seq<Seq<char>>, i: int, k: int)
    requires
        0 <= i <= k <= args.len(),
        no_flag(args, i, k),
    ensures
        split_config(args, i) == (
            split_config(args, k).0,
            args.subrange(i, k) + split_config(args, k).1,
        ),
    decreases k - i,
{
    if i < k {
        lemma_no_flag_ahead(args, i + 1, k);
        assert(args[i] != "--config"@);
        assert(args.subrange(i, k) + split_config(args, k).1 =~= seq![args[i]] + (args.subrange(
            i + 1,
            k,
        ) + split_config(args, k).1));
    } else {
        assert(args.subrange(i, k) + split_config(args, k).1 =~= split_config(args, k).1);
    }
}

/// Without the configuration flag all arguments stay, and there is no path.
pub proof fn arguments_without_the_flag_stay(args: Seq<Seq<char>>)
    requires
        no_flag(args, 0, args.len() as int),
    ensures
        split_config(args, 0) == (None::<Seq<char>>, args),
{
    lemma_no_flag_ahead(args, 0, args.len() as int);
    assert(args.subrange(0, args.len() as int) + seq![] =~= args);
}

/// The flag may stand anywhere: it and its path are taken out, and all the rest stays in order.
pub proof fn flag_is_taken_out(before: Seq<Seq<char>>, path: Seq<char>, after: Seq<Seq<char>>)
    requires
        no_flag(before, 0, before.len() as int),
        no_flag(after, 0, after.len() as int),
    ensures
        split_config(before + seq!["--config"@, path] + after, 0) == (Some(path), before + after),
{
    let args = before + seq!["--config"@, path] + after;
    let k = before.len() as int;
    assert forall|j: int| 0 <= j < k implies #[trigger] args[j] != "--config"@ by {
        assert(args[j] == before[j]);
    }
    lemma_no_flag_ahead(args, 0, k);
    assert forall|j: int| k + 2 <= j < args.len() implies #[trigger] args[j] != "--config"@ by {
        assert(args[j] == after[j - k - 2]);
    }
    lemma_no_flag_ahead(args, k + 2, args.len() as int);
    assert(args[k] == "--config"@);
    assert(args[k + 1] == path);
    assert(args.subrange(k + 2, args.len() as int) + Seq::<Seq<char>>::empty() =~= after);
    assert(args.subrange(0, k) =~= before);
}

/// Of two flags the later one counts, and neither is left among the arguments.
pub proof fn later_flag_counts(
    before: Seq<Seq<char>>,
    first: Seq<char>,
    between: Seq<Seq<char>>,
    second: Seq<char>,
    after: Seq<Seq<char>>,
)
    requires
        no_flag(before, 0, before.len() as int),
        no_flag(between, 0, between.len() as int),
        no_flag(after, 0, after.len() as int),
    ensures
        split_config(
            before + seq!["--config"@, first] + between + seq!["--config"@, second] + after,
            0,
        ) == (Some(second), before + between + after),
{
    let args = before + seq!["--config"@, first] + between + seq!["--config"@, second] + after;
    let k = before.len() as int;
    let m = k + 2 + between.len();
    assert forall|j: int| 0 <= j < k implies #[trigger] args[j] != "--config"@ by {
        assert(args[j] == before[j]);
    }
    lemma_no_flag_ahead(args, 0, k);
    assert forall|j: int| k + 2 <= j < m implies #[trigger] args[j] != "--config"@ by {
        assert(args[j] == between[j - k - 2]);
    }
    lemma_no_flag_ahead(args, k + 2, m);
    assert forall|j: int| m + 2 <= j < args.len() implies #[trigger] args[j] != "--config"@ by {
        assert(args[j] == after[j - m - 2]);
    }
    lemma_no_flag_ahead(args, m + 2, args.len() as int);
    assert(args[k] == "--config"@);
    assert(args[k + 1] == first);
    assert(args[m] == "--config"@);
    assert(args[m + 1] == second);
    assert(args.subrange(m + 2, args.len() as int) + Seq::<Seq<char>>::empty() =~= after);
    assert(args.subrange(k + 2, m) =~= between);
    assert(args.subrange(0, k) =~= before);
    assert(before + (between + after) =~= before + between + after);
}

/// A flag at the very end has no path and stays among the arguments.
pub proof fn flag_without_a_path_stays(before: Seq<Seq<char>>)
    requires
        no_flag(before, 0, before.len() as int),
    ensures
        split_config(before.push("--config"@), 0) == (
            None::<Seq<char>>,
            before.push("--config"@),
        ),
{
    let args = before.push("--config"@);
    let k = before.len() as int;
    assert forall|j: int| 0 <= j < k implies #[trigger] args[j] != "--config"@ by {
        assert(args[j] == before[j]);
    }
    lemma_no_flag_ahead(args, 0, k);
    reveal_with_fuel(split_config, 2);
    assert(args.subrange(0, k) + (seq!["--config"@] + Seq::<Seq<char>>::empty()) =~= args);
}

/// The subcommand is whatever argument comes first; with none it is the supervisor. Every role
/// that runs as a process of its own is a subcommand.
pub proof fn first_argument_is_the_subcommand(first: Seq<char>, others: Seq<Seq<char>>)
    ensures
        subcommand_of(seq![first] + others) == first,
        is_subcommand(subcommand_of(Seq::<Seq<char>>::empty())),
        subcommand_of(Seq::<Seq<char>>::empty()) == "supervisor"@,
        is_subcommand(first) <==> seq![
            "grandparent"@,
            "supervisor"@,
            "processor"@,
            "plain"@,
            "tls"@,
            "scanner"@,
            "upgrade"@,
            "status"@,
            "drain"@,
            "reload"@,
            "help"@,
            "--help"@,
            "-h"@,
        ].contains(first),
{
    let all = seq![
        "grandparent"@,
        "supervisor"@,
        "processor"@,
        "plain"@,
        "tls"@,
        "scanner"@,
        "upgrade"@,
        "status"@,
        "drain"@,
        "reload"@,
        "help"@,
        "--help"@,
        "-h"@,
    ];
    assert(all[0] == "grandparent"@ && all[1] == "supervisor"@ && all[2] == "processor"@ && all[3]
        == "plain"@ && all[4] == "tls"@ && all[5] == "scanner"@ && all[6] == "upgrade"@ && all[7]
        == "status"@ && all[8] == "drain"@ && all[9] == "reload"@ && all[10] == "help"@ && all[11]
        == "--help"@ && all[12] == "-h"@);
}

} // verus!
