use vstd::prelude::*;
use vstd::string::{StrSliceExecFns, StringExecFns};

use crate::context::{context_for, valid_project, TemplateContext};
use crate::error::Error;
use crate::template::{find_dir, find_template, TemplateEngine};

verus! {

/// A shell for which completions can be emitted.
#[derive(Debug, Clone, Copy, PartialEq, Eq, Structural)]
pub enum Shell {
    Bash,
    Zsh,
}

/// A subcommand with its arguments.
#[derive(Debug, Clone)]
pub enum Commands {
    /// List the available templates.
    List,
    /// Create a project `namespace/name` from a template.
    New { template: String, project: String, username: Option<String>, vendor: Option<String> },
    /// Emit a completion script, to standard output or into a directory.
    Completion { shell: Shell, output: Option<String> },
}

/// A parsed command line.
#[derive(Debug, Clone)]
pub struct Cli {
    pub command: Commands,
}

/// What a subcommand stands for.
pub ghost enum CommandView {
    List,
    New {
        template: Seq<char>,
        project: Seq<char>,
        username: Option<Seq<char>>,
        vendor: Option<Seq<char>>,
    },
    Completion { shell: Shell, output: Option<Seq<char>> },
}

/// The view of an optional string.
pub open spec fn opt_view(o: Option<String>) -> Option<Seq<char>> {
    match o {
        Some(s) => Some(s@),
        None => None,
    }
}

impl View for Commands {
    type V = CommandView;

    open spec fn view(&self) -> CommandView {
        match self {
            Commands::List => CommandView::List,
            Commands::New { template, project, username, vendor } => CommandView::New {
                template: template@,
                project: project@,
                username: opt_view(*username),
                vendor: opt_view(*vendor),
            },
            Commands::Completion { shell, output } => CommandView::Completion {
                shell: *shell,
                output: opt_view(*output),
            },
        }
    }
}

/// The options and positional arguments read so far after a subcommand.
pub ghost struct Scan {
    pub positionals: Seq<Seq<char>>,
    pub first: Option<Seq<char>>,
    pub second: Option<Seq<char>>,
}

/// The options a subcommand takes: each has a short and a long spelling and
/// takes the next argument as its value; the second one may be absent.
pub ghost struct OptionNames {
    pub short1: Seq<char>,
    pub long1: Seq<char>,
    pub second: bool,
    pub short2: Seq<char>,
    pub long2: Seq<char>,
    pub max_positionals: nat,
}

/// An argument that reads as an option: a dash followed by something.
pub open spec fn looks_like_option(a: Seq<char>) -> bool {
    a.len() > 1 && a[0] == '-'
}

/// Reads the arguments from the `i`-th on: each option at most once and followed by
/// a value that does not itself read as an option, no unknown option, and at most
/// `max_positionals` other arguments.
pub open spec fn scan_from(args: Seq<Seq<char>>, i: int, o: OptionNames, st: Scan) -> Option<Scan>
    decreases args.len() - i,
{
    if i < 0 || i >= args.len() {
        Some(st)
    } else {
        let a = args[i];
        if a == o.short1 || a == o.long1 {
            if i + 1 < args.len() && st.first is None && !looks_like_option(args[i + 1]) {
                scan_from(args, i + 2, o, Scan { first: Some(args[i + 1]), ..st })
            } else {
                None
            }
        } else if o.second && (a == o.short2 || a == o.long2) {
            if i + 1 < args.len() && st.second is None && !looks_like_option(args[i + 1]) {
                scan_from(args, i + 2, o, Scan { second: Some(args[i + 1]), ..st })
            } else {
                None
            }
        } else if looks_like_option(a) {
            None
        } else if st.positionals.len() < o.max_positionals {
            scan_from(args, i + 1, o, Scan { positionals: st.positionals.push(a), ..st })
        } else {
            None
        }
    }
}

/// Nothing read yet.
pub open spec fn empty_scan() -> Scan {
    Scan { positionals: seq![], first: None, second: None }
}

/// The options of `new`: `-u`/`--username` and `-v`/`--vendor`, and two positionals.
pub open spec fn new_options() -> OptionNames {
    OptionNames {
        short1: "-u"@,
        long1: "--username"@,
        second: true,
        short2: "-v"@,
        long2: "--vendor"@,
        max_positionals: 2,
    }
}

/// The options of `completion`: `-o`/`--output`, and one positional.
pub open spec fn completion_options() -> OptionNames {
    OptionNames {
        short1: "-o"@,
        long1: "--output"@,
        second: false,
        short2: seq![],
        long2: seq![],
        max_positionals: 1,
    }
}

/// The shell a name stands for.
pub open spec fn shell_named(s: Seq<char>) -> Option<Shell> {
    if s == "bash"@ {
        Some(Shell::Bash)
    } else if s == "zsh"@ {
        Some(Shell::Zsh)
    } else {
        None
    }
}

/// The command that a command line, program name first, stands for:
/// `list`; `new <template> <project> [-u|--username <user>] [-v|--vendor <vendor>]`;
/// `completion <bash|zsh> [-o|--output <dir>]`, options in any position after the
/// subcommand. Anything else stands for no command.
pub open spec fn parse_args(args: Seq<Seq<char>>) -> Option<CommandView> {
    if args.len() < 2 {
        None
    } else if args[1] == "list"@ {
        if args.len() == 2 {
            Some(CommandView::List)
        } else {
            None
        }
    } else if args[1] == "new"@ {
        match scan_from(args, 2, new_options(), empty_scan()) {
            Some(st) => if st.positionals.len() == 2 {
                Some(
                    CommandView::New {
                        template: st.positionals[0],
                        project: st.positionals[1],
                        username: st.first,
                        vendor: st.second,
                    },
                )
            } else {
                None
            },
            None => None,
        }
    } else if args[1] == "completion"@ {
        match scan_from(args, 2, completion_options(), empty_scan()) {
            Some(st) => if st.positionals.len() == 1 {
                match shell_named(st.positionals[0]) {
                    Some(sh) => Some(CommandView::Completion { shell: sh, output: st.first }),
                    None => None,
                }
            } else {
                None
            },
            None => None,
        }
    } else {
        None
    }
}

/// The views of the arguments.
pub open spec fn args_view(args: Seq<&str>) -> Seq<Seq<char>> {
    args.map_values(|a: &str| a@)
}

/// Whether two strings hold the same characters.
fn same_text(a: &str, b: &str) -> (r: bool)
    ensures
        r == (a@ == b@),
{
    let n = a.unicode_len();
    if n != b.unicode_len() {
        return false;
    }
    let mut i: usize = 0;
    while i < n
        invariant
            n == a@.len() == b@.len(),
            0 <= i <= n,
            forall|j: int| 0 <= j < i ==> a@[j] == b@[j],
        decreases n - i,
    {
        if a.get_char(i) != b.get_char(i) {
            return false;
        }
        i += 1;
    }
    assert(a@ =~= b@);
    true
}

/// Whether an argument reads as an option.
fn option_like(a: &str) -> (r: bool)
    ensures
        r == looks_like_option(a@),
{
    a.unicode_len() > 1 && a.get_char(0) == '-'
}

/// The exec counterpart of `Scan`.
struct ScanState {
    positionals: Vec<String>,
    first: Option<String>,
    second: Option<String>,
}

spec fn scan_view(s: ScanState) -> Scan {
    Scan {
        positionals: s.positionals@.map_values(|x: String| x@),
        first: opt_view(s.first),
        second: opt_view(s.second),
    }
}

/// Reads the arguments after the subcommand with the given option spellings.
fn scan(
    args: &[&str],
    short1: &str,
    long1: &str,
    second: bool,
    short2: &str,
    long2: &str,
    max_positionals: usize,
) -> (r: Option<ScanState>)
    requires
        args@.len() >= 2,
    ensures
        match r {
            Some(st) => scan_from(
                args_view(args@),
                2,
                OptionNames {
                    short1: short1@,
                    long1: long1@,
                    second,
                    short2: short2@,
                    long2: long2@,
                    max_positionals: max_positionals as nat,
                },
                empty_scan(),
            ) == Some(scan_view(st)),
            None => scan_from(
                args_view(args@),
                2,
                OptionNames {
                    short1: short1@,
                    long1: long1@,
                    second,
                    short2: short2@,
                    long2: long2@,
                    max_positionals: max_positionals as nat,
                },
                empty_scan(),
            ) is None,
        },
{
    let ghost o = OptionNames {
        short1: short1@,
        long1: long1@,
        second,
        short2: short2@,
        long2: long2@,
        max_positionals: max_positionals as nat,
    };
    let ghost av = args_view(args@);
    let mut st = ScanState { positionals: Vec::new(), first: None, second: None };
    assert(st.positionals@.map_values(|x: String| x@) =~= Seq::<Seq<char>>::empty());
    assert(scan_view(st) == empty_scan());
    let n = args.len();
    let mut i: usize = 2;
    while i < n
        invariant
            n == args@.len(),
            av == args_view(args@),
            av.len() == n,
            o == (OptionNames {
                short1: short1@,
                long1: long1@,
                second,
                short2: short2@,
                long2: long2@,
                max_positionals: max_positionals as nat,
            }),
            2 <= i <= n + 1,
            scan_from(av, 2, o, empty_scan()) == scan_from(av, i as int, o, scan_view(st)),
            st.positionals@.len() <= max_positionals,
        decreases n + 1 - i,
    {
        let a = args[i];
        let ghost prev = scan_view(st);
        assert(av[i as int] == a@);
        let is_first = same_text(a, short1) || same_text(a, long1);
        let is_second = second && (same_text(a, short2) || same_text(a, long2));
        assert(is_first == (av[i as int] == o.short1 || av[i as int] == o.long1));
        assert(is_second == (o.second && (av[i as int] == o.short2 || av[i as int] == o.long2)));
        if is_first {
            if i + 1 < n && st.first.is_none() && !option_like(args[i + 1]) {
                assert(av[i + 1] == args@[i + 1]@);
                st.first = Some(String::from_str(args[i + 1]));
                assert(scan_view(st) == Scan { first: Some(av[i + 1]), ..prev });
                i += 2;
            } else {
                assert(scan_from(av, i as int, o, prev) is None);
                return None;
            }
        } else if is_second {
            if i + 1 < n && st.second.is_none() && !option_like(args[i + 1]) {
                assert(av[i + 1] == args@[i + 1]@);
                st.second = Some(String::from_str(args[i + 1]));
                assert(scan_view(st) == Scan { second: Some(av[i + 1]), ..prev });
                i += 2;
            } else {
                assert(scan_from(av, i as int, o, prev) is None);
                return None;
            }
        } else if option_like(a) {
            assert(scan_from(av, i as int, o, prev) is None);
            return None;
        } else if st.positionals.len() < max_positionals {
            let ghost before = st.positionals@;
            st.positionals.push(String::from_str(a));
            assert(st.positionals@.map_values(|x: String| x@) =~= before.map_values(
                |x: String| x@,
            ).push(a@));
            assert(scan_view(st) == Scan { positionals: prev.positionals.push(a@), ..prev });
            i += 1;
        } else {
            assert(scan_from(av, i as int, o, prev) is None);
            return None;
        }
    }
    Some(st)
}

/// Removes and returns the first positional argument read.
fn take_positional(st: &mut ScanState) -> (r: String)
    requires
        old(st).positionals@.len() > 0,
    ensures
        r@ == scan_view(*old(st)).positionals[0],
        scan_view(*final(st)).positionals == scan_view(*old(st)).positionals.skip(1),
        final(st).positionals@.len() == old(st).positionals@.len() - 1,
        final(st).first == old(st).first,
        final(st).second == old(st).second,
{
    let r = st.positionals.remove(0);
    assert(scan_view(*st).positionals =~= scan_view(*old(st)).positionals.skip(1));
    r
}

impl Cli {
    /// Parses a command line, program name first, into a command; `None` when it
    /// does not follow the grammar of `parse_args`. That grammar is the plain form
    /// of the one the binary declares to clap: every line it accepts, clap reads the
    /// same way; the rest (`--opt=value`, help, version, usage errors) is left to
    /// clap.
    pub fn try_parse_from(args: &[&str]) -> (r: Option<Cli>)
        ensures
            match r {
                Some(c) => parse_args(args_view(args@)) == Some(c.command@),
                None => parse_args(args_view(args@)) is None,
            },
    {
        let ghost av = args_view(args@);
        if args.len() < 2 {
            return None;
        }
        let sub = args[1];
        assert(av[1] == sub@);
        if same_text(sub, "list") {
            if args.len() == 2 {
                return Some(Cli { command: Commands::List });
            }
            return None;
        }
        if same_text(sub, "new") {
            proof {
                reveal_strlit("list");
                reveal_strlit("new");
                assert(sub@ != "list"@);
            }
            return match scan(args, "-u", "--username", true, "-v", "--vendor", 2) {
                Some(st) => {
                    if st.positionals.len() == 2 {
                        let mut st = st;
                        let template = take_positional(&mut st);
                        let project = take_positional(&mut st);
                        Some(
                            Cli {
                                command: Commands::New {
                                    template,
                                    project,
                                    username: st.first,
                                    vendor: st.second,
                                },
                            },
                        )
                    } else {
                        None
                    }
                },
                None => None,
            };
        }
        if same_text(sub, "completion") {
            proof {
                reveal_strlit("list");
                reveal_strlit("new");
                reveal_strlit("completion");
                reveal_strlit("");
                assert(sub@ != "list"@);
                assert(sub@ != "new"@);
                assert(""@ =~= Seq::<char>::empty());
                assert(completion_options() == OptionNames {
                    short1: "-o"@,
                    long1: "--output"@,
                    second: false,
                    short2: ""@,
                    long2: ""@,
                    max_positionals: 1,
                });
            }
            return match scan(args, "-o", "--output", false, "", "", 1) {
                Some(st) => {
                    if st.positionals.len() == 1 {
                        let name = st.positionals[0].as_str();
                        assert(name@ == scan_view(st).positionals[0]);
                        proof {
                            reveal_strlit("bash");
                            reveal_strlit("zsh");
                        }
                        if same_text(name, "bash") {
                            Some(Cli { command: Commands::Completion { shell: Shell::Bash, output: st.first } })
                        } else if same_text(name, "zsh") {
                            Some(Cli { command: Commands::Completion { shell: Shell::Zsh, output: st.first } })
                        } else {
                            None
                        }
                    } else {
                        None
                    }
                },
                None => None,
            };
        }
        None
    }
}

/// The directory, relative to the working directory, that `new` creates for a
/// project: `namespace/name`.
pub open spec fn project_dir_of(c: TemplateContext) -> Seq<char> {
    c.repo_namespace@ + seq!['/'] + c.image_name@
}

/// The directory that `new` creates for the project of a context.
pub fn project_dir(c: &TemplateContext) -> (r: String)
    ensures
        r@ == project_dir_of(*c),
{
    let r = c.repo_namespace.clone().concat("/").concat(c.image_name.as_str());
    proof {
        reveal_strlit("/");
    }
    assert(r@ =~= project_dir_of(*c));
    r
}

/// The message of a `new` whose project directory is already there.
pub open spec fn existing_directory_message(dir: Seq<char>) -> Seq<char> {
    "Directory '"@ + dir + "' already exists"@
}

/// The error of a `new` whose project directory is already there.
pub fn existing_directory(dir: &String) -> (r: Error)
    ensures
        r matches Error::InvalidTemplate(m) && m@ == existing_directory_message(dir@),
{
    let m = String::from_str("Directory '").concat(dir.as_str()).concat("' already exists");
    Error::InvalidTemplate(m)
}

/// Checks a `new` request before anything is written: the template must exist,
/// then the identifier be valid. Gives the context of the project and the
/// directory to create for it.
pub fn prepare_new(
    engine: &TemplateEngine,
    template: &str,
    project: &str,
    username: Option<String>,
    vendor: Option<String>,
) -> (r: Result<(TemplateContext, String), Error>)
    ensures
        find_template(engine.catalog, template@) is None ==> (r matches Err(
            Error::TemplateNotFound(m),
        ) && m@ == template@),
        find_template(engine.catalog, template@) is Some && !valid_project(project@) ==> (r matches Err(
            Error::InvalidProjectName(m),
        ) && m@ == project@),
        find_template(engine.catalog, template@) is Some && valid_project(project@) ==> (r matches Ok(
            (c, dir),
        ) && context_for(project@, username, vendor, c.build_date@, c) && dir@ == project_dir_of(c)),
{
    if find_dir(&engine.catalog.entries, template).is_none() {
        return Err(Error::TemplateNotFound(String::from_str(template)));
    }
    let c = TemplateContext::new(project, username, vendor)?;
    let dir = project_dir(&c);
    Ok((c, dir))
}

} // verus!
