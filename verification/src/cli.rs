//! The command line: `-b <source folder>` and `-a <library folder>`, help and version.
use vstd::prelude::*;
use crate::cuby::CliArgs;
use crate::paths::seq_chars_equal;
use crate::text::{chars_of, push_str};

verus! {

/// What the command line asks for.
pub enum CliOutcome {
    /// Open the window with these folders.
    Run(CliArgs),
    /// Print the help and exit successfully.
    Help,
    /// Print the version and exit successfully.
    Version,
    /// Print this message and the help, and exit with status 2.
    Error(String),
}

/// The abstract value of a [`CliOutcome`].
pub enum CliView {
    Run(Option<Seq<char>>, Option<Seq<char>>),
    Help,
    Version,
    Error(Seq<char>),
}

impl View for CliOutcome {
    type V = CliView;

    open spec fn view(&self) -> CliView {
        match self {
            CliOutcome::Run(a) => CliView::Run(a.base_path.deep_view(), a.anime_path.deep_view()),
            CliOutcome::Help => CliView::Help,
            CliOutcome::Version => CliView::Version,
            CliOutcome::Error(m) => CliView::Error(m@),
        }
    }
}

/// The spellings of the source folder option.
pub open spec fn is_base_flag(a: Seq<char>) -> bool {
    a == "-b"@ || a == "--base-path"@ || a == "--base_path"@
}

/// The spellings of the library folder option.
pub open spec fn is_anime_flag(a: Seq<char>) -> bool {
    a == "-a"@ || a == "--anime-path"@ || a == "--anime_path"@
}

/// Reading the arguments from position `i` on, with the folders found so
/// far: help and version stop at once, an option takes the next argument
/// as its value (a later one wins), and anything else is an error.
pub open spec fn parse_from(
    args: Seq<Seq<char>>,
    i: int,
    base: Option<Seq<char>>,
    anime: Option<Seq<char>>,
) -> CliView
    decreases args.len() - i,
{
    if i < 0 || i >= args.len() {
        CliView::Run(base, anime)
    } else {
        let a = args[i];
        if a == "-h"@ || a == "--help"@ {
            CliView::Help
        } else if a == "-V"@ || a == "--version"@ {
            CliView::Version
        } else if is_base_flag(a) {
            if i + 1 < args.len() {
                parse_from(args, i + 2, Some(args[i + 1]), anime)
            } else {
                CliView::Error("缺少 -b/--base-path 参数值\n"@)
            }
        } else if is_anime_flag(a) {
            if i + 1 < args.len() {
                parse_from(args, i + 2, base, Some(args[i + 1]))
            } else {
                CliView::Error("缺少 -a/--anime-path 参数值\n"@)
            }
        } else {
            CliView::Error("未知参数: "@ + a + "\n"@)
        }
    }
}

/// Whether two strings are equal.
fn same_text(a: &str, b: &str) -> (r: bool)
    ensures
        r == (a@ == b@),
{
    seq_chars_equal(&chars_of(a), &chars_of(b))
}

/// Reads the arguments that follow the program's name.
pub fn parse_cli_args(args: Vec<String>) -> (r: CliOutcome)
    ensures
        r@ == parse_from(args@.map_values(|s: String| s@), 0, None, None),
{
    let ghost av = args@.map_values(|s: String| s@);
    let mut base: Option<String> = None;
    let mut anime: Option<String> = None;
    let mut i: usize = 0;
    while i < args.len()
        invariant
            i <= args@.len() + 1,
            av == args@.map_values(|s: String| s@),
            parse_from(av, 0, None, None) == parse_from(av, i as int, base.deep_view(), anime.deep_view()),
        decreases args@.len() + 1 - i,
    {
        let a = args[i].as_str();
        assert(av[i as int] == a@);
        if same_text(a, "-h") || same_text(a, "--help") {
            return CliOutcome::Help;
        }
        if same_text(a, "-V") || same_text(a, "--version") {
            return CliOutcome::Version;
        }
        if same_text(a, "-b") || same_text(a, "--base-path") || same_text(a, "--base_path") {
            if i + 1 < args.len() {
                assert(av[i + 1] == args@[i + 1]@);
                base = Some(args[i + 1].clone());
                i = i + 2;
                continue;
            }
            return CliOutcome::Error("缺少 -b/--base-path 参数值\n".to_owned());
        }
        if same_text(a, "-a") || same_text(a, "--anime-path") || same_text(a, "--anime_path") {
            if i + 1 < args.len() {
                assert(av[i + 1] == args@[i + 1]@);
                anime = Some(args[i + 1].clone());
                i = i + 2;
                continue;
            }
            return CliOutcome::Error("缺少 -a/--anime-path 参数值\n".to_owned());
        }
        let mut m = "未知参数: ".to_owned();
        push_str(&mut m, a);
        push_str(&mut m, "\n");
        return CliOutcome::Error(m);
    }
    CliOutcome::Run(CliArgs { base_path: base, anime_path: anime })
}

/// The help text for the program `name` at version `version`.
pub open spec fn help_text(name: Seq<char>, version: Seq<char>) -> Seq<char> {
    name + " "@ + version + "\n\n用法:\n  "@ + name + ".exe -b <源文件夹> -a <目标文件夹>\n\n选项:\n  -b, --base-path, --base_path   源文件夹路径\n  -a, --anime-path, --anime_path 目标文件夹路径\n  -h, --help                    显示帮助\n  -V, --version                 显示版本\n"@
}

/// The help text for the program `name` at version `version`.
pub fn help_message(name: &str, version: &str) -> (r: String)
    ensures
        r@ == help_text(name@, version@),
{
    let mut s = name.to_owned();
    push_str(&mut s, " ");
    push_str(&mut s, version);
    push_str(&mut s, "\n\n用法:\n  ");
    push_str(&mut s, name);
    push_str(
        &mut s,
        ".exe -b <源文件夹> -a <目标文件夹>\n\n选项:\n  -b, --base-path, --base_path   源文件夹路径\n  -a, --anime-path, --anime_path 目标文件夹路径\n  -h, --help                    显示帮助\n  -V, --version                 显示版本\n",
    );
    s
}

} // verus!
