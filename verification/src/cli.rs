use crate::config::Config;
use crate::util::str_eq;
use vstd::prelude::*;

verus! {

/// What one command-line argument asks for.
#[derive(Debug, Clone, Copy, PartialEq, Eq, Structural)]
pub enum ArgKind {
    /// `-m`: measure the durations of the compiler's passes.
    MeasureDurations,
    /// `-i`: visualize the program.
    Visualize,
    /// `-s` followed by the path of the standard library, the next argument.
    StdPath,
    /// `-s` as the last argument, with no path after it.
    MissingStdPath,
    /// `-h`: print the usage.
    Help,
    /// Anything else: a file or a directory to compile.
    Input,
}

/// The characters of each argument.
pub open spec fn arg_views(args: Seq<String>) -> Seq<Seq<char>> {
    args.map_values(|s: String| s@)
}

/// What the argument at `i` asks for.
pub open spec fn kind_of(args: Seq<Seq<char>>, i: int) -> ArgKind {
    if args[i] == "-m"@ {
        ArgKind::MeasureDurations
    } else if args[i] == "-i"@ {
        ArgKind::Visualize
    } else if args[i] == "-s"@ {
        if i + 1 < args.len() {
            ArgKind::StdPath
        } else {
            ArgKind::MissingStdPath
        }
    } else if args[i] == "-h"@ {
        ArgKind::Help
    } else {
        ArgKind::Input
    }
}

/// The path of the standard library after the first `n` arguments: the one
/// after the last `-s` among them that has one, else `std`.
pub open spec fn std_path_of(args: Seq<Seq<char>>, n: int) -> Seq<char>
    decreases n,
{
    if n <= 0 {
        "std"@
    } else if kind_of(args, n - 1) == ArgKind::StdPath {
        args[n]
    } else {
        std_path_of(args, n - 1)
    }
}

/// Whether some argument asks for `kind`.
pub open spec fn has_kind(args: Seq<Seq<char>>, kind: ArgKind) -> bool {
    exists|i: int| 0 <= i < args.len() && kind_of(args, i) == kind
}

/// What the command line asks for, before any file is looked at.
#[derive(Debug)]
pub struct ArgsPlan {
    /// What each argument asks for, in order.
    pub kinds: Vec<ArgKind>,
    pub config: Config,
    pub measure_durations: bool,
    /// The path of the standard library.
    pub std_path: String,
    /// Whether some argument names a file or a directory.
    pub file_given: bool,
    /// Whether no argument asked for the usage or lacks its path.
    pub success: bool,
}

/// Reads the command line.
pub fn process_args(args: &Vec<String>) -> (r: ArgsPlan)
    ensures
        r.kinds@.len() == args@.len(),
        forall|i: int| 0 <= i < args@.len() ==> r.kinds@[i] == kind_of(arg_views(args@), i),
        r.config.visualize == has_kind(arg_views(args@), ArgKind::Visualize),
        !r.config.verbose,
        r.measure_durations == has_kind(arg_views(args@), ArgKind::MeasureDurations),
        r.std_path@ == std_path_of(arg_views(args@), args@.len() as int),
        r.file_given == has_kind(arg_views(args@), ArgKind::Input),
        r.success == !(has_kind(arg_views(args@), ArgKind::Help) || has_kind(
            arg_views(args@),
            ArgKind::MissingStdPath,
        )),
{
    let ghost views = arg_views(args@);
    let mut kinds: Vec<ArgKind> = Vec::new();
    let mut config = Config::new();
    let mut measure_durations = false;
    let mut std_path = String::from_str("std");
    let mut file_given = false;
    let mut success = true;
    let mut index: usize = 0;
    while index < args.len()
        invariant
            views == arg_views(args@),
            index <= args@.len(),
            kinds@.len() == index,
            forall|i: int| 0 <= i < index ==> kinds@[i] == kind_of(views, i),
            !config.verbose,
            config.visualize == exists|i: int| 0 <= i < index && kind_of(views, i) == ArgKind::Visualize,
            measure_durations == exists|i: int|
                0 <= i < index && kind_of(views, i) == ArgKind::MeasureDurations,
            std_path@ == std_path_of(views, index as int),
            file_given == exists|i: int| 0 <= i < index && kind_of(views, i) == ArgKind::Input,
            success == !exists|i: int|
                0 <= i < index && (kind_of(views, i) == ArgKind::Help || kind_of(views, i)
                    == ArgKind::MissingStdPath),
        decreases args@.len() - index,
    {
        let arg = args[index].as_str();
        assert(views[index as int] == arg@);
        let kind = if str_eq(arg, "-m") {
            measure_durations = true;
            ArgKind::MeasureDurations
        } else if str_eq(arg, "-i") {
            config.visualize = true;
            ArgKind::Visualize
        } else if str_eq(arg, "-s") {
            if index + 1 >= args.len() {
                success = false;
                ArgKind::MissingStdPath
            } else {
                std_path = args[index + 1].clone();
                assert(views[index + 1] == std_path@);
                ArgKind::StdPath
            }
        } else if str_eq(arg, "-h") {
            success = false;
            ArgKind::Help
        } else {
            file_given = true;
            ArgKind::Input
        };
        assert(kind == kind_of(views, index as int));
        kinds.push(kind);
        index += 1;
    }
    ArgsPlan {
        kinds: kinds,
        config: config,
        measure_durations: measure_durations,
        std_path: std_path,
        file_given: file_given,
        success: success,
    }
}

/// What comes after the arguments were read and the named files looked at.
#[derive(Debug, Clone, Copy, PartialEq, Eq, Structural)]
pub enum ArgsOutcome {
    /// Nothing to compile was named: say so, and stop.
    ReportNoFile,
    /// Stop without a further word: an error was already reported.
    Stop,
    /// Look at the standard library next.
    AddStd,
}

/// Decides how the command line ends: `success` says whether every argument
/// so far was in order, `file_given` whether one named something to compile.
pub fn finish_args(success: bool, file_given: bool) -> (r: ArgsOutcome)
    ensures
        r == (if !file_given {
            if success {
                ArgsOutcome::ReportNoFile
            } else {
                ArgsOutcome::Stop
            }
        } else if success {
            ArgsOutcome::AddStd
        } else {
            ArgsOutcome::Stop
        }),
{
    if !file_given {
        if success {
            ArgsOutcome::ReportNoFile
        } else {
            ArgsOutcome::Stop
        }
    } else if success {
        ArgsOutcome::AddStd
    } else {
        ArgsOutcome::Stop
    }
}

/// The path of the standard library follows the command line: `-s p` at the
/// end sets it to `p` whatever came before; an argument other than `-s`
/// after one that is not `-s` leaves it as it was; and with no `-s` at all
/// it is `std`.
pub proof fn lemma_std_path(args: Seq<Seq<char>>, p: Seq<char>, x: Seq<char>)
    ensures
        std_path_of(args.push("-s"@).push(p), args.len() + 2int) == p,
        x != "-s"@ && (args.len() == 0 || args.last() != "-s"@) ==> std_path_of(args.push(x), args.len() + 1int)
            == std_path_of(args, args.len() as int),
        (forall|i: int| 0 <= i < args.len() ==> args[i] != "-s"@) ==> std_path_of(args, args.len() as int) == "std"@,
{
    reveal_strlit("-s");
    reveal_strlit("-m");
    reveal_strlit("-i");
    assert("-s"@ != "-m"@ && "-s"@ != "-i"@) by {
        assert("-s"@[1] != "-m"@[1]);
        assert("-s"@[1] != "-i"@[1]);
    }
    let a2 = args.push("-s"@).push(p);
    assert(a2[args.len() as int] == "-s"@);
    assert(a2[args.len() + 1int] == p);
    assert(kind_of(a2, args.len() as int) == ArgKind::StdPath);
    assert(kind_of(a2, args.len() + 1int) != ArgKind::StdPath);
    assert(std_path_of(a2, args.len() + 2int) == std_path_of(a2, args.len() + 1int));
    assert(std_path_of(a2, args.len() + 1int) == p);
    if x != "-s"@ && (args.len() == 0 || args.last() != "-s"@) {
        let a1 = args.push(x);
        lemma_std_path_same(args, a1, args.len() as int);
        assert(a1[args.len() as int] == x);
        assert(kind_of(a1, args.len() as int) != ArgKind::StdPath);
        assert(std_path_of(a1, args.len() + 1int) == std_path_of(a1, args.len() as int));
    }
    if forall|i: int| 0 <= i < args.len() ==> args[i] != "-s"@ {
        lemma_no_s(args, args.len() as int);
    }
}

/// Appending an argument after one that is not `-s` changes nothing of the
/// path after the first arguments.
proof fn lemma_std_path_same(a: Seq<Seq<char>>, b: Seq<Seq<char>>, n: int)
    requires
        0 <= n <= a.len(),
        a.len() < b.len(),
        forall|i: int| 0 <= i < a.len() ==> a[i] == b[i],
        a.len() == 0 || a.last() != "-s"@,
    ensures
        std_path_of(a, n) == std_path_of(b, n),
    decreases n,
{
    if n > 0 {
        lemma_std_path_same(a, b, n - 1);
        if n == a.len() {
            assert(a[n - 1] == a.last());
        }
        assert(kind_of(a, n - 1) == kind_of(b, n - 1));
    }
}

/// With no `-s` among the first `n` arguments, the path is `std`.
proof fn lemma_no_s(args: Seq<Seq<char>>, n: int)
    requires
        n <= args.len(),
        forall|i: int| 0 <= i < args.len() ==> args[i] != "-s"@,
    ensures
        std_path_of(args, n) == "std"@,
    decreases n,
{
    if n > 0 {
        lemma_no_s(args, n - 1);
        assert(kind_of(args, n - 1) != ArgKind::StdPath);
    }
}

/// Reading the command line fails exactly when some argument is `-h` or the
/// last argument is `-s` with no path after it; `-m` anywhere asks for the
/// durations and `-i` anywhere for the picture of the program.
pub proof fn lemma_flags(args: Seq<Seq<char>>)
    ensures
        has_kind(args, ArgKind::MissingStdPath) <==> (args.len() > 0 && args.last() == "-s"@),
        has_kind(args, ArgKind::Help) <==> exists|i: int| 0 <= i < args.len() && args[i] == "-h"@,
        has_kind(args, ArgKind::MeasureDurations) <==> exists|i: int| 0 <= i < args.len() && args[i] == "-m"@,
        has_kind(args, ArgKind::Visualize) <==> exists|i: int| 0 <= i < args.len() && args[i] == "-i"@,
{
    reveal_strlit("-s");
    reveal_strlit("-m");
    reveal_strlit("-i");
    reveal_strlit("-h");
    assert("-s"@[1] != "-m"@[1] && "-s"@[1] != "-i"@[1] && "-s"@[1] != "-h"@[1]);
    assert("-m"@[1] != "-i"@[1] && "-m"@[1] != "-h"@[1] && "-i"@[1] != "-h"@[1]);
    assert("-s"@ != "-m"@ && "-s"@ != "-i"@ && "-s"@ != "-h"@ && "-m"@ != "-i"@ && "-m"@ != "-h"@ && "-i"@ != "-h"@);
    if args.len() > 0 && args.last() == "-s"@ {
        assert(kind_of(args, args.len() - 1) == ArgKind::MissingStdPath);
    }
    if exists|i: int| 0 <= i < args.len() && args[i] == "-h"@ {
        let i = choose|i: int| 0 <= i < args.len() && args[i] == "-h"@;
        assert(kind_of(args, i) == ArgKind::Help);
    }
    if exists|i: int| 0 <= i < args.len() && args[i] == "-m"@ {
        let i = choose|i: int| 0 <= i < args.len() && args[i] == "-m"@;
        assert(kind_of(args, i) == ArgKind::MeasureDurations);
    }
    if exists|i: int| 0 <= i < args.len() && args[i] == "-i"@ {
        let i = choose|i: int| 0 <= i < args.len() && args[i] == "-i"@;
        assert(kind_of(args, i) == ArgKind::Visualize);
    }
}

} // verus!
