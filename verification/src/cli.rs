//! Command-line parsing: `-O0`..`-O3` are taken out first (pico-args has no
//! notion of a flag with an attached level), the rest goes through
//! pico-args.

use crate::lexer::display::{append_str, decimal, push_decimal};
use vstd::prelude::*;

verus! {

#[verifier::external_type_specification]
#[verifier::external_body]
pub struct ExArguments(pico_args::Arguments);

/// The arguments a pico-args parser still holds, as text.
pub uninterp spec fn remaining_args(a: pico_args::Arguments) -> Seq<Seq<char>>;

/// Whether every argument the parser holds is valid UTF-8 text.
pub uninterp spec fn holds_text(a: pico_args::Arguments) -> bool;

pub open spec fn strings_view(s: Seq<String>) -> Seq<Seq<char>> {
    s.map_values(|x: String| x@)
}

/// A short key as pico-args accepts it: `-` and one other character.
pub open spec fn short_key(k: Seq<char>) -> bool {
    k.len() == 2 && k[0] == '-' && k[1] != '-'
}

/// A long key as pico-args accepts it: starting with `--`.
pub open spec fn long_key(k: Seq<char>) -> bool {
    k.len() >= 2 && k[0] == '-' && k[1] == '-'
}

/// The first position of `x` in `s`, or -1.
pub open spec fn index_of(s: Seq<Seq<char>>, x: Seq<char>) -> int
    decreases s.len(),
{
    if s.len() == 0 {
        -1
    } else if s[0] == x {
        0
    } else {
        let i = index_of(s.subrange(1, s.len() as int), x);
        if i < 0 {
            -1
        } else {
            i + 1
        }
    }
}

/// Looking for a flag under `keys`, in order: the first occurrence of the
/// first key present is removed.
pub open spec fn take_flag_spec(c: Seq<Seq<char>>, keys: Seq<Seq<char>>) -> (bool, Seq<Seq<char>>)
    decreases keys.len(),
{
    if keys.len() == 0 {
        (false, c)
    } else if index_of(c, keys[0]) >= 0 {
        (true, c.remove(index_of(c, keys[0])))
    } else {
        take_flag_spec(c, keys.subrange(1, keys.len() as int))
    }
}

/// Looking for `key value`: the value, an error text when `key` is last,
/// or nothing; the pair is removed only when found whole.
pub open spec fn take_value_spec(c: Seq<Seq<char>>, key: Seq<char>) -> (
    Result<Option<Seq<char>>, Seq<char>>,
    Seq<Seq<char>>,
) {
    let i = index_of(c, key);
    if i < 0 {
        (Ok(None), c)
    } else if i + 1 >= c.len() {
        (Err("the '"@ + key + "' option doesn't have an associated value"@), c)
    } else {
        (Ok(Some(c[i + 1])), c.remove(i).remove(i))
    }
}

/// `pico_args::Arguments::from_vec`: a parser over `args`, in order.
#[verifier::external_body]
fn arguments_from(args: Vec<String>) -> (a: pico_args::Arguments)
    ensures
        remaining_args(a) == strings_view(args@),
        holds_text(a),
{
    pico_args::Arguments::from_vec(args.into_iter().map(|s| s.into()).collect())
}

/// `Arguments::contains([short, long])`: removes the first `short` if there
/// is one, else the first `long`, and tells whether either was found.
#[verifier::external_body]
fn take_flag_pair(a: &mut pico_args::Arguments, short: &'static str, long: &'static str) -> (found:
    bool)
    requires
        short_key(short@),
        long_key(long@),
        holds_text(*old(a)),
    ensures
        (found, remaining_args(*final(a))) == take_flag_spec(
            remaining_args(*old(a)),
            seq![short@, long@],
        ),
        holds_text(*final(a)),
{
    a.contains([short, long])
}

/// `Arguments::contains(key)`: removes the first `key`, and tells whether
/// there was one.
#[verifier::external_body]
fn take_flag(a: &mut pico_args::Arguments, key: &'static str) -> (found: bool)
    requires
        short_key(key@),
        holds_text(*old(a)),
    ensures
        (found, remaining_args(*final(a))) == take_flag_spec(remaining_args(*old(a)), seq![key@]),
        holds_text(*final(a)),
{
    a.contains(key)
}

/// `Arguments::opt_value_from_str(key)` with a text value: the argument
/// after the first `key`, both removed; an error, rendered as text, when
/// `key` is the last argument; nothing when `key` is absent.
#[verifier::external_body]
fn take_value(a: &mut pico_args::Arguments, key: &'static str) -> (r: Result<Option<String>, String>)
    requires
        short_key(key@),
        holds_text(*old(a)),
    ensures
        ({
            let (res, c) = take_value_spec(remaining_args(*old(a)), key@);
            &&& remaining_args(*final(a)) == c
            &&& match (r, res) {
                (Ok(Some(v)), Ok(Some(w))) => v@ == w,
                (Ok(None), Ok(None)) => true,
                (Err(m), Err(n)) => m@ == n,
                _ => false,
            }
        }),
        holds_text(*final(a)),
{
    match a.opt_value_from_str::<&str, String>(key) {
        Ok(v) => Ok(v),
        Err(e) => Err(e.to_string()),
    }
}

/// `Arguments::finish`: the arguments not taken.
#[verifier::external_body]
fn finish_arguments(a: pico_args::Arguments) -> (v: Vec<String>)
    requires
        holds_text(a),
    ensures
        strings_view(v@) == remaining_args(a),
{
    a.finish().into_iter().map(|s| s.to_string_lossy().into_owned()).collect()
}

#[derive(Debug, Clone, Copy, PartialEq, Eq, Structural)]
pub enum Emit {
    Executable,
    Assembly,
    LlvmIr,
}

#[derive(Debug)]
pub struct Args {
    pub input: String,
    pub output: Option<String>,
    pub emit: Emit,
    pub opt_level: u8,
    pub verbose: bool,
}

/// What the driver needs to build an output file.
#[derive(Debug)]
pub struct BuildOptions {
    pub emit: Emit,
    pub opt_level: u8,
    pub verbose: bool,
    pub output_path: String,
}

#[derive(Debug)]
pub enum ParseOutcome {
    Run(Args),
    Help,
    Version,
    Error(String),
}

/// The level `-O0`..`-O3` stands for, if `a` is one of them.
pub open spec fn opt_flag(a: Seq<char>) -> Option<u8> {
    if a == "-O0"@ {
        Some(0)
    } else if a == "-O1"@ {
        Some(1)
    } else if a == "-O2"@ {
        Some(2)
    } else if a == "-O3"@ {
        Some(3)
    } else {
        None
    }
}

/// Scanning `args` left to right with the level seen so far: the arguments
/// that are not level flags, and the level, or the message for the first
/// flag that contradicts an earlier one.
pub open spec fn opt_scan(args: Seq<Seq<char>>, level: Option<u8>) -> Result<
    (Seq<Seq<char>>, Option<u8>),
    Seq<char>,
>
    decreases args.len(),
{
    if args.len() == 0 {
        Ok((Seq::empty(), level))
    } else {
        match opt_flag(args[0]) {
            Some(n) => {
                if level is Some && level->Some_0 != n {
                    Err(
                        "conflicting optimization levels: -O"@ + decimal(level->Some_0 as nat)
                            + " and -O"@ + decimal(n as nat),
                    )
                } else {
                    opt_scan(args.subrange(1, args.len() as int), Some(n))
                }
            },
            None => match opt_scan(args.subrange(1, args.len() as int), level) {
                Ok((rest, l)) => Ok((seq![args[0]] + rest, l)),
                Err(m) => Err(m),
            },
        }
    }
}

/// The arguments kept by level extraction hold no level flag, and are the
/// others in their original order.
pub proof fn law_opt_flags_removed(args: Seq<Seq<char>>, level: Option<u8>)
    ensures
        opt_scan(args, level) matches Ok((rest, _)) ==> (forall|i: int|
            0 <= i < rest.len() ==> opt_flag(#[trigger] rest[i]) is None) && rest == args.filter(
            |a: Seq<char>| opt_flag(a) is None,
        ),
    decreases args.len(),
{
    if args.len() > 0 {
        let tail = args.subrange(1, args.len() as int);
        match opt_flag(args[0]) {
            Some(n) => {
                law_opt_flags_removed(tail, Some(n));
            },
            None => {
                law_opt_flags_removed(tail, level);
            },
        }
        assert(args =~= seq![args[0]] + tail);
        tail.lemma_filter_prepend(args[0], |a: Seq<char>| opt_flag(a) is None);
        match opt_scan(args, level) {
            Ok((rest, _)) => {
                if opt_flag(args[0]) is None {
                    let (r2, l2) = opt_scan(tail, level)->Ok_0;
                    assert(rest == seq![args[0]] + r2);
                    assert(rest =~= seq![args[0]] + tail.filter(|a: Seq<char>| opt_flag(a) is None));
                    assert forall|i: int| 0 <= i < rest.len() implies opt_flag(#[trigger] rest[i]) is None by {
                        if i > 0 {
                            assert(rest[i] == r2[i - 1]);
                        }
                    }
                }
            },
            Err(_) => {},
        }
    } else {
        assert(args.filter(|a: Seq<char>| opt_flag(a) is None) =~= Seq::<Seq<char>>::empty());
    }
}

/// Asking for help wins over everything but contradictory levels.
pub proof fn law_help_wins(raw: Seq<Seq<char>>)
    requires
        opt_scan(raw, None) is Ok,
        index_of(opt_scan(raw, None)->Ok_0.0, "-h"@) >= 0,
    ensures
        parse_spec(raw) == OutcomeV::Help,
{
}

fn opt_flag_exec(a: &String) -> (r: Option<u8>)
    ensures
        r == opt_flag(a@),
{
    let mut flag = String::new();
    append_str(&mut flag, "-O0");
    if *a == flag {
        return Some(0);
    }
    let mut flag = String::new();
    append_str(&mut flag, "-O1");
    if *a == flag {
        return Some(1);
    }
    let mut flag = String::new();
    append_str(&mut flag, "-O2");
    if *a == flag {
        return Some(2);
    }
    let mut flag = String::new();
    append_str(&mut flag, "-O3");
    if *a == flag {
        return Some(3);
    }
    None
}

/// Takes `-O0`..`-O3` out of `args`. The last level given wins; two
/// different levels are an error. Without any, the level is 0.
pub fn extract_opt_level(args: Vec<String>) -> (r: Result<(Vec<String>, u8), String>)
    ensures
        match opt_scan(strings_view(args@), None) {
            Ok((rest, level)) => r matches Ok((v, n)) && strings_view(v@) == rest && n == match level {
                Some(l) => l,
                None => 0,
            },
            Err(m) => r matches Err(e) && e@ == m,
        },
{
    let mut level: Option<u8> = None;
    let mut filtered: Vec<String> = Vec::new();
    let ghost all = strings_view(args@);
    let mut i: usize = 0;
    proof {
        assert(all.subrange(0, all.len() as int) =~= all);
        assert(strings_view(filtered@) =~= Seq::<Seq<char>>::empty());
        let o = opt_scan(all, None);
        if o is Ok {
            assert(strings_view(filtered@) + o->Ok_0.0 =~= o->Ok_0.0);
        }
    }
    while i < args.len()
        invariant
            i <= args.len(),
            all == strings_view(args@),
            opt_scan(all, None) == match opt_scan(all.subrange(i as int, all.len() as int), level) {
                Ok((rest, l)) => Ok((strings_view(filtered@) + rest, l)),
                Err(m) => Err(m),
            },
        decreases args.len() - i,
    {
        proof {
            let t = all.subrange(i as int, all.len() as int);
            assert(t[0] == args@[i as int]@);
            assert(t.subrange(1, t.len() as int) =~= all.subrange(i + 1, all.len() as int));
        }
        let matched = opt_flag_exec(&args[i]);
        match matched {
            Some(n) => {
                if let Some(prev) = level {
                    if prev != n {
                        let mut msg = String::new();
                        append_str(&mut msg, "conflicting optimization levels: -O");
                        push_decimal(&mut msg, prev as u64);
                        append_str(&mut msg, " and -O");
                        push_decimal(&mut msg, n as u64);
                        return Err(msg);
                    }
                }
                level = Some(n);
            },
            None => {
                let ghost before = strings_view(filtered@);
                filtered.push(args[i].clone());
                proof {
                    assert(strings_view(filtered@) =~= before.push(args@[i as int]@));
                    assert forall|rest: Seq<Seq<char>>| #[trigger] (before + (seq![args@[i as int]@]
                        + rest)) == strings_view(filtered@) + rest by {
                        assert(before + (seq![args@[i as int]@] + rest) =~= strings_view(filtered@)
                            + rest);
                    }
                }
            },
        }
        i = i + 1;
    }
    proof {
        assert(all.subrange(args.len() as int, all.len() as int) =~= Seq::<Seq<char>>::empty());
        assert(strings_view(filtered@) + Seq::<Seq<char>>::empty() =~= strings_view(filtered@));
    }
    let n = match level {
        Some(l) => l,
        None => 0,
    };
    Ok((filtered, n))
}

/// What `{:?}` writes for an operating-system string holding the text `s`:
/// std's `Debug` text of an `OsStr`, in double quotes with the characters
/// that need it escaped (a `'` among them).
pub uninterp spec fn os_str_debug(s: Seq<char>) -> Seq<char>;

/// `format!("{:?}", Path::new(s))`: std's `Debug` text of the path `s`,
/// which is that of the `OsStr` it wraps. The text is a function of the
/// string alone; nothing more of it is claimed here.
#[verifier::external_body]
fn debug_os_str(s: &str) -> (r: String)
    ensures
        r@ == os_str_debug(s@),
{
    format!("{:?}", std::path::Path::new(s))
}

/// What `{:?}` writes for a list of operating-system strings: `["a", "b"]`.
pub open spec fn debug_list(items: Seq<Seq<char>>) -> Seq<char> {
    "["@ + debug_items(items) + "]"@
}

/// The `Debug` texts of the operating-system strings `items`, separated by
/// `, `.
pub open spec fn debug_items(items: Seq<Seq<char>>) -> Seq<char>
    decreases items.len(),
{
    if items.len() == 0 {
        Seq::empty()
    } else if items.len() == 1 {
        os_str_debug(items[0])
    } else {
        debug_items(items.drop_last()) + ", "@ + os_str_debug(items.last())
    }
}

fn push_debug_list(s: &mut String, items: &[String])
    ensures
        final(s)@ == old(s)@ + debug_list(strings_view(items@)),
{
    let ghost start = s@;
    append_str(s, "[");
    assert(strings_view(items@.subrange(0, 0)) =~= Seq::<Seq<char>>::empty());
    let mut i: usize = 0;
    while i < items.len()
        invariant
            i <= items.len(),
            s@ == start + "["@ + debug_items(strings_view(items@.subrange(0, i as int))),
        decreases items.len() - i,
    {
        proof {
            let x = strings_view(items@.subrange(0, i + 1));
            assert(x.drop_last() =~= strings_view(items@.subrange(0, i as int)));
            assert(x.last() == items@[i as int]@);
        }
        if i > 0 {
            append_str(s, ", ");
        }
        let text = debug_os_str(items[i].as_str());
        append_str(s, text.as_str());
        i = i + 1;
    }
    append_str(s, "]");
    assert(items@.subrange(0, items.len() as int) =~= items@);
}

/// The error for arguments left over after the input file, given how they
/// are listed.
pub fn extra_arguments_error(listing: String) -> (r: ParseOutcome)
    ensures
        outcome_view(r) == OutcomeV::Error("unexpected extra arguments: "@ + listing@),
{
    let mut m = String::new();
    append_str(&mut m, "unexpected extra arguments: ");
    append_str(&mut m, listing.as_str());
    ParseOutcome::Error(m)
}

/// The mathematical value of a [`ParseOutcome`].
pub enum OutcomeV {
    Run { input: Seq<char>, output: Option<Seq<char>>, emit: Emit, opt_level: u8, verbose: bool },
    Help,
    Version,
    Error(Seq<char>),
}

pub open spec fn outcome_view(o: ParseOutcome) -> OutcomeV {
    match o {
        ParseOutcome::Run(a) => OutcomeV::Run {
            input: a.input@,
            output: match a.output {
                Some(p) => Some(p@),
                None => None,
            },
            emit: a.emit,
            opt_level: a.opt_level,
            verbose: a.verbose,
        },
        ParseOutcome::Help => OutcomeV::Help,
        ParseOutcome::Version => OutcomeV::Version,
        ParseOutcome::Error(m) => OutcomeV::Error(m@),
    }
}

/// What the command line `raw` (without the program name) asks for.
pub open spec fn parse_spec(raw: Seq<Seq<char>>) -> OutcomeV {
    match opt_scan(raw, None) {
        Err(m) => OutcomeV::Error(m),
        Ok((c0, level)) => {
            let opt_level: u8 = match level {
                Some(l) => l,
                None => 0,
            };
            let (help, c1) = take_flag_spec(c0, seq!["-h"@, "--help"@]);
            if help {
                OutcomeV::Help
            } else {
                let (version, c2) = take_flag_spec(c1, seq!["-V"@, "--version"@]);
                if version {
                    OutcomeV::Version
                } else {
                    let (verbose, c3) = take_flag_spec(c2, seq!["-v"@, "--verbose"@]);
                    let (emit_s, c4) = take_flag_spec(c3, seq!["-S"@]);
                    let (emit_ir, c5) = take_flag_spec(c4, seq!["-R"@, "--emit-llvm-ir"@]);
                    if emit_s && emit_ir {
                        OutcomeV::Error("cannot combine -S and -R/--emit-llvm-ir"@)
                    } else {
                        let emit = if emit_s {
                            Emit::Assembly
                        } else if emit_ir {
                            Emit::LlvmIr
                        } else {
                            Emit::Executable
                        };
                        let (output, c6) = take_value_spec(c5, "-o"@);
                        match output {
                            Err(e) => OutcomeV::Error("invalid value for -o: "@ + e),
                            Ok(output) => {
                                if c6.len() == 0 {
                                    OutcomeV::Error("missing input file"@)
                                } else if c6.len() > 1 {
                                    OutcomeV::Error(
                                        "unexpected extra arguments: "@ + debug_list(
                                            c6.subrange(1, c6.len() as int),
                                        ),
                                    )
                                } else {
                                    OutcomeV::Run {
                                        input: c6[0],
                                        output,
                                        emit,
                                        opt_level,
                                        verbose,
                                    }
                                }
                            },
                        }
                    }
                }
            }
        },
    }
}

fn error_outcome(text: &str) -> (r: ParseOutcome)
    ensures
        outcome_view(r) == OutcomeV::Error(text@),
{
    let mut m = String::new();
    append_str(&mut m, text);
    ParseOutcome::Error(m)
}

/// Parses the command line `raw` (without the program name).
pub fn parse(raw: Vec<String>) -> (r: ParseOutcome)
    ensures
        outcome_view(r) == parse_spec(strings_view(raw@)),
{
    proof {
        reveal_strlit("-h");
        reveal_strlit("--help");
        reveal_strlit("-V");
        reveal_strlit("--version");
        reveal_strlit("-v");
        reveal_strlit("--verbose");
        reveal_strlit("-S");
        reveal_strlit("-R");
        reveal_strlit("--emit-llvm-ir");
        reveal_strlit("-o");
    }
    let (rest, opt_level) = match extract_opt_level(raw) {
        Ok(pair) => pair,
        Err(msg) => return ParseOutcome::Error(msg),
    };
    let mut pargs = arguments_from(rest);
    if take_flag_pair(&mut pargs, "-h", "--help") {
        return ParseOutcome::Help;
    }
    if take_flag_pair(&mut pargs, "-V", "--version") {
        return ParseOutcome::Version;
    }
    let verbose = take_flag_pair(&mut pargs, "-v", "--verbose");
    let emit_s = take_flag(&mut pargs, "-S");
    let emit_ir = take_flag_pair(&mut pargs, "-R", "--emit-llvm-ir");
    let emit = if emit_s && emit_ir {
        return error_outcome("cannot combine -S and -R/--emit-llvm-ir");
    } else if emit_s {
        Emit::Assembly
    } else if emit_ir {
        Emit::LlvmIr
    } else {
        Emit::Executable
    };
    let output = match take_value(&mut pargs, "-o") {
        Ok(v) => v,
        Err(e) => {
            let mut m = String::new();
            append_str(&mut m, "invalid value for -o: ");
            append_str(&mut m, e.as_str());
            return ParseOutcome::Error(m);
        },
    };
    let remaining = finish_arguments(pargs);
    if remaining.len() == 0 {
        return error_outcome("missing input file");
    }
    if remaining.len() > 1 {
        let ghost all = remaining@;
        let mut listing = String::new();
        push_debug_list(&mut listing, remaining.as_slice().split_at(1).1);
        proof {
            assert(remaining@.subrange(1, remaining@.len() as int) =~= all.subrange(
                1,
                all.len() as int,
            ));
            assert(strings_view(all.subrange(1, all.len() as int)) =~= strings_view(all).subrange(
                1,
                all.len() as int,
            ));
        }
        return extra_arguments_error(listing);
    }
    let input = remaining[0].clone();
    ParseOutcome::Run(Args { input, output, emit, opt_level, verbose })
}

} // verus!
