//! The command line: its usage text, its arguments, and what a finished
//! audit makes the program say and exit with.
use vstd::prelude::*;
use crate::report::{check_ids, check_outcomes, failure_lines, AuditInputs, Report};
use crate::text::{str_eq, strings_view};

verus! {

/// The usage text.
pub open spec fn usage_text() -> Seq<char> {
    "usage: declmig-validation-import-check [--root PATH] [--report PATH]"@
}

/// The usage text.
pub fn usage() -> (r: &'static str)
    ensures
        r@ == usage_text(),
{
    "usage: declmig-validation-import-check [--root PATH] [--report PATH]"
}

/// The `Debug` rendering of a string: quoted, with its special characters escaped.
pub uninterp spec fn debug_quoted(s: Seq<char>) -> Seq<char>;

/// Calls `<str as Debug>::fmt` through `format!`; the result is named, not
/// stated: std's escaping rules are not restated here.
#[verifier::external_body]
fn debug_quote(s: &str) -> (r: String)
    ensures
        r@ == debug_quoted(s@),
{
    format!("{s:?}")
}

/// The message for an unknown argument, given its quoted rendering.
pub fn unknown_argument_message(quoted: &str) -> (m: String)
    ensures
        m@ == "unknown argument "@ + quoted@ + "; "@ + usage_text(),
{
    let mut m = String::from_str("unknown argument ");
    m.append(quoted);
    m.append("; ");
    m.append(usage());
    m
}

/// What the arguments `args` answer, with `root` and `report` as chosen so far.
pub open spec fn spec_parse_args(
    args: Seq<Seq<char>>,
    root: Seq<char>,
    report: Option<Seq<char>>,
) -> Result<(Seq<char>, Option<Seq<char>>), Seq<char>>
    decreases args.len(),
{
    if args.len() == 0 {
        Ok((root, report))
    } else {
        let a = args[0];
        if a == "--root"@ {
            if args.len() < 2 {
                Err("--root requires a path"@)
            } else {
                spec_parse_args(args.skip(2), args[1], report)
            }
        } else if a == "--report"@ {
            if args.len() < 2 {
                Err("--report requires a path"@)
            } else {
                spec_parse_args(args.skip(2), root, Some(args[1]))
            }
        } else if a == "-h"@ || a == "--help"@ {
            Err(usage_text())
        } else {
            Err("unknown argument "@ + debug_quoted(a) + "; "@ + usage_text())
        }
    }
}

/// The view of the parsed arguments.
pub open spec fn parsed_view(r: Result<(String, Option<String>), String>) -> Result<(Seq<char>, Option<Seq<char>>), Seq<char>> {
    match r {
        Ok((root, report)) => Ok((root@, match report {
            Some(p) => Some(p@),
            None => None,
        })),
        Err(e) => Err(e@),
    }
}

/// Reads the arguments after the program name: `--root PATH` and
/// `--report PATH`, each taking the next argument, the last one given
/// winning; `-h` or `--help` answers the usage text, anything else is an
/// unknown argument. The root defaults to `default_root`, the report path
/// to none.
pub fn parse_args(default_root: String, args: Vec<String>) -> (r: Result<(String, Option<String>), String>)
    ensures
        parsed_view(r) == spec_parse_args(strings_view(args@), default_root@, None),
{
    let ghost all = strings_view(args@);
    let mut root = default_root;
    let mut report: Option<String> = None;
    let mut i: usize = 0;
    assert(all.skip(0) =~= all);
    while i < args.len()
        invariant
            i <= args.len(),
            all == strings_view(args@),
            spec_parse_args(all, default_root@, None) == spec_parse_args(
                all.skip(i as int),
                root@,
                match report {
                    Some(p) => Some(p@),
                    None => None,
                },
            ),
        decreases args.len() - i,
    {
        let ghost rest = all.skip(i as int);
        let argument = args[i].as_str();
        assert(rest[0] == argument@);
        if str_eq(argument, "--root") {
            if i + 1 >= args.len() {
                return Err(String::from_str("--root requires a path"));
            }
            assert(rest[1] == args@[i + 1]@);
            assert(rest.skip(2) =~= all.skip(i + 2));
            root = args[i + 1].clone();
            i = i + 2;
        } else if str_eq(argument, "--report") {
            if i + 1 >= args.len() {
                return Err(String::from_str("--report requires a path"));
            }
            assert(rest[1] == args@[i + 1]@);
            assert(rest.skip(2) =~= all.skip(i + 2));
            report = Some(args[i + 1].clone());
            i = i + 2;
        } else if str_eq(argument, "-h") || str_eq(argument, "--help") {
            return Err(String::from_str(usage()));
        } else {
            let quoted = debug_quote(argument);
            return Err(unknown_argument_message(quoted.as_str()));
        }
    }
    assert(all.skip(i as int) =~= Seq::<Seq<char>>::empty());
    Ok((root, report))
}

/// The lines the program prints after an audit, and its exit status: on a
/// pass, one line on standard output and status 0; on a failure, a heading
/// and one ` - error` line per error on standard error, and status 1.
pub open spec fn spec_completion(passed: bool, errors: Seq<Seq<char>>) -> (u8, Seq<Seq<char>>) {
    if passed {
        (0, seq!["validated 4 public validation consumer boundaries"@])
    } else {
        (1, seq!["validation import audit failed:"@] + errors.map_values(|e: Seq<char>| " - "@ + e))
    }
}

/// Any failed check makes the program exit with a non-zero status: the
/// audit's pass flag is false exactly when some check failed, and the
/// completion of a failed audit exits with status 1.
pub proof fn lemma_any_failure_exits_nonzero(inputs: AuditInputs)
    ensures
        (exists|i: int| 0 <= i < 4 && (#[trigger] check_outcomes(inputs)[i]) is Err) <==> spec_completion(
            forall|i: int| 0 <= i < 4 ==> (#[trigger] check_outcomes(inputs)[i]) is Ok,
            failure_lines(check_ids(), check_outcomes(inputs)),
        ).0 != 0,
{
}

/// What the program says and exits with once `report` is in.
pub fn completion(report: &Report) -> (r: (u8, Vec<String>))
    ensures
        (r.0, strings_view(r.1@)) == spec_completion(report.zero_unexplained_findings, strings_view(report.errors@)),
{
    let mut lines: Vec<String> = Vec::new();
    if report.zero_unexplained_findings {
        lines.push(String::from_str("validated 4 public validation consumer boundaries"));
        assert(strings_view(lines@) =~= seq!["validated 4 public validation consumer boundaries"@]);
        return (0, lines);
    }
    lines.push(String::from_str("validation import audit failed:"));
    let ghost errs = strings_view(report.errors@);
    let ghost f = |e: Seq<char>| " - "@ + e;
    let mut i: usize = 0;
    while i < report.errors.len()
        invariant
            i <= report.errors.len(),
            errs == strings_view(report.errors@),
            f == (|e: Seq<char>| " - "@ + e),
            strings_view(lines@) == seq!["validation import audit failed:"@] + errs.take(i as int).map_values(f),
        decreases report.errors.len() - i,
    {
        let mut line = String::from_str(" - ");
        line.append(report.errors[i].as_str());
        let ghost before = strings_view(lines@);
        lines.push(line);
        assert(errs[i as int] == report.errors@[i as int]@);
        assert(errs.take(i + 1).map_values(f) =~= errs.take(i as int).map_values(f).push(f(errs[i as int])));
        assert(strings_view(lines@) =~= before.push(" - "@ + errs[i as int]));
        i = i + 1;
    }
    assert(errs.take(i as int) =~= errs);
    (1, lines)
}

} // verus!
