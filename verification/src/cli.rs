//! The command line: an optional `--env-file PATH`, and the Codex payload,
//! given after `--notify-payload` or as the first argument that starts,
//! after white space, with `{`. Other arguments are ignored.

use vstd::prelude::*;
use crate::event::{opt_chars, NotificationKind};
use crate::text::{is_white_space, lemma_trim_start_bounds, str_eq, trim_start, trim_start_seq};

verus! {

/// What the command line asks for.
#[derive(Debug)]
pub struct CliArgs {
    pub env_file: Option<String>,
    pub notify_payload: Option<String>,
}

/// The error text for `--env-file` as the last argument.
pub open spec fn missing_env_path_text() -> Seq<char> {
    "--env-file 缺少路径参数"@
}

/// The error text for `--notify-payload` as the last argument.
pub open spec fn missing_payload_text() -> Seq<char> {
    "--notify-payload 缺少 JSON 参数"@
}

/// An argument that is taken for a bare JSON payload.
pub open spec fn looks_like_payload(v: Seq<char>) -> bool {
    let t = trim_start_seq(v);
    t.len() > 0 && t[0] == '{'
}

/// Reads `args` from position `i` on, with `env` and `payload` found so far:
/// the environment file path and the payload, or the error met first.
pub open spec fn scan_args(
    args: Seq<Seq<char>>,
    i: int,
    env: Option<Seq<char>>,
    payload: Option<Seq<char>>,
) -> Result<(Option<Seq<char>>, Option<Seq<char>>), Seq<char>>
    decreases args.len() - i,
{
    if i < 0 || i >= args.len() {
        Ok((env, payload))
    } else if args[i] == "--env-file"@ {
        if i + 1 < args.len() {
            scan_args(args, i + 2, Some(args[i + 1]), payload)
        } else {
            Err(missing_env_path_text())
        }
    } else if args[i] == "--notify-payload"@ {
        if i + 1 < args.len() {
            scan_args(args, i + 2, env, Some(args[i + 1]))
        } else {
            Err(missing_payload_text())
        }
    } else if payload is None && looks_like_payload(args[i]) {
        scan_args(args, i + 1, env, Some(args[i]))
    } else {
        scan_args(args, i + 1, env, payload)
    }
}

/// The meaning of the whole argument list `args` (program name excluded).
pub open spec fn parse_args_spec(args: Seq<Seq<char>>) -> Result<
    (Option<Seq<char>>, Option<Seq<char>>),
    Seq<char>,
> {
    scan_args(args, 0, None, None)
}

proof fn lemma_scan_append(
    a: Seq<Seq<char>>,
    b: Seq<Seq<char>>,
    i: int,
    env: Option<Seq<char>>,
    payload: Option<Seq<char>>,
)
    requires
        0 <= i <= a.len(),
        scan_args(a, i, env, payload) is Ok,
    ensures
        scan_args(a + b, i, env, payload) == scan_args(
            a + b,
            a.len() as int,
            scan_args(a, i, env, payload)->Ok_0.0,
            scan_args(a, i, env, payload)->Ok_0.1,
        ),
    decreases a.len() - i,
{
    let ab = a + b;
    if i < a.len() {
        assert(ab[i] == a[i]);
        if i + 1 < a.len() {
            assert(ab[i + 1] == a[i + 1]);
        }
        if a[i] == "--env-file"@ {
            lemma_scan_append(a, b, i + 2, Some(a[i + 1]), payload);
        } else if a[i] == "--notify-payload"@ {
            lemma_scan_append(a, b, i + 2, env, Some(a[i + 1]));
        } else if payload is None && looks_like_payload(a[i]) {
            lemma_scan_append(a, b, i + 1, env, Some(a[i]));
        } else {
            lemma_scan_append(a, b, i + 1, env, payload);
        }
    }
}

/// Options are read wherever they stand: after a well-formed argument list,
/// a further `--env-file PATH` sets the environment file to `PATH` and keeps
/// the payload found so far.
pub proof fn lemma_later_env_file_wins(args: Seq<Seq<char>>, path: Seq<char>)
    requires
        parse_args_spec(args) is Ok,
    ensures
        parse_args_spec(args + seq!["--env-file"@, path]) == Ok::<
            (Option<Seq<char>>, Option<Seq<char>>),
            Seq<char>,
        >((Some(path), parse_args_spec(args)->Ok_0.1)),
{
    let b = seq!["--env-file"@, path];
    lemma_scan_append(args, b, 0, None, None);
    let ab = args + b;
    assert(ab[args.len() as int] == "--env-file"@);
    assert(ab[args.len() as int + 1] == path);
    let r = parse_args_spec(args)->Ok_0;
    let n = args.len() as int;
    assert(scan_args(ab, n + 2, Some(path), r.1) == Ok::<
        (Option<Seq<char>>, Option<Seq<char>>),
        Seq<char>,
    >((Some(path), r.1)));
    assert(scan_args(ab, n, r.0, r.1) == scan_args(ab, n + 2, Some(path), r.1));
}

/// Options are read wherever they stand: after a well-formed argument list,
/// a further `--notify-payload JSON` sets the payload to `JSON` and keeps
/// the environment file found so far.
pub proof fn lemma_later_payload_wins(args: Seq<Seq<char>>, json: Seq<char>)
    requires
        parse_args_spec(args) is Ok,
    ensures
        parse_args_spec(args + seq!["--notify-payload"@, json]) == Ok::<
            (Option<Seq<char>>, Option<Seq<char>>),
            Seq<char>,
        >((parse_args_spec(args)->Ok_0.0, Some(json))),
{
    reveal_strlit("--env-file");
    reveal_strlit("--notify-payload");
    let b = seq!["--notify-payload"@, json];
    lemma_scan_append(args, b, 0, None, None);
    let ab = args + b;
    assert(ab[args.len() as int] == "--notify-payload"@);
    assert(ab[args.len() as int + 1] == json);
    assert("--notify-payload"@ != "--env-file"@) by {
        assert("--notify-payload"@[2] != "--env-file"@[2]);
    }
    let r = parse_args_spec(args)->Ok_0;
    let n = args.len() as int;
    assert(scan_args(ab, n + 2, r.0, Some(json)) == Ok::<
        (Option<Seq<char>>, Option<Seq<char>>),
        Seq<char>,
    >((r.0, Some(json))));
    assert(scan_args(ab, n, r.0, r.1) == scan_args(ab, n + 2, r.0, Some(json)));
}

/// The two options may come in either order: both orders give the
/// environment file `path` and the payload `json`.
pub proof fn lemma_option_order_is_irrelevant(json: Seq<char>, path: Seq<char>)
    ensures
        parse_args_spec(seq!["--notify-payload"@, json, "--env-file"@, path]) == Ok::<
            (Option<Seq<char>>, Option<Seq<char>>),
            Seq<char>,
        >((Some(path), Some(json))),
        parse_args_spec(seq!["--env-file"@, path, "--notify-payload"@, json]) == Ok::<
            (Option<Seq<char>>, Option<Seq<char>>),
            Seq<char>,
        >((Some(path), Some(json))),
{
    let e: Seq<Seq<char>> = seq![];
    assert(parse_args_spec(e) == Ok::<(Option<Seq<char>>, Option<Seq<char>>), Seq<char>>(
        (None, None),
    ));
    lemma_later_payload_wins(e, json);
    assert(e + seq!["--notify-payload"@, json] =~= seq!["--notify-payload"@, json]);
    lemma_later_env_file_wins(seq!["--notify-payload"@, json], path);
    assert(seq!["--notify-payload"@, json] + seq!["--env-file"@, path] =~= seq![
        "--notify-payload"@,
        json,
        "--env-file"@,
        path,
    ]);
    lemma_later_env_file_wins(e, path);
    assert(e + seq!["--env-file"@, path] =~= seq!["--env-file"@, path]);
    lemma_later_payload_wins(seq!["--env-file"@, path], json);
    assert(seq!["--env-file"@, path] + seq!["--notify-payload"@, json] =~= seq![
        "--env-file"@,
        path,
        "--notify-payload"@,
        json,
    ]);
}

/// A single argument is taken for the payload exactly when, after white
/// space only, it starts with `{`; it is then kept as given.
pub proof fn lemma_bare_payload(v: Seq<char>)
    ensures
        (parse_args_spec(seq![v]) == Ok::<(Option<Seq<char>>, Option<Seq<char>>), Seq<char>>(
            (None, Some(v)),
        )) <==> exists|k: int|
            0 <= k < v.len() && v[k] == '{' && forall|j: int|
                0 <= j < k ==> is_white_space(#[trigger] v[j]),
{
    reveal_strlit("--env-file");
    reveal_strlit("--notify-payload");
    let a = seq![v];
    assert(a.len() == 1 && a[0] == v);
    let i = lemma_trim_start_bounds(v);
    let t = trim_start_seq(v);
    let rhs = exists|k: int|
        0 <= k < v.len() && v[k] == '{' && forall|j: int|
            0 <= j < k ==> is_white_space(#[trigger] v[j]);
    if looks_like_payload(v) {
        assert(t[0] == v[i]);
        assert(v[i] == '{');
        assert(rhs);
    } else if rhs {
        let k = choose|k: int|
            0 <= k < v.len() && v[k] == '{' && forall|j: int|
                0 <= j < k ==> is_white_space(#[trigger] v[j]);
        assert(!is_white_space('{'));
        if k < i {
            assert(is_white_space(v[k]));
        } else if k > i {
            assert(i < v.len());
            assert(is_white_space(v[i]));
            assert(t[0] == v[i]);
        } else {
            assert(t[0] == v[i]);
        }
    }
    if v == "--env-file"@ {
        assert(!rhs) by {
            if rhs {
                let k = choose|k: int|
                    0 <= k < v.len() && v[k] == '{' && forall|j: int|
                        0 <= j < k ==> is_white_space(#[trigger] v[j]);
            }
        }
    } else if v == "--notify-payload"@ {
        assert(!rhs) by {
            if rhs {
                let k = choose|k: int|
                    0 <= k < v.len() && v[k] == '{' && forall|j: int|
                        0 <= j < k ==> is_white_space(#[trigger] v[j]);
            }
        }
    } else if looks_like_payload(v) {
        assert(scan_args(a, 1, None, Some(v)) == Ok::<
            (Option<Seq<char>>, Option<Seq<char>>),
            Seq<char>,
        >((None, Some(v))));
    } else {
        assert(scan_args(a, 1, None, None) == Ok::<
            (Option<Seq<char>>, Option<Seq<char>>),
            Seq<char>,
        >((None, None)));
    }
}

/// The view of a parse result.
pub open spec fn cli_result_view(r: Result<CliArgs, String>) -> Result<
    (Option<Seq<char>>, Option<Seq<char>>),
    Seq<char>,
> {
    match r {
        Ok(c) => Ok((opt_chars(c.env_file), opt_chars(c.notify_payload))),
        Err(e) => Err(e@),
    }
}

fn is_payload_arg(v: &str) -> (r: bool)
    ensures
        r == looks_like_payload(v@),
{
    let t = trim_start(v);
    if t.unicode_len() == 0 {
        false
    } else {
        t.get_char(0) == '{'
    }
}

/// Reads the command line `args` (program name excluded).
pub fn parse_cli_args(args: &Vec<String>) -> (r: Result<CliArgs, String>)
    ensures
        cli_result_view(r) == parse_args_spec(args@.map_values(|a: String| a@)),
{
    let ghost a = args@.map_values(|s: String| s@);
    let n = args.len();
    let mut env_file: Option<String> = None;
    let mut notify_payload: Option<String> = None;
    let mut i: usize = 0;
    while i < n
        invariant
            0 <= i <= n + 1,
            n == args@.len(),
            a == args@.map_values(|s: String| s@),
            parse_args_spec(a) == scan_args(
                a,
                i as int,
                opt_chars(env_file),
                opt_chars(notify_payload),
            ),
        decreases n + 1 - i,
    {
        let arg = args[i].as_str();
        assert(a[i as int] == arg@);
        if str_eq(arg, "--env-file") {
            if i + 1 < n {
                assert(a[i + 1] == args@[i + 1]@);
                env_file = Some(args[i + 1].clone());
                i = i + 2;
            } else {
                return Err(String::from_str("--env-file 缺少路径参数"));
            }
        } else if str_eq(arg, "--notify-payload") {
            if i + 1 < n {
                assert(a[i + 1] == args@[i + 1]@);
                notify_payload = Some(args[i + 1].clone());
                i = i + 2;
            } else {
                return Err(String::from_str("--notify-payload 缺少 JSON 参数"));
            }
        } else if notify_payload.is_none() && is_payload_arg(arg) {
            notify_payload = Some(String::from_str(arg));
            i = i + 1;
        } else {
            i = i + 1;
        }
    }
    Ok(CliArgs { env_file, notify_payload })
}

/// Which interface an invocation serves: a Codex payload on the command line
/// wins; without one, a legacy hook record is read from standard input.
pub fn notification_kind(args: &CliArgs) -> (k: NotificationKind)
    ensures
        k == (if args.notify_payload is Some {
            NotificationKind::Codex
        } else {
            NotificationKind::LegacyHook
        }),
{
    if args.notify_payload.is_some() {
        NotificationKind::Codex
    } else {
        NotificationKind::LegacyHook
    }
}

} // verus!
