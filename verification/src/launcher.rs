//! What the browser launcher decides: the command of a desktop entry and the
//! argument lists of the launch commands.
use vstd::prelude::*;
use crate::netscape::{lines_of, split_lines, trim_chars};
use crate::text::{
    char_is_whitespace, chars_of, decimal_text, decimal, is_white_space, owned, push_all,
    starts_with, string_of, trim, utf8_len,
};

verus! {

/// Scanning an `Exec=` value: the characters kept so far, whether a quote is open,
/// and whether an unquoted white space has ended the first token.
pub open spec fn exec_scan(s: Seq<char>) -> (Seq<char>, bool, bool)
    decreases s.len(),
{
    if s.len() == 0 {
        (Seq::empty(), false, false)
    } else {
        let (t, q, stop) = exec_scan(s.drop_last());
        let c = s.last();
        if stop {
            (t, q, true)
        } else if c == '"' {
            (t, !q, false)
        } else if is_white_space(c) && !q {
            (t, q, true)
        } else {
            (t.push(c), q, false)
        }
    }
}

/// The program of an `Exec=` value: its first token, quotes removed, trimmed; `None`
/// when that is empty.
pub open spec fn exec_token(s: Seq<char>) -> Option<Seq<char>> {
    let t = trim(exec_scan(s).0);
    if t.len() == 0 {
        None
    } else {
        Some(t)
    }
}

/// The first token of an `Exec=` value (see `exec_token`).
pub fn first_exec_token(exec_line: &str) -> (r: Option<String>)
    ensures
        match exec_token(exec_line@) {
            Some(t) => r matches Some(s) && s@ == t,
            None => r is None,
        },
{
    let v = chars_of(exec_line);
    let mut token: Vec<char> = Vec::new();
    let mut in_quotes = false;
    let mut i: usize = 0;
    assert(v@.take(0) =~= Seq::<char>::empty());
    assert(v@.take(v@.len() as int) =~= v@);
    while i < v.len()
        invariant
            i <= v.len(),
            v@ == exec_line@,
            exec_scan(v@.take(i as int)) == (token@, in_quotes, false),
            v@.take(v@.len() as int) == v@,
        ensures
            exec_scan(v@).0 == token@,
        decreases v.len() - i,
    {
        assert(v@.take(i + 1).drop_last() =~= v@.take(i as int));
        assert(v@.take(i + 1).last() == v@[i as int]);
        let ch = v[i];
        if ch == '"' {
            in_quotes = !in_quotes;
        } else if char_is_whitespace(ch) && !in_quotes {
            proof {
                lemma_exec_scan_stops(v@, i + 1);
            }
            break;
        } else {
            token.push(ch);
        }
        i += 1;
    }
    let t = trim_chars(&token);
    if t.len() == 0 {
        None
    } else {
        let s = string_of(&t, 0, t.len());
        assert(t@.subrange(0, t@.len() as int) =~= t@);
        Some(s)
    }
}

proof fn lemma_exec_scan_stops(s: Seq<char>, i: int)
    requires
        0 < i <= s.len(),
        exec_scan(s.take(i)).2,
    ensures
        exec_scan(s).0 == exec_scan(s.take(i)).0,
        exec_scan(s).2,
    decreases s.len() - i,
{
    if i < s.len() {
        assert(s.take(i + 1).drop_last() =~= s.take(i));
        lemma_exec_scan_stops(s, i + 1);
    } else {
        assert(s.take(i) =~= s);
    }
}

/// The program named by the first `Exec=` line of a desktop entry whose value has a
/// token (see `exec_token`).
pub open spec fn desktop_exec_from(ls: Seq<Seq<char>>) -> Option<Seq<char>>
    decreases ls.len(),
{
    if ls.len() == 0 {
        None
    } else if starts_with(ls[0], "Exec="@) && exec_token(ls[0].skip(5)) is Some {
        exec_token(ls[0].skip(5))
    } else {
        desktop_exec_from(ls.drop_first())
    }
}

/// The program a desktop entry runs: the token of its first `Exec=` line that has one.
pub fn desktop_exec(content: &str) -> (r: Option<String>)
    ensures
        match desktop_exec_from(lines_of(content@)) {
            Some(t) => r matches Some(s) && s@ == t,
            None => r is None,
        },
{
    let lines = split_lines(content);
    let ghost lv = lines@.map_values(|l: Vec<char>| l@);
    let prefix = chars_of("Exec=");
    proof {
        reveal_strlit("Exec=");
    }
    let n = lines.len();
    let mut i: usize = 0;
    assert(lv.skip(0) =~= lv);
    while i < n
        invariant
            i <= n == lines@.len(),
            lv == lines@.map_values(|l: Vec<char>| l@),
            lv == lines_of(content@),
            prefix@ == "Exec="@,
            prefix@.len() == 5,
            desktop_exec_from(lv) == desktop_exec_from(lv.skip(i as int)),
        decreases n - i,
    {
        let line = &lines[i];
        assert(lv.skip(i as int)[0] == line@);
        assert(lv.skip(i as int).drop_first() =~= lv.skip(i + 1));
        if crate::text::matches_at(line, &prefix, 0) {
            assert(line@.subrange(0, 5) =~= line@.take(5));
            let rest = string_of(line, 5, line.len());
            assert(line@.subrange(5, line@.len() as int) =~= line@.skip(5));
            match first_exec_token(rest.as_str()) {
                Some(t) => {
                    return Some(t);
                },
                None => {},
            }
        } else {
            assert(line@.subrange(0, 5) =~= line@.take(5));
        }
        i += 1;
    }
    None
}

/// The browser's own arguments: the page as a frameless app window, then the
/// configured extra arguments.
pub open spec fn app_args(url: Seq<char>, extra: Seq<Seq<char>>) -> Seq<Seq<char>> {
    seq!["--app="@ + url] + extra
}

/// The argument list for the browser.
pub fn browser_args(url: &str, extra: &Vec<String>) -> (r: Vec<String>)
    ensures
        r@.map_values(|s: String| s@) == app_args(url@, extra@.map_values(|s: String| s@)),
{
    let mut first = owned("--app=");
    push_all(&mut first, url);
    let mut r: Vec<String> = Vec::new();
    r.push(first);
    let n = extra.len();
    let mut i: usize = 0;
    while i < n
        invariant
            i <= n == extra@.len(),
            r@.map_values(|s: String| s@) == seq!["--app="@ + url@] + extra@.map_values(|s: String| s@).take(
                i as int,
            ),
        decreases n - i,
    {
        let ghost before = r@.map_values(|s: String| s@);
        r.push(extra[i].clone());
        assert(r@.map_values(|s: String| s@) =~= before.push(extra@[i as int]@));
        assert(extra@.map_values(|s: String| s@).take(i + 1) =~= extra@.map_values(|s: String| s@).take(
            i as int,
        ).push(extra@[i as int]@));
        i += 1;
    }
    assert(extra@.map_values(|s: String| s@).take(n as int) =~= extra@.map_values(|s: String| s@));
    r
}

/// `--setenv=` arguments for the environment variables that have a non-empty value.
pub open spec fn setenv_args(envs: Seq<(Seq<char>, Seq<char>)>) -> Seq<Seq<char>>
    decreases envs.len(),
{
    if envs.len() == 0 {
        Seq::empty()
    } else if envs.last().1.len() == 0 {
        setenv_args(envs.drop_last())
    } else {
        setenv_args(envs.drop_last()).push("--setenv="@ + envs.last().0 + "="@ + envs.last().1)
    }
}

/// Arguments of `systemd-run` that start the browser as a transient user service
/// named after the launch time in milliseconds.
pub open spec fn systemd_run_args_spec(
    millis: nat,
    envs: Seq<(Seq<char>, Seq<char>)>,
    browser: Seq<char>,
    args: Seq<Seq<char>>,
) -> Seq<Seq<char>> {
    seq![
        "--user"@,
        "--quiet"@,
        "--collect"@,
        "--service-type=exec"@,
        "--unit=edbookmark-webapp-"@ + decimal(millis),
    ] + setenv_args(envs) + seq![browser] + args
}

/// The argument list of the `systemd-run` launch (see `systemd_run_args_spec`).
pub fn systemd_run_args(millis: usize, envs: &Vec<(String, String)>, browser: &str, args: &Vec<String>) -> (r: Vec<String>)
    ensures
        r@.map_values(|s: String| s@) == systemd_run_args_spec(
            millis as nat,
            envs@.map_values(|p: (String, String)| (p.0@, p.1@)),
            browser@,
            args@.map_values(|s: String| s@),
        ),
{
    let ghost ev = envs@.map_values(|p: (String, String)| (p.0@, p.1@));
    let ghost av = args@.map_values(|s: String| s@);
    let mut r: Vec<String> = Vec::new();
    r.push(owned("--user"));
    r.push(owned("--quiet"));
    r.push(owned("--collect"));
    r.push(owned("--service-type=exec"));
    let mut unit = owned("--unit=edbookmark-webapp-");
    push_all(&mut unit, decimal_text(millis).as_str());
    r.push(unit);
    let ghost head = r@.map_values(|s: String| s@);
    assert(head =~= seq![
        "--user"@,
        "--quiet"@,
        "--collect"@,
        "--service-type=exec"@,
        "--unit=edbookmark-webapp-"@ + decimal(millis as nat),
    ]);
    let n = envs.len();
    let mut i: usize = 0;
    assert(ev.take(0) =~= Seq::<(Seq<char>, Seq<char>)>::empty());
    assert(head + setenv_args(ev.take(0)) =~= head);
    while i < n
        invariant
            i <= n == envs@.len(),
            ev == envs@.map_values(|p: (String, String)| (p.0@, p.1@)),
            r@.map_values(|s: String| s@) == head + setenv_args(ev.take(i as int)),
        decreases n - i,
    {
        assert(ev.take(i + 1).drop_last() =~= ev.take(i as int));
        assert(ev.take(i + 1).last() == ev[i as int]);
        let (k, v) = (&envs[i].0, &envs[i].1);
        let vlen = crate::text::byte_len(v.as_str());
        proof {
            crate::text::lemma_utf8_len_ge_len(v@);
            if v@.len() == 0 {
                assert(utf8_len(v@) == 0);
            }
        }
        if vlen != 0 {
            let mut a = owned("--setenv=");
            push_all(&mut a, k.as_str());
            push_all(&mut a, "=");
            push_all(&mut a, v.as_str());
            let ghost before = r@.map_values(|s: String| s@);
            r.push(a);
            assert(r@.map_values(|s: String| s@) =~= before.push("--setenv="@ + ev[i as int].0 + "="@ + ev[i as int].1));
        }
        i += 1;
    }
    assert(ev.take(n as int) =~= ev);
    let ghost mid = r@.map_values(|s: String| s@);
    r.push(owned(browser));
    let m = args.len();
    let mut j: usize = 0;
    while j < m
        invariant
            j <= m == args@.len(),
            av == args@.map_values(|s: String| s@),
            r@.map_values(|s: String| s@) == mid + seq![browser@] + av.take(j as int),
        decreases m - j,
    {
        let ghost before = r@.map_values(|s: String| s@);
        r.push(args[j].clone());
        assert(r@.map_values(|s: String| s@) =~= before.push(av[j as int]));
        assert(av.take(j + 1) =~= av.take(j as int).push(av[j as int]));
        j += 1;
    }
    assert(av.take(m as int) =~= av);
    assert(r@.map_values(|s: String| s@) =~= systemd_run_args_spec(millis as nat, ev, browser@, av));
    r
}

/// The ways of starting the browser, tried in this order until one works.
#[derive(Debug, Clone, Copy, PartialEq, Eq, Structural)]
pub enum LaunchStage {
    /// As a transient user service through `systemd-run`.
    SystemdRun,
    /// Through `setsid uwsm-app --`.
    Uwsm,
    /// Through `setsid` alone.
    Setsid,
    /// The browser itself.
    Direct,
    /// The browser was started.
    Launched,
    /// Every way failed.
    GaveUp,
}

/// What trying a stage gave.
#[derive(Debug, Clone, Copy, PartialEq, Eq, Structural)]
pub enum LaunchOutcome {
    /// The command ran and started the browser.
    Started,
    /// The command was found but failed.
    Failed,
    /// The command needed for the stage was not found.
    Unavailable,
}

/// The stage after trying `stage` with `outcome`: done once something started the
/// browser, otherwise the next fallback, and giving up after the direct start.
pub open spec fn stage_after(stage: LaunchStage, outcome: LaunchOutcome) -> LaunchStage {
    match stage {
        LaunchStage::Launched => LaunchStage::Launched,
        LaunchStage::GaveUp => LaunchStage::GaveUp,
        _ => if outcome == LaunchOutcome::Started {
            LaunchStage::Launched
        } else {
            match stage {
                LaunchStage::SystemdRun => LaunchStage::Uwsm,
                LaunchStage::Uwsm => LaunchStage::Setsid,
                LaunchStage::Setsid => LaunchStage::Direct,
                _ => LaunchStage::GaveUp,
            }
        },
    }
}

/// The next stage of a launch (see `stage_after`).
pub fn next_launch_stage(stage: LaunchStage, outcome: LaunchOutcome) -> (r: LaunchStage)
    ensures
        r == stage_after(stage, outcome),
{
    match stage {
        LaunchStage::Launched => LaunchStage::Launched,
        LaunchStage::GaveUp => LaunchStage::GaveUp,
        _ => if outcome == LaunchOutcome::Started {
            LaunchStage::Launched
        } else {
            match stage {
                LaunchStage::SystemdRun => LaunchStage::Uwsm,
                LaunchStage::Uwsm => LaunchStage::Setsid,
                LaunchStage::Setsid => LaunchStage::Direct,
                _ => LaunchStage::GaveUp,
            }
        },
    }
}

/// The number of stages a launch can still try from `stage`.
pub open spec fn stages_left(stage: LaunchStage) -> nat {
    match stage {
        LaunchStage::SystemdRun => 4,
        LaunchStage::Uwsm => 3,
        LaunchStage::Setsid => 2,
        LaunchStage::Direct => 1,
        _ => 0,
    }
}

/// A launch ends: each attempt either finishes it or leaves one stage fewer to try.
pub proof fn law_launch_ends(stage: LaunchStage, outcome: LaunchOutcome)
    ensures
        stages_left(stage) > 0 ==> stages_left(stage_after(stage, outcome)) < stages_left(stage),
        stages_left(stage_after(stage, outcome)) == 0 ==> (stage_after(stage, outcome)
            == LaunchStage::Launched || stage_after(stage, outcome) == LaunchStage::GaveUp),
{
}

/// Once a stage has started the browser nothing more is tried: from every stage still
/// trying, `Started` ends the launch as launched.
pub proof fn law_started_ends_launch(stage: LaunchStage)
    requires
        stage != LaunchStage::Launched,
        stage != LaunchStage::GaveUp,
    ensures
        stage_after(stage, LaunchOutcome::Started) == LaunchStage::Launched,
{
}

/// A stage that did not start the browser hands over to the next way in the order
/// systemd-run, uwsm, setsid, direct; after the direct start the launch gives up. A
/// finished launch stays finished.
pub proof fn law_failed_stage_tries_next(stage: LaunchStage, outcome: LaunchOutcome)
    requires
        outcome != LaunchOutcome::Started,
    ensures
        stage == LaunchStage::SystemdRun ==> stage_after(stage, outcome) == LaunchStage::Uwsm,
        stage == LaunchStage::Uwsm ==> stage_after(stage, outcome) == LaunchStage::Setsid,
        stage == LaunchStage::Setsid ==> stage_after(stage, outcome) == LaunchStage::Direct,
        stage == LaunchStage::Direct ==> stage_after(stage, outcome) == LaunchStage::GaveUp,
        stage == LaunchStage::Launched ==> stage_after(stage, outcome) == LaunchStage::Launched,
        stage == LaunchStage::GaveUp ==> stage_after(stage, outcome) == LaunchStage::GaveUp,
{
}

/// A finished launch stays as it is, whatever is reported.
pub proof fn law_finished_launch_stays(stage: LaunchStage, outcome: LaunchOutcome)
    requires
        stage == LaunchStage::Launched || stage == LaunchStage::GaveUp,
    ensures
        stage_after(stage, outcome) == stage,
{
}

/// The browser to start: the program of the default browser's desktop entry, else
/// the first installed fallback browser, else `chromium`.
pub fn resolve_browser(from_desktop: Option<String>, installed_fallback: Option<String>) -> (r: String)
    ensures
        r@ == match from_desktop {
            Some(d) => d@,
            None => match installed_fallback {
                Some(f) => f@,
                None => "chromium"@,
            },
        },
{
    match from_desktop {
        Some(d) => d,
        None => match installed_fallback {
            Some(f) => f,
            None => owned("chromium"),
        },
    }
}

/// The `setsid` and `uwsm-app` commands, when both were found.
pub fn resolve_uwsm_stack(setsid: Option<String>, uwsm_app: Option<String>) -> (r: Option<(String, String)>)
    ensures
        match (setsid, uwsm_app) {
            (Some(s), Some(u)) => r matches Some(p) && p.0@ == s@ && p.1@ == u@,
            _ => r is None,
        },
{
    match (setsid, uwsm_app) {
        (Some(s), Some(u)) => Some((s, u)),
        _ => None,
    }
}

/// The result of a launch that has ended: `Ok` once the browser was started, the
/// error naming the browser and the direct start's error once every way failed,
/// and `None` while stages remain.
pub fn launch_result(stage: LaunchStage, browser: &str, last_error: &str) -> (r: Option<Result<(), String>>)
    ensures
        stage == LaunchStage::Launched ==> r == Some(Ok::<(), String>(())),
        stage == LaunchStage::GaveUp ==> (r matches Some(Err(m)) && m@ == "Failed to launch browser '"@
            + browser@ + "': "@ + last_error@),
        stage != LaunchStage::Launched && stage != LaunchStage::GaveUp ==> r is None,
{
    match stage {
        LaunchStage::Launched => Some(Ok(())),
        LaunchStage::GaveUp => {
            let mut m = owned("Failed to launch browser '");
            push_all(&mut m, browser);
            push_all(&mut m, "': ");
            push_all(&mut m, last_error);
            Some(Err(m))
        },
        _ => None,
    }
}

/// What the program observed when it tried the `systemd-run` launch.
pub enum SystemdRunReport {
    /// `systemd-run` was not found.
    NotFound,
    /// The clock could not be read; the text says why.
    ClockFailed(String),
    /// `systemd-run` could not be executed; the text is the error.
    ExecFailed(String),
    /// `systemd-run` ran to its end: whether it exited with success, and its exit status
    /// as text.
    Exited(bool, String),
}

/// The result of the `systemd-run` launch: `Ok` exactly when `systemd-run` ran and
/// exited with success, otherwise the error that says what went wrong.
pub fn systemd_run_result(report: SystemdRunReport) -> (r: Result<(), String>)
    ensures
        match report {
            SystemdRunReport::NotFound => r matches Err(m) && m@ == "systemd-run not found"@,
            SystemdRunReport::ClockFailed(e) => r matches Err(m) && m@ == "time error: "@ + e@,
            SystemdRunReport::ExecFailed(e) => r matches Err(m) && m@ == "systemd-run exec failed: "@
                + e@,
            SystemdRunReport::Exited(success, status) => if success {
                r is Ok
            } else {
                r matches Err(m) && m@ == "systemd-run returned status "@ + status@
            },
        },
{
    match report {
        SystemdRunReport::NotFound => Err(owned("systemd-run not found")),
        SystemdRunReport::ClockFailed(e) => {
            let mut m = owned("time error: ");
            push_all(&mut m, e.as_str());
            Err(m)
        },
        SystemdRunReport::ExecFailed(e) => {
            let mut m = owned("systemd-run exec failed: ");
            push_all(&mut m, e.as_str());
            Err(m)
        },
        SystemdRunReport::Exited(success, status) => if success {
            Ok(())
        } else {
            let mut m = owned("systemd-run returned status ");
            push_all(&mut m, status.as_str());
            Err(m)
        },
    }
}

} // verus!
