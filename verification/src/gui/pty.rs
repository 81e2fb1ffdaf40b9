//! The terminals the desktop front end opens: what each runs, with which
//! arguments, environment and size, and the names of the events it sends.
use vstd::prelude::*;
use crate::text::{concat, push_str, str_to_string};
use crate::json::strs_view;
use crate::parser::opt_view;

verus! {

/// A program to run in a new terminal.
pub struct PtyPlan {
    pub program: String,
    pub args: Vec<String>,
    /// Environment variables set for it, in order.
    pub env: Vec<(String, String)>,
    /// The directory it starts in, where one is chosen.
    pub cwd: Option<String>,
    pub rows: u16,
    pub cols: u16,
}

/// The view of a list of string pairs.
pub open spec fn env_view(v: Seq<(String, String)>) -> Seq<(Seq<char>, Seq<char>)> {
    Seq::new(v.len(), |i: int| (v[i].0@, v[i].1@))
}

/// The name of the event that carries a terminal's output.
pub fn data_event(id: &str) -> (r: String)
    ensures
        r@ == "pty://"@ + id@ + "/data"@,
{
    let mut r = concat("pty://", id);
    push_str(&mut r, "/data");
    r
}

/// The name of the event that tells a terminal ended.
pub fn exit_event(id: &str) -> (r: String)
    ensures
        r@ == "pty://"@ + id@ + "/exit"@,
{
    let mut r = concat("pty://", id);
    push_str(&mut r, "/exit");
    r
}

/// The error for a terminal id that is not open.
pub fn pty_not_found(id: &str) -> (r: String)
    ensures
        r@ == "pty "@ + id@ + " not found"@,
{
    let mut r = concat("pty ", id);
    push_str(&mut r, " not found");
    r
}

fn push_env(env: &mut Vec<(String, String)>, k: &str, v: &String)
    ensures
        env_view(final(env)@) == env_view(old(env)@).push((k@, v@)),
{
    let ghost before = env_view(env@);
    env.push((str_to_string(k), v.clone()));
    assert(env_view(env@) =~= before.push((k@, v@)));
}

fn push_arg(args: &mut Vec<String>, a: &str)
    ensures
        strs_view(final(args)@) == strs_view(old(args)@).push(a@),
{
    let ghost before = strs_view(args@);
    args.push(str_to_string(a));
    assert(strs_view(args@) =~= before.push(a@));
}

fn push_arg_s(args: &mut Vec<String>, a: &String)
    ensures
        strs_view(final(args)@) == strs_view(old(args)@).push(a@),
{
    let ghost before = strs_view(args@);
    args.push(a.clone());
    assert(strs_view(args@) =~= before.push(a@));
}

/// The environment a terminal gets for a profile and region:
/// `AWS_PROFILE`, then `AWS_REGION` and `AWS_DEFAULT_REGION`.
pub open spec fn aws_env(profile: Option<Seq<char>>, region: Option<Seq<char>>) -> Seq<(Seq<char>, Seq<char>)> {
    (match profile {
        Some(p) => seq![("AWS_PROFILE"@, p)],
        None => Seq::empty(),
    }) + (match region {
        Some(r) => seq![("AWS_REGION"@, r), ("AWS_DEFAULT_REGION"@, r)],
        None => Seq::empty(),
    })
}

/// The plan of a login shell: the shell asked for, else `$SHELL` (given as
/// `env_shell`), else `/bin/bash`, run with `-l` in the directory asked for,
/// else the home directory; colour terminal settings and the AWS profile and
/// region in its environment; 30 × 100 unless a size is given.
pub fn shell_plan(shell: Option<String>, env_shell: Option<String>, cwd: Option<String>, home: Option<String>, rows: Option<u16>, cols: Option<u16>, profile: &Option<String>, region: &Option<String>) -> (r: PtyPlan)
    ensures
        r.program@ == (match opt_view(shell) {
            Some(s) => s,
            None => match opt_view(env_shell) {
                Some(s) => s,
                None => "/bin/bash"@,
            },
        }),
        strs_view(r.args@) == seq!["-l"@],
        opt_view(r.cwd) == (match opt_view(cwd) {
            Some(c) => Some(c),
            None => opt_view(home),
        }),
        env_view(r.env@) == seq![("TERM"@, "xterm-256color"@), ("COLORTERM"@, "truecolor"@)]
            + aws_env(opt_view(*profile), opt_view(*region)),
        r.rows == (match rows {
            Some(n) => n,
            None => 30,
        }),
        r.cols == (match cols {
            Some(n) => n,
            None => 100,
        }),
{
    let program = match shell {
        Some(s) => s,
        None => match env_shell {
            Some(s) => s,
            None => str_to_string("/bin/bash"),
        },
    };
    let mut args: Vec<String> = Vec::new();
    push_arg(&mut args, "-l");
    assert(strs_view(args@) =~= seq!["-l"@]);
    let cwd = match cwd {
        Some(c) => Some(c),
        None => home,
    };
    let mut env: Vec<(String, String)> = Vec::new();
    push_env(&mut env, "TERM", &str_to_string("xterm-256color"));
    push_env(&mut env, "COLORTERM", &str_to_string("truecolor"));
    let ghost e0 = env_view(env@);
    match profile {
        Some(p) => push_env(&mut env, "AWS_PROFILE", p),
        None => {},
    }
    match region {
        Some(x) => {
            push_env(&mut env, "AWS_REGION", x);
            push_env(&mut env, "AWS_DEFAULT_REGION", x);
        },
        None => {},
    }
    assert(env_view(env@) =~= e0 + aws_env(opt_view(*profile), opt_view(*region)));
    PtyPlan {
        program,
        args,
        env,
        cwd,
        rows: match rows {
            Some(n) => n,
            None => 30,
        },
        cols: match cols {
            Some(n) => n,
            None => 100,
        },
    }
}

/// `--profile P` and `--region R` where given.
pub open spec fn aws_flag_args(profile: Option<Seq<char>>, region: Option<Seq<char>>) -> Seq<Seq<char>> {
    (match profile {
        Some(p) => seq!["--profile"@, p],
        None => Seq::empty(),
    }) + (match region {
        Some(r) => seq!["--region"@, r],
        None => Seq::empty(),
    })
}

fn push_aws_flags(args: &mut Vec<String>, env: &mut Vec<(String, String)>, profile: &Option<String>, region: &Option<String>)
    ensures
        strs_view(final(args)@) == strs_view(old(args)@) + aws_flag_args(opt_view(*profile), opt_view(*region)),
        env_view(final(env)@) == env_view(old(env)@) + aws_env(opt_view(*profile), opt_view(*region)),
{
    let ghost a0 = strs_view(args@);
    let ghost e0 = env_view(env@);
    match profile {
        Some(p) => {
            push_arg(args, "--profile");
            push_arg_s(args, p);
            push_env(env, "AWS_PROFILE", p);
        },
        None => {},
    }
    match region {
        Some(r) => {
            push_arg(args, "--region");
            push_arg_s(args, r);
            push_env(env, "AWS_REGION", r);
            push_env(env, "AWS_DEFAULT_REGION", r);
        },
        None => {},
    }
    assert(strs_view(args@) =~= a0 + aws_flag_args(opt_view(*profile), opt_view(*region)));
    assert(env_view(env@) =~= e0 + aws_env(opt_view(*profile), opt_view(*region)));
}

/// The plan of an SSM session to an instance: `aws ssm start-session
/// --target ID`, then the profile and region (also in its environment),
/// and `TERM`; 30 × 100 unless a size is given.
pub fn ssm_plan(instance_id: &String, profile: &Option<String>, region: &Option<String>, rows: Option<u16>, cols: Option<u16>) -> (r: PtyPlan)
    ensures
        r.program@ == "aws"@,
        strs_view(r.args@) == seq!["ssm"@, "start-session"@, "--target"@, instance_id@] + aws_flag_args(
            opt_view(*profile),
            opt_view(*region),
        ),
        env_view(r.env@) == aws_env(opt_view(*profile), opt_view(*region)) + seq![
            ("TERM"@, "xterm-256color"@),
        ],
        r.cwd is None,
        r.rows == (match rows {
            Some(n) => n,
            None => 30,
        }),
        r.cols == (match cols {
            Some(n) => n,
            None => 100,
        }),
{
    let mut args: Vec<String> = Vec::new();
    push_arg(&mut args, "ssm");
    push_arg(&mut args, "start-session");
    push_arg(&mut args, "--target");
    push_arg_s(&mut args, instance_id);
    let mut env: Vec<(String, String)> = Vec::new();
    assert(env_view(env@) =~= Seq::<(Seq<char>, Seq<char>)>::empty());
    push_aws_flags(&mut args, &mut env, profile, region);
    push_env(&mut env, "TERM", &str_to_string("xterm-256color"));
    PtyPlan {
        program: str_to_string("aws"),
        args,
        env,
        cwd: None,
        rows: match rows {
            Some(n) => n,
            None => 30,
        },
        cols: match cols {
            Some(n) => n,
            None => 100,
        },
    }
}

/// The plan of a shell in an ECS container: `aws ecs execute-command
/// --cluster C --task T --container K --command SHELL --interactive` (shell
/// `/bin/sh` unless given), then the profile and region (also in its
/// environment), and `TERM`; 30 × 100 unless a size is given.
pub fn ecs_exec_plan(cluster: &String, task_id: &String, container: &String, shell: Option<String>, profile: &Option<String>, region: &Option<String>, rows: Option<u16>, cols: Option<u16>) -> (r: PtyPlan)
    ensures
        r.program@ == "aws"@,
        strs_view(r.args@) == seq![
            "ecs"@,
            "execute-command"@,
            "--cluster"@,
            cluster@,
            "--task"@,
            task_id@,
            "--container"@,
            container@,
            "--command"@,
            match opt_view(shell) {
                Some(s) => s,
                None => "/bin/sh"@,
            },
            "--interactive"@,
        ] + aws_flag_args(opt_view(*profile), opt_view(*region)),
        env_view(r.env@) == aws_env(opt_view(*profile), opt_view(*region)) + seq![
            ("TERM"@, "xterm-256color"@),
        ],
        r.cwd is None,
        r.rows == (match rows {
            Some(n) => n,
            None => 30,
        }),
        r.cols == (match cols {
            Some(n) => n,
            None => 100,
        }),
{
    let shell_cmd = match shell {
        Some(s) => s,
        None => str_to_string("/bin/sh"),
    };
    let mut args: Vec<String> = Vec::new();
    push_arg(&mut args, "ecs");
    push_arg(&mut args, "execute-command");
    push_arg(&mut args, "--cluster");
    push_arg_s(&mut args, cluster);
    push_arg(&mut args, "--task");
    push_arg_s(&mut args, task_id);
    push_arg(&mut args, "--container");
    push_arg_s(&mut args, container);
    push_arg(&mut args, "--command");
    push_arg_s(&mut args, &shell_cmd);
    push_arg(&mut args, "--interactive");
    let mut env: Vec<(String, String)> = Vec::new();
    assert(env_view(env@) =~= Seq::<(Seq<char>, Seq<char>)>::empty());
    push_aws_flags(&mut args, &mut env, profile, region);
    push_env(&mut env, "TERM", &str_to_string("xterm-256color"));
    PtyPlan {
        program: str_to_string("aws"),
        args,
        env,
        cwd: None,
        rows: match rows {
            Some(n) => n,
            None => 30,
        },
        cols: match cols {
            Some(n) => n,
            None => 100,
        },
    }
}

} // verus!
