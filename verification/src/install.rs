//! Service installation support: the duration format the service file
//! uses and the argument list baked into the installed service. The
//! installer front end performs the actual installation.

use vstd::prelude::*;
use vstd::string::StringExecFns;

use crate::cli::RunArgs;
use crate::decimal::{dec_digits, two_digits, u64_to_2digits, u64_to_string};
use crate::integration::NotificationType;

verus! {

/// A duration in seconds as the service arguments spell it: bare seconds
/// while under a minute of minutes, else colon-separated fields.
pub open spec fn fmt_dur_spec(secs: nat) -> Seq<char> {
    let ss = secs % 60;
    let mm = (secs / 60) % 60;
    let hh = secs / 60 / 60;
    if mm == 0 {
        dec_digits(ss) + seq!['s']
    } else if hh == 0 {
        two_digits(mm) + seq![':'] + two_digits(ss)
    } else {
        two_digits(hh) + seq![':'] + two_digits(mm) + seq![':'] + two_digits(ss)
    }
}

/// Renders a duration for the installed service's argument list.
pub fn fmt_dur(secs: u64) -> (r: String)
    ensures
        r@ == fmt_dur_spec(secs as nat),
{
    let ss = secs % 60;
    let mm = (secs / 60) % 60;
    let hh = secs / 60 / 60;
    if mm == 0 {
        let mut s = u64_to_string(ss);
        s.append("s");
        proof {
            reveal_strlit("s");
            assert(s@ =~= fmt_dur_spec(secs as nat));
        }
        s
    } else if hh == 0 {
        let mut s = u64_to_2digits(mm);
        s.append(":");
        let tail = u64_to_2digits(ss);
        s.append(tail.as_str());
        proof {
            reveal_strlit(":");
            assert(":"@ =~= seq![':']);
            assert(s@ =~= fmt_dur_spec(secs as nat));
        }
        s
    } else {
        let mut s = u64_to_2digits(hh);
        s.append(":");
        let mid = u64_to_2digits(mm);
        s.append(mid.as_str());
        s.append(":");
        let tail = u64_to_2digits(ss);
        s.append(tail.as_str());
        proof {
            reveal_strlit(":");
            assert(":"@ =~= seq![':']);
            assert(s@ =~= fmt_dur_spec(secs as nat));
        }
        s
    }
}

/// The argument pair each warning delivery contributes.
pub open spec fn warning_type_args(ts: Seq<NotificationType>) -> Seq<Seq<char>>
    decreases ts.len(),
{
    if ts.len() == 0 {
        Seq::empty()
    } else {
        seq![
            "--lock-warning-type"@,
            (match ts.first() {
                NotificationType::System => "system"@,
                NotificationType::Audio => "audio"@,
            }),
        ] + warning_type_args(ts.drop_first())
    }
}

/// The full argument list the installed service is started with.
pub open spec fn service_args_spec(args: RunArgs, config_path: Option<Seq<char>>) -> Seq<
    Seq<char>,
> {
    (match config_path {
        Some(p) => seq!["--config-path"@, p],
        None => Seq::empty(),
    }) + seq![
        "run"@,
        "--work-duration"@,
        fmt_dur_spec((args.work_duration / 1000) as nat),
        "--break-duration"@,
        fmt_dur_spec((args.break_duration / 1000) as nat),
    ] + (match args.lock_warning {
        Some(w) => seq!["--lock-warning"@, fmt_dur_spec((w / 1000) as nat)],
        None => Seq::empty(),
    }) + warning_type_args(args.lock_warning_type@) + (if args.status_file {
        seq!["--status-file"@]
    } else {
        Seq::empty()
    }) + (if args.tcp_api {
        seq!["--tcp-api"@]
    } else {
        Seq::empty()
    })
}

/// The character sequences of an argument list.
pub open spec fn arg_views(v: Seq<String>) -> Seq<Seq<char>> {
    v.map_values(|s: String| s@)
}

/// Builds the argument list to bake into the installed service, durations
/// converted from milliseconds to the service file's second format.
pub fn build_service_args(args: &RunArgs, config_path: Option<String>) -> (r: Vec<String>)
    ensures
        arg_views(r@) == service_args_spec(*args, match config_path {
            Some(p) => Some(p@),
            None => None,
        }),
{
    let ghost cfg_view: Option<Seq<char>> = match config_path {
        Some(ref p) => Some(p@),
        None => None,
    };
    let mut r: Vec<String> = Vec::new();
    match config_path {
        Some(p) => {
            r.push("--config-path".to_owned());
            r.push(p);
        },
        None => {},
    }
    r.push("run".to_owned());
    r.push("--work-duration".to_owned());
    r.push(fmt_dur(args.work_duration / 1000));
    r.push("--break-duration".to_owned());
    r.push(fmt_dur(args.break_duration / 1000));
    match args.lock_warning {
        Some(w) => {
            r.push("--lock-warning".to_owned());
            r.push(fmt_dur(w / 1000));
        },
        None => {},
    }
    let ghost before_types = arg_views(r@);
    proof {
        assert(before_types =~= (match cfg_view {
            Some(p) => seq!["--config-path"@, p],
            None => Seq::empty(),
        }) + seq![
            "run"@,
            "--work-duration"@,
            fmt_dur_spec((args.work_duration / 1000) as nat),
            "--break-duration"@,
            fmt_dur_spec((args.break_duration / 1000) as nat),
        ] + (match args.lock_warning {
            Some(w) => seq!["--lock-warning"@, fmt_dur_spec((w / 1000) as nat)],
            None => Seq::empty(),
        }));
    }
    let mut i: usize = 0;
    while i < args.lock_warning_type.len()
        invariant
            0 <= i <= args.lock_warning_type@.len(),
            arg_views(r@) == before_types + warning_type_args(args.lock_warning_type@.take(
                i as int,
            )),
        decreases args.lock_warning_type@.len() - i,
    {
        let ghost entry = r@;
        r.push("--lock-warning-type".to_owned());
        r.push(args.lock_warning_type[i].label());
        proof {
            lemma_warning_type_args_step(args.lock_warning_type@, i as int);
            let ghost w_i = warning_type_args(args.lock_warning_type@.take(i as int));
            let ghost pair = seq![
                "--lock-warning-type"@,
                (match args.lock_warning_type@[i as int] {
                    NotificationType::System => "system"@,
                    NotificationType::Audio => "audio"@,
                }),
            ];
            assert(warning_type_args(args.lock_warning_type@.take(i + 1)) == w_i + pair);
            assert(arg_views(entry) == before_types + w_i);
            assert(arg_views(r@) =~= arg_views(entry) + pair);
            assert(arg_views(r@) =~= before_types + warning_type_args(
                args.lock_warning_type@.take(i + 1),
            ));
        }
        i += 1;
    }
    proof {
        assert(args.lock_warning_type@.take(args.lock_warning_type@.len() as int)
            == args.lock_warning_type@);
    }
    let ghost with_types = r@;
    if args.status_file {
        r.push("--status-file".to_owned());
    }
    let ghost with_status = r@;
    if args.tcp_api {
        r.push("--tcp-api".to_owned());
    }
    proof {
        assert(arg_views(with_status) =~= arg_views(with_types) + (if args.status_file {
            seq!["--status-file"@]
        } else {
            Seq::empty()
        }));
        assert(arg_views(r@) =~= arg_views(with_status) + (if args.tcp_api {
            seq!["--tcp-api"@]
        } else {
            Seq::empty()
        }));
        assert(arg_views(r@) =~= service_args_spec(*args, cfg_view));
    }
    r
}

/// One more delivery kind appends exactly its argument pair.
proof fn lemma_warning_type_args_step(ts: Seq<NotificationType>, i: int)
    requires
        0 <= i < ts.len(),
    ensures
        warning_type_args(ts.take(i + 1)) == warning_type_args(ts.take(i)) + seq![
            "--lock-warning-type"@,
            (match ts[i] {
                NotificationType::System => "system"@,
                NotificationType::Audio => "audio"@,
            }),
        ],
    decreases i,
{
    if i == 0 {
        assert(ts.take(1).first() == ts[0]);
        assert(ts.take(1).drop_first() =~= ts.take(0));
        assert(warning_type_args(ts.take(0)) == Seq::<Seq<char>>::empty());
        assert(warning_type_args(ts.take(1)) =~= Seq::empty() + seq![
            "--lock-warning-type"@,
            (match ts[0] {
                NotificationType::System => "system"@,
                NotificationType::Audio => "audio"@,
            }),
        ]);
    } else {
        assert(ts.take(i + 1).first() == ts[0]);
        assert(ts.take(i).first() == ts[0]);
        assert(ts.take(i + 1).drop_first() =~= ts.drop_first().take(i));
        assert(ts.take(i).drop_first() =~= ts.drop_first().take(i - 1));
        lemma_warning_type_args_step(ts.drop_first(), i - 1);
        assert(ts.drop_first()[i - 1] == ts[i]);
    }
}

} // verus!
