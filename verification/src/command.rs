//! The external-runner paths: building the exact argument vectors for the
//! container CLI and for the sandbox wrapper. The caller resolves programs
//! and canonicalizes paths, then replaces its process image with the
//! returned command line; nothing here touches the host.

use vstd::prelude::*;
use vstd::string::StringExecFns;
use vstd::string::StringSliceAdditionalSpecFns;
use crate::ascii::bytes_eq;
use crate::http::bytes_starts_with;

verus! {

/// A program and the arguments to run it with.
#[derive(Debug)]
pub struct CommandLine {
    pub program: String,
    pub args: Vec<String>,
}

/// Why a command line could not be built.
#[derive(Clone, Copy, Debug, PartialEq, Eq, Structural)]
pub enum SetupError {
    /// The current directory was to be mounted but `HOME` is not set.
    HomeNotSet,
    /// The run was started from the home directory or one of its parents.
    HomeConflict,
}

impl SetupError {
    /// Renders the error as one line of text.
    pub fn message(&self) -> (r: String)
        ensures
            *self is HomeNotSet ==> r@ == "HOME not set"@,
            *self is HomeConflict ==> r@
                == "Cannot run from home directory or its parent directories"@,
    {
        match self {
            SetupError::HomeNotSet => String::from_str("HOME not set"),
            SetupError::HomeConflict => String::from_str(
                "Cannot run from home directory or its parent directories",
            ),
        }
    }
}

/// `prefix` names the same directory as `p` or one of its ancestors, for
/// canonical absolute paths: equal, or a proper prefix at a component
/// boundary. The root is a prefix of every absolute path.
pub open spec fn spec_path_prefix(prefix: Seq<u8>, p: Seq<u8>) -> bool {
    p == prefix || (p.len() > prefix.len() && p.take(prefix.len() as int) == prefix && (prefix
        == seq![47u8] || p[prefix.len() as int] == 47))
}

/// Decides whether `prefix` is `p` or one of its ancestors.
pub fn is_path_prefix(prefix: &str, p: &str) -> (r: bool)
    ensures
        r == spec_path_prefix(prefix.spec_bytes(), p.spec_bytes()),
{
    let pb = prefix.as_bytes();
    let b = p.as_bytes();
    if bytes_eq(b, pb) {
        return true;
    }
    if b.len() > pb.len() && bytes_starts_with(b, pb) {
        proof {
            assert(b@.take(pb@.len() as int) == b@.subrange(0, pb@.len() as int));
        }
        if pb.len() == 1 && pb[0] == 47 {
            proof {
                assert(pb@ =~= seq![47u8]);
            }
            return true;
        }
        if b[pb.len()] == 47 {
            return true;
        }
        proof {
            if pb@ == seq![47u8] {
                assert(pb@.len() == 1 && pb@[0] == 47);
            }
        }
        return false;
    }
    proof {
        if b@.len() > pb@.len() && b@.take(pb@.len() as int) == pb@ {
            assert(b@.subrange(0, pb@.len() as int) == b@.take(pb@.len() as int));
        }
    }
    false
}

/// The home-directory guard: mounting the current directory is refused when
/// the run starts from the home directory or one of its parents.
pub open spec fn spec_home_conflict(current_dir: Seq<u8>, home: Seq<u8>) -> bool {
    spec_path_prefix(current_dir, home)
}

fn push_arg(args: &mut Vec<String>, s: &str)
    ensures
        final(args).deep_view() == old(args).deep_view() + seq![s@],
{
    args.push(String::from_str(s));
    proof {
        assert(args.deep_view() =~= old(args).deep_view() + seq![s@]);
    }
}

fn push_arg_string(args: &mut Vec<String>, s: String)
    ensures
        final(args).deep_view() == old(args).deep_view() + seq![s@],
{
    let ghost v = s@;
    args.push(s);
    proof {
        assert(args.deep_view() =~= old(args).deep_view() + seq![v]);
    }
}

/// One `--mount` argument value: a path bound at itself, read-only or not.
pub open spec fn spec_mount_arg(p: Seq<char>, readonly: bool) -> Seq<char> {
    "type=bind,source="@ + p + ",target="@ + p + (if readonly {
        ",readonly"@
    } else {
        Seq::<char>::empty()
    })
}

fn mount_arg(p: &str, readonly: bool) -> (r: String)
    ensures
        r@ == spec_mount_arg(p@, readonly),
{
    let s = String::from_str("type=bind,source=").concat(p).concat(",target=").concat(p);
    if readonly {
        s.concat(",readonly")
    } else {
        proof {
            assert(s@ + Seq::<char>::empty() =~= s@);
        }
        s
    }
}

/// `--mount` pairs for a list of paths, each bound at itself.
pub open spec fn spec_mount_args(paths: Seq<Seq<char>>, readonly: bool) -> Seq<Seq<char>>
    decreases paths.len(),
{
    if paths.len() == 0 {
        Seq::empty()
    } else {
        spec_mount_args(paths.drop_last(), readonly) + seq![
            "--mount"@,
            spec_mount_arg(paths.last(), readonly),
        ]
    }
}

fn append_mount_args(args: &mut Vec<String>, paths: &Vec<String>, readonly: bool)
    ensures
        final(args).deep_view() == old(args).deep_view() + spec_mount_args(
            paths.deep_view(),
            readonly,
        ),
{
    let mut i: usize = 0;
    proof {
        assert(args.deep_view() =~= old(args).deep_view() + spec_mount_args(
            paths.deep_view().take(0),
            readonly,
        ));
    }
    while i < paths.len()
        invariant
            0 <= i <= paths@.len(),
            args.deep_view() == old(args).deep_view() + spec_mount_args(
                paths.deep_view().take(i as int),
                readonly,
            ),
        decreases paths@.len() - i,
    {
        let p: &String = &paths[i];
        push_arg(args, "--mount");
        push_arg_string(args, mount_arg(p.as_str(), readonly));
        proof {
            let pv = paths.deep_view();
            assert(pv.take(i + 1).drop_last() =~= pv.take(i as int));
            assert(pv.take(i + 1).last() == pv[i as int]);
            assert(pv[i as int] == paths@[i as int]@);
            assert(args.deep_view() =~= old(args).deep_view() + spec_mount_args(
                pv.take(i + 1),
                readonly,
            ));
        }
        i += 1;
    }
    proof {
        assert(paths.deep_view().take(paths@.len() as int) =~= paths.deep_view());
    }
}

/// `flag path path` triples for the sandbox wrapper's bind options.
pub open spec fn spec_triple_args(flag: Seq<char>, paths: Seq<Seq<char>>) -> Seq<Seq<char>>
    decreases paths.len(),
{
    if paths.len() == 0 {
        Seq::empty()
    } else {
        spec_triple_args(flag, paths.drop_last()) + seq![flag, paths.last(), paths.last()]
    }
}

fn append_triple_args(args: &mut Vec<String>, flag: &str, paths: &Vec<String>)
    ensures
        final(args).deep_view() == old(args).deep_view() + spec_triple_args(
            flag@,
            paths.deep_view(),
        ),
{
    let mut i: usize = 0;
    proof {
        assert(args.deep_view() =~= old(args).deep_view() + spec_triple_args(
            flag@,
            paths.deep_view().take(0),
        ));
    }
    while i < paths.len()
        invariant
            0 <= i <= paths@.len(),
            args.deep_view() == old(args).deep_view() + spec_triple_args(
                flag@,
                paths.deep_view().take(i as int),
            ),
        decreases paths@.len() - i,
    {
        let p: &String = &paths[i];
        push_arg(args, flag);
        push_arg_string(args, p.clone());
        push_arg_string(args, p.clone());
        proof {
            let pv = paths.deep_view();
            assert(pv.take(i + 1).drop_last() =~= pv.take(i as int));
            assert(pv.take(i + 1).last() == pv[i as int]);
            assert(pv[i as int] == paths@[i as int]@);
            assert(args.deep_view() =~= old(args).deep_view() + spec_triple_args(
                flag@,
                pv.take(i + 1),
            ));
        }
        i += 1;
    }
    proof {
        assert(paths.deep_view().take(paths@.len() as int) =~= paths.deep_view());
    }
}

/// `flag item` pairs, used for environment forwarding.
pub open spec fn spec_pair_args(flag: Seq<char>, items: Seq<Seq<char>>) -> Seq<Seq<char>>
    decreases items.len(),
{
    if items.len() == 0 {
        Seq::empty()
    } else {
        spec_pair_args(flag, items.drop_last()) + seq![flag, items.last()]
    }
}

fn append_pair_args(args: &mut Vec<String>, flag: &str, items: &Vec<String>)
    ensures
        final(args).deep_view() == old(args).deep_view() + spec_pair_args(
            flag@,
            items.deep_view(),
        ),
{
    let mut i: usize = 0;
    proof {
        assert(args.deep_view() =~= old(args).deep_view() + spec_pair_args(
            flag@,
            items.deep_view().take(0),
        ));
    }
    while i < items.len()
        invariant
            0 <= i <= items@.len(),
            args.deep_view() == old(args).deep_view() + spec_pair_args(
                flag@,
                items.deep_view().take(i as int),
            ),
        decreases items@.len() - i,
    {
        let e: &String = &items[i];
        push_arg(args, flag);
        push_arg_string(args, e.clone());
        proof {
            let ev = items.deep_view();
            assert(ev.take(i + 1).drop_last() =~= ev.take(i as int));
            assert(ev.take(i + 1).last() == ev[i as int]);
            assert(ev[i as int] == items@[i as int]@);
            assert(args.deep_view() =~= old(args).deep_view() + spec_pair_args(
                flag@,
                ev.take(i + 1),
            ));
        }
        i += 1;
    }
    proof {
        assert(items.deep_view().take(items@.len() as int) =~= items.deep_view());
    }
}

/// `--mount` pairs for the present members of a path list, bound read-only.
pub open spec fn spec_present_mount_args(names: Seq<Seq<char>>, present: Seq<bool>) -> Seq<
    Seq<char>,
>
    decreases names.len(),
{
    if names.len() == 0 {
        Seq::empty()
    } else {
        spec_present_mount_args(names.drop_last(), present.drop_last()) + (if present.last() {
            seq!["--mount"@, spec_mount_arg(names.last(), true)]
        } else {
            Seq::<Seq<char>>::empty()
        })
    }
}

fn append_present_mount_args(args: &mut Vec<String>, names: &Vec<String>, present: &Vec<bool>)
    requires
        names@.len() == present@.len(),
    ensures
        final(args).deep_view() == old(args).deep_view() + spec_present_mount_args(
            names.deep_view(),
            present@,
        ),
{
    let mut i: usize = 0;
    proof {
        assert(names.deep_view().take(0) =~= Seq::<Seq<char>>::empty());
        assert(present@.take(0) =~= Seq::<bool>::empty());
        assert(args.deep_view() =~= old(args).deep_view() + spec_present_mount_args(
            names.deep_view().take(0),
            present@.take(0),
        ));
    }
    while i < names.len()
        invariant
            0 <= i <= names@.len() == present@.len(),
            args.deep_view() == old(args).deep_view() + spec_present_mount_args(
                names.deep_view().take(i as int),
                present@.take(i as int),
            ),
        decreases names@.len() - i,
    {
        let ghost nv = names.deep_view();
        proof {
            assert(nv.take(i + 1).drop_last() =~= nv.take(i as int));
            assert(present@.take(i + 1).drop_last() =~= present@.take(i as int));
            assert(nv.take(i + 1).last() == nv[i as int]);
            assert(present@.take(i + 1).last() == present@[i as int]);
            assert(nv[i as int] == names@[i as int]@);
        }
        if present[i] {
            let p: &String = &names[i];
            push_arg(args, "--mount");
            push_arg_string(args, mount_arg(p.as_str(), true));
            proof {
                assert(args.deep_view() =~= old(args).deep_view() + spec_present_mount_args(
                    nv.take(i + 1),
                    present@.take(i + 1),
                ));
            }
        } else {
            proof {
                assert(args.deep_view() =~= old(args).deep_view() + spec_present_mount_args(
                    nv.take(i + 1),
                    present@.take(i + 1),
                ));
            }
        }
        i += 1;
    }
    proof {
        assert(names.deep_view().take(names@.len() as int) =~= names.deep_view());
        assert(present@.take(present@.len() as int) =~= present@);
    }
}

/// The value of an optional text reference.
pub open spec fn opt_text(w: Option<&String>) -> Option<Seq<char>> {
    match w {
        Some(s) => Some(s@),
        None => None,
    }
}

/// The shared front of every container-CLI invocation: locked-down run
/// flags, the terminal flag, the network mode, the current-directory mount
/// and working directory when asked for, the caller's mounts, X11
/// passthrough, and the extra environment entries.
pub open spec fn spec_podman_args(
    network: Seq<char>,
    is_tty: bool,
    mount_current_dir: bool,
    mount_current_dir_writable: bool,
    current_dir: Seq<char>,
    workdir: Option<Seq<char>>,
    ro: Seq<Seq<char>>,
    rw: Seq<Seq<char>>,
    extra_env: Seq<Seq<char>>,
    x11: bool,
) -> Seq<Seq<char>> {
    seq![
        "run"@,
        "--userns=keep-id"@,
        "--cap-drop"@,
        "ALL"@,
        "--security-opt"@,
        "no-new-privileges=true"@,
        "--rm"@,
        "--interactive"@,
    ] + (if is_tty {
        seq!["--tty"@]
    } else {
        Seq::<Seq<char>>::empty()
    }) + seq!["--network="@ + network] + (if mount_current_dir {
        seq![
            "--mount"@,
            spec_mount_arg(current_dir, !mount_current_dir_writable),
            "--workdir"@,
            match workdir {
                Some(w) => w,
                None => current_dir,
            },
        ]
    } else {
        match workdir {
            Some(w) => seq!["--workdir"@, w],
            None => Seq::<Seq<char>>::empty(),
        }
    }) + spec_mount_args(ro, true) + spec_mount_args(rw, false) + (if x11 {
        seq!["-e"@, "DISPLAY"@, "--mount"@, spec_mount_arg("/tmp/.X11-unix"@, false)]
    } else {
        Seq::<Seq<char>>::empty()
    }) + spec_pair_args("-e"@, extra_env)
}

/// Builds the shared front of a container-CLI invocation. Mounting the
/// current directory is refused without a home directory to compare
/// against, and refused from the home directory or any of its parents.
pub fn podman_cmd(
    network: &str,
    is_tty: bool,
    current_dir: &str,
    home_dir: Option<&String>,
    mount_current_dir: bool,
    mount_current_dir_writable: bool,
    mount_readonly: &Vec<String>,
    mount_writable: &Vec<String>,
    extra_env: &Vec<String>,
    workdir: Option<&String>,
    x11: bool,
) -> (r: Result<Vec<String>, SetupError>)
    ensures
        r is Ok <==> (!mount_current_dir || (home_dir is Some && !spec_home_conflict(
            current_dir.spec_bytes(),
            vstd::utf8::encode_utf8(home_dir->0@),
        ))),
        mount_current_dir && home_dir is None ==> r == Err::<Vec<String>, SetupError>(
            SetupError::HomeNotSet,
        ),
        mount_current_dir && home_dir is Some && spec_home_conflict(
            current_dir.spec_bytes(),
            vstd::utf8::encode_utf8(home_dir->0@),
        ) ==> r == Err::<Vec<String>, SetupError>(SetupError::HomeConflict),
        r matches Ok(args) ==> args.deep_view() == spec_podman_args(
            network@,
            is_tty,
            mount_current_dir,
            mount_current_dir_writable,
            current_dir@,
            opt_text(workdir),
            mount_readonly.deep_view(),
            mount_writable.deep_view(),
            extra_env.deep_view(),
            x11,
        ),
{
    if mount_current_dir {
        match home_dir {
            None => {
                return Err(SetupError::HomeNotSet);
            },
            Some(h) => {
                if is_path_prefix(current_dir, h.as_str()) {
                    return Err(SetupError::HomeConflict);
                }
            },
        }
    }
    let mut args: Vec<String> = Vec::new();
    push_arg(&mut args, "run");
    push_arg(&mut args, "--userns=keep-id");
    push_arg(&mut args, "--cap-drop");
    push_arg(&mut args, "ALL");
    push_arg(&mut args, "--security-opt");
    push_arg(&mut args, "no-new-privileges=true");
    push_arg(&mut args, "--rm");
    push_arg(&mut args, "--interactive");
    let ghost b1 = seq![
        "run"@,
        "--userns=keep-id"@,
        "--cap-drop"@,
        "ALL"@,
        "--security-opt"@,
        "no-new-privileges=true"@,
        "--rm"@,
        "--interactive"@,
    ];
    proof {
        assert(args.deep_view() =~= b1);
    }
    let ghost b2 = (if is_tty {
        seq!["--tty"@]
    } else {
        Seq::<Seq<char>>::empty()
    });
    if is_tty {
        push_arg(&mut args, "--tty");
    } else {
        proof {
            assert(b1 + b2 =~= b1);
        }
    }
    assert(args.deep_view() == b1 + b2);
    push_arg_string(&mut args, String::from_str("--network=").concat(network));
    let ghost b3 = b1 + b2 + seq!["--network="@ + network@];
    assert(args.deep_view() == b3);
    let ghost b4 = (if mount_current_dir {
        seq![
            "--mount"@,
            spec_mount_arg(current_dir@, !mount_current_dir_writable),
            "--workdir"@,
            match opt_text(workdir) {
                Some(w) => w,
                None => current_dir@,
            },
        ]
    } else {
        match opt_text(workdir) {
            Some(w) => seq!["--workdir"@, w],
            None => Seq::<Seq<char>>::empty(),
        }
    });
    if mount_current_dir {
        push_arg(&mut args, "--mount");
        push_arg_string(&mut args, mount_arg(current_dir, !mount_current_dir_writable));
        push_arg(&mut args, "--workdir");
        match workdir {
            Some(w) => push_arg_string(&mut args, w.clone()),
            None => push_arg(&mut args, current_dir),
        }
        proof {
            assert(args.deep_view() =~= b3 + b4);
        }
    } else {
        match workdir {
            Some(w) => {
                push_arg(&mut args, "--workdir");
                push_arg_string(&mut args, w.clone());
                proof {
                    assert(args.deep_view() =~= b3 + b4);
                }
            },
            None => {
                proof {
                    assert(b3 + b4 =~= b3);
                }
            },
        }
    }
    assert(args.deep_view() == b3 + b4);
    append_mount_args(&mut args, mount_readonly, true);
    append_mount_args(&mut args, mount_writable, false);
    let ghost b6 = b3 + b4 + spec_mount_args(mount_readonly.deep_view(), true)
        + spec_mount_args(mount_writable.deep_view(), false);
    let ghost b7 = (if x11 {
        seq!["-e"@, "DISPLAY"@, "--mount"@, spec_mount_arg("/tmp/.X11-unix"@, false)]
    } else {
        Seq::<Seq<char>>::empty()
    });
    if x11 {
        push_arg(&mut args, "-e");
        push_arg(&mut args, "DISPLAY");
        push_arg(&mut args, "--mount");
        push_arg_string(&mut args, mount_arg("/tmp/.X11-unix", false));
        proof {
            assert(args.deep_view() =~= b6 + b7);
        }
    } else {
        proof {
            assert(b6 + b7 =~= b6);
        }
    }
    assert(args.deep_view() == b6 + b7);
    append_pair_args(&mut args, "-e", extra_env);
    Ok(args)
}

/// The container-CLI invocation that runs a host program in a container
/// made from the given image: the shared front, a read-only root, the
/// program directory and present system directories bound read-only, the
/// default tmpfs mounts, the passthrough environment, the entrypoint, the
/// image, and the program's arguments.
pub open spec fn spec_contained_cmd_args(
    image: Seq<char>,
    program_path: Seq<char>,
    program_dir: Seq<char>,
    arguments: Seq<Seq<char>>,
    network: Seq<char>,
    is_tty: bool,
    mount_current_dir: bool,
    mount_current_dir_writable: bool,
    current_dir: Seq<char>,
    workdir: Option<Seq<char>>,
    ro: Seq<Seq<char>>,
    rw: Seq<Seq<char>>,
    extra_env: Seq<Seq<char>>,
    x11: bool,
    present: Seq<bool>,
) -> Seq<Seq<char>> {
    spec_podman_args(
        network,
        is_tty,
        mount_current_dir,
        mount_current_dir_writable,
        current_dir,
        workdir,
        ro,
        rw,
        extra_env,
        x11,
    ) + seq!["--read-only"@] + (if !mount_current_dir || program_dir != current_dir {
        seq!["--mount"@, spec_mount_arg(program_dir, true)]
    } else {
        Seq::<Seq<char>>::empty()
    }) + spec_present_mount_args(crate::builder::spec_system_mount_names(), present) + seq![
        "--tmpfs=/tmp:rw,exec"@,
        "--tmpfs=/var/tmp:rw,exec"@,
        "--tmpfs=/run:rw,noexec"@,
        "--tmpfs=/var/run:rw,noexec"@,
    ] + spec_pair_args("-e"@, crate::builder::spec_passthrough_env_names()) + seq![
        "--entrypoint"@,
        program_path,
    ] + seq![image] + arguments
}

fn contained_cmd(
    image: &str,
    program_path: &str,
    program_dir: &str,
    arguments: &Vec<String>,
    network: &str,
    is_tty: bool,
    current_dir: &str,
    home_dir: Option<&String>,
    mount_current_dir: bool,
    mount_current_dir_writable: bool,
    mount_readonly: &Vec<String>,
    mount_writable: &Vec<String>,
    extra_env: &Vec<String>,
    workdir: Option<&String>,
    x11: bool,
    system_mounts_present: &Vec<bool>,
) -> (r: Result<Vec<String>, SetupError>)
    requires
        system_mounts_present@.len() == 8,
    ensures
        r is Ok <==> (!mount_current_dir || (home_dir is Some && !spec_home_conflict(
            current_dir.spec_bytes(),
            vstd::utf8::encode_utf8(home_dir->0@),
        ))),
        mount_current_dir && home_dir is None ==> r == Err::<Vec<String>, SetupError>(
            SetupError::HomeNotSet,
        ),
        mount_current_dir && home_dir is Some && spec_home_conflict(
            current_dir.spec_bytes(),
            vstd::utf8::encode_utf8(home_dir->0@),
        ) ==> r == Err::<Vec<String>, SetupError>(SetupError::HomeConflict),
        r matches Ok(args) ==> args.deep_view() == spec_contained_cmd_args(
            image@,
            program_path@,
            program_dir@,
            arguments.deep_view(),
            network@,
            is_tty,
            mount_current_dir,
            mount_current_dir_writable,
            current_dir@,
            opt_text(workdir),
            mount_readonly.deep_view(),
            mount_writable.deep_view(),
            extra_env.deep_view(),
            x11,
            system_mounts_present@,
        ),
{
    let mut args = match podman_cmd(
        network,
        is_tty,
        current_dir,
        home_dir,
        mount_current_dir,
        mount_current_dir_writable,
        mount_readonly,
        mount_writable,
        extra_env,
        workdir,
        x11,
    ) {
        Ok(a) => a,
        Err(e) => {
            return Err(e);
        },
    };
    let ghost p0 = args.deep_view();
    push_arg(&mut args, "--read-only");
    let ghost p1 = p0 + seq!["--read-only"@];
    let ghost g2 = (if !mount_current_dir || program_dir@ != current_dir@ {
        seq!["--mount"@, spec_mount_arg(program_dir@, true)]
    } else {
        Seq::<Seq<char>>::empty()
    });
    let same_dir = crate::ascii::bytes_eq(program_dir.as_bytes(), current_dir.as_bytes());
    proof {
        vstd::utf8::encode_utf8_decode_utf8(program_dir@);
        vstd::utf8::encode_utf8_decode_utf8(current_dir@);
    }
    if !mount_current_dir || !same_dir {
        push_arg(&mut args, "--mount");
        push_arg_string(&mut args, mount_arg(program_dir, true));
        proof {
            assert(args.deep_view() =~= p1 + g2);
        }
    } else {
        proof {
            assert(p1 + g2 =~= p1);
        }
    }
    assert(args.deep_view() == p1 + g2);
    let names = crate::builder::system_mounts();
    proof {
        assert(names.deep_view().len() == names@.len());
        assert(crate::builder::spec_system_mount_names().len() == 8);
    }
    append_present_mount_args(&mut args, &names, system_mounts_present);
    let ghost p3 = p1 + g2 + spec_present_mount_args(
        crate::builder::spec_system_mount_names(),
        system_mounts_present@,
    );
    push_arg(&mut args, "--tmpfs=/tmp:rw,exec");
    push_arg(&mut args, "--tmpfs=/var/tmp:rw,exec");
    push_arg(&mut args, "--tmpfs=/run:rw,noexec");
    push_arg(&mut args, "--tmpfs=/var/run:rw,noexec");
    let ghost p4 = p3 + seq![
        "--tmpfs=/tmp:rw,exec"@,
        "--tmpfs=/var/tmp:rw,exec"@,
        "--tmpfs=/run:rw,noexec"@,
        "--tmpfs=/var/run:rw,noexec"@,
    ];
    proof {
        assert(args.deep_view() =~= p4);
    }
    let env_names = crate::builder::passthrough_env();
    append_pair_args(&mut args, "-e", &env_names);
    push_arg(&mut args, "--entrypoint");
    push_arg(&mut args, program_path);
    let ghost p5 = p4 + spec_pair_args("-e"@, crate::builder::spec_passthrough_env_names())
        + seq!["--entrypoint"@, program_path@];
    proof {
        assert(args.deep_view() =~= p5);
    }
    push_arg(&mut args, image);
    let ghost p6 = p5 + seq![image@];
    append_strings_args(&mut args, arguments);
    proof {
        assert(args.deep_view() == p6 + arguments.deep_view());
    }
    Ok(args)
}

fn append_strings_args(args: &mut Vec<String>, items: &Vec<String>)
    ensures
        final(args).deep_view() == old(args).deep_view() + items.deep_view(),
{
    let mut i: usize = 0;
    proof {
        assert(args.deep_view() =~= old(args).deep_view() + items.deep_view().take(0));
    }
    while i < items.len()
        invariant
            0 <= i <= items@.len(),
            args.deep_view() == old(args).deep_view() + items.deep_view().take(i as int),
        decreases items@.len() - i,
    {
        let e: &String = &items[i];
        push_arg_string(args, e.clone());
        proof {
            let ev = items.deep_view();
            assert(ev[i as int] == items@[i as int]@);
            assert(old(args).deep_view() + ev.take(i + 1) =~= (old(args).deep_view() + ev.take(
                i as int,
            )) + seq![ev[i as int]]);
        }
        i += 1;
    }
    proof {
        assert(items.deep_view().take(items@.len() as int) =~= items.deep_view());
    }
}

/// Runs a host program inside a container via the container CLI: the exact
/// command line to replace the process with. The caller resolves the
/// program and canonicalizes every path first, then executes the result.
pub fn contained_via_command(
    image: &str,
    program_path: &str,
    program_dir: &str,
    arguments: &Vec<String>,
    network: &str,
    is_tty: bool,
    current_dir: &str,
    home_dir: Option<&String>,
    mount_current_dir: bool,
    mount_current_dir_writable: bool,
    mount_readonly: &Vec<String>,
    mount_writable: &Vec<String>,
    extra_env: &Vec<String>,
    workdir: Option<&String>,
    x11: bool,
    system_mounts_present: &Vec<bool>,
) -> (r: Result<CommandLine, SetupError>)
    requires
        system_mounts_present@.len() == 8,
    ensures
        r is Ok <==> (!mount_current_dir || (home_dir is Some && !spec_home_conflict(
            current_dir.spec_bytes(),
            vstd::utf8::encode_utf8(home_dir->0@),
        ))),
        r matches Ok(c) ==> c.program@ == "podman"@ && c.args.deep_view()
            == spec_contained_cmd_args(
            image@,
            program_path@,
            program_dir@,
            arguments.deep_view(),
            network@,
            is_tty,
            mount_current_dir,
            mount_current_dir_writable,
            current_dir@,
            opt_text(workdir),
            mount_readonly.deep_view(),
            mount_writable.deep_view(),
            extra_env.deep_view(),
            x11,
            system_mounts_present@,
        ),
        r matches Err(e) ==> (mount_current_dir && (home_dir is None ==> e
            == SetupError::HomeNotSet) && (home_dir is Some ==> e == SetupError::HomeConflict)),
{
    let args = contained_cmd(
        image,
        program_path,
        program_dir,
        arguments,
        network,
        is_tty,
        current_dir,
        home_dir,
        mount_current_dir,
        mount_current_dir_writable,
        mount_readonly,
        mount_writable,
        extra_env,
        workdir,
        x11,
        system_mounts_present,
    );
    match args {
        Ok(args) => Ok(CommandLine { program: String::from_str("podman"), args }),
        Err(e) => Err(e),
    }
}

/// The container-CLI invocation that runs a prebuilt image: the shared
/// front, an entrypoint override when given, the image, and its arguments.
pub open spec fn spec_run_image_cmd_args(
    image: Seq<char>,
    arguments: Seq<Seq<char>>,
    entrypoint: Option<Seq<char>>,
    network: Seq<char>,
    is_tty: bool,
    mount_current_dir: bool,
    mount_current_dir_writable: bool,
    current_dir: Seq<char>,
    workdir: Option<Seq<char>>,
    ro: Seq<Seq<char>>,
    rw: Seq<Seq<char>>,
    extra_env: Seq<Seq<char>>,
    x11: bool,
) -> Seq<Seq<char>> {
    spec_podman_args(
        network,
        is_tty,
        mount_current_dir,
        mount_current_dir_writable,
        current_dir,
        workdir,
        ro,
        rw,
        extra_env,
        x11,
    ) + (match entrypoint {
        Some(e) => seq!["--entrypoint"@, e],
        None => Seq::<Seq<char>>::empty(),
    }) + seq![image] + arguments
}

/// Runs a prebuilt image via the container CLI: the exact command line to
/// replace the process with.
pub fn run_image_via_command(
    image: &str,
    arguments: &Vec<String>,
    entrypoint: Option<&String>,
    network: &str,
    is_tty: bool,
    current_dir: &str,
    home_dir: Option<&String>,
    mount_current_dir: bool,
    mount_current_dir_writable: bool,
    mount_readonly: &Vec<String>,
    mount_writable: &Vec<String>,
    extra_env: &Vec<String>,
    workdir: Option<&String>,
    x11: bool,
) -> (r: Result<CommandLine, SetupError>)
    ensures
        r is Ok <==> (!mount_current_dir || (home_dir is Some && !spec_home_conflict(
            current_dir.spec_bytes(),
            vstd::utf8::encode_utf8(home_dir->0@),
        ))),
        r matches Ok(c) ==> c.program@ == "podman"@ && c.args.deep_view()
            == spec_run_image_cmd_args(
            image@,
            arguments.deep_view(),
            opt_text(entrypoint),
            network@,
            is_tty,
            mount_current_dir,
            mount_current_dir_writable,
            current_dir@,
            opt_text(workdir),
            mount_readonly.deep_view(),
            mount_writable.deep_view(),
            extra_env.deep_view(),
            x11,
        ),
        r matches Err(e) ==> (mount_current_dir && (home_dir is None ==> e
            == SetupError::HomeNotSet) && (home_dir is Some ==> e == SetupError::HomeConflict)),
{
    let mut args = match podman_cmd(
        network,
        is_tty,
        current_dir,
        home_dir,
        mount_current_dir,
        mount_current_dir_writable,
        mount_readonly,
        mount_writable,
        extra_env,
        workdir,
        x11,
    ) {
        Ok(a) => a,
        Err(e) => {
            return Err(e);
        },
    };
    let ghost p0 = args.deep_view();
    let ghost g1 = (match opt_text(entrypoint) {
        Some(e) => seq!["--entrypoint"@, e],
        None => Seq::<Seq<char>>::empty(),
    });
    match entrypoint {
        Some(e) => {
            push_arg(&mut args, "--entrypoint");
            push_arg_string(&mut args, e.clone());
            proof {
                assert(args.deep_view() =~= p0 + g1);
            }
        },
        None => {
            proof {
                assert(p0 + g1 =~= p0);
            }
        },
    }
    assert(args.deep_view() == p0 + g1);
    push_arg(&mut args, image);
    let ghost p1 = p0 + g1 + seq![image@];
    append_strings_args(&mut args, arguments);
    proof {
        assert(args.deep_view() == p1 + arguments.deep_view());
    }
    Ok(CommandLine { program: String::from_str("podman"), args })
}

/// The sandbox-wrapper invocation: a fixed read-only view of the system
/// directories with the usual merged-usr symlinks, fresh `/proc` and
/// `/dev`, the current-directory and program-directory binds per the mount
/// flags, the caller's mounts, its environment entries, a new session with
/// everything unshared — the network shared back only on request — and the
/// program with its arguments.
pub open spec fn spec_bwrap_args(
    program_path: Seq<char>,
    program_dir: Seq<char>,
    arguments: Seq<Seq<char>>,
    network: bool,
    mount_current_dir: bool,
    mount_current_dir_writable: bool,
    current_dir: Seq<char>,
    workdir: Option<Seq<char>>,
    ro: Seq<Seq<char>>,
    rw: Seq<Seq<char>>,
    extra_env: Seq<Seq<char>>,
) -> Seq<Seq<char>> {
    seq![
        "--ro-bind"@,
        "/usr/bin"@,
        "/usr/bin"@,
        "--ro-bind"@,
        "/usr/sbin"@,
        "/usr/sbin"@,
        "--ro-bind"@,
        "/usr/lib"@,
        "/usr/lib"@,
        "--ro-bind"@,
        "/usr/lib64"@,
        "/usr/lib64"@,
        "--ro-bind"@,
        "/usr/share"@,
        "/usr/share"@,
        "--symlink"@,
        "/usr/lib"@,
        "/lib"@,
        "--symlink"@,
        "/usr/lib64"@,
        "/lib64"@,
        "--symlink"@,
        "/usr/bin"@,
        "/bin"@,
        "--symlink"@,
        "/usr/sbin"@,
        "/sbin"@,
        "--proc"@,
        "/proc"@,
        "--dev"@,
        "/dev"@,
    ] + (if mount_current_dir {
        seq![
            if mount_current_dir_writable {
                "--bind"@
            } else {
                "--ro-bind"@
            },
            current_dir,
            current_dir,
            "--chdir"@,
            match workdir {
                Some(w) => w,
                None => current_dir,
            },
        ] + (if program_dir != current_dir {
            seq!["--ro-bind"@, program_dir, program_dir]
        } else {
            Seq::<Seq<char>>::empty()
        })
    } else {
        (match workdir {
            Some(w) => seq!["--chdir"@, w],
            None => Seq::<Seq<char>>::empty(),
        }) + seq!["--ro-bind"@, program_dir, program_dir]
    }) + spec_triple_args("--ro-bind"@, ro) + spec_triple_args("--bind"@, rw) + spec_pair_args(
        "--setenv"@,
        extra_env,
    ) + seq!["--new-session"@, "--unshare-all"@] + (if network {
        seq!["--share-net"@]
    } else {
        Seq::<Seq<char>>::empty()
    }) + seq![program_path] + arguments
}

#[verifier::rlimit(100)]
fn bwrap_cmd(
    program_path: &str,
    program_dir: &str,
    arguments: &Vec<String>,
    network: bool,
    current_dir: &str,
    home_dir: Option<&String>,
    mount_current_dir: bool,
    mount_current_dir_writable: bool,
    mount_readonly: &Vec<String>,
    mount_writable: &Vec<String>,
    extra_env: &Vec<String>,
    workdir: Option<&String>,
) -> (r: Result<Vec<String>, SetupError>)
    ensures
        r is Ok <==> (!mount_current_dir || (home_dir is Some && !spec_home_conflict(
            current_dir.spec_bytes(),
            vstd::utf8::encode_utf8(home_dir->0@),
        ))),
        mount_current_dir && home_dir is None ==> r == Err::<Vec<String>, SetupError>(
            SetupError::HomeNotSet,
        ),
        mount_current_dir && home_dir is Some && spec_home_conflict(
            current_dir.spec_bytes(),
            vstd::utf8::encode_utf8(home_dir->0@),
        ) ==> r == Err::<Vec<String>, SetupError>(SetupError::HomeConflict),
        r matches Ok(args) ==> args.deep_view() == spec_bwrap_args(
            program_path@,
            program_dir@,
            arguments.deep_view(),
            network,
            mount_current_dir,
            mount_current_dir_writable,
            current_dir@,
            opt_text(workdir),
            mount_readonly.deep_view(),
            mount_writable.deep_view(),
            extra_env.deep_view(),
        ),
{
    if mount_current_dir {
        match home_dir {
            None => {
                return Err(SetupError::HomeNotSet);
            },
            Some(h) => {
                if is_path_prefix(current_dir, h.as_str()) {
                    return Err(SetupError::HomeConflict);
                }
            },
        }
    }
    let mut args: Vec<String> = Vec::new();
    push_arg(&mut args, "--ro-bind");
    push_arg(&mut args, "/usr/bin");
    push_arg(&mut args, "/usr/bin");
    push_arg(&mut args, "--ro-bind");
    push_arg(&mut args, "/usr/sbin");
    push_arg(&mut args, "/usr/sbin");
    push_arg(&mut args, "--ro-bind");
    push_arg(&mut args, "/usr/lib");
    push_arg(&mut args, "/usr/lib");
    push_arg(&mut args, "--ro-bind");
    push_arg(&mut args, "/usr/lib64");
    push_arg(&mut args, "/usr/lib64");
    push_arg(&mut args, "--ro-bind");
    push_arg(&mut args, "/usr/share");
    push_arg(&mut args, "/usr/share");
    push_arg(&mut args, "--symlink");
    push_arg(&mut args, "/usr/lib");
    push_arg(&mut args, "/lib");
    push_arg(&mut args, "--symlink");
    push_arg(&mut args, "/usr/lib64");
    push_arg(&mut args, "/lib64");
    push_arg(&mut args, "--symlink");
    push_arg(&mut args, "/usr/bin");
    push_arg(&mut args, "/bin");
    push_arg(&mut args, "--symlink");
    push_arg(&mut args, "/usr/sbin");
    push_arg(&mut args, "/sbin");
    push_arg(&mut args, "--proc");
    push_arg(&mut args, "/proc");
    push_arg(&mut args, "--dev");
    push_arg(&mut args, "/dev");
    let ghost b1 = seq![
        "--ro-bind"@,
        "/usr/bin"@,
        "/usr/bin"@,
        "--ro-bind"@,
        "/usr/sbin"@,
        "/usr/sbin"@,
        "--ro-bind"@,
        "/usr/lib"@,
        "/usr/lib"@,
        "--ro-bind"@,
        "/usr/lib64"@,
        "/usr/lib64"@,
        "--ro-bind"@,
        "/usr/share"@,
        "/usr/share"@,
        "--symlink"@,
        "/usr/lib"@,
        "/lib"@,
        "--symlink"@,
        "/usr/lib64"@,
        "/lib64"@,
        "--symlink"@,
        "/usr/bin"@,
        "/bin"@,
        "--symlink"@,
        "/usr/sbin"@,
        "/sbin"@,
        "--proc"@,
        "/proc"@,
        "--dev"@,
        "/dev"@,
    ];
    proof {
        assert(args.deep_view() =~= b1);
    }
    let ghost b2 = (if mount_current_dir {
        seq![
            if mount_current_dir_writable {
                "--bind"@
            } else {
                "--ro-bind"@
            },
            current_dir@,
            current_dir@,
            "--chdir"@,
            match opt_text(workdir) {
                Some(w) => w,
                None => current_dir@,
            },
        ] + (if program_dir@ != current_dir@ {
            seq!["--ro-bind"@, program_dir@, program_dir@]
        } else {
            Seq::<Seq<char>>::empty()
        })
    } else {
        (match opt_text(workdir) {
            Some(w) => seq!["--chdir"@, w],
            None => Seq::<Seq<char>>::empty(),
        }) + seq!["--ro-bind"@, program_dir@, program_dir@]
    });
    let same_dir = crate::ascii::bytes_eq(program_dir.as_bytes(), current_dir.as_bytes());
    proof {
        vstd::utf8::encode_utf8_decode_utf8(program_dir@);
        vstd::utf8::encode_utf8_decode_utf8(current_dir@);
    }
    if mount_current_dir {
        if mount_current_dir_writable {
            push_arg(&mut args, "--bind");
        } else {
            push_arg(&mut args, "--ro-bind");
        }
        push_arg(&mut args, current_dir);
        push_arg(&mut args, current_dir);
        push_arg(&mut args, "--chdir");
        match workdir {
            Some(w) => push_arg_string(&mut args, w.clone()),
            None => push_arg(&mut args, current_dir),
        }
        if !same_dir {
            push_arg(&mut args, "--ro-bind");
            push_arg(&mut args, program_dir);
            push_arg(&mut args, program_dir);
        }
        proof {
            assert(args.deep_view() =~= b1 + b2);
        }
    } else {
        match workdir {
            Some(w) => {
                push_arg(&mut args, "--chdir");
                push_arg_string(&mut args, w.clone());
            },
            None => {},
        }
        push_arg(&mut args, "--ro-bind");
        push_arg(&mut args, program_dir);
        push_arg(&mut args, program_dir);
        proof {
            assert(args.deep_view() =~= b1 + b2);
        }
    }
    assert(args.deep_view() == b1 + b2);
    append_triple_args(&mut args, "--ro-bind", mount_readonly);
    append_triple_args(&mut args, "--bind", mount_writable);
    append_pair_args(&mut args, "--setenv", extra_env);
    push_arg(&mut args, "--new-session");
    push_arg(&mut args, "--unshare-all");
    let ghost b6 = b1 + b2 + spec_triple_args("--ro-bind"@, mount_readonly.deep_view())
        + spec_triple_args("--bind"@, mount_writable.deep_view()) + spec_pair_args(
        "--setenv"@,
        extra_env.deep_view(),
    ) + seq!["--new-session"@, "--unshare-all"@];
    proof {
        assert(args.deep_view() =~= b6);
    }
    let ghost b7 = (if network {
        seq!["--share-net"@]
    } else {
        Seq::<Seq<char>>::empty()
    });
    if network {
        push_arg(&mut args, "--share-net");
    } else {
        proof {
            assert(b6 + b7 =~= b6);
        }
    }
    assert(args.deep_view() == b6 + b7);
    push_arg(&mut args, program_path);
    let ghost b8 = b6 + b7 + seq![program_path@];
    append_strings_args(&mut args, arguments);
    proof {
        assert(args.deep_view() == b8 + arguments.deep_view());
    }
    Ok(args)
}

/// Runs a host program inside the sandbox wrapper: the exact command line
/// to replace the process with. The caller resolves the program and
/// canonicalizes every path first, then executes the result.
pub fn wrapped(
    program_path: &str,
    program_dir: &str,
    arguments: &Vec<String>,
    network: bool,
    current_dir: &str,
    home_dir: Option<&String>,
    mount_current_dir: bool,
    mount_current_dir_writable: bool,
    mount_readonly: &Vec<String>,
    mount_writable: &Vec<String>,
    extra_env: &Vec<String>,
    workdir: Option<&String>,
) -> (r: Result<CommandLine, SetupError>)
    ensures
        r is Ok <==> (!mount_current_dir || (home_dir is Some && !spec_home_conflict(
            current_dir.spec_bytes(),
            vstd::utf8::encode_utf8(home_dir->0@),
        ))),
        r matches Ok(c) ==> c.program@ == "bwrap"@ && c.args.deep_view() == spec_bwrap_args(
            program_path@,
            program_dir@,
            arguments.deep_view(),
            network,
            mount_current_dir,
            mount_current_dir_writable,
            current_dir@,
            opt_text(workdir),
            mount_readonly.deep_view(),
            mount_writable.deep_view(),
            extra_env.deep_view(),
        ),
        r matches Err(e) ==> (mount_current_dir && (home_dir is None ==> e
            == SetupError::HomeNotSet) && (home_dir is Some ==> e == SetupError::HomeConflict)),
{
    let args = bwrap_cmd(
        program_path,
        program_dir,
        arguments,
        network,
        current_dir,
        home_dir,
        mount_current_dir,
        mount_current_dir_writable,
        mount_readonly,
        mount_writable,
        extra_env,
        workdir,
    );
    match args {
        Ok(args) => Ok(CommandLine { program: String::from_str("bwrap"), args }),
        Err(e) => Err(e),
    }
}

} // verus!
