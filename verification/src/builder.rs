//! The spec builder: the rules that turn a program, its mount flags and the
//! probed host facts into the creation request body — which directories are
//! bound read-only, which tmpfs mounts every container gets, which
//! environment variables pass through, and which working directory the
//! container starts in.
//!
//! Everything the rules need from the host — the resolved program path, the
//! current directory, which system directories exist — arrives as plain
//! values, canonicalized by the caller; the rules themselves are pure.

use vstd::prelude::*;
use vstd::string::StringExecFns;
use vstd::string::StringSliceAdditionalSpecFns;
use vstd::utf8::encode_utf8;
use crate::body::{binds_view, create_container_body, opt_strings_bytes, spec_create_body,
    tmpfs_view, tty_view};
use crate::container::{Bind, Tmpfs, Tty};
use crate::json::strings_bytes;
use crate::text::push_char;

verus! {

/// A non-empty path that starts at the root.
pub open spec fn is_absolute(p: Seq<char>) -> bool {
    p.len() > 0 && p[0] == '/'
}

/// The fixed allow-list of system directories bound read-only into every
/// container, each only if it exists on the host.
pub open spec fn spec_system_mounts() -> Seq<Seq<u8>> {
    seq![
        "/bin".spec_bytes(),
        "/etc".spec_bytes(),
        "/lib".spec_bytes(),
        "/lib32".spec_bytes(),
        "/lib64".spec_bytes(),
        "/libx32".spec_bytes(),
        "/sbin".spec_bytes(),
        "/usr".spec_bytes(),
    ]
}

/// The system directories as text, in the same order.
pub open spec fn spec_system_mount_names() -> Seq<Seq<char>> {
    seq!["/bin"@, "/etc"@, "/lib"@, "/lib32"@, "/lib64"@, "/libx32"@, "/sbin"@, "/usr"@]
}

/// The system directories, in the order their presence flags are given in.
pub fn system_mounts() -> (r: Vec<String>)
    ensures
        strings_bytes(r@) == spec_system_mounts(),
        r.deep_view() == spec_system_mount_names(),
{
    let mut v: Vec<String> = Vec::new();
    v.push(String::from_str("/bin"));
    v.push(String::from_str("/etc"));
    v.push(String::from_str("/lib"));
    v.push(String::from_str("/lib32"));
    v.push(String::from_str("/lib64"));
    v.push(String::from_str("/libx32"));
    v.push(String::from_str("/sbin"));
    v.push(String::from_str("/usr"));
    proof {
        assert(strings_bytes(v@) =~= spec_system_mounts());
        assert(v.deep_view() =~= spec_system_mount_names());
    }
    v
}

/// The user-database files bound read-only when running a prebuilt image,
/// each only if it exists on the host.
pub open spec fn spec_user_mounts() -> Seq<Seq<u8>> {
    seq!["/etc/passwd".spec_bytes(), "/etc/group".spec_bytes()]
}

/// The user-database files, in the order their presence flags are given in.
pub fn user_mounts() -> (r: Vec<String>)
    ensures
        strings_bytes(r@) == spec_user_mounts(),
{
    let mut v: Vec<String> = Vec::new();
    v.push(String::from_str("/etc/passwd"));
    v.push(String::from_str("/etc/group"));
    proof {
        assert(strings_bytes(v@) =~= spec_user_mounts());
    }
    v
}

/// The locale and identity variables forwarded into every container made
/// from the empty image.
pub open spec fn spec_passthrough_env() -> Seq<Seq<u8>> {
    seq![
        "LANG".spec_bytes(),
        "LC_ADDRESS".spec_bytes(),
        "LC_NAME".spec_bytes(),
        "LC_MONETARY".spec_bytes(),
        "LC_PAPER".spec_bytes(),
        "LC_IDENTIFICATION".spec_bytes(),
        "LC_TELEPHONE".spec_bytes(),
        "LC_MEASUREMENT".spec_bytes(),
        "LC_TIME".spec_bytes(),
        "LC_NUMERIC".spec_bytes(),
        "USER".spec_bytes(),
    ]
}

/// The forwarded variable names as text, in the same order.
pub open spec fn spec_passthrough_env_names() -> Seq<Seq<char>> {
    seq![
        "LANG"@,
        "LC_ADDRESS"@,
        "LC_NAME"@,
        "LC_MONETARY"@,
        "LC_PAPER"@,
        "LC_IDENTIFICATION"@,
        "LC_TELEPHONE"@,
        "LC_MEASUREMENT"@,
        "LC_TIME"@,
        "LC_NUMERIC"@,
        "USER"@,
    ]
}

/// The forwarded environment variable names.
pub fn passthrough_env() -> (r: Vec<String>)
    ensures
        strings_bytes(r@) == spec_passthrough_env(),
        r.deep_view() == spec_passthrough_env_names(),
{
    let mut v: Vec<String> = Vec::new();
    v.push(String::from_str("LANG"));
    v.push(String::from_str("LC_ADDRESS"));
    v.push(String::from_str("LC_NAME"));
    v.push(String::from_str("LC_MONETARY"));
    v.push(String::from_str("LC_PAPER"));
    v.push(String::from_str("LC_IDENTIFICATION"));
    v.push(String::from_str("LC_TELEPHONE"));
    v.push(String::from_str("LC_MEASUREMENT"));
    v.push(String::from_str("LC_TIME"));
    v.push(String::from_str("LC_NUMERIC"));
    v.push(String::from_str("USER"));
    proof {
        assert(strings_bytes(v@) =~= spec_passthrough_env());
        assert(v.deep_view() =~= spec_passthrough_env_names());
    }
    v
}

/// The directory the X11 socket lives in, bound through when running a
/// graphical program.
pub open spec fn spec_x11_socket() -> Seq<u8> {
    "/tmp/.X11-unix".spec_bytes()
}

/// The tmpfs mounts every container gets: `/tmp` and `/var/tmp` writable
/// and executable, `/run` and `/var/run` writable but not executable —
/// writable scratch space on an otherwise read-only root.
pub open spec fn spec_default_tmpfs() -> Seq<(Seq<u8>, Seq<Seq<u8>>)> {
    seq![
        ("/tmp".spec_bytes(), seq!["rw".spec_bytes(), "exec".spec_bytes()]),
        ("/var/tmp".spec_bytes(), seq!["rw".spec_bytes(), "exec".spec_bytes()]),
        ("/run".spec_bytes(), seq!["rw".spec_bytes(), "noexec".spec_bytes()]),
        ("/var/run".spec_bytes(), seq!["rw".spec_bytes(), "noexec".spec_bytes()]),
    ]
}

fn two_options(a: &str, b: &str) -> (r: Vec<String>)
    ensures
        strings_bytes(r@) == seq![a.spec_bytes(), b.spec_bytes()],
{
    let mut v: Vec<String> = Vec::new();
    v.push(String::from_str(a));
    v.push(String::from_str(b));
    proof {
        assert(strings_bytes(v@) =~= seq![a.spec_bytes(), b.spec_bytes()]);
    }
    v
}

/// The default tmpfs mounts.
pub fn default_tmpfs() -> (r: Vec<Tmpfs>)
    ensures
        tmpfs_view(r@) == spec_default_tmpfs(),
{
    let mut v: Vec<Tmpfs> = Vec::new();
    v.push(Tmpfs::new("/tmp", two_options("rw", "exec")));
    v.push(Tmpfs::new("/var/tmp", two_options("rw", "exec")));
    v.push(Tmpfs::new("/run", two_options("rw", "noexec")));
    v.push(Tmpfs::new("/var/run", two_options("rw", "noexec")));
    proof {
        assert(tmpfs_view(v@) =~~= spec_default_tmpfs());
    }
    v
}

/// Paths bound at the same place in the container, all with one option.
pub open spec fn spec_path_binds(paths: Seq<Seq<u8>>, opt: Seq<u8>) -> Seq<
    (Seq<u8>, Seq<u8>, Seq<Seq<u8>>),
> {
    paths.map(|i: int, p: Seq<u8>| (p, p, seq![opt]))
}

fn one_option(opt: &str) -> (r: Vec<String>)
    ensures
        strings_bytes(r@) == seq![opt.spec_bytes()],
{
    let mut v: Vec<String> = Vec::new();
    v.push(String::from_str(opt));
    proof {
        assert(strings_bytes(v@) =~= seq![opt.spec_bytes()]);
    }
    v
}

proof fn lemma_binds_view_push(bs: Seq<Bind>, b: Bind)
    ensures
        binds_view(bs.push(b)) =~= binds_view(bs) + seq![
            (b.host_bytes(), b.dest_bytes(), b.options_bytes()),
        ],
{
}

/// Appends one bind mount of a path at itself with one option.
fn push_self_bind(binds: &mut Vec<Bind>, path: &str, opt: &str)
    ensures
        binds_view(final(binds)@) == binds_view(old(binds)@) + seq![
            (path.spec_bytes(), path.spec_bytes(), seq![opt.spec_bytes()]),
        ],
{
    binds.push(Bind::new(path, path, one_option(opt)));
    proof {
        assert(binds_view(binds@) =~~= binds_view(old(binds)@) + seq![
            (path.spec_bytes(), path.spec_bytes(), seq![opt.spec_bytes()]),
        ]);
    }
}

/// Appends a bind mount of each path at itself, all with one option.
fn append_path_binds(binds: &mut Vec<Bind>, paths: &Vec<String>, opt: &str)
    ensures
        binds_view(final(binds)@) == binds_view(old(binds)@) + spec_path_binds(
            strings_bytes(paths@),
            opt.spec_bytes(),
        ),
{
    let mut i: usize = 0;
    proof {
        assert(binds_view(binds@) =~= binds_view(old(binds)@) + spec_path_binds(
            strings_bytes(paths@).take(0),
            opt.spec_bytes(),
        ));
    }
    while i < paths.len()
        invariant
            0 <= i <= paths@.len(),
            binds_view(binds@) == binds_view(old(binds)@) + spec_path_binds(
                strings_bytes(paths@).take(i as int),
                opt.spec_bytes(),
            ),
        decreases paths@.len() - i,
    {
        let p: &String = &paths[i];
        let b = Bind::new(p.as_str(), p.as_str(), one_option(opt));
        let ghost gb = b;
        let ghost prev = binds@;
        binds.push(b);
        proof {
            lemma_binds_view_push(prev, gb);
            let pb = strings_bytes(paths@);
            assert(gb.host_bytes() == pb[i as int]);
            assert(gb.options_bytes() == seq![opt.spec_bytes()]);
            assert(binds_view(binds@) =~~= binds_view(old(binds)@) + spec_path_binds(
                pb.take(i + 1),
                opt.spec_bytes(),
            ));
        }
        i += 1;
    }
    proof {
        assert(strings_bytes(paths@).take(paths@.len() as int) =~= strings_bytes(paths@));
    }
}

/// The present members of a path list, each bound read-only at itself.
pub open spec fn spec_present_binds(paths: Seq<Seq<u8>>, present: Seq<bool>) -> Seq<
    (Seq<u8>, Seq<u8>, Seq<Seq<u8>>),
>
    decreases paths.len(),
{
    if paths.len() == 0 {
        Seq::empty()
    } else {
        spec_present_binds(paths.drop_last(), present.drop_last()) + (if present.last() {
            seq![(paths.last(), paths.last(), seq!["ro".spec_bytes()])]
        } else {
            Seq::empty()
        })
    }
}

/// Appends a read-only bind mount for each path whose presence flag is set.
fn append_present_binds(binds: &mut Vec<Bind>, paths: &Vec<String>, present: &Vec<bool>)
    requires
        paths@.len() == present@.len(),
    ensures
        binds_view(final(binds)@) == binds_view(old(binds)@) + spec_present_binds(
            strings_bytes(paths@),
            present@,
        ),
{
    let mut i: usize = 0;
    proof {
        assert(strings_bytes(paths@).take(0) =~= Seq::<Seq<u8>>::empty());
        assert(present@.take(0) =~= Seq::<bool>::empty());
        assert(binds_view(binds@) =~= binds_view(old(binds)@) + spec_present_binds(
            strings_bytes(paths@).take(0),
            present@.take(0),
        ));
    }
    while i < paths.len()
        invariant
            0 <= i <= paths@.len() == present@.len(),
            binds_view(binds@) == binds_view(old(binds)@) + spec_present_binds(
                strings_bytes(paths@).take(i as int),
                present@.take(i as int),
            ),
        decreases paths@.len() - i,
    {
        let ghost pb = strings_bytes(paths@);
        proof {
            assert(pb.take(i + 1).drop_last() =~= pb.take(i as int));
            assert(present@.take(i + 1).drop_last() =~= present@.take(i as int));
            assert(pb.take(i + 1).last() == pb[i as int]);
            assert(present@.take(i + 1).last() == present@[i as int]);
        }
        if present[i] {
            let p: &String = &paths[i];
            let b = Bind::new(p.as_str(), p.as_str(), one_option("ro"));
            let ghost gb = b;
            let ghost prev = binds@;
            binds.push(b);
            proof {
                lemma_binds_view_push(prev, gb);
                assert(gb.host_bytes() == pb[i as int]);
                assert(gb.options_bytes() == seq!["ro".spec_bytes()]);
                assert(binds_view(binds@) =~~= binds_view(old(binds)@) + spec_present_binds(
                    pb.take(i + 1),
                    present@.take(i + 1),
                ));
            }
        } else {
            proof {
                assert(binds_view(binds@) =~~= binds_view(old(binds)@) + spec_present_binds(
                    pb.take(i + 1),
                    present@.take(i + 1),
                ));
            }
        }
        i += 1;
    }
    proof {
        assert(strings_bytes(paths@).take(paths@.len() as int) =~= strings_bytes(paths@));
        assert(present@.take(present@.len() as int) =~= present@);
    }
}

/// The working directory the container starts in: the explicit override
/// when one is given, else the current directory when it is mounted, else
/// the root. The caller hands in canonicalized paths, so the choice is
/// always an absolute, existing path; absoluteness is stated here, existence
/// is the canonicalization's.
pub open spec fn spec_working_dir(
    mount_current_dir: bool,
    workdir: Option<Seq<char>>,
    current_dir: Seq<char>,
) -> Seq<char> {
    match workdir {
        Some(w) => w,
        None => if mount_current_dir {
            current_dir
        } else {
            "/"@
        },
    }
}

/// The value of an optional text reference.
pub open spec fn opt_str(w: Option<&String>) -> Option<Seq<char>> {
    match w {
        Some(s) => Some(s@),
        None => None,
    }
}

/// Chooses the container's working directory. Law: whenever the override
/// and the current directory are absolute paths, so is the choice, for
/// every combination of inputs.
pub fn choose_working_dir(
    mount_current_dir: bool,
    workdir: Option<&String>,
    current_dir: &str,
) -> (r: String)
    ensures
        r@ == spec_working_dir(mount_current_dir, opt_str(workdir), current_dir@),
        (match workdir {
            Some(w) => is_absolute(w@),
            None => !mount_current_dir || is_absolute(current_dir@),
        }) ==> is_absolute(r@),
{
    match workdir {
        Some(w) => w.clone(),
        None => {
            if mount_current_dir {
                String::from_str(current_dir)
            } else {
                let mut s = String::new();
                push_char(&mut s, '/');
                proof {
                    reveal_strlit("/");
                    assert(s@ =~= "/"@);
                }
                s
            }
        },
    }
}

proof fn seq_empty_left<T>(x: Seq<T>)
    ensures
        Seq::<T>::empty() + x == x,
{
    assert(Seq::<T>::empty() + x =~= x);
}

proof fn lemma_strings_bytes_concat(a: Seq<String>, b: Seq<String>)
    ensures
        strings_bytes(a + b) == strings_bytes(a) + strings_bytes(b),
{
    assert(strings_bytes(a + b) =~= strings_bytes(a) + strings_bytes(b));
}

proof fn lemma_strings_bytes_push(a: Seq<String>, x: String)
    ensures
        strings_bytes(a.push(x)) == strings_bytes(a) + seq![encode_utf8(x@)],
{
    assert(strings_bytes(a.push(x)) =~= strings_bytes(a) + seq![encode_utf8(x@)]);
}

/// Appends copies of the given text values.
fn append_strings(out: &mut Vec<String>, items: &Vec<String>)
    ensures
        final(out)@ == old(out)@ + items@,
{
    let mut i: usize = 0;
    proof {
        assert(old(out)@ + items@.take(0) =~= old(out)@);
    }
    while i < items.len()
        invariant
            0 <= i <= items@.len(),
            out@ == old(out)@ + items@.take(i as int),
        decreases items@.len() - i,
    {
        let s: &String = &items[i];
        out.push(s.clone());
        proof {
            assert(old(out)@ + items@.take(i + 1) =~= (old(out)@ + items@.take(i as int)).push(
                items@[i as int],
            ));
        }
        i += 1;
    }
    proof {
        assert(items@.take(items@.len() as int) =~= items@);
    }
}

/// The bind-mount list of a container made from the empty image: the
/// program's directory read-only (unless it coincides with a mounted
/// current directory), the current directory per its writable flag when
/// mounted, the present system directories read-only, the caller's
/// read-only and writable paths verbatim, and the X11 socket directory
/// when X11 passthrough is on.
pub open spec fn spec_contained_binds(
    program_dir: Seq<u8>,
    current_dir: Seq<u8>,
    mount_current_dir: bool,
    mount_current_dir_writable: bool,
    present: Seq<bool>,
    ro: Seq<Seq<u8>>,
    rw: Seq<Seq<u8>>,
    x11: bool,
) -> Seq<(Seq<u8>, Seq<u8>, Seq<Seq<u8>>)> {
    (if mount_current_dir {
        (if program_dir != current_dir {
            seq![(program_dir, program_dir, seq!["ro".spec_bytes()])]
        } else {
            Seq::<(Seq<u8>, Seq<u8>, Seq<Seq<u8>>)>::empty()
        }) + seq![
            (
                current_dir,
                current_dir,
                seq![
                    if mount_current_dir_writable {
                        "rw".spec_bytes()
                    } else {
                        "ro".spec_bytes()
                    },
                ],
            ),
        ]
    } else {
        seq![(program_dir, program_dir, seq!["ro".spec_bytes()])]
    }) + spec_present_binds(spec_system_mounts(), present) + spec_path_binds(
        ro,
        "ro".spec_bytes(),
    ) + spec_path_binds(rw, "rw".spec_bytes()) + (if x11 {
        seq![(spec_x11_socket(), spec_x11_socket(), Seq::<Seq<u8>>::empty())]
    } else {
        Seq::<(Seq<u8>, Seq<u8>, Seq<Seq<u8>>)>::empty()
    })
}

/// The environment of a container made from the empty image: the
/// passthrough names, the caller's extra entries in order, and `DISPLAY`
/// when X11 passthrough is on.
pub open spec fn spec_contained_env(extra: Seq<Seq<u8>>, x11: bool) -> Seq<Seq<u8>> {
    spec_passthrough_env() + extra + (if x11 {
        seq!["DISPLAY".spec_bytes()]
    } else {
        Seq::<Seq<u8>>::empty()
    })
}

/// The environment of a container made from a prebuilt image: only the
/// caller's extra entries, and `DISPLAY` when X11 passthrough is on.
pub open spec fn spec_image_env(extra: Seq<Seq<u8>>, x11: bool) -> Seq<Seq<u8>> {
    extra + (if x11 {
        seq!["DISPLAY".spec_bytes()]
    } else {
        Seq::<Seq<u8>>::empty()
    })
}

/// The bind-mount list of a container made from a prebuilt image: the
/// current directory per its writable flag when mounted, the present
/// user-database files read-only, the caller's read-only and writable
/// paths verbatim, and the X11 socket directory when X11 passthrough is on.
pub open spec fn spec_image_binds(
    current_dir: Seq<u8>,
    mount_current_dir: bool,
    mount_current_dir_writable: bool,
    present: Seq<bool>,
    ro: Seq<Seq<u8>>,
    rw: Seq<Seq<u8>>,
    x11: bool,
) -> Seq<(Seq<u8>, Seq<u8>, Seq<Seq<u8>>)> {
    (if mount_current_dir {
        seq![
            (
                current_dir,
                current_dir,
                seq![
                    if mount_current_dir_writable {
                        "rw".spec_bytes()
                    } else {
                        "ro".spec_bytes()
                    },
                ],
            ),
        ]
    } else {
        Seq::<(Seq<u8>, Seq<u8>, Seq<Seq<u8>>)>::empty()
    }) + spec_present_binds(spec_user_mounts(), present) + spec_path_binds(
        ro,
        "ro".spec_bytes(),
    ) + spec_path_binds(rw, "rw".spec_bytes()) + (if x11 {
        seq![(spec_x11_socket(), spec_x11_socket(), Seq::<Seq<u8>>::empty())]
    } else {
        Seq::<(Seq<u8>, Seq<u8>, Seq<Seq<u8>>)>::empty()
    })
}

fn push_x11_bind(binds: &mut Vec<Bind>)
    ensures
        binds_view(final(binds)@) == binds_view(old(binds)@) + seq![
            (spec_x11_socket(), spec_x11_socket(), Seq::<Seq<u8>>::empty()),
        ],
{
    binds.push(Bind::new("/tmp/.X11-unix", "/tmp/.X11-unix", Vec::new()));
    proof {
        assert(binds_view(binds@) =~~= binds_view(old(binds)@) + seq![
            (spec_x11_socket(), spec_x11_socket(), Seq::<Seq<u8>>::empty()),
        ]);
    }
}

/// The environment list for the empty image, as text values.
fn contained_env(extra_env: &Vec<String>, x11: bool) -> (r: Vec<String>)
    ensures
        strings_bytes(r@) == spec_contained_env(strings_bytes(extra_env@), x11),
{
    let mut env = passthrough_env();
    let ghost e0 = env@;
    append_strings(&mut env, extra_env);
    proof {
        lemma_strings_bytes_concat(e0, extra_env@);
    }
    let ghost e1 = env@;
    if x11 {
        env.push(String::from_str("DISPLAY"));
        proof {
            lemma_strings_bytes_push(e1, env@.last());
            assert(strings_bytes(env@) =~= spec_contained_env(strings_bytes(extra_env@), x11));
        }
    } else {
        proof {
            assert(strings_bytes(env@) =~= spec_contained_env(strings_bytes(extra_env@), x11));
        }
    }
    env
}

/// The environment list for a prebuilt image, as text values.
fn image_env(extra_env: &Vec<String>, x11: bool) -> (r: Vec<String>)
    ensures
        strings_bytes(r@) == spec_image_env(strings_bytes(extra_env@), x11),
{
    let mut env: Vec<String> = Vec::new();
    append_strings(&mut env, extra_env);
    proof {
        seq_empty_left(extra_env@);
    }
    let ghost e1 = env@;
    if x11 {
        env.push(String::from_str("DISPLAY"));
        proof {
            lemma_strings_bytes_push(e1, env@.last());
            assert(strings_bytes(env@) =~= spec_image_env(strings_bytes(extra_env@), x11));
        }
    } else {
        proof {
            assert(strings_bytes(env@) =~= spec_image_env(strings_bytes(extra_env@), x11));
        }
    }
    env
}

/// Builds the creation request body for running a host program inside a
/// container made from the given image: the entrypoint is the resolved
/// program followed by its arguments, the root filesystem is read-only,
/// the default tmpfs mounts are present, and the binds, environment and
/// working directory follow the builder's rules. Host facts — the resolved
/// program path, its directory, the canonical current directory, and which
/// system directories exist — are the caller's to provide.
pub fn contained_body(
    image: &str,
    program_path: &str,
    program_dir: &str,
    arguments: &Vec<String>,
    network: &str,
    user: &str,
    current_dir: &str,
    mount_current_dir: bool,
    mount_current_dir_writable: bool,
    system_mounts_present: &Vec<bool>,
    mount_readonly: &Vec<String>,
    mount_writable: &Vec<String>,
    extra_env: &Vec<String>,
    workdir: Option<&String>,
    x11: bool,
    tty: &Option<Tty>,
) -> (r: Vec<u8>)
    requires
        system_mounts_present@.len() == 8,
    ensures
        r@ == spec_create_body(
            image.spec_bytes(),
            Some(seq![program_path.spec_bytes()] + strings_bytes(arguments@)),
            None,
            user.spec_bytes(),
            spec_contained_env(strings_bytes(extra_env@), x11),
            spec_contained_binds(
                program_dir.spec_bytes(),
                current_dir.spec_bytes(),
                mount_current_dir,
                mount_current_dir_writable,
                system_mounts_present@,
                strings_bytes(mount_readonly@),
                strings_bytes(mount_writable@),
                x11,
            ),
            spec_default_tmpfs(),
            network.spec_bytes(),
            true,
            encode_utf8(spec_working_dir(mount_current_dir, opt_str(workdir), current_dir@)),
            tty_view(*tty),
        ),
{
    let ghost empty_binds = Seq::<(Seq<u8>, Seq<u8>, Seq<Seq<u8>>)>::empty();
    let mut binds: Vec<Bind> = Vec::new();
    proof {
        assert(binds_view(binds@) =~= empty_binds);
    }
    let ghost g1 = (if mount_current_dir {
        (if program_dir.spec_bytes() != current_dir.spec_bytes() {
            seq![(program_dir.spec_bytes(), program_dir.spec_bytes(), seq!["ro".spec_bytes()])]
        } else {
            empty_binds
        }) + seq![
            (
                current_dir.spec_bytes(),
                current_dir.spec_bytes(),
                seq![
                    if mount_current_dir_writable {
                        "rw".spec_bytes()
                    } else {
                        "ro".spec_bytes()
                    },
                ],
            ),
        ]
    } else {
        seq![(program_dir.spec_bytes(), program_dir.spec_bytes(), seq!["ro".spec_bytes()])]
    });
    if mount_current_dir {
        if !crate::ascii::bytes_eq(program_dir.as_bytes(), current_dir.as_bytes()) {
            push_self_bind(&mut binds, program_dir, "ro");
        }
        if mount_current_dir_writable {
            push_self_bind(&mut binds, current_dir, "rw");
        } else {
            push_self_bind(&mut binds, current_dir, "ro");
        }
        proof {
            assert(binds_view(binds@) =~= g1);
        }
    } else {
        push_self_bind(&mut binds, program_dir, "ro");
        proof {
            assert(binds_view(binds@) =~= g1);
        }
    }
    let mounts = system_mounts();
    proof {
        assert(strings_bytes(mounts@).len() == mounts@.len());
        assert(spec_system_mounts().len() == 8);
    }
    append_present_binds(&mut binds, &mounts, system_mounts_present);
    append_path_binds(&mut binds, mount_readonly, "ro");
    append_path_binds(&mut binds, mount_writable, "rw");
    if x11 {
        push_x11_bind(&mut binds);
    } else {
        proof {
            assert(binds_view(binds@) + empty_binds =~= binds_view(binds@));
        }
    }
    proof {
        assert(binds_view(binds@) == spec_contained_binds(
            program_dir.spec_bytes(),
            current_dir.spec_bytes(),
            mount_current_dir,
            mount_current_dir_writable,
            system_mounts_present@,
            strings_bytes(mount_readonly@),
            strings_bytes(mount_writable@),
            x11,
        ));
    }
    let tmpfs = default_tmpfs();
    let env = contained_env(extra_env, x11);
    let mut entrypoint: Vec<String> = Vec::new();
    entrypoint.push(String::from_str(program_path));
    let ghost ep1 = entrypoint@;
    append_strings(&mut entrypoint, arguments);
    proof {
        lemma_strings_bytes_concat(ep1, arguments@);
        assert(strings_bytes(ep1) =~= seq![program_path.spec_bytes()]);
    }
    let wd = choose_working_dir(mount_current_dir, workdir, current_dir);
    create_container_body(
        image,
        None,
        Some(&entrypoint),
        network,
        user,
        &env,
        &binds,
        &tmpfs,
        true,
        wd.as_str(),
        tty,
    )
}

/// Builds the creation request body for running a prebuilt image: the
/// image's arguments become the command, an entrypoint override becomes a
/// one-element entrypoint, the root filesystem stays writable and no tmpfs
/// mounts are added, and the binds, environment and working directory
/// follow the builder's rules for images.
pub fn run_image_body(
    image: &str,
    arguments: &Vec<String>,
    entrypoint: Option<&String>,
    network: &str,
    user: &str,
    current_dir: &str,
    mount_current_dir: bool,
    mount_current_dir_writable: bool,
    user_mounts_present: &Vec<bool>,
    mount_readonly: &Vec<String>,
    mount_writable: &Vec<String>,
    extra_env: &Vec<String>,
    workdir: Option<&String>,
    x11: bool,
    tty: &Option<Tty>,
) -> (r: Vec<u8>)
    requires
        user_mounts_present@.len() == 2,
    ensures
        r@ == spec_create_body(
            image.spec_bytes(),
            match entrypoint {
                Some(e) => Some(seq![encode_utf8(e@)]),
                None => None,
            },
            Some(strings_bytes(arguments@)),
            user.spec_bytes(),
            spec_image_env(strings_bytes(extra_env@), x11),
            spec_image_binds(
                current_dir.spec_bytes(),
                mount_current_dir,
                mount_current_dir_writable,
                user_mounts_present@,
                strings_bytes(mount_readonly@),
                strings_bytes(mount_writable@),
                x11,
            ),
            Seq::<(Seq<u8>, Seq<Seq<u8>>)>::empty(),
            network.spec_bytes(),
            false,
            encode_utf8(spec_working_dir(mount_current_dir, opt_str(workdir), current_dir@)),
            tty_view(*tty),
        ),
{
    let ghost empty_binds = Seq::<(Seq<u8>, Seq<u8>, Seq<Seq<u8>>)>::empty();
    let mut binds: Vec<Bind> = Vec::new();
    proof {
        assert(binds_view(binds@) =~= empty_binds);
    }
    let ghost g1 = (if mount_current_dir {
        seq![
            (
                current_dir.spec_bytes(),
                current_dir.spec_bytes(),
                seq![
                    if mount_current_dir_writable {
                        "rw".spec_bytes()
                    } else {
                        "ro".spec_bytes()
                    },
                ],
            ),
        ]
    } else {
        empty_binds
    });
    if mount_current_dir {
        if mount_current_dir_writable {
            push_self_bind(&mut binds, current_dir, "rw");
        } else {
            push_self_bind(&mut binds, current_dir, "ro");
        }
    }
    proof {
        assert(binds_view(binds@) =~= g1);
    }
    let mounts = user_mounts();
    proof {
        assert(strings_bytes(mounts@).len() == mounts@.len());
        assert(spec_user_mounts().len() == 2);
    }
    append_present_binds(&mut binds, &mounts, user_mounts_present);
    append_path_binds(&mut binds, mount_readonly, "ro");
    append_path_binds(&mut binds, mount_writable, "rw");
    if x11 {
        push_x11_bind(&mut binds);
    } else {
        proof {
            assert(binds_view(binds@) + empty_binds =~= binds_view(binds@));
        }
    }
    proof {
        assert(binds_view(binds@) == spec_image_binds(
            current_dir.spec_bytes(),
            mount_current_dir,
            mount_current_dir_writable,
            user_mounts_present@,
            strings_bytes(mount_readonly@),
            strings_bytes(mount_writable@),
            x11,
        ));
    }
    let tmpfs: Vec<Tmpfs> = Vec::new();
    proof {
        assert(tmpfs_view(tmpfs@) =~= Seq::<(Seq<u8>, Seq<Seq<u8>>)>::empty());
    }
    let env = image_env(extra_env, x11);
    let wd = choose_working_dir(mount_current_dir, workdir, current_dir);
    match entrypoint {
        Some(e) => {
            let mut ep: Vec<String> = Vec::new();
            ep.push(e.clone());
            proof {
                assert(strings_bytes(ep@) =~= seq![encode_utf8(e@)]);
            }
            create_container_body(
                image,
                Some(arguments),
                Some(&ep),
                network,
                user,
                &env,
                &binds,
                &tmpfs,
                false,
                wd.as_str(),
                tty,
            )
        },
        None => create_container_body(
            image,
            Some(arguments),
            None,
            network,
            user,
            &env,
            &binds,
            &tmpfs,
            false,
            wd.as_str(),
            tty,
        ),
    }
}

} // verus!
