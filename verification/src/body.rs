//! The creation request body: the exact JSON document the engine's create
//! endpoint takes, emitted byte by byte from a container spec's parts.

use vstd::prelude::*;
use vstd::string::StringSliceAdditionalSpecFns;
use crate::ascii::{append_bytes, dec_digits, u64_to_dec};
use crate::container::{spec_bind_string, spec_join, serialize_bind, Bind, Tmpfs, Tty};
use crate::json::{push_json_bool, push_json_bytes, push_json_string, push_json_string_array,
    spec_json_bool, spec_json_string, spec_json_string_array, strings_bytes};

verus! {

/// A bind mount as three byte strings: host path, container path, options.
pub open spec fn binds_view(bs: Seq<Bind>) -> Seq<(Seq<u8>, Seq<u8>, Seq<Seq<u8>>)> {
    bs.map(|i: int, b: Bind| (b.host_bytes(), b.dest_bytes(), b.options_bytes()))
}

/// A tmpfs mount as its container path and options.
pub open spec fn tmpfs_view(ts: Seq<Tmpfs>) -> Seq<(Seq<u8>, Seq<Seq<u8>>)> {
    ts.map(|i: int, t: Tmpfs| (t.dest_bytes(), t.options_bytes()))
}

/// A terminal as its height and width.
pub open spec fn tty_view(t: Option<Tty>) -> Option<(u16, u16)> {
    match t {
        Some(t) => Some((t.height, t.width)),
        None => None,
    }
}

/// The comma-separated entries of the `Binds` array: each bind mount's
/// serialized `host:dest[:opts]` form as a JSON string literal.
pub open spec fn spec_bind_items(bs: Seq<(Seq<u8>, Seq<u8>, Seq<Seq<u8>>)>) -> Seq<u8>
    decreases bs.len(),
{
    if bs.len() == 0 {
        Seq::empty()
    } else if bs.len() == 1 {
        spec_json_string(spec_bind_string(bs[0].0, bs[0].1, bs[0].2))
    } else {
        spec_bind_items(bs.drop_last()) + seq![44u8] + spec_json_string(
            spec_bind_string(bs.last().0, bs.last().1, bs.last().2),
        )
    }
}

/// The `Binds` array.
pub open spec fn spec_binds_array(bs: Seq<(Seq<u8>, Seq<u8>, Seq<Seq<u8>>)>) -> Seq<u8> {
    seq![91u8] + spec_bind_items(bs) + seq![93u8]
}

/// The comma-separated members of the `Tmpfs` object: each destination as a
/// key and its comma-joined options as the value.
pub open spec fn spec_tmpfs_items(ts: Seq<(Seq<u8>, Seq<Seq<u8>>)>) -> Seq<u8>
    decreases ts.len(),
{
    if ts.len() == 0 {
        Seq::empty()
    } else if ts.len() == 1 {
        spec_json_string(ts[0].0) + seq![58u8] + spec_json_string(spec_join(ts[0].1, 44))
    } else {
        spec_tmpfs_items(ts.drop_last()) + seq![44u8] + spec_json_string(ts.last().0)
            + seq![58u8] + spec_json_string(spec_join(ts.last().1, 44))
    }
}

/// The `Tmpfs` object.
pub open spec fn spec_tmpfs_object(ts: Seq<(Seq<u8>, Seq<Seq<u8>>)>) -> Seq<u8> {
    seq![123u8] + spec_tmpfs_items(ts) + seq![125u8]
}

/// The part of the creation body before `HostConfig`: `Image`, `Entrypoint`
/// and `Cmd` when given, `User`, `Env`, the four attach flags, `Tty` and
/// `WorkingDir`.
pub open spec fn spec_body_head(
    image: Seq<u8>,
    entrypoint: Option<Seq<Seq<u8>>>,
    cmd: Option<Seq<Seq<u8>>>,
    user: Seq<u8>,
    env: Seq<Seq<u8>>,
    working_dir: Seq<u8>,
    with_tty: bool,
) -> Seq<u8> {
    "{\"Image\":".spec_bytes() + spec_json_string(image) + (match entrypoint {
        Some(e) => ",\"Entrypoint\":".spec_bytes() + spec_json_string_array(e),
        None => Seq::<u8>::empty(),
    }) + (match cmd {
        Some(c) => ",\"Cmd\":".spec_bytes() + spec_json_string_array(c),
        None => Seq::<u8>::empty(),
    }) + ",\"User\":".spec_bytes() + spec_json_string(user) + ",\"Env\":".spec_bytes()
        + spec_json_string_array(env)
        + ",\"AttachStdin\":true,\"AttachStdout\":true,\"AttachStderr\":true,\"OpenStdin\":true,\"Tty\":".spec_bytes()
        + spec_json_bool(with_tty) + ",\"WorkingDir\":".spec_bytes() + spec_json_string(
        working_dir,
    )
}

/// The `HostConfig` member of the creation body: `NetworkMode`, `Binds`,
/// `ReadonlyRootfs`, `Tmpfs` and — only when a terminal is present — its
/// `ConsoleSize`, followed by the body's closing braces.
pub open spec fn spec_host_config(
    network: Seq<u8>,
    binds: Seq<(Seq<u8>, Seq<u8>, Seq<Seq<u8>>)>,
    tmpfs: Seq<(Seq<u8>, Seq<Seq<u8>>)>,
    readonly_rootfs: bool,
    tty: Option<(u16, u16)>,
) -> Seq<u8> {
    ",\"HostConfig\":{\"NetworkMode\":".spec_bytes() + spec_json_string(network)
        + ",\"Binds\":".spec_bytes() + spec_binds_array(binds) + ",\"ReadonlyRootfs\":".spec_bytes()
        + spec_json_bool(readonly_rootfs) + ",\"Tmpfs\":".spec_bytes() + spec_tmpfs_object(tmpfs)
        + (match tty {
        Some((h, w)) => ",\"ConsoleSize\":[".spec_bytes() + dec_digits(h as int) + seq![44u8]
            + dec_digits(w as int) + seq![93u8],
        None => Seq::<u8>::empty(),
    }) + "}}".spec_bytes()
}

/// The whole creation body: the head fields, then the `HostConfig` member.
pub open spec fn spec_create_body(
    image: Seq<u8>,
    entrypoint: Option<Seq<Seq<u8>>>,
    cmd: Option<Seq<Seq<u8>>>,
    user: Seq<u8>,
    env: Seq<Seq<u8>>,
    binds: Seq<(Seq<u8>, Seq<u8>, Seq<Seq<u8>>)>,
    tmpfs: Seq<(Seq<u8>, Seq<Seq<u8>>)>,
    network: Seq<u8>,
    readonly_rootfs: bool,
    working_dir: Seq<u8>,
    tty: Option<(u16, u16)>,
) -> Seq<u8> {
    spec_body_head(image, entrypoint, cmd, user, env, working_dir, tty is Some)
        + spec_host_config(network, binds, tmpfs, readonly_rootfs, tty)
}

/// Appends the `Binds` array for the given bind mounts.
fn push_binds_array(out: &mut Vec<u8>, binds: &Vec<Bind>)
    ensures
        final(out)@ == old(out)@ + spec_binds_array(binds_view(binds@)),
{
    out.push(91);
    let ghost base = out@;
    let ghost bv = binds_view(binds@);
    let mut i: usize = 0;
    proof {
        assert(base + spec_bind_items(bv.take(0)) =~= base);
    }
    while i < binds.len()
        invariant
            0 <= i <= binds@.len(),
            bv == binds_view(binds@),
            out@ == base + spec_bind_items(bv.take(i as int)),
        decreases binds@.len() - i,
    {
        if i > 0 {
            out.push(44);
        }
        let bs = serialize_bind(&binds[i]);
        push_json_bytes(out, bs.as_slice());
        proof {
            assert(bv.take(i + 1).drop_last() =~= bv.take(i as int));
            assert(bv.take(i + 1).last() == bv[i as int]);
            if i == 0 {
                assert(out@ =~= base + spec_bind_items(bv.take(1)));
            } else {
                assert(out@ =~= base + spec_bind_items(bv.take(i + 1)));
            }
        }
        i += 1;
    }
    out.push(93);
    proof {
        assert(bv.take(bv.len() as int) =~= bv);
        assert(out@ =~= old(out)@ + spec_binds_array(bv));
    }
}

/// Appends the `Tmpfs` object for the given tmpfs mounts.
fn push_tmpfs_object(out: &mut Vec<u8>, tmpfs: &Vec<Tmpfs>)
    ensures
        final(out)@ == old(out)@ + spec_tmpfs_object(tmpfs_view(tmpfs@)),
{
    out.push(123);
    let ghost base = out@;
    let ghost tv = tmpfs_view(tmpfs@);
    let mut i: usize = 0;
    proof {
        assert(base + spec_tmpfs_items(tv.take(0)) =~= base);
    }
    while i < tmpfs.len()
        invariant
            0 <= i <= tmpfs@.len(),
            tv == tmpfs_view(tmpfs@),
            out@ == base + spec_tmpfs_items(tv.take(i as int)),
        decreases tmpfs@.len() - i,
    {
        if i > 0 {
            out.push(44);
        }
        let t: &Tmpfs = &tmpfs[i];
        push_json_string(out, t.container_dest.as_str());
        out.push(58);
        let mut joined: Vec<u8> = Vec::new();
        let ghost obs = t.options_bytes();
        let mut k: usize = 0;
        proof {
            if obs.len() > 0 {
                assert(obs.take(1) =~= seq![obs[0]]);
            }
        }
        while k < t.options.len()
            invariant
                obs == t.options_bytes(),
                obs.len() == t.options@.len(),
                0 <= k <= obs.len(),
                k == 0 ==> joined@ == Seq::<u8>::empty(),
                k > 0 ==> joined@ == spec_join(obs.take(k as int), 44),
            decreases obs.len() - k,
        {
            if k > 0 {
                joined.push(44);
            }
            let opt: &String = &t.options[k];
            append_bytes(&mut joined, opt.as_str().as_bytes());
            proof {
                assert(obs[k as int] == vstd::utf8::encode_utf8(t.options@[k as int]@));
                if k == 0 {
                    assert(joined@ =~= spec_join(obs.take(1), 44));
                } else {
                    crate::container::lemma_join_snoc(obs.take(k as int), obs[k as int], 44);
                    assert(obs.take(k + 1) =~= obs.take(k as int).push(obs[k as int]));
                    assert(joined@ =~= spec_join(obs.take(k + 1), 44));
                }
            }
            k += 1;
        }
        proof {
            assert(obs.take(obs.len() as int) =~= obs);
            if obs.len() == 0 {
                assert(joined@ =~= spec_join(obs, 44));
            }
        }
        push_json_bytes(out, joined.as_slice());
        proof {
            assert(tv.take(i + 1).drop_last() =~= tv.take(i as int));
            assert(tv.take(i + 1).last() == tv[i as int]);
            if i == 0 {
                assert(out@ =~= base + spec_tmpfs_items(tv.take(1)));
            } else {
                assert(out@ =~= base + spec_tmpfs_items(tv.take(i + 1)));
            }
        }
        i += 1;
    }
    out.push(125);
    proof {
        assert(tv.take(tv.len() as int) =~= tv);
        assert(out@ =~= old(out)@ + spec_tmpfs_object(tv));
    }
}

/// The value of an optional list of text values as optional byte strings.
pub open spec fn opt_strings_bytes(v: Option<&Vec<String>>) -> Option<Seq<Seq<u8>>> {
    match v {
        Some(ss) => Some(strings_bytes(ss@)),
        None => None,
    }
}

proof fn seq_assoc(a: Seq<u8>, b: Seq<u8>, c: Seq<u8>)
    ensures
        (a + b) + c == a + (b + c),
{
    assert((a + b) + c =~= a + (b + c));
}

proof fn seq_add_empty(a: Seq<u8>)
    ensures
        a + Seq::<u8>::empty() == a,
{
    assert(a + Seq::<u8>::empty() =~= a);
}

/// The head fields of the creation body as bytes.
fn body_head_bytes(
    image: &str,
    cmd: Option<&Vec<String>>,
    entrypoint: Option<&Vec<String>>,
    user: &str,
    env: &Vec<String>,
    working_dir: &str,
    with_tty: bool,
) -> (r: Vec<u8>)
    ensures
        r@ == spec_body_head(
            image.spec_bytes(),
            opt_strings_bytes(entrypoint),
            opt_strings_bytes(cmd),
            user.spec_bytes(),
            strings_bytes(env@),
            working_dir.spec_bytes(),
            with_tty,
        ),
{
    let mut out: Vec<u8> = Vec::new();
    append_bytes(&mut out, "{\"Image\":".as_bytes());
    proof {
        assert(out@ =~= "{\"Image\":".spec_bytes());
    }
    push_json_string(&mut out, image);
    let ghost h1 = "{\"Image\":".spec_bytes() + spec_json_string(image.spec_bytes());
    let ghost ge = (match opt_strings_bytes(entrypoint) {
        Some(e) => ",\"Entrypoint\":".spec_bytes() + spec_json_string_array(e),
        None => Seq::<u8>::empty(),
    });
    if let Some(e) = entrypoint {
        append_bytes(&mut out, ",\"Entrypoint\":".as_bytes());
        push_json_string_array(&mut out, e);
        proof {
            seq_assoc(
                h1,
                ",\"Entrypoint\":".spec_bytes(),
                spec_json_string_array(strings_bytes(e@)),
            );
        }
    } else {
        proof {
            seq_add_empty(h1);
        }
    }
    let ghost h2 = h1 + ge;
    assert(out@ == h2);
    let ghost gc = (match opt_strings_bytes(cmd) {
        Some(c) => ",\"Cmd\":".spec_bytes() + spec_json_string_array(c),
        None => Seq::<u8>::empty(),
    });
    if let Some(c) = cmd {
        append_bytes(&mut out, ",\"Cmd\":".as_bytes());
        push_json_string_array(&mut out, c);
        proof {
            seq_assoc(h2, ",\"Cmd\":".spec_bytes(), spec_json_string_array(strings_bytes(c@)));
        }
    } else {
        proof {
            seq_add_empty(h2);
        }
    }
    let ghost h3 = h2 + gc;
    assert(out@ == h3);
    append_bytes(&mut out, ",\"User\":".as_bytes());
    push_json_string(&mut out, user);
    append_bytes(&mut out, ",\"Env\":".as_bytes());
    push_json_string_array(&mut out, env);
    append_bytes(
        &mut out,
        ",\"AttachStdin\":true,\"AttachStdout\":true,\"AttachStderr\":true,\"OpenStdin\":true,\"Tty\":".as_bytes(),
    );
    push_json_bool(&mut out, with_tty);
    append_bytes(&mut out, ",\"WorkingDir\":".as_bytes());
    push_json_string(&mut out, working_dir);
    out
}

/// The `HostConfig` member of the creation body as bytes, with the closing
/// braces.
fn host_config_bytes(
    network: &str,
    binds: &Vec<Bind>,
    tmpfs: &Vec<Tmpfs>,
    readonly_rootfs: bool,
    tty: &Option<Tty>,
) -> (r: Vec<u8>)
    ensures
        r@ == spec_host_config(
            network.spec_bytes(),
            binds_view(binds@),
            tmpfs_view(tmpfs@),
            readonly_rootfs,
            tty_view(*tty),
        ),
{
    let mut out: Vec<u8> = Vec::new();
    append_bytes(&mut out, ",\"HostConfig\":{\"NetworkMode\":".as_bytes());
    proof {
        assert(out@ =~= ",\"HostConfig\":{\"NetworkMode\":".spec_bytes());
    }
    push_json_string(&mut out, network);
    append_bytes(&mut out, ",\"Binds\":".as_bytes());
    push_binds_array(&mut out, binds);
    append_bytes(&mut out, ",\"ReadonlyRootfs\":".as_bytes());
    push_json_bool(&mut out, readonly_rootfs);
    append_bytes(&mut out, ",\"Tmpfs\":".as_bytes());
    push_tmpfs_object(&mut out, tmpfs);
    let ghost h1 = out@;
    let ghost gcs = (match tty_view(*tty) {
        Some((h, w)) => ",\"ConsoleSize\":[".spec_bytes() + dec_digits(h as int) + seq![44u8]
            + dec_digits(w as int) + seq![93u8],
        None => Seq::<u8>::empty(),
    });
    if let Some(t) = tty {
        append_bytes(&mut out, ",\"ConsoleSize\":[".as_bytes());
        let hd = u64_to_dec(t.height as u64);
        append_bytes(&mut out, hd.as_slice());
        out.push(44);
        let wd = u64_to_dec(t.width as u64);
        append_bytes(&mut out, wd.as_slice());
        out.push(93);
        proof {
            let a = ",\"ConsoleSize\":[".spec_bytes();
            let b = dec_digits(t.height as int);
            let c = seq![44u8];
            let d = dec_digits(t.width as int);
            let e = seq![93u8];
            assert(out@ == (((((h1 + a) + b) + c) + d) + e));
            seq_assoc(h1, a, b);
            seq_assoc(h1, a + b, c);
            seq_assoc(h1, (a + b) + c, d);
            seq_assoc(h1, ((a + b) + c) + d, e);
            assert(out@ == h1 + gcs);
        }
    } else {
        proof {
            seq_add_empty(h1);
        }
    }
    assert(out@ == h1 + gcs);
    append_bytes(&mut out, "}}".as_bytes());
    out
}

/// Emits the creation request body for the given container spec parts,
/// byte for byte as `spec_create_body` describes it.
pub fn create_container_body(
    image: &str,
    cmd: Option<&Vec<String>>,
    entrypoint: Option<&Vec<String>>,
    network: &str,
    user: &str,
    env: &Vec<String>,
    binds: &Vec<Bind>,
    tmpfs: &Vec<Tmpfs>,
    readonly_rootfs: bool,
    working_dir: &str,
    tty: &Option<Tty>,
) -> (r: Vec<u8>)
    ensures
        r@ == spec_create_body(
            image.spec_bytes(),
            opt_strings_bytes(entrypoint),
            opt_strings_bytes(cmd),
            user.spec_bytes(),
            strings_bytes(env@),
            binds_view(binds@),
            tmpfs_view(tmpfs@),
            network.spec_bytes(),
            readonly_rootfs,
            working_dir.spec_bytes(),
            tty_view(*tty),
        ),
{
    let mut out = body_head_bytes(image, cmd, entrypoint, user, env, working_dir, tty.is_some());
    let hc = host_config_bytes(network, binds, tmpfs, readonly_rootfs, tty);
    append_bytes(&mut out, hc.as_slice());
    out
}

} // verus!
