//! The container spec's data model: bind mounts, tmpfs mounts and terminal
//! dimensions, and the `host:dest[:opts]` serialization of a bind mount.

use vstd::prelude::*;
use vstd::string::StringExecFns;
use vstd::utf8::encode_utf8;
use crate::ascii::append_bytes;
use crate::http::{find_byte, find_byte_in, lemma_find_byte_none, lemma_find_byte_props,
    lemma_find_byte_some};
use crate::json::strings_bytes;

verus! {

/// A bind mount: a host path exposed at a container path, with an option
/// set — a subset of `ro`/`rw`; empty means the engine's default.
pub struct Bind {
    pub host_source: String,
    pub container_dest: String,
    pub options: Vec<String>,
}

impl Bind {
    pub fn new(host_source: &str, container_dest: &str, options: Vec<String>) -> (r: Self)
        ensures
            r.host_source@ == host_source@,
            r.container_dest@ == container_dest@,
            r.options == options,
    {
        Bind {
            host_source: String::from_str(host_source),
            container_dest: String::from_str(container_dest),
            options,
        }
    }

    /// The host path as bytes.
    pub open spec fn host_bytes(&self) -> Seq<u8> {
        encode_utf8(self.host_source@)
    }

    /// The container path as bytes.
    pub open spec fn dest_bytes(&self) -> Seq<u8> {
        encode_utf8(self.container_dest@)
    }

    /// The options as byte strings.
    pub open spec fn options_bytes(&self) -> Seq<Seq<u8>> {
        strings_bytes(self.options@)
    }
}

/// An in-memory filesystem mounted at a container path, discarded on exit.
pub struct Tmpfs {
    pub container_dest: String,
    pub options: Vec<String>,
}

impl Tmpfs {
    pub fn new(container_dest: &str, options: Vec<String>) -> (r: Self)
        ensures
            r.container_dest@ == container_dest@,
            r.options == options,
    {
        Tmpfs { container_dest: String::from_str(container_dest), options }
    }

    /// The container path as bytes.
    pub open spec fn dest_bytes(&self) -> Seq<u8> {
        encode_utf8(self.container_dest@)
    }

    /// The options as byte strings.
    pub open spec fn options_bytes(&self) -> Seq<Seq<u8>> {
        strings_bytes(self.options@)
    }
}

/// Terminal dimensions in character cells; present only when all three
/// standard streams are interactive.
pub struct Tty {
    pub height: u16,
    pub width: u16,
}

impl Tty {
    pub fn new(height: u16, width: u16) -> (r: Self)
        ensures
            r.height == height,
            r.width == width,
    {
        Tty { height, width }
    }
}

/// Byte strings joined by a separator byte, first to last.
pub open spec fn spec_join(items: Seq<Seq<u8>>, sep: u8) -> Seq<u8>
    decreases items.len(),
{
    if items.len() == 0 {
        Seq::empty()
    } else if items.len() == 1 {
        items[0]
    } else {
        items[0] + seq![sep] + spec_join(items.drop_first(), sep)
    }
}

proof fn lemma_bytes_deep_view(v: Vec<u8>)
    ensures
        v.deep_view() == v@,
{
    assert(v.deep_view() =~= v@);
}

pub proof fn lemma_join_snoc(items: Seq<Seq<u8>>, x: Seq<u8>, sep: u8)
    requires
        items.len() >= 1,
    ensures
        spec_join(items.push(x), sep) == spec_join(items, sep) + seq![sep] + x,
    decreases items.len(),
{
    if items.len() == 1 {
        assert(items.push(x).drop_first() =~= seq![x]);
        assert(spec_join(seq![x], sep) == x);
        assert(spec_join(items.push(x), sep) == items[0] + seq![sep] + x);
    } else {
        assert(items.push(x).drop_first() =~= items.drop_first().push(x));
        lemma_join_snoc(items.drop_first(), x, sep);
        assert(items[0] + seq![sep] + (spec_join(items.drop_first(), sep) + seq![sep] + x) =~= (
        items[0] + seq![sep] + spec_join(items.drop_first(), sep)) + seq![sep] + x);
    }
}

/// The serialized form of a bind mount: `host:dest`, or `host:dest:opts`
/// with the options joined by commas when the option set is non-empty — an
/// empty option set yields no trailing colon segment.
pub open spec fn spec_bind_string(host: Seq<u8>, dest: Seq<u8>, opts: Seq<Seq<u8>>) -> Seq<u8> {
    host + seq![58u8] + dest + (if opts.len() == 0 {
        Seq::<u8>::empty()
    } else {
        seq![58u8] + spec_join(opts, 44)
    })
}

/// Serializes a bind mount as the engine's `Binds` entry format.
pub fn serialize_bind(b: &Bind) -> (r: Vec<u8>)
    ensures
        r@ == spec_bind_string(b.host_bytes(), b.dest_bytes(), b.options_bytes()),
{
    let mut out: Vec<u8> = Vec::new();
    append_bytes(&mut out, b.host_source.as_str().as_bytes());
    out.push(58);
    append_bytes(&mut out, b.container_dest.as_str().as_bytes());
    if b.options.len() > 0 {
        out.push(58);
        let ghost base = out@;
        let ghost obs = b.options_bytes();
        let mut i: usize = 0;
        proof {
            assert(obs.take(1) =~= seq![obs[0]]);
        }
        while i < b.options.len()
            invariant
                1 <= obs.len() == b.options@.len(),
                obs == b.options_bytes(),
                0 <= i <= obs.len(),
                i == 0 ==> out@ == base,
                i > 0 ==> out@ == base + spec_join(obs.take(i as int), 44),
            decreases obs.len() - i,
        {
            if i > 0 {
                out.push(44);
            }
            let opt: &String = &b.options[i];
            append_bytes(&mut out, opt.as_str().as_bytes());
            proof {
                assert(obs[i as int] == encode_utf8(b.options@[i as int]@));
                if i == 0 {
                    assert(out@ =~= base + spec_join(obs.take(1), 44));
                } else {
                    assert(obs.take(i as int).len() >= 1);
                    lemma_join_snoc(obs.take(i as int), obs[i as int], 44);
                    assert(obs.take(i + 1) =~= obs.take(i as int).push(obs[i as int]));
                    assert(out@ =~= base + spec_join(obs.take(i + 1), 44));
                }
            }
            i += 1;
        }
        proof {
            assert(obs.take(obs.len() as int) =~= obs);
            assert(out@ =~= spec_bind_string(b.host_bytes(), b.dest_bytes(), b.options_bytes()));
        }
    } else {
        proof {
            assert(out@ =~= spec_bind_string(b.host_bytes(), b.dest_bytes(), b.options_bytes()));
        }
    }
    out
}

/// A byte string split at every occurrence of a separator: one segment more
/// than there are separators, in order.
pub open spec fn spec_split(s: Seq<u8>, sep: u8) -> Seq<Seq<u8>>
    decreases s.len(),
    via spec_split_decreases
{
    match find_byte(s, sep) {
        None => seq![s],
        Some(i) => seq![s.take(i)] + spec_split(s.skip(i + 1), sep),
    }
}

#[via_fn]
proof fn spec_split_decreases(s: Seq<u8>, sep: u8) {
    lemma_find_byte_props(s, sep);
}

/// A parsed `Binds` entry: the host path, the container path, and the
/// option set — empty when there was no third segment.
pub open spec fn spec_parse_bind(s: Seq<u8>) -> Option<(Seq<u8>, Seq<u8>, Seq<Seq<u8>>)> {
    let parts = spec_split(s, 58);
    if parts.len() == 2 {
        Some((parts[0], parts[1], Seq::empty()))
    } else if parts.len() == 3 {
        Some((parts[0], parts[1], spec_split(parts[2], 44)))
    } else {
        None
    }
}

proof fn lemma_split_no_sep(s: Seq<u8>, sep: u8)
    requires
        forall|i: int| 0 <= i < s.len() ==> s[i] != sep,
    ensures
        spec_split(s, sep) == seq![s],
{
    lemma_find_byte_none(s, sep);
}

proof fn lemma_split_head(a: Seq<u8>, rest: Seq<u8>, sep: u8)
    requires
        forall|i: int| 0 <= i < a.len() ==> a[i] != sep,
    ensures
        spec_split(a + seq![sep] + rest, sep) == seq![a] + spec_split(rest, sep),
{
    let s = a + seq![sep] + rest;
    assert(s[a.len() as int] == sep);
    assert(forall|j: int| 0 <= j < a.len() ==> s[j] == a[j]);
    lemma_find_byte_some(s, sep, a.len() as int);
    assert(s.take(a.len() as int) =~= a);
    assert(s.skip(a.len() as int + 1) =~= rest);
}

proof fn lemma_join_free(opts: Seq<Seq<u8>>, sep: u8, b: u8)
    requires
        sep != b,
        forall|k: int|
            0 <= k < opts.len() ==> forall|i: int|
                0 <= i < (#[trigger] opts[k]).len() ==> opts[k][i] != b,
    ensures
        forall|i: int| 0 <= i < spec_join(opts, sep).len() ==> spec_join(opts, sep)[i] != b,
    decreases opts.len(),
{
    if opts.len() <= 1 {
    } else {
        lemma_join_free(opts.drop_first(), sep, b);
        let j = spec_join(opts, sep);
        let tail = spec_join(opts.drop_first(), sep);
        assert forall|i: int| 0 <= i < j.len() implies j[i] != b by {
            if i < opts[0].len() {
                assert(j[i] == opts[0][i]);
            } else if i == opts[0].len() {
                assert(j[i] == sep);
            } else {
                assert(j[i] == tail[i - opts[0].len() - 1]);
            }
        }
    }
}

proof fn lemma_split_join(opts: Seq<Seq<u8>>, sep: u8)
    requires
        opts.len() >= 1,
        forall|k: int|
            0 <= k < opts.len() ==> forall|i: int|
                0 <= i < (#[trigger] opts[k]).len() ==> opts[k][i] != sep,
    ensures
        spec_split(spec_join(opts, sep), sep) == opts,
    decreases opts.len(),
{
    if opts.len() == 1 {
        lemma_split_no_sep(opts[0], sep);
        assert(seq![opts[0]] =~= opts);
    } else {
        let rest = opts.drop_first();
        lemma_split_join(rest, sep);
        assert(spec_join(opts, sep) == opts[0] + seq![sep] + spec_join(rest, sep));
        lemma_split_head(opts[0], spec_join(rest, sep), sep);
        assert(seq![opts[0]] + rest =~= opts);
    }
}

/// Law (bind round trip): parsing the serialized `host:dest[:opts]` form of
/// a bind mount recovers the host path, the container path and the option
/// set exactly — an empty option set yields no trailing colon segment, a
/// non-empty one joins its options with commas. The law asks that neither
/// path contains a colon and that no option contains a colon or a comma: a
/// host path such as `a:b` changes the segment count and cannot round-trip.
pub proof fn lemma_bind_round_trip(host: Seq<u8>, dest: Seq<u8>, opts: Seq<Seq<u8>>)
    requires
        forall|i: int| 0 <= i < host.len() ==> host[i] != 58,
        forall|i: int| 0 <= i < dest.len() ==> dest[i] != 58,
        forall|k: int|
            0 <= k < opts.len() ==> forall|i: int|
                0 <= i < (#[trigger] opts[k]).len() ==> opts[k][i] != 58 && opts[k][i] != 44,
    ensures
        spec_parse_bind(spec_bind_string(host, dest, opts)) == Some((host, dest, opts)),
{
    let s = spec_bind_string(host, dest, opts);
    if opts.len() == 0 {
        assert(s =~= host + seq![58u8] + dest);
        lemma_split_head(host, dest, 58);
        lemma_split_no_sep(dest, 58);
        let parts = spec_split(s, 58);
        assert(parts =~~= seq![host, dest]);
        assert(opts =~= Seq::<Seq<u8>>::empty());
    } else {
        let joined = spec_join(opts, 44);
        assert(s =~= host + seq![58u8] + (dest + seq![58u8] + joined));
        lemma_split_head(host, dest + seq![58u8] + joined, 58);
        lemma_split_head(dest, joined, 58);
        lemma_join_free(opts, 44, 58);
        lemma_split_no_sep(joined, 58);
        let parts = spec_split(s, 58);
        assert(parts =~~= seq![host, dest, joined]);
        lemma_split_join(opts, 44);
        assert(spec_split(parts[2], 44) == opts);
    }
}

/// Splits a byte string at every occurrence of a separator.
pub fn split_bytes(s: &[u8], sep: u8) -> (r: Vec<Vec<u8>>)
    ensures
        r.deep_view() == spec_split(s@, sep),
{
    let mut out: Vec<Vec<u8>> = Vec::new();
    let mut pos: usize = 0;
    let slen = s.len();
    proof {
        assert(s@.skip(0) =~= s@);
        assert(out.deep_view() =~= Seq::<Seq<u8>>::empty());
    }
    loop
        invariant
            0 <= pos <= slen,
            slen == s@.len(),
            spec_split(s@, sep) == out.deep_view() + spec_split(s@.skip(pos as int), sep),
        decreases slen - pos,
    {
        let rest = vstd::slice::slice_subrange(s, pos, slen);
        let ghost t = s@.skip(pos as int);
        proof {
            assert(rest@ =~= t);
        }
        match find_byte_in(rest, sep) {
            None => {
                let seg = vstd::slice::slice_to_vec(rest);
                let ghost old_out = out.deep_view();
                proof {
                    lemma_bytes_deep_view(seg);
                }
                out.push(seg);
                proof {
                    assert(out.deep_view() =~= old_out.push(t));
                    assert(out.deep_view() =~= old_out + seq![t]);
                }
                return out;
            },
            Some(i) => {
                proof {
                    lemma_find_byte_props(t, sep);
                    assert(t.take(i as int) =~= s@.subrange(pos as int, pos + i));
                    assert(t.skip(i + 1) =~= s@.skip(pos + i + 1));
                }
                let seg = vstd::slice::slice_to_vec(
                    vstd::slice::slice_subrange(s, pos, pos + i),
                );
                let ghost old_out = out.deep_view();
                proof {
                    lemma_bytes_deep_view(seg);
                }
                out.push(seg);
                proof {
                    assert(out.deep_view() =~= old_out.push(t.take(i as int)));
                    let tail = spec_split(s@.skip(pos + i + 1), sep);
                    assert((old_out + (seq![t.take(i as int)] + tail)) =~= (old_out.push(
                        t.take(i as int),
                    ) + tail));
                }
                pos = pos + i + 1;
            },
        }
    }
}

/// Parses a `Binds` entry back into host path, container path and options.
pub fn parse_bind(s: &[u8]) -> (r: Option<(Vec<u8>, Vec<u8>, Vec<Vec<u8>>)>)
    ensures
        r is Some <==> spec_parse_bind(s@) is Some,
        r matches Some((h, d, o)) ==> spec_parse_bind(s@) == Some((h@, d@, o.deep_view())),
{
    let parts = split_bytes(s, 58);
    if parts.len() == 2 {
        let h = vstd::slice::slice_to_vec(parts[0].as_slice());
        let d = vstd::slice::slice_to_vec(parts[1].as_slice());
        let empty: Vec<Vec<u8>> = Vec::new();
        proof {
            lemma_bytes_deep_view(parts@[0]);
            lemma_bytes_deep_view(parts@[1]);
            assert(spec_split(s@, 58)[0] == h@);
            assert(spec_split(s@, 58)[1] == d@);
            assert(empty.deep_view() =~= Seq::<Seq<u8>>::empty());
        }
        Some((h, d, empty))
    } else if parts.len() == 3 {
        let h = vstd::slice::slice_to_vec(parts[0].as_slice());
        let d = vstd::slice::slice_to_vec(parts[1].as_slice());
        proof {
            lemma_bytes_deep_view(parts@[0]);
            lemma_bytes_deep_view(parts@[1]);
            lemma_bytes_deep_view(parts@[2]);
            assert(spec_split(s@, 58)[0] == h@);
            assert(spec_split(s@, 58)[1] == d@);
            assert(spec_split(s@, 58)[2] == parts@[2]@);
        }
        let opts = split_bytes(parts[2].as_slice(), 44);
        Some((h, d, opts))
    } else {
        None
    }
}

} // verus!
