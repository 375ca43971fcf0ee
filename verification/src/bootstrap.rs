//! The start-up configuration: its wire format, the static-import table and the order of the
//! start-up steps.

use crate::bytes;
use crate::engine::EngineError;
use crate::fuse_client::FuseInitError;
use crate::hook::install::InstallError;
use crate::paths;
use crate::text;
use vstd::prelude::*;
use vstd::slice::*;
use vstd::string::*;
use vstd::utf8::*;

verus! {

/// One static-import DLL virtualization: the executable's import of `dll_name` is redirected to
/// `backing_path` before it is initialised.
#[derive(Clone, Debug, PartialEq, Eq)]
pub struct StaticImport {
    /// Final path component, such as `d3d11.dll`.
    pub dll_name: String,
    /// Absolute path; the `\??\` form is accepted too.
    pub backing_path: String,
}

/// What a configuration says, as values.
#[verifier::ext_equal]
pub struct ConfigView {
    /// The managed root.
    pub root: Seq<char>,
    /// The write overlay's directory; empty where there is none.
    pub overlay: Seq<char>,
    /// Name and backing path of each static import.
    pub statics: Seq<(Seq<char>, Seq<char>)>,
    /// The snapshot blob.
    pub snapshot: Seq<u8>,
}

/// The mark between the overlay and the static-import table.
pub open spec fn config_magic() -> Seq<u8> {
    seq![0x56u8, 0x46u8, 0x53u8, 0x31u8]
}

/// A text field: its length in bytes, then its UTF-8.
pub open spec fn field_bytes(s: Seq<char>) -> Seq<u8> {
    bytes::le32(encode_utf8(s).len() as u32) + encode_utf8(s)
}

/// The static-import table without its count.
pub open spec fn statics_bytes(v: Seq<(Seq<char>, Seq<char>)>) -> Seq<u8>
    decreases v.len(),
{
    if v.len() == 0 {
        seq![]
    } else {
        statics_bytes(v.drop_last()) + (field_bytes(v.last().0) + field_bytes(v.last().1))
    }
}

/// The wire form of a configuration.
pub open spec fn config_bytes(c: ConfigView) -> Seq<u8> {
    field_bytes(c.root) + field_bytes(c.overlay) + config_magic() + bytes::le32(c.statics.len() as u32)
        + statics_bytes(c.statics) + c.snapshot
}

/// The wire form that has no static-import table and no mark.
pub open spec fn legacy_config_bytes(
    root: Seq<char>,
    overlay: Seq<char>,
    snapshot: Seq<u8>,
) -> Seq<u8> {
    field_bytes(root) + field_bytes(overlay) + snapshot
}

/// The text field at `off` and the offset behind it; `None` where the buffer ends too early or
/// the bytes are no UTF-8.
pub open spec fn field_in(b: Seq<u8>, off: int) -> Option<(Seq<char>, int)> {
    if off + 4 > b.len() {
        None
    } else {
        let len = bytes::u32_in(b, off) as int;
        let text = b.subrange(off + 4, off + 4 + len);
        if off + 4 + len > b.len() || !valid_utf8(text) {
            None
        } else {
            Some((decode_utf8(text), off + 4 + len))
        }
    }
}

/// The `n` static imports at `off` and the offset behind them.
pub open spec fn statics_in(b: Seq<u8>, off: int, n: nat) -> Option<
    (Seq<(Seq<char>, Seq<char>)>, int),
>
    decreases n,
{
    if n == 0 {
        Some((seq![], off))
    } else {
        match statics_in(b, off, (n - 1) as nat) {
            None => None,
            Some((before, o0)) => match field_in(b, o0) {
                None => None,
                Some((name, o1)) => match field_in(b, o1) {
                    None => None,
                    Some((backing, o2)) => Some((before.push((name, backing)), o2)),
                },
            },
        }
    }
}

/// What `rest`, the bytes behind the two text fields, say: a marked static-import table with the
/// snapshot behind it, or nothing but the snapshot.
pub open spec fn tail_in(rest: Seq<u8>) -> Option<(Seq<(Seq<char>, Seq<char>)>, Seq<u8>)> {
    if rest.len() >= 4 && rest.take(4) == config_magic() {
        if rest.len() < 8 {
            None
        } else {
            match statics_in(rest, 8, bytes::u32_in(rest, 4) as nat) {
                None => None,
                Some((statics, off)) => Some((statics, rest.skip(off))),
            }
        }
    } else {
        Some((seq![], rest))
    }
}

/// The configuration that `b` holds.
pub open spec fn config_in(b: Seq<u8>) -> Option<ConfigView> {
    match field_in(b, 0) {
        None => None,
        Some((root, o1)) => match field_in(b, o1) {
            None => None,
            Some((overlay, o2)) => match tail_in(b.skip(o2)) {
                None => None,
                Some((statics, snapshot)) => Some(
                    ConfigView { root, overlay, statics, snapshot },
                ),
            },
        },
    }
}

/// The values of a static-import table.
pub open spec fn statics_view(v: Seq<StaticImport>) -> Seq<(Seq<char>, Seq<char>)> {
    v.map_values(|e: StaticImport| (e.dll_name@, e.backing_path@))
}

/// Whether every length of a configuration fits its 32-bit field.
pub open spec fn config_fits(c: ConfigView) -> bool {
    &&& encode_utf8(c.root).len() <= u32::MAX
    &&& encode_utf8(c.overlay).len() <= u32::MAX
    &&& c.statics.len() <= u32::MAX
    &&& forall|i: int|
        0 <= i < c.statics.len() ==> encode_utf8(#[trigger] c.statics[i].0).len() <= u32::MAX
            && encode_utf8(c.statics[i].1).len() <= u32::MAX
}

// ---------------------------------------------------------------------------------------
// Laws of the wire format.

/// A field written at `off` is the field read there.
proof fn lemma_field_read(b: Seq<u8>, off: int, s: Seq<char>)
    requires
        0 <= off,
        encode_utf8(s).len() <= u32::MAX,
        off + field_bytes(s).len() <= b.len(),
        b.subrange(off, off + field_bytes(s).len()) == field_bytes(s),
    ensures
        field_in(b, off) == Some((s, off + field_bytes(s).len())),
{
    broadcast use {bytes::lemma_le32, encode_utf8_valid_utf8, encode_utf8_decode_utf8};

    let u = encode_utf8(s);
    let f = field_bytes(s);
    assert(f.len() == 4 + u.len());
    assert(b.subrange(off, off + 4) =~= f.subrange(0, 4)) by {
        assert forall|i: int| 0 <= i < 4 implies b.subrange(off, off + 4)[i] == f.subrange(
            0,
            4,
        )[i] by {
            assert(b.subrange(off, off + f.len())[i] == f[i]);
        }
    }
    assert(f.subrange(0, 4) =~= bytes::le32(u.len() as u32));
    assert(bytes::u32_in(b, off) == u.len());
    assert(b.subrange(off + 4, off + 4 + u.len()) =~= u) by {
        assert forall|i: int| 0 <= i < u.len() implies b.subrange(off + 4, off + 4 + u.len())[i]
            == u[i] by {
            assert(b.subrange(off, off + f.len())[i + 4] == f[i + 4]);
        }
    }
}

/// A static-import table written at `off` is the table read there.
proof fn lemma_statics_read(b: Seq<u8>, off: int, v: Seq<(Seq<char>, Seq<char>)>)
    requires
        0 <= off,
        forall|i: int|
            0 <= i < v.len() ==> encode_utf8(#[trigger] v[i].0).len() <= u32::MAX && encode_utf8(
                v[i].1,
            ).len() <= u32::MAX,
        off + statics_bytes(v).len() <= b.len(),
        b.subrange(off, off + statics_bytes(v).len()) == statics_bytes(v),
    ensures
        statics_in(b, off, v.len()) == Some((v, off + statics_bytes(v).len())),
    decreases v.len(),
{
    if v.len() > 0 {
        let init = v.drop_last();
        let head = statics_bytes(init);
        let name = field_bytes(v.last().0);
        let backing = field_bytes(v.last().1);
        let all = statics_bytes(v);
        assert(all =~= head + (name + backing));
        assert(b.subrange(off, off + head.len()) =~= head) by {
            assert forall|i: int| 0 <= i < head.len() implies b.subrange(
                off,
                off + head.len(),
            )[i] == head[i] by {
                assert(b.subrange(off, off + all.len())[i] == all[i]);
            }
        }
        assert forall|i: int| 0 <= i < init.len() implies encode_utf8(#[trigger] init[i].0).len()
            <= u32::MAX && encode_utf8(init[i].1).len() <= u32::MAX by {
            assert(init[i] == v[i]);
        }
        lemma_statics_read(b, off, init);
        let o0 = off + head.len();
        assert(b.subrange(o0, o0 + name.len()) =~= name) by {
            assert forall|i: int| 0 <= i < name.len() implies b.subrange(o0, o0 + name.len())[i]
                == name[i] by {
                assert(b.subrange(off, off + all.len())[head.len() + i] == all[head.len() + i]);
            }
        }
        assert(encode_utf8(v[v.len() - 1].0).len() <= u32::MAX);
        lemma_field_read(b, o0, v.last().0);
        let o1 = o0 + name.len();
        assert(b.subrange(o1, o1 + backing.len()) =~= backing) by {
            assert forall|i: int| 0 <= i < backing.len() implies b.subrange(
                o1,
                o1 + backing.len(),
            )[i] == backing[i] by {
                let k = head.len() + name.len() + i;
                assert(b.subrange(off, off + all.len())[k] == all[k]);
            }
        }
        lemma_field_read(b, o1, v.last().1);
        assert(init.push(v.last()) =~= v);
    } else {
        assert(v =~= seq![]);
    }
}

/// The bytes of a configuration, up to the snapshot, read as its two text fields.
proof fn lemma_header_read(root: Seq<char>, overlay: Seq<char>, rest: Seq<u8>)
    requires
        encode_utf8(root).len() <= u32::MAX,
        encode_utf8(overlay).len() <= u32::MAX,
    ensures
        ({
            let b = field_bytes(root) + field_bytes(overlay) + rest;
            let o1 = field_bytes(root).len() as int;
            let o2 = o1 + field_bytes(overlay).len();
            &&& field_in(b, 0) == Some((root, o1))
            &&& field_in(b, o1) == Some((overlay, o2))
            &&& b.skip(o2) == rest
        }),
{
    let r = field_bytes(root);
    let o = field_bytes(overlay);
    let b = r + o + rest;
    assert(b.subrange(0, r.len() as int) =~= r);
    lemma_field_read(b, 0, root);
    assert(b.subrange(r.len() as int, (r.len() + o.len()) as int) =~= o);
    lemma_field_read(b, r.len() as int, overlay);
    assert(b.skip((r.len() + o.len()) as int) =~= rest);
}

/// Decoding an encoded configuration gives back the root, the overlay, every static import in
/// order and the snapshot.
pub proof fn law_config_round_trip(c: ConfigView)
    requires
        config_fits(c),
    ensures
        config_in(config_bytes(c)) == Some(c),
{
    broadcast use bytes::lemma_le32;

    let m = config_magic();
    let n = bytes::le32(c.statics.len() as u32);
    let s = statics_bytes(c.statics);
    let rest = m + n + s + c.snapshot;
    let b = config_bytes(c);
    assert(b =~= field_bytes(c.root) + field_bytes(c.overlay) + rest);
    lemma_header_read(c.root, c.overlay, rest);
    assert(rest.take(4) =~= m);
    assert(rest.subrange(4, 8) =~= n);
    assert(rest.subrange(8, (8 + s.len()) as int) =~= s);
    lemma_statics_read(rest, 8, c.statics);
    assert(rest.skip((8 + s.len()) as int) =~= c.snapshot);
}

/// A configuration without the mark still decodes: its static-import table is empty and
/// everything behind the two text fields is the snapshot.
pub proof fn law_legacy_config_decodes(root: Seq<char>, overlay: Seq<char>, snapshot: Seq<u8>)
    requires
        encode_utf8(root).len() <= u32::MAX,
        encode_utf8(overlay).len() <= u32::MAX,
        !config_magic().is_prefix_of(snapshot),
    ensures
        config_in(legacy_config_bytes(root, overlay, snapshot)) == Some(
            ConfigView { root, overlay, statics: seq![], snapshot },
        ),
{
    lemma_header_read(root, overlay, snapshot);
    if snapshot.len() >= 4 && snapshot.take(4) == config_magic() {
        assert(config_magic().is_prefix_of(snapshot));
    }
}

/// A field whose bytes are cut short is refused.
proof fn lemma_cut_field(b: Seq<u8>, off: int, s: Seq<char>, cut: int)
    requires
        0 <= off <= cut < off + field_bytes(s).len() <= b.len(),
        encode_utf8(s).len() <= u32::MAX,
        b.subrange(off, off + field_bytes(s).len()) == field_bytes(s),
    ensures
        field_in(b.take(cut), off) is None,
{
    broadcast use bytes::lemma_le32;

    let f = field_bytes(s);
    if off + 4 <= cut {
        let got = b.take(cut).subrange(off, off + 4);
        let want = bytes::le32(encode_utf8(s).len() as u32);
        assert forall|i: int| 0 <= i < 4 implies got[i] == want[i] by {
            assert(b.subrange(off, off + f.len())[i] == f[i]);
        }
        assert(got =~= want);
    }
}

/// A configuration cut short inside its root or its overlay does not decode.
pub proof fn law_truncated_config_is_refused(c: ConfigView, cut: int)
    requires
        config_fits(c),
        0 <= cut < field_bytes(c.root).len() + field_bytes(c.overlay).len(),
    ensures
        config_in(config_bytes(c).take(cut)) is None,
{
    let b = config_bytes(c);
    let r = field_bytes(c.root);
    let o = field_bytes(c.overlay);
    assert(b.subrange(0, r.len() as int) =~= r);
    assert(b.subrange(r.len() as int, (r.len() + o.len()) as int) =~= o);
    if cut < r.len() {
        lemma_cut_field(b, 0, c.root, cut);
    } else {
        assert(b.take(cut).subrange(0, r.len() as int) =~= r);
        lemma_field_read(b.take(cut), 0, c.root);
        lemma_cut_field(b, r.len() as int, c.overlay, cut);
    }
}

// ---------------------------------------------------------------------------------------
// The codec.

/// Appends a text field.
fn push_field(out: &mut Vec<u8>, s: &str)
    ensures
        final(out)@ == old(out)@ + field_bytes(s@),
{
    let b = s.as_bytes();
    bytes::push_u32(out, b.len() as u32);
    bytes::push_bytes(out, b);
    assert(out@ =~= old(out)@ + field_bytes(s@));
}

/// Encodes a configuration without overlay and static imports.
pub fn encode_config(root: &str, snapshot: &[u8]) -> (out: Vec<u8>)
    ensures
        out@ == config_bytes(
            (ConfigView { root: root@, overlay: seq![], statics: seq![], snapshot: snapshot@ }),
        ),
{
    proof {
        reveal_strlit("");
        assert(""@ =~= seq![]);
    }
    encode_config_with_overlay(root, "", snapshot)
}

/// Encodes a configuration without static imports.
pub fn encode_config_with_overlay(root: &str, overlay: &str, snapshot: &[u8]) -> (out: Vec<u8>)
    ensures
        out@ == config_bytes(
            (ConfigView { root: root@, overlay: overlay@, statics: seq![], snapshot: snapshot@ }),
        ),
{
    let none: Vec<StaticImport> = Vec::new();
    assert(statics_view(none@) =~= seq![]);
    encode_config_full(root, overlay, none.as_slice(), snapshot)
}

/// Encodes a configuration:
///
/// ```text
/// [u32 root_len][root utf8]
/// [u32 overlay_len][overlay utf8]
/// "VFS1"
/// [u32 n_static]
/// n times: [u32 name_len][name utf8][u32 backing_len][backing utf8]
/// [snapshot bytes]
/// ```
pub fn encode_config_full(
    root: &str,
    overlay: &str,
    static_imports: &[StaticImport],
    snapshot: &[u8],
) -> (out: Vec<u8>)
    ensures
        out@ == config_bytes(
            (ConfigView {
                root: root@,
                overlay: overlay@,
                statics: statics_view(static_imports@),
                snapshot: snapshot@,
            }),
        ),
{
    let ghost all = statics_view(static_imports@);
    let mut out: Vec<u8> = Vec::new();
    push_field(&mut out, root);
    push_field(&mut out, overlay);
    out.push(0x56u8);
    out.push(0x46u8);
    out.push(0x53u8);
    out.push(0x31u8);
    assert(out@ =~= field_bytes(root@) + field_bytes(overlay@) + config_magic());
    bytes::push_u32(&mut out, static_imports.len() as u32);
    let ghost head = out@;
    let mut i: usize = 0;
    assert(head + statics_bytes(all.take(0)) =~= head);
    while i < static_imports.len()
        invariant
            i <= static_imports@.len(),
            all == statics_view(static_imports@),
            out@ == head + statics_bytes(all.take(i as int)),
        decreases static_imports@.len() - i,
    {
        let ghost before = out@;
        push_field(&mut out, static_imports[i].dll_name.as_str());
        push_field(&mut out, static_imports[i].backing_path.as_str());
        proof {
            let next = all.take(i + 1);
            assert(next.drop_last() =~= all.take(i as int));
            assert(next.last() == (
                static_imports@[i as int].dll_name@,
                static_imports@[i as int].backing_path@,
            ));
            assert(out@ =~= head + statics_bytes(next));
        }
        i = i + 1;
    }
    assert(all.take(i as int) =~= all);
    bytes::push_bytes(&mut out, snapshot);
    out
}

/// [`field_in`].
fn read_field(b: &[u8], off: usize) -> (r: Option<(String, usize)>)
    requires
        off <= b@.len(),
    ensures
        match r {
            Some((s, end)) => field_in(b@, off as int) == Some((s@, end as int)) && end <= b@.len(),
            None => field_in(b@, off as int) is None,
        },
{
    if b.len() - off < 4 {
        return None;
    }
    let len: u32 = bytes::u32_at(b, off);
    let start: usize = off + 4;
    if (len as u64) > (b.len() - start) as u64 {
        return None;
    }
    let end: usize = start + len as usize;
    match bytes::text_from_utf8(slice_subrange(b, start, end)) {
        Some(s) => Some((s, end)),
        None => None,
    }
}

/// [`statics_in`].
fn read_statics(b: &[u8], off: usize, n: u32) -> (r: Option<(Vec<StaticImport>, usize)>)
    requires
        off <= b@.len(),
    ensures
        match r {
            Some((v, end)) => statics_in(b@, off as int, n as nat) == Some(
                (statics_view(v@), end as int),
            ) && end <= b@.len(),
            None => statics_in(b@, off as int, n as nat) is None,
        },
{
    let mut statics: Vec<StaticImport> = Vec::new();
    let mut at: usize = off;
    let mut i: u32 = 0;
    assert(statics_view(statics@) =~= seq![]);
    while i < n
        invariant
            i <= n,
            at <= b@.len(),
            statics_in(b@, off as int, i as nat) == Some((statics_view(statics@), at as int)),
        decreases n - i,
    {
        match read_field(b, at) {
            None => {
                proof {
                    lemma_statics_stuck(b@, off as int, (i + 1) as nat, n as nat);
                }
                return None;
            },
            Some((dll_name, o1)) => match read_field(b, o1) {
                None => {
                    proof {
                        lemma_statics_stuck(b@, off as int, (i + 1) as nat, n as nat);
                    }
                    return None;
                },
                Some((backing_path, o2)) => {
                    let ghost before = statics_view(statics@);
                    let entry = StaticImport { dll_name, backing_path };
                    statics.push(entry);
                    assert(statics_view(statics@) =~= before.push(
                        (dll_name@, backing_path@),
                    ));
                    at = o2;
                },
            },
        }
        i = i + 1;
    }
    Some((statics, at))
}

/// A table whose first `k` rows do not read does not read with more rows either.
proof fn lemma_statics_stuck(b: Seq<u8>, off: int, k: nat, n: nat)
    requires
        k <= n,
        statics_in(b, off, k) is None,
    ensures
        statics_in(b, off, n) is None,
    decreases n,
{
    if k < n {
        lemma_statics_stuck(b, off, k, (n - 1) as nat);
    }
}

/// Decodes a configuration into root, overlay, static imports and snapshot. `None` where the
/// buffer ends too early or a text is no UTF-8.
pub fn decode_config_full(b: &[u8]) -> (r: Option<(String, String, Vec<StaticImport>, Vec<u8>)>)
    ensures
        match r {
            Some((root, overlay, statics, snapshot)) => config_in(b@) == Some(
                ConfigView {
                    root: root@,
                    overlay: overlay@,
                    statics: statics_view(statics@),
                    snapshot: snapshot@,
                },
            ),
            None => config_in(b@) is None,
        },
{
    let (root, after_root) = match read_field(b, 0) {
        Some(x) => x,
        None => {
            return None;
        },
    };
    let (overlay, after_overlay) = match read_field(b, after_root) {
        Some(x) => x,
        None => {
            return None;
        },
    };
    let rest = slice_subrange(b, after_overlay, b.len());
    assert(rest@ =~= b@.skip(after_overlay as int));
    if rest.len() >= 4 && rest[0] == 0x56 && rest[1] == 0x46 && rest[2] == 0x53 && rest[3] == 0x31 {
        assert(rest@.take(4) =~= config_magic());
        if rest.len() < 8 {
            return None;
        }
        let n: u32 = bytes::u32_at(rest, 4);
        match read_statics(rest, 8, n) {
            None => None,
            Some((statics, off)) => {
                let snapshot = slice_to_vec(slice_subrange(rest, off, rest.len()));
                assert(snapshot@ =~= rest@.skip(off as int));
                Some((root, overlay, statics, snapshot))
            },
        }
    } else {
        assert(rest@.len() >= 4 ==> rest@.take(4) != config_magic()) by {
            if rest@.len() >= 4 && rest@.take(4) == config_magic() {
                assert(rest@.take(4)[0] == 0x56);
                assert(rest@.take(4)[1] == 0x46);
                assert(rest@.take(4)[2] == 0x53);
                assert(rest@.take(4)[3] == 0x31);
            }
        }
        let none: Vec<StaticImport> = Vec::new();
        assert(statics_view(none@) =~= seq![]);
        Some((root, overlay, none, slice_to_vec(rest)))
    }
}

/// [`decode_config_full`] without the static imports.
pub fn decode_config(b: &[u8]) -> (r: Option<(String, String, Vec<u8>)>)
    ensures
        match r {
            Some((root, overlay, snapshot)) => config_in(b@) matches Some(c) && c.root == root@
                && c.overlay == overlay@ && c.snapshot == snapshot@,
            None => config_in(b@) is None,
        },
{
    match decode_config_full(b) {
        Some((root, overlay, _statics, snapshot)) => Some((root, overlay, snapshot)),
        None => None,
    }
}

// ---------------------------------------------------------------------------------------
// Static imports as early redirect rows.

/// Whether an entry names both a DLL and a backing file.
pub open spec fn names_both(name: Seq<char>, backing: Seq<char>) -> bool {
    text::trimmed(backing).len() > 0 && text::trimmed(name).len() > 0
}

/// The redirect row of one static import: the DLL's final path component, the backing file's NT
/// path and its size. `None` for a blank entry, and where there is no backing file.
pub open spec fn preinit_row(entry: (Seq<char>, Seq<char>), size: Option<u64>) -> Option<
    (Seq<char>, Seq<char>, u64),
> {
    match size {
        Some(n) if names_both(entry.0, entry.1) => Some(
            (text::last_component(entry.0), paths::nt_form(text::trimmed(entry.1)), n),
        ),
        _ => None,
    }
}

/// The redirect rows of the first `n` static imports, in order.
pub open spec fn preinit_rows(
    statics: Seq<(Seq<char>, Seq<char>)>,
    sizes: Seq<Option<u64>>,
    n: nat,
) -> Seq<(Seq<char>, Seq<char>, u64)>
    decreases n,
{
    if n == 0 {
        seq![]
    } else {
        let before = preinit_rows(statics, sizes, (n - 1) as nat);
        match preinit_row(statics[n - 1], sizes[n - 1]) {
            Some(row) => before.push(row),
            None => before,
        }
    }
}

/// The values of redirect rows.
pub open spec fn rows_view(v: Seq<(String, String, u64)>) -> Seq<(Seq<char>, Seq<char>, u64)> {
    v.map_values(|r: (String, String, u64)| (r.0@, r.1@, r.2))
}

/// The path whose size a static import needs, or `None` for a blank entry, which gets no row.
pub fn preinit_probe_path(e: &StaticImport) -> (r: Option<String>)
    ensures
        match r {
            Some(p) => names_both(e.dll_name@, e.backing_path@) && p@ == paths::win_form(
                text::trimmed(e.backing_path@),
            ),
            None => !names_both(e.dll_name@, e.backing_path@),
        },
{
    let path = text::trim(e.backing_path.as_str());
    if path.unicode_len() == 0 || text::trim(e.dll_name.as_str()).unicode_len() == 0 {
        return None;
    }
    Some(paths::to_win(path).to_owned())
}

/// Static imports as early redirect rows; `sizes` holds the size of each backing file, `None`
/// where it is missing. At most `max` entries are looked at.
pub fn static_imports_to_preinit(
    statics: &[StaticImport],
    max: usize,
    sizes: &[Option<u64>],
) -> (out: Vec<(String, String, u64)>)
    requires
        sizes@.len() >= statics@.len() || sizes@.len() >= max,
    ensures
        rows_view(out@) == preinit_rows(
            statics_view(statics@),
            sizes@,
            if statics@.len() <= max {
                statics@.len()
            } else {
                max as nat
            },
        ),
{
    let n: usize = if statics.len() <= max {
        statics.len()
    } else {
        max
    };
    let ghost all = statics_view(statics@);
    let mut out: Vec<(String, String, u64)> = Vec::new();
    let mut i: usize = 0;
    assert(rows_view(out@) =~= seq![]);
    while i < n
        invariant
            i <= n <= statics@.len(),
            n <= sizes@.len(),
            all == statics_view(statics@),
            rows_view(out@) == preinit_rows(all, sizes@, i as nat),
        decreases n - i,
    {
        let e = &statics[i];
        let ghost before = rows_view(out@);
        let path = text::trim(e.backing_path.as_str());
        if path.unicode_len() > 0 && text::trim(e.dll_name.as_str()).unicode_len() > 0 {
            if let Some(size) = sizes[i] {
                let backing_nt = paths::to_nt(path);
                let suffix = text::final_component(e.dll_name.as_str());
                out.push((suffix, backing_nt, size));
                assert(rows_view(out@) =~= before.push((suffix@, backing_nt@, size)));
            }
        }
        i = i + 1;
    }
    out
}

// ---------------------------------------------------------------------------------------
// The early payload's configuration address.

/// What is known of the memory that an address names.
#[derive(Clone, Copy, PartialEq, Eq, Structural)]
pub struct PayloadProbe {
    /// The address; zero is no address.
    pub address: u64,
    /// Whether the query of the page gave an answer.
    pub answered: bool,
    /// Whether the page is committed.
    pub committed: bool,
    /// The address of `NtProtectVirtualMemory` in this process, where ntdll exports it.
    pub expected: Option<u64>,
    /// The address that the configuration itself records for that function.
    pub recorded: u64,
}

/// Whether the address is a live early-payload configuration of this process: a committed page
/// that records this process's own function address.
pub open spec fn is_own_payload(p: PayloadProbe) -> bool {
    p.address != 0 && p.answered && p.committed && p.expected == Some(p.recorded)
}

/// [`is_own_payload`].
pub fn payload_cfg_usable(p: &PayloadProbe) -> (r: bool)
    ensures
        r == is_own_payload(*p),
{
    if p.address == 0 || !p.answered || !p.committed {
        return false;
    }
    match p.expected {
        Some(e) => e == p.recorded,
        None => false,
    }
}

/// The address that a candidate file's text writes in hexadecimal.
pub fn payload_candidate(content: &str) -> (r: Option<u64>)
    ensures
        match r {
            Some(v) => text::parsed(text::trimmed(content@), 16, u64::MAX as int) == Some(v as int),
            None => text::parsed(text::trimmed(content@), 16, u64::MAX as int) is None,
        },
{
    text::parse_number(text::trim(content), 16, u64::MAX)
}

/// The configuration address to install with: the first usable probe, or zero for none.
pub open spec fn chosen_payload(probes: Seq<PayloadProbe>) -> u64
    decreases probes.len(),
{
    if probes.len() == 0 {
        0
    } else if is_own_payload(probes[0]) {
        probes[0].address
    } else {
        chosen_payload(probes.skip(1))
    }
}

/// [`chosen_payload`]: the explicit address comes first, then the candidate files in order.
pub fn choose_payload_cfg(probes: &[PayloadProbe]) -> (r: u64)
    ensures
        r == chosen_payload(probes@),
{
    let mut i: usize = 0;
    assert(probes@.skip(0) =~= probes@);
    while i < probes.len()
        invariant
            i <= probes@.len(),
            chosen_payload(probes@) == chosen_payload(probes@.skip(i as int)),
        decreases probes@.len() - i,
    {
        if payload_cfg_usable(&probes[i]) {
            return probes[i].address;
        }
        assert(probes@.skip(i as int).skip(1) =~= probes@.skip(i + 1));
        i = i + 1;
    }
    0
}

/// An address that is not this process's own live configuration is never chosen.
pub proof fn law_only_own_payload_is_chosen(probes: Seq<PayloadProbe>)
    ensures
        chosen_payload(probes) != 0 ==> exists|i: int|
            0 <= i < probes.len() && is_own_payload(#[trigger] probes[i]) && probes[i].address
                == chosen_payload(probes),
    decreases probes.len(),
{
    if probes.len() > 0 && !is_own_payload(probes[0]) {
        law_only_own_payload_is_chosen(probes.skip(1));
        if chosen_payload(probes) != 0 {
            let i = choose|i: int|
                0 <= i < probes.skip(1).len() && is_own_payload(#[trigger] probes.skip(1)[i])
                    && probes.skip(1)[i].address == chosen_payload(probes.skip(1));
            assert(probes[i + 1] == probes.skip(1)[i]);
        }
    }
}

// ---------------------------------------------------------------------------------------
// The start-up steps.

/// Why the start-up failed.
#[derive(Debug)]
pub enum BootstrapError {
    /// The configuration could not be read.
    Io,
    /// The configuration is malformed.
    BadConfig,
    /// The director could not be attached to.
    Director(FuseInitError),
    /// The engine could not be built.
    Engine(EngineError),
    /// The interception could not be put in place.
    Install(InstallError),
}

/// The outcome of a start-up step.
pub enum BootEvent {
    /// What the configuration file holds, where it could be read.
    Config(Option<Vec<u8>>),
    /// Whether the director was attached to.
    Director(Result<(), FuseInitError>),
    /// Whether the engine was built.
    Engine(Result<(), EngineError>),
    /// What is known of each candidate for the early configuration, in order: the explicit
    /// address first, then those of the candidate files.
    Payload(Vec<PayloadProbe>),
    /// Whether the interception is in place.
    Installed(Result<(), InstallError>),
    /// The parent was told.
    Signalled,
}

/// The next start-up step.
pub enum BootStep {
    /// Attach to the director, and keep the configuration for the engine: the managed root, the
    /// overlay's directory where there is one, and the snapshot.
    AttachDirector { root: String, overlay: Option<String>, snapshot: Vec<u8> },
    /// Build the engine.
    BuildEngine,
    /// Look for the early configuration.
    FindPayload,
    /// Put the interception in place, on top of the early payload where `payload_cfg` is not
    /// zero.
    Install { payload_cfg: u64 },
    /// Tell the parent that everything is in place.
    SignalReady,
    /// Everything is done.
    Done,
    /// The start-up failed; nothing more is done.
    Failed(BootstrapError),
}

/// Whether `next` is the step after `event`: a failure ends the start-up and says why. An empty
/// overlay directory stands for none.
pub open spec fn boot_follows(event: BootEvent, next: BootStep) -> bool {
    match event {
        BootEvent::Config(None) => next == BootStep::Failed(BootstrapError::Io),
        BootEvent::Config(Some(file)) => match config_in(file@) {
            None => next == BootStep::Failed(BootstrapError::BadConfig),
            Some(c) => match next {
                BootStep::AttachDirector { root, overlay, snapshot } => root@ == c.root
                    && text::option_text(overlay) == (if c.overlay.len() == 0 {
                    None
                } else {
                    Some(c.overlay)
                }) && snapshot@ == c.snapshot,
                _ => false,
            },
        },
        BootEvent::Director(Err(e)) => next == BootStep::Failed(BootstrapError::Director(e)),
        BootEvent::Director(Ok(_)) => next is BuildEngine,
        BootEvent::Engine(Err(e)) => next == BootStep::Failed(BootstrapError::Engine(e)),
        BootEvent::Engine(Ok(_)) => next is FindPayload,
        BootEvent::Payload(probes) => next == (BootStep::Install {
            payload_cfg: chosen_payload(probes@),
        }),
        BootEvent::Installed(Err(e)) => next == BootStep::Failed(BootstrapError::Install(e)),
        BootEvent::Installed(Ok(_)) => next is SignalReady,
        BootEvent::Signalled => next is Done,
    }
}

/// The step after `event`; the first step is to read the configuration.
pub fn bootstrap_from_config_path_with_payload(event: BootEvent) -> (r: BootStep)
    ensures
        boot_follows(event, r),
{
    match event {
        BootEvent::Config(None) => BootStep::Failed(BootstrapError::Io),
        BootEvent::Config(Some(file)) => {
            match decode_config(file.as_slice()) {
                None => BootStep::Failed(BootstrapError::BadConfig),
                Some((root, overlay, snapshot)) => {
                    let overlay = if overlay.as_str().unicode_len() == 0 {
                        None
                    } else {
                        Some(overlay)
                    };
                    BootStep::AttachDirector { root, overlay, snapshot }
                },
            }
        },
        BootEvent::Director(Err(e)) => BootStep::Failed(BootstrapError::Director(e)),
        BootEvent::Director(Ok(_)) => BootStep::BuildEngine,
        BootEvent::Engine(Err(e)) => BootStep::Failed(BootstrapError::Engine(e)),
        BootEvent::Engine(Ok(_)) => BootStep::FindPayload,
        BootEvent::Payload(probes) => {
            BootStep::Install { payload_cfg: choose_payload_cfg(probes.as_slice()) }
        },
        BootEvent::Installed(Err(e)) => BootStep::Failed(BootstrapError::Install(e)),
        BootEvent::Installed(Ok(_)) => BootStep::SignalReady,
        BootEvent::Signalled => BootStep::Done,
    }
}

/// Whether `event` is the outcome of `step`.
pub open spec fn boot_answers(step: BootStep, event: BootEvent) -> bool {
    match step {
        BootStep::AttachDirector { .. } => event is Director,
        BootStep::BuildEngine => event is Engine,
        BootStep::FindPayload => event is Payload,
        BootStep::Install { .. } => event is Installed,
        BootStep::SignalReady => event is Signalled,
        BootStep::Done => false,
        BootStep::Failed(_) => false,
    }
}

/// Whether `steps` are the steps of a start-up with the outcomes `events`: the configuration
/// comes first, and each outcome belongs to the step before it.
pub open spec fn boot_trace(events: Seq<BootEvent>, steps: Seq<BootStep>) -> bool {
    &&& events.len() == steps.len()
    &&& events.len() > 0
    &&& events[0] is Config
    &&& forall|i: int| 0 <= i < events.len() ==> #[trigger] boot_follows(events[i], steps[i])
    &&& forall|i: int|
        0 < i < events.len() ==> boot_answers(steps[i - 1], #[trigger] events[i])
}

/// A start-up that is done has a readable and well-formed configuration, an attached director, a
/// built engine and the interception in place. Nothing is put in place without a director, and
/// the parent is told only of what is in place.
pub proof fn law_done_means_everything_is_in_place(events: Seq<BootEvent>, steps: Seq<BootStep>)
    requires
        boot_trace(events, steps),
    ensures
        steps.last() is Install || steps.last() is SignalReady || steps.last() is Done ==> {
            &&& events.len() >= 4
            &&& (events[0] matches BootEvent::Config(Some(file)) && config_in(file@) is Some)
            &&& events[1] matches BootEvent::Director(Ok(_))
            &&& events[2] matches BootEvent::Engine(Ok(_))
            &&& events[3] is Payload
        },
        steps.last() is SignalReady || steps.last() is Done ==> events.len() >= 5 && (
        events[4] matches BootEvent::Installed(Ok(_))),
        steps.last() is Done ==> events.len() == 6,
{
    let n = events.len() as int;
    assert(boot_follows(events[0], steps[0]));
    if n > 1 {
        assert(boot_answers(steps[0], events[1]));
        assert(boot_follows(events[1], steps[1]));
    }
    if n > 2 {
        assert(boot_answers(steps[1], events[2]));
        assert(boot_follows(events[2], steps[2]));
    }
    if n > 3 {
        assert(boot_answers(steps[2], events[3]));
        assert(boot_follows(events[3], steps[3]));
    }
    if n > 4 {
        assert(boot_answers(steps[3], events[4]));
        assert(boot_follows(events[4], steps[4]));
    }
    if n > 5 {
        assert(boot_answers(steps[4], events[5]));
        assert(boot_follows(events[5], steps[5]));
    }
    if n > 6 {
        assert(boot_answers(steps[5], events[6]));
    }
}

/// What the synchronous start-up tells its caller: zero for success, one where no configuration
/// is named, two for a failure.
pub fn sync_bootstrap(configured: bool, done: bool) -> (r: u32)
    ensures
        r == if !configured {
            1
        } else if done {
            0
        } else {
            2u32
        },
{
    if !configured {
        1
    } else if done {
        0
    } else {
        2
    }
}

/// The static imports of a configuration file, where it could be read and is well formed.
pub fn load_static_imports_from_config_path(file: Option<&[u8]>) -> (r: Option<Vec<StaticImport>>)
    ensures
        match file {
            None => r is None,
            Some(b) => match config_in(b@) {
                None => r is None,
                Some(c) => r matches Some(v) && statics_view(v@) == c.statics,
            },
        },
{
    match file {
        None => None,
        Some(b) => match decode_config_full(b) {
            None => None,
            Some((_root, _overlay, statics, _snapshot)) => Some(statics),
        },
    }
}

/// A field is its length in four bytes, the lowest first, and then its bytes.
pub proof fn law_fields_carry_their_length(s: Seq<char>)
    requires
        encode_utf8(s).len() <= u32::MAX,
    ensures
        field_bytes(s).len() == 4 + encode_utf8(s).len(),
        field_bytes(s).skip(4) == encode_utf8(s),
        field_bytes(s)[0] + field_bytes(s)[1] * 0x100 + field_bytes(s)[2] * 0x1_0000 + field_bytes(
            s,
        )[3] * 0x100_0000 == encode_utf8(s).len(),
{
    let n = encode_utf8(s).len() as u32;
    assert(field_bytes(s).skip(4) =~= encode_utf8(s));
    bytes::law_le32_digits(n, bytes::le32(n));
}

/// A configuration starts with the root and the overlay, then the mark `VFS1` and the number of
/// static imports, and ends with the snapshot.
pub proof fn law_a_configuration_is_laid_out_in_order(c: ConfigView)
    requires
        c.statics.len() <= u32::MAX,
    ensures
        ({
            let b = config_bytes(c);
            let head = field_bytes(c.root) + field_bytes(c.overlay);
            let at = head.len() as int;
            &&& b.take(at) == head
            &&& b.subrange(at, at + 4) == seq![0x56u8, 0x46u8, 0x53u8, 0x31u8]
            &&& b.subrange(at + 4, at + 8) == bytes::le32(c.statics.len() as u32)
            &&& b.skip(b.len() - c.snapshot.len()) == c.snapshot
            &&& c.statics.len() == 0 ==> b.len() == head.len() + 8 + c.snapshot.len()
        }),
{
    let b = config_bytes(c);
    let head = field_bytes(c.root) + field_bytes(c.overlay);
    let at = head.len() as int;
    assert(b.take(at) =~= head);
    assert(b.subrange(at, at + 4) =~= config_magic());
    assert(b.subrange(at + 4, at + 8) =~= bytes::le32(c.statics.len() as u32));
    assert(b.skip(b.len() - c.snapshot.len()) =~= c.snapshot);
}

/// A static import is brought in before anything else where both its names are given and its
/// file could be measured: under the last component of its name, from its file, with its size.
pub proof fn law_static_imports_are_brought_in(
    name: Seq<char>,
    backing: Seq<char>,
    size: u64,
)
    ensures
        text::trimmed(name).len() > 0 && text::trimmed(backing).len() > 0 ==> preinit_row(
            (name, backing),
            Some(size),
        ) == Some((text::last_component(name), paths::nt_form(text::trimmed(backing)), size)),
        text::trimmed(name).len() == 0 || text::trimmed(backing).len() == 0 ==> preinit_row(
            (name, backing),
            Some(size),
        ) is None,
        preinit_row((name, backing), None) is None,
{
}

/// The imports keep their order, and none is left out but those that cannot be brought in.
pub proof fn law_static_imports_keep_their_order(
    statics: Seq<(Seq<char>, Seq<char>)>,
    sizes: Seq<Option<u64>>,
    n: nat,
)
    ensures
        preinit_rows(statics, sizes, 0) == Seq::<(Seq<char>, Seq<char>, u64)>::empty(),
        preinit_row(statics[n as int], sizes[n as int]) matches Some(row) ==> preinit_rows(
            statics,
            sizes,
            n + 1,
        ) == preinit_rows(statics, sizes, n).push(row),
        preinit_row(statics[n as int], sizes[n as int]) is None ==> preinit_rows(
            statics,
            sizes,
            n + 1,
        ) == preinit_rows(statics, sizes, n),
{
}

/// The first payload that is this process's own is taken: one that answered, whose memory is
/// committed and whose record is the one expected. Without one there is none.
pub proof fn law_the_first_own_payload_is_taken(probes: Seq<PayloadProbe>, i: int)
    requires
        0 <= i < probes.len(),
        forall|k: int|
            0 <= k < i ==> {
                let p = #[trigger] probes[k];
                p.address == 0 || !p.answered || !p.committed || p.expected != Some(p.recorded)
            },
    ensures
        probes[i].address != 0 && probes[i].answered && probes[i].committed && probes[i].expected
            == Some(probes[i].recorded) ==> chosen_payload(probes) == probes[i].address,
        i == probes.len() - 1 && !(probes[i].address != 0 && probes[i].answered
            && probes[i].committed && probes[i].expected == Some(probes[i].recorded))
            ==> chosen_payload(probes) == 0,
    decreases i,
{
    if i > 0 {
        let rest = probes.skip(1);
        assert(rest[i - 1] == probes[i]);
        assert forall|k: int| 0 <= k < i - 1 implies {
            let p = #[trigger] rest[k];
            p.address == 0 || !p.answered || !p.committed || p.expected != Some(p.recorded)
        } by {
            assert(rest[k] == probes[k + 1]);
        }
        law_the_first_own_payload_is_taken(rest, i - 1);
        assert(!is_own_payload(probes[0]));
    } else if probes.len() == 1 {
        assert(probes.skip(1) =~= seq![]);
        assert(chosen_payload(probes.skip(1)) == 0);
    }
}

/// The start-up goes on with the director, the engine, the early payload, the interception and
/// the signal, in this order, and a failure ends it with its own reason.
pub proof fn law_the_start_up_goes_in_order(event: BootEvent, next: BootStep)
    requires
        boot_follows(event, next),
    ensures
        event matches BootEvent::Config(file) ==> (file is None ==> next == BootStep::Failed(
            BootstrapError::Io,
        )),
        event matches BootEvent::Config(Some(file)) ==> (config_in(file@) is None ==> next
            == BootStep::Failed(BootstrapError::BadConfig)),
        event matches BootEvent::Config(Some(file)) ==> (config_in(file@) matches Some(c) ==> (
        next matches BootStep::AttachDirector { root, overlay, snapshot } && root@ == c.root
            && snapshot@ == c.snapshot && (overlay is None <==> c.overlay.len() == 0) && (
        overlay matches Some(o) ==> o@ == c.overlay))),
        event matches BootEvent::Director(r) ==> (r is Ok <==> next is BuildEngine) && (r is Err
            <==> next is Failed),
        event matches BootEvent::Engine(r) ==> (r is Ok <==> next is FindPayload) && (r is Err
            <==> next is Failed),
        event matches BootEvent::Payload(probes) ==> (next matches BootStep::Install { payload_cfg }
            && payload_cfg == chosen_payload(probes@)),
        event matches BootEvent::Installed(r) ==> (r is Ok <==> next is SignalReady) && (r is Err
            <==> next is Failed),
        event is Signalled ==> next is Done,
{
}

/// A tail that starts with the mark is read as one with a table, and is refused where it ends
/// before the number of imports; a tail without the mark is all snapshot.
pub proof fn law_the_mark_announces_the_table(rest: Seq<u8>)
    ensures
        rest.len() < 4 ==> tail_in(seq![0x56u8, 0x46u8, 0x53u8, 0x31u8] + rest) is None,
        rest.len() == 4 && rest == bytes::le32(0) ==> tail_in(
            seq![0x56u8, 0x46u8, 0x53u8, 0x31u8] + rest,
        ) == Some((Seq::<(Seq<char>, Seq<char>)>::empty(), Seq::<u8>::empty())),
        rest.len() < 4 || rest.take(4) != seq![0x56u8, 0x46u8, 0x53u8, 0x31u8] ==> tail_in(rest)
            == Some((Seq::<(Seq<char>, Seq<char>)>::empty(), rest)),
{
    broadcast use bytes::lemma_le32;

    let b = seq![0x56u8, 0x46u8, 0x53u8, 0x31u8] + rest;
    assert(b.take(4) =~= config_magic());
    if rest.len() == 4 && rest == bytes::le32(0) {
        assert(b.subrange(4, 8) =~= rest);
        assert(b.skip(8) =~= Seq::<u8>::empty());
    }
}

} // verus!
