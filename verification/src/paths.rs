//! NT and Win32 spellings of a path, and lists of path components.

use crate::text;
use vstd::prelude::*;
use vstd::string::*;

verus! {

/// The prefix of NT paths that name a DOS device.
pub open spec fn nt_prefix() -> Seq<char> {
    seq!['\\', '?', '?', '\\']
}

/// `path` in the form that begins with the NT prefix.
pub open spec fn nt_form(path: Seq<char>) -> Seq<char> {
    if nt_prefix().is_prefix_of(path) {
        path
    } else {
        nt_prefix() + path
    }
}

/// `path` without the NT prefix, where it has one.
pub open spec fn win_form(path: Seq<char>) -> Seq<char> {
    if nt_prefix().is_prefix_of(path) {
        path.skip(4)
    } else {
        path
    }
}

/// The prefix of Win32 paths that are taken literally.
pub open spec fn verbatim_prefix() -> Seq<char> {
    seq!['\\', '\\', '?', '\\']
}

/// `p` without the device prefix of either spelling.
pub open spec fn without_device(p: Seq<char>) -> Seq<char> {
    if nt_prefix().is_prefix_of(p) || verbatim_prefix().is_prefix_of(p) {
        p.skip(4)
    } else {
        p
    }
}

/// The components joined by `/`.
pub open spec fn joined(comps: Seq<Seq<char>>) -> Seq<char>
    decreases comps.len(),
{
    if comps.len() == 0 {
        seq![]
    } else if comps.len() == 1 {
        comps[0]
    } else {
        joined(comps.drop_last()).push('/') + comps.last()
    }
}

/// A directory's path with a name relative to it: exactly one separator stands between them, and
/// an empty name is the directory itself.
pub open spec fn under(parent: Seq<char>, name: Seq<char>) -> Seq<char> {
    let p = text::drop_trailing(parent, text::CharClass::Separator);
    let rel = text::drop_leading(name, text::CharClass::Separator);
    if rel.len() == 0 {
        p
    } else {
        p.push('\\') + rel
    }
}

/// The prefix of NT paths that name a DOS device.
pub fn nt_prefix_text() -> (s: &'static str)
    ensures
        s@ == nt_prefix(),
{
    proof {
        reveal_strlit("\\??\\");
        assert("\\??\\"@ =~= nt_prefix());
    }
    "\\??\\"
}

/// The prefix of Win32 paths that are taken literally.
pub fn verbatim_prefix_text() -> (s: &'static str)
    ensures
        s@ == verbatim_prefix(),
{
    proof {
        reveal_strlit("\\\\?\\");
        assert("\\\\?\\"@ =~= verbatim_prefix());
    }
    "\\\\?\\"
}

/// [`nt_form`].
pub fn to_nt(path: &str) -> (out: String)
    ensures
        out@ == nt_form(path@),
{
    if text::has_prefix(path, nt_prefix_text()) {
        path.to_owned()
    } else {
        text::joined(nt_prefix_text(), path)
    }
}

/// [`win_form`].
pub fn to_win<'a>(path: &'a str) -> (out: &'a str)
    ensures
        out@ == win_form(path@),
{
    match text::without_prefix(path, nt_prefix_text()) {
        Some(rest) => rest,
        None => path,
    }
}

/// [`without_device`].
pub fn strip_device<'a>(p: &'a str) -> (out: &'a str)
    ensures
        out@ == without_device(p@),
{
    match text::without_prefix(p, nt_prefix_text()) {
        Some(rest) => rest,
        None => match text::without_prefix(p, verbatim_prefix_text()) {
            Some(rest) => rest,
            None => p,
        },
    }
}

/// [`joined`].
pub fn join(comps: &[String]) -> (out: String)
    ensures
        out@ == joined(text::texts(comps@)),
{
    let ghost all = text::texts(comps@);
    let mut out = String::new();
    let mut i: usize = 0;
    assert(out@ =~= joined(all.take(0)));
    while i < comps.len()
        invariant
            i <= comps@.len(),
            all == text::texts(comps@),
            out@ == joined(all.take(i as int)),
        decreases comps@.len() - i,
    {
        if i > 0 {
            out.push('/');
        }
        out.append(comps[i].as_str());
        assert(all.take(i + 1).drop_last() =~= all.take(i as int));
        assert(all.take(i + 1).last() == comps@[i as int]@);
        i = i + 1;
        assert(out@ =~= joined(all.take(i as int)));
    }
    assert(all.take(i as int) =~= all);
    out
}

/// [`under`].
pub fn resolve_under(parent: &str, name: &str) -> (out: String)
    ensures
        out@ == under(parent@, name@),
{
    let p = text::trim_end(parent, text::CharClass::Separator);
    let rel = text::trim_start(name, text::CharClass::Separator);
    let mut out = p.to_owned();
    if rel.unicode_len() > 0 {
        out.push('\\');
        out.append(rel);
    }
    out
}

/// A name below a directory is the directory's path, one separator, and the name, where neither
/// has separators at the join; an empty name is the directory.
pub proof fn law_names_are_joined_by_one_separator(parent: Seq<char>, name: Seq<char>)
    requires
        parent.len() > 0,
        parent.last() != '\\' && parent.last() != '/',
    ensures
        name.len() > 0 && name[0] != '\\' && name[0] != '/' ==> under(parent, name) == parent
            + seq!['\\'] + name,
        name.len() == 0 ==> under(parent, name) == parent,
        under(parent + seq!['\\'], name) == under(parent, name),
        under(parent, seq!['\\'] + name) == under(parent, name),
{
    assert((parent + seq!['\\']).drop_last() =~= parent);
    assert((parent + seq!['\\']).last() == '\\');
    assert((seq!['\\'] + name).drop_first() =~= name);
    assert((seq!['\\'] + name)[0] == '\\');
    reveal_with_fuel(text::drop_trailing, 2);
    reveal_with_fuel(text::drop_leading, 2);
    if name.len() > 0 && name[0] != '\\' && name[0] != '/' {
        assert(under(parent, name) =~= parent + seq!['\\'] + name);
    }
}

/// The NT prefix is put on once and taken off once: the two forms of a path lead to each other,
/// and either prefix of a device is four characters that a path can do without.
pub proof fn law_prefixes_come_and_go(path: Seq<char>)
    ensures
        !seq!['\\', '?', '?', '\\'].is_prefix_of(path) ==> nt_form(path) == seq![
            '\\',
            '?',
            '?',
            '\\',
        ] + path && win_form(nt_form(path)) == path && win_form(path) == path,
        seq!['\\', '?', '?', '\\'].is_prefix_of(path) ==> nt_form(path) == path && nt_form(
            win_form(path),
        ) == (if seq!['\\', '?', '?', '\\'].is_prefix_of(path.skip(4)) {
            path.skip(4)
        } else {
            path
        }) && win_form(path) == path.skip(4),
        without_device(seq!['\\', '?', '?', '\\'] + path) == path,
        without_device(seq!['\\', '\\', '?', '\\'] + path) == path,
        !seq!['\\', '?', '?', '\\'].is_prefix_of(path) && !seq!['\\', '\\', '?', '\\'].is_prefix_of(
            path,
        ) ==> without_device(path) == path,
{
    let nt = seq!['\\', '?', '?', '\\'];
    let verbatim = seq!['\\', '\\', '?', '\\'];
    assert((nt + path).subrange(0, 4) =~= nt);
    assert((verbatim + path).subrange(0, 4) =~= verbatim);
    assert((nt + path).skip(4) =~= path);
    assert((verbatim + path).skip(4) =~= path);
    if nt.is_prefix_of(path) {
        assert(nt + path.skip(4) =~= path);
    }
}

/// Components are joined in order, with one slash between any two and none at the ends.
pub proof fn law_components_are_joined_in_order(
    comps: Seq<Seq<char>>,
    last: Seq<char>,
)
    ensures
        joined(seq![]) == Seq::<char>::empty(),
        joined(seq![last]) == last,
        comps.len() > 0 ==> joined(comps.push(last)) == joined(comps) + seq!['/'] + last,
{
    assert(comps.push(last).drop_last() =~= comps);
    assert(joined(comps).push('/') =~= joined(comps) + seq!['/']);
}

} // verus!
