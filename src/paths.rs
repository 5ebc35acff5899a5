//! Relative paths as sequences of component names, and the mapping between a
//! source file and its compressed artifact.
use vstd::prelude::*;

use crate::errors::BackupError;

verus! {

/// A path relative to a tree's root, one entry per component name.
pub struct FilePath {
    pub parts: Vec<String>,
}

impl View for FilePath {
    type V = Seq<Seq<char>>;

    open spec fn view(&self) -> Seq<Seq<char>> {
        self.parts@.map_values(|s: String| s@)
    }
}

/// The extension given to every compressed artifact (without its dot).
pub open spec fn codec_extension() -> Seq<char> {
    seq!['z', 's', 't']
}

/// The suffix that compression appends to a file name.
pub open spec fn codec_suffix() -> Seq<char> {
    seq!['.'] + codec_extension()
}

/// The path whose file name (its last component) has `ext` appended after a
/// dot; a path without components is left as it is.
pub open spec fn extended(path: Seq<Seq<char>>, ext: Seq<char>) -> Seq<Seq<char>> {
    if path.len() == 0 {
        path
    } else {
        path.update(path.len() - 1, path.last() + seq!['.'] + ext)
    }
}

/// Whether a file name carries the codec suffix after at least one character.
pub open spec fn has_codec_suffix(name: Seq<char>) -> bool {
    name.len() > codec_suffix().len() && name.subrange(
        name.len() - codec_suffix().len(),
        name.len() as int,
    ) == codec_suffix()
}

/// The path with the codec suffix taken off its file name, if it has one.
pub open spec fn stripped(path: Seq<Seq<char>>) -> Option<Seq<Seq<char>>> {
    if path.len() > 0 && has_codec_suffix(path.last()) {
        Some(
            path.update(
                path.len() - 1,
                path.last().subrange(0, path.last().len() - codec_suffix().len()),
            ),
        )
    } else {
        None
    }
}

/// Where a source file lands in the replica, relative to the destination
/// root: under a folder named after the source root, with the codec suffix.
pub open spec fn compressed_target(source_name: Seq<char>, rel: Seq<Seq<char>>) -> Seq<Seq<char>> {
    seq![source_name] + extended(rel, codec_extension())
}

/// Where a compressed artifact is restored, relative to the restore root.
pub open spec fn restored_target(source_name: Seq<char>, rel: Seq<Seq<char>>) -> Option<
    Seq<Seq<char>>,
> {
    match stripped(rel) {
        Some(p) => Some(seq![source_name] + p),
        None => None,
    }
}

impl FilePath {
    /// A path with no components.
    pub fn new() -> (r: FilePath)
        ensures
            r@ == Seq::<Seq<char>>::empty(),
    {
        let r = FilePath { parts: Vec::new() };
        assert(r@ =~= Seq::<Seq<char>>::empty());
        r
    }

    /// The path with one more component at its end.
    pub fn push(&mut self, part: String)
        ensures
            final(self)@ == old(self)@.push(part@),
    {
        self.parts.push(part);
        assert(final(self)@ =~= old(self)@.push(part@));
    }

    /// Whether two paths have the same components.
    pub fn same_as(&self, other: &FilePath) -> (r: bool)
        ensures
            r == (self@ == other@),
    {
        let n = self.parts.len();
        if n != other.parts.len() {
            assert(self@.len() != other@.len());
            return false;
        }
        let mut i: usize = 0;
        while i < n
            invariant
                n == self.parts@.len(),
                n == other.parts@.len(),
                i <= n,
                forall|j: int| 0 <= j < i ==> self@[j] == other@[j],
            decreases n - i,
        {
            if self.parts[i] != other.parts[i] {
                assert(self@[i as int] != other@[i as int]);
                return false;
            }
            i = i + 1;
        }
        assert(self@ =~= other@);
        true
    }
}

/// Appends `extension` to the file name of `path` after a dot, keeping any
/// extension the name already has (`report.pdf` becomes `report.pdf.zst`).
pub fn add_extension(path: &mut FilePath, extension: &str)
    ensures
        final(path)@ == extended(old(path)@, extension@),
{
    let n = path.parts.len();
    if n > 0 {
        let ghost before = path@;
        let mut name = path.parts[n - 1].clone();
        proof {
            reveal_strlit(".");
        }
        assert(name@ == before.last());
        name.append(".");
        name.append(extension);
        assert(name@ == before.last() + seq!['.'] + extension@);
        path.parts.set(n - 1, name);
        assert(path@ =~= extended(before, extension@));
    }
}

impl FilePath {
    /// A copy of the path, component by component.
    pub fn duplicate(&self) -> (r: FilePath)
        ensures
            r@ == self@,
    {
        let mut r = FilePath::new();
        let mut i: usize = 0;
        while i < self.parts.len()
            invariant
                i <= self.parts@.len(),
                r@ == self@.subrange(0, i as int),
            decreases self.parts@.len() - i,
        {
            r.push(self.parts[i].clone());
            assert(self@.subrange(0, i + 1) =~= self@.subrange(0, i as int).push(self@[i as int]));
            i = i + 1;
        }
        assert(self@.subrange(0, i as int) =~= self@);
        r
    }

    /// The path `name/rest`: one component followed by the components of `rest`.
    pub fn under(name: &String, rest: &FilePath) -> (r: FilePath)
        ensures
            r@ == seq![name@] + rest@,
    {
        let mut r = FilePath::new();
        r.push(name.clone());
        let mut i: usize = 0;
        while i < rest.parts.len()
            invariant
                i <= rest.parts@.len(),
                r@ == seq![name@] + rest@.subrange(0, i as int),
            decreases rest.parts@.len() - i,
        {
            r.push(rest.parts[i].clone());
            assert(rest@.subrange(0, i + 1) =~= rest@.subrange(0, i as int).push(rest@[i as int]));
            i = i + 1;
        }
        assert(rest@.subrange(0, i as int) =~= rest@);
        r
    }
}

/// The path of a source file's compressed artifact relative to the destination
/// root, given the name of the source root and the file's path below it.
pub fn compressed_path(source_name: &String, rel: &FilePath) -> (r: FilePath)
    ensures
        r@ == compressed_target(source_name@, rel@),
{
    let ext = "zst";
    proof {
        reveal_strlit("zst");
    }
    assert(ext@ =~= codec_extension());
    let mut named = rel.duplicate();
    add_extension(&mut named, ext);
    FilePath::under(source_name, &named)
}

/// The path that an artifact's restored file takes relative to the restore
/// root, given the name of the compressed tree's root and the artifact's path
/// below it; fails when the artifact's name lacks the codec suffix.
pub fn restored_path(source_name: &String, rel: &FilePath) -> (r: Result<FilePath, BackupError>)
    ensures
        match r {
            Ok(p) => restored_target(source_name@, rel@) == Some(p@),
            Err(e) => restored_target(source_name@, rel@) is None && e == BackupError::Codec,
        },
{
    match strip_codec_suffix(rel) {
        Some(p) => Ok(FilePath::under(source_name, &p)),
        None => Err(BackupError::Codec),
    }
}

/// The path with the codec suffix taken off its file name, or `None` when the
/// name does not end in the suffix after at least one character.
pub fn strip_codec_suffix(path: &FilePath) -> (r: Option<FilePath>)
    ensures
        match r {
            Some(p) => stripped(path@) == Some(p@),
            None => stripped(path@) is None,
        },
{
    let n = path.parts.len();
    if n == 0 {
        return None;
    }
    let name = path.parts[n - 1].as_str();
    let len = name.unicode_len();
    assert(name@ == path@.last());
    if len <= 4 {
        return None;
    }
    let ok = name.get_char(len - 4) == '.' && name.get_char(len - 3) == 'z' && name.get_char(
        len - 2,
    ) == 's' && name.get_char(len - 1) == 't';
    assert(ok ==> name@.subrange(len - 4, len as int) =~= codec_suffix());
    if !ok {
        assert(!has_codec_suffix(name@)) by {
            if has_codec_suffix(name@) {
                assert(name@.subrange(len - 4, len as int)[0] == name@[len - 4]);
                assert(name@.subrange(len - 4, len as int)[1] == name@[len - 3]);
                assert(name@.subrange(len - 4, len as int)[2] == name@[len - 2]);
                assert(name@.subrange(len - 4, len as int)[3] == name@[len - 1]);
            }
        }
        return None;
    }
    let stem = name.substring_char(0, len - 4).to_owned();
    let mut r = path.duplicate();
    r.parts.set(n - 1, stem);
    assert(r@ =~= stripped(path@)->Some_0);
    Some(r)
}

/// Restoring a compressed artifact puts the file back at its own relative
/// path: for a path whose file name is not empty, the restored path of its
/// artifact is the source root's name followed by the path itself.
pub proof fn lemma_restore_inverts_compress(source_name: Seq<char>, rel: Seq<Seq<char>>)
    requires
        rel.len() > 0,
        rel.last().len() > 0,
    ensures
        compressed_target(source_name, rel) == seq![source_name] + extended(rel, codec_extension()),
        restored_target(source_name, extended(rel, codec_extension())) == Some(
            seq![source_name] + rel,
        ),
{
    let ext = extended(rel, codec_extension());
    let name = rel.last() + seq!['.'] + codec_extension();
    assert(ext.last() == name);
    assert(name.subrange(name.len() - 4, name.len() as int) =~= codec_suffix());
    assert(name.subrange(0, name.len() - 4) =~= rel.last());
    assert(ext.update(ext.len() - 1, rel.last()) =~= rel);
}

} // verus!
