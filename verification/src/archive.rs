//! Taking the fix definition files out of a downloaded "fixes.zip".
use vstd::prelude::*;
use crate::text::{chars_eq, chars_of, has_suffix, push_str, to_owned_string};
use std::io::Cursor;
use zip::read::ZipFile;
use zip::result::ZipError;
use zip::ZipArchive;

verus! {

#[verifier::external_type_specification]
#[verifier::external_body]
#[verifier::reject_recursive_types(R)]
pub struct ExZipArchive<R>(ZipArchive<R>);

#[verifier::external_type_specification]
#[verifier::external_body]
pub struct ExZipFile<'a>(ZipFile<'a>);

#[verifier::external_type_specification]
#[verifier::external_body]
#[verifier::reject_recursive_types(T)]
pub struct ExCursor<T>(Cursor<T>);

/// What `ZipArchive::new` makes of the archive in `bytes`: the paths of the
/// entries that its central directory names, in directory order, or `None`
/// when it cannot be opened.
pub uninterp spec fn zip_listing(bytes: Seq<u8>) -> Option<Seq<Seq<char>>>;

/// The message (`Display`) of the error with which `ZipArchive::new` refuses
/// the archive in `bytes`.
pub uninterp spec fn zip_open_error(bytes: Seq<u8>) -> Seq<char>;

/// The bytes that an opened archive reads from.
pub uninterp spec fn zip_archive_bytes(archive: ZipArchive<Cursor<Vec<u8>>>) -> Seq<u8>;

/// Whether the entry at `index` of the archive in `bytes` can be opened for
/// reading without a password: `ZipArchive::by_index_decrypt` given no
/// password accepts it and `ZipArchive::by_index` then opens it.
pub uninterp spec fn zip_entry_opens(bytes: Seq<u8>, index: nat) -> bool;

/// The message (`Display`) of the error with which the entry at `index` of the
/// archive in `bytes` fails to open.
pub uninterp spec fn zip_entry_error(bytes: Seq<u8>, index: nat) -> Seq<char>;

/// Which entry an opened entry is: the bytes of its archive and its index.
pub uninterp spec fn zip_file_source(entry: ZipFile) -> (Seq<u8>, nat);

/// The decompressed contents of the entry at `index` of the archive in
/// `bytes`, or `None` when reading them fails (`Read::read_to_end` on the
/// freshly opened entry).
pub uninterp spec fn zip_entry_data(bytes: Seq<u8>, index: nat) -> Option<Seq<u8>>;

/// The message (`Display`) of the I/O error with which reading the contents
/// of the entry at `index` of the archive in `bytes` fails.
pub uninterp spec fn zip_read_error(bytes: Seq<u8>, index: nat) -> Seq<char>;

/// `ZipArchive::new` over the bytes in memory: reads the central directory.
/// It opens exactly the archives that have a listing; an opened archive reads
/// from `bytes`. A refusal is handed back as the error's message.
#[verifier::external_body]
fn open_archive(bytes: Vec<u8>) -> (r: Result<ZipArchive<Cursor<Vec<u8>>>, String>)
    ensures
        r is Ok <==> zip_listing(bytes@) is Some,
        r matches Ok(a) ==> zip_archive_bytes(a) == bytes@,
        r matches Err(m) ==> m@ == zip_open_error(bytes@),
{
    match ZipArchive::new(Cursor::new(bytes)) {
        Ok(archive) => Ok(archive),
        Err(e) => Err(format!("{}", e)),
    }
}

/// `ZipArchive::len`: the number of entries of the archive.
#[verifier::external_body]
fn entry_count(archive: &ZipArchive<Cursor<Vec<u8>>>) -> (n: usize)
    ensures
        n == zip_listing(zip_archive_bytes(*archive))->0.len(),
{
    archive.len()
}

/// `ZipArchive::by_index` and `ZipFile::name`: the entry at `index`, opened for
/// reading, with its path; a failure is handed back as the error's message.
/// This wrapper does more than call and convert: `by_index` panics on an entry
/// that carries AES encryption data without being marked encrypted, so
/// `by_index_decrypt` (given no password) is asked first, and an entry that it
/// says needs a password is refused with zip's own "password required" error,
/// which is what `by_index` says of encrypted entries. The archive still reads
/// from the same bytes.
#[verifier::external_body]
fn entry_at<'a>(archive: &'a mut ZipArchive<Cursor<Vec<u8>>>, index: usize) -> (r: Result<
    (ZipFile<'a>, String),
    String,
>)
    ensures
        zip_archive_bytes(*final(archive)) == zip_archive_bytes(*old(archive)),
        r is Ok <==> zip_entry_opens(zip_archive_bytes(*old(archive)), index as nat),
        r matches Ok(found) ==> {
            &&& zip_listing(zip_archive_bytes(*old(archive))) matches Some(names)
            &&& index < names.len()
            &&& found.1@ == names[index as int]
            &&& zip_file_source(found.0) == (zip_archive_bytes(*old(archive)), index as nat)
        },
        r matches Err(m) ==> m@ == zip_entry_error(zip_archive_bytes(*old(archive)), index as nat),
{
    let probe = match archive.by_index_decrypt(index, &[]) {
        Ok(Ok(_)) => Ok(()),
        Ok(Err(_)) => Err(ZipError::UnsupportedArchive(ZipError::PASSWORD_REQUIRED)),
        Err(e) => Err(e),
    };
    if let Err(e) = probe {
        return Err(format!("{}", e));
    }
    match archive.by_index(index) {
        Ok(entry) => {
            let name = entry.name().to_string();
            Ok((entry, name))
        },
        Err(e) => Err(format!("{}", e)),
    }
}

/// `Read::read_to_end` on a freshly opened entry: its decompressed contents,
/// or the I/O error's message.
#[verifier::external_body]
fn entry_contents(entry: ZipFile) -> (r: Result<Vec<u8>, String>)
    ensures
        r is Ok <==> zip_entry_data(zip_file_source(entry).0, zip_file_source(entry).1) is Some,
        r matches Ok(d) ==> Some(d@) == zip_entry_data(
            zip_file_source(entry).0,
            zip_file_source(entry).1,
        ),
        r matches Err(m) ==> m@ == zip_read_error(zip_file_source(entry).0, zip_file_source(entry).1),
{
    let mut entry = entry;
    let mut buffer = Vec::new();
    match std::io::Read::read_to_end(&mut entry, &mut buffer) {
        Ok(_) => Ok(buffer),
        Err(e) => Err(format!("{}", e)),
    }
}

/// A fix definition file taken out of the archive.
#[derive(Debug, Clone, PartialEq, Eq)]
pub struct ExtractedFile {
    pub name: String,
    pub contents: Vec<u8>,
}

/// The fix definition files of an archive, in archive order, and the error
/// that stopped the reading, if one did (the files before it are kept). When
/// the contents of an entry to install could not be read, `unread` is its path.
#[derive(Debug, Clone, PartialEq, Eq)]
pub struct Extraction {
    pub files: Vec<ExtractedFile>,
    pub error: Option<String>,
    pub unread: Option<String>,
}

/// The pieces of `s` between its '/' characters.
pub open spec fn split_slashes(s: Seq<char>) -> Seq<Seq<char>>
    decreases s.len(),
{
    if s.len() == 0 {
        seq![seq![]]
    } else {
        let prev = split_slashes(s.drop_last());
        if s.last() == '/' {
            prev.push(seq![])
        } else {
            prev.drop_last().push(prev.last().push(s.last()))
        }
    }
}

/// A path that starts at the root.
pub open spec fn is_absolute(s: Seq<char>) -> bool {
    s.len() > 0 && s[0] == '/'
}

/// One piece of a path applied to a position, given by its components (from
/// the root when `abs`, else from the current directory): ".." goes up (the
/// root has no parent, and a relative position keeps a ".." that climbs above
/// its start), "" and "." stay, any other name goes down.
pub open spec fn path_step(abs: bool, at: Seq<Seq<char>>, piece: Seq<char>) -> Seq<Seq<char>> {
    if piece == seq!['.', '.'] {
        if at.len() > 0 && at.last() != seq!['.', '.'] {
            at.drop_last()
        } else if abs {
            at
        } else {
            at.push(piece)
        }
    } else if piece.len() == 0 || piece == seq!['.'] {
        at
    } else {
        at.push(piece)
    }
}

/// The position reached by walking `pieces` from `at`.
pub open spec fn walk_from(abs: bool, at: Seq<Seq<char>>, pieces: Seq<Seq<char>>) -> Seq<Seq<char>>
    decreases pieces.len(),
{
    if pieces.len() == 0 {
        at
    } else {
        path_step(abs, walk_from(abs, at, pieces.drop_last()), pieces.last())
    }
}

/// Where `path` leads when joined to the position (`abs`, `at`), as
/// `Path::join` and `Path::components` read it on Unix: an absolute path
/// starts over at the root.
pub open spec fn resolve(abs: bool, at: Seq<Seq<char>>, path: Seq<char>) -> (bool, Seq<Seq<char>>) {
    if is_absolute(path) {
        (true, walk_from(true, seq![], split_slashes(path)))
    } else {
        (abs, walk_from(abs, at, split_slashes(path)))
    }
}

/// The position of the directory `dir`.
pub open spec fn dir_position(dir: Seq<char>) -> (bool, Seq<Seq<char>>) {
    resolve(false, seq![], dir)
}

/// The position `inner` lies strictly below the position `outer`.
pub open spec fn strictly_below(outer: (bool, Seq<Seq<char>>), inner: (bool, Seq<Seq<char>>)) -> bool {
    &&& inner.0 == outer.0
    &&& outer.1.len() < inner.1.len()
    &&& inner.1.take(outer.1.len() as int) == outer.1
}

/// The file `name`, joined to the directory `dir`, lands inside that
/// directory (judged on the text of the paths).
pub open spec fn lands_inside(dir: Seq<char>, name: Seq<char>) -> bool {
    strictly_below(dir_position(dir), resolve(dir_position(dir).0, dir_position(dir).1, name))
}

/// The archive entries that are installed into `dir`: those whose path ends
/// in ".toml" and lands inside `dir`.
pub open spec fn is_fix_entry(dir: Seq<char>, name: Seq<char>) -> bool {
    has_suffix(name, ".toml"@) && lands_inside(dir, name)
}

/// Entry `k` of the archive in `bytes`, listed as `names`, opens, and its
/// contents can be read if it is installed into `dir`.
pub open spec fn entry_ok(bytes: Seq<u8>, dir: Seq<char>, names: Seq<Seq<char>>, k: int) -> bool {
    &&& zip_entry_opens(bytes, k as nat)
    &&& is_fix_entry(dir, names[k]) ==> zip_entry_data(bytes, k as nat) is Some
}

/// Every entry before `k` is fine.
pub open spec fn all_ok_before(bytes: Seq<u8>, dir: Seq<char>, names: Seq<Seq<char>>, k: int) -> bool {
    forall|j: int| 0 <= j < k ==> #[trigger] entry_ok(bytes, dir, names, j)
}

/// The path and contents of each installed entry among the first `k`, in order.
pub open spec fn taken_files(bytes: Seq<u8>, dir: Seq<char>, names: Seq<Seq<char>>, k: nat) -> Seq<
    (Seq<char>, Seq<u8>),
>
    decreases k,
{
    if k == 0 {
        seq![]
    } else {
        let prev = taken_files(bytes, dir, names, (k - 1) as nat);
        if is_fix_entry(dir, names[k - 1]) {
            prev.push((names[k - 1], zip_entry_data(bytes, (k - 1) as nat)->0))
        } else {
            prev
        }
    }
}

/// The path and contents of extracted files.
pub open spec fn files_view(files: Seq<ExtractedFile>) -> Seq<(Seq<char>, Seq<u8>)> {
    files.map_values(|f: ExtractedFile| (f.name@, f.contents@))
}

/// The components of a position held as character vectors.
pub open spec fn pieces_view(v: Seq<Vec<char>>) -> Seq<Seq<char>> {
    v.map_values(|p: Vec<char>| p@)
}

fn is_up_piece(p: &Vec<char>) -> (r: bool)
    ensures
        r == (p@ == seq!['.', '.']),
{
    if p.len() == 2 && p[0] == '.' && p[1] == '.' {
        assert(p@ =~= seq!['.', '.']);
        true
    } else {
        proof {
            if p@ == seq!['.', '.'] {
                assert(p@[0] == '.' && p@[1] == '.');
            }
        }
        false
    }
}

fn step_into(abs: bool, at: &mut Vec<Vec<char>>, piece: Vec<char>)
    ensures
        pieces_view(final(at)@) == path_step(abs, pieces_view(old(at)@), piece@),
{
    let ghost before = pieces_view(at@);
    if is_up_piece(&piece) {
        let n = at.len();
        let climbs = n > 0 && !is_up_piece(&at[n - 1]);
        if climbs {
            at.pop();
            assert(pieces_view(at@) =~= before.drop_last());
        } else if !abs {
            at.push(piece);
            assert(pieces_view(at@) =~= before.push(seq!['.', '.']));
        }
    } else if piece.len() == 0 || (piece.len() == 1 && piece[0] == '.') {
        proof {
            if piece@.len() == 1 {
                assert(piece@ =~= seq!['.']);
            }
        }
    } else {
        proof {
            if piece@ == seq!['.'] {
                assert(piece@[0] == '.');
            }
        }
        let ghost p = piece@;
        at.push(piece);
        assert(pieces_view(at@) =~= before.push(p));
    }
}

/// Where `path` leads when joined to the position (`abs`, `at`).
fn resolve_path(abs: bool, at: Vec<Vec<char>>, path: &str) -> (r: (bool, Vec<Vec<char>>))
    ensures
        (r.0, pieces_view(r.1@)) == resolve(abs, pieces_view(at@), path@),
{
    let cs = chars_of(path);
    let n = cs.len();
    let absolute = n > 0 && cs[0] == '/';
    let mode = if absolute { true } else { abs };
    let mut here = if absolute { Vec::new() } else { at };
    let ghost start = pieces_view(here@);
    assert(absolute ==> start =~= seq![]);
    let mut cur: Vec<char> = Vec::new();
    let ghost mut done: Seq<Seq<char>> = seq![];
    assert(cs@.take(0) =~= seq![]);
    for i in 0..n
        invariant
            n == cs@.len(),
            split_slashes(cs@.take(i as int)) == done.push(cur@),
            pieces_view(here@) == walk_from(mode, start, done),
    {
        let c = cs[i];
        assert(cs@.take(i + 1).drop_last() =~= cs@.take(i as int));
        assert(cs@.take(i + 1).last() == c);
        if c == '/' {
            let piece = cur;
            cur = Vec::new();
            let ghost p = piece@;
            step_into(mode, &mut here, piece);
            proof {
                assert(done.push(p).drop_last() =~= done);
                assert(done.push(p).last() == p);
                done = done.push(p);
            }
        } else {
            let ghost old_cur = cur@;
            cur.push(c);
            proof {
                assert(done.push(old_cur).drop_last() =~= done);
                assert(done.push(old_cur).last() == old_cur);
                assert(done.push(old_cur.push(c)) =~= done.push(cur@));
            }
        }
    }
    assert(cs@.take(n as int) =~= cs@);
    let ghost p = cur@;
    step_into(mode, &mut here, cur);
    proof {
        assert(done.push(p).drop_last() =~= done);
        assert(done.push(p).last() == p);
    }
    (mode, here)
}

fn lies_below(outer_abs: bool, outer: &Vec<Vec<char>>, inner_abs: bool, inner: &Vec<Vec<char>>) -> (r:
    bool)
    ensures
        r == strictly_below(
            (outer_abs, pieces_view(outer@)),
            (inner_abs, pieces_view(inner@)),
        ),
{
    if outer_abs != inner_abs || outer.len() >= inner.len() {
        return false;
    }
    let m = outer.len();
    for j in 0..m
        invariant
            m == outer@.len(),
            m < inner@.len(),
            forall|k: int| 0 <= k < j ==> outer@[k]@ == inner@[k]@,
    {
        if !chars_eq(&outer[j], &inner[j]) {
            assert(pieces_view(inner@).take(m as int)[j as int] != pieces_view(outer@)[j as int]);
            return false;
        }
    }
    assert(pieces_view(inner@).take(m as int) =~= pieces_view(outer@));
    true
}

/// Whether the file `name`, joined to the directory `dir`, lands inside it.
pub fn lands_inside_dir(dir: &str, name: &str) -> (r: bool)
    ensures
        r == lands_inside(dir@, name@),
{
    let empty: Vec<Vec<char>> = Vec::new();
    assert(pieces_view(empty@) =~= seq![]);
    let (dir_abs, dir_at) = resolve_path(false, empty, dir);
    let empty: Vec<Vec<char>> = Vec::new();
    assert(pieces_view(empty@) =~= seq![]);
    let (base_abs, base) = resolve_path(false, empty, dir);
    let (name_abs, name_at) = resolve_path(base_abs, base, name);
    lies_below(dir_abs, &dir_at, name_abs, &name_at)
}

/// Whether an archive entry is a fix definition file to install into `dir`.
pub fn is_fix_entry_name(dir: &str, name: &str) -> (r: bool)
    ensures
        r == is_fix_entry(dir@, name@),
{
    crate::text::ends_with(name, ".toml") && lands_inside_dir(dir, name)
}

fn message(prefix: &str, detail: String) -> (m: String)
    ensures
        m@ == prefix@ + detail@,
{
    let mut m = to_owned_string(prefix);
    push_str(&mut m, detail.as_str());
    m
}

/// Reads the archive in `bytes` and takes out, in archive order, every entry
/// whose path ends in ".toml" and lands inside the directory `target_dir`
/// it is installed into, with its contents. Reading stops at the first entry
/// that cannot be opened, or installed entry that cannot be read; the error
/// is reported with the files taken before it, and in the second case with
/// the path of the entry that could not be read.
pub fn extract_fix_files(bytes: Vec<u8>, target_dir: &str) -> (r: Extraction)
    ensures
        forall|i: int|
            0 <= i < r.files@.len() ==> is_fix_entry(target_dir@, #[trigger] r.files@[i].name@),
        match zip_listing(bytes@) {
            None => {
                &&& r.files@.len() == 0
                &&& r.unread is None
                &&& r.error matches Some(m) && m@ == "Failed to open zip: "@ + zip_open_error(bytes@)
            },
            Some(names) => {
                &&& all_ok_before(bytes@, target_dir@, names, names.len() as int) ==> {
                    &&& r.error is None
                    &&& r.unread is None
                    &&& files_view(r.files@) == taken_files(bytes@, target_dir@, names, names.len())
                }
                &&& forall|k: int|
                    0 <= k < names.len() && all_ok_before(bytes@, target_dir@, names, k)
                        && !#[trigger] entry_ok(bytes@, target_dir@, names, k) ==> {
                        &&& files_view(r.files@) == taken_files(bytes@, target_dir@, names, k as nat)
                        &&& if zip_entry_opens(bytes@, k as nat) {
                            &&& r.error matches Some(m) && m@ == "Failed to read from zip: "@
                                + zip_read_error(bytes@, k as nat)
                            &&& r.unread matches Some(u) && u@ == names[k]
                        } else {
                            &&& r.error matches Some(m) && m@ == "Failed to read zip entry: "@
                                + zip_entry_error(bytes@, k as nat)
                            &&& r.unread is None
                        }
                    }
            },
        },
{
    let ghost b = bytes@;
    let ghost dir = target_dir@;
    let mut files: Vec<ExtractedFile> = Vec::new();
    let mut archive = match open_archive(bytes) {
        Ok(a) => a,
        Err(e) => {
            let m = message("Failed to open zip: ", e);
            return Extraction { files, error: Some(m), unread: None };
        },
    };
    let ghost names = zip_listing(b)->0;
    let n = entry_count(&archive);
    proof {
        assert(files_view(files@) =~= taken_files(b, dir, names, 0));
    }
    for i in 0..n
        invariant
            n == names.len(),
            b == bytes@,
            dir == target_dir@,
            zip_listing(b) == Some(names),
            zip_archive_bytes(archive) == b,
            all_ok_before(b, dir, names, i as int),
            files_view(files@) == taken_files(b, dir, names, i as nat),
            forall|k: int| 0 <= k < files@.len() ==> is_fix_entry(dir, #[trigger] files@[k].name@),
    {
        let (entry, name) = match entry_at(&mut archive, i) {
            Ok(found) => found,
            Err(e) => {
                let m = message("Failed to read zip entry: ", e);
                proof {
                    assert(!entry_ok(b, dir, names, i as int));
                    assert forall|k: int|
                        0 <= k < names.len() && all_ok_before(b, dir, names, k)
                            && !#[trigger] entry_ok(b, dir, names, k) implies k == i by {
                        if k < i {
                            assert(entry_ok(b, dir, names, k));
                        }
                        if k > i {
                            assert(entry_ok(b, dir, names, i as int));
                        }
                    }
                }
                return Extraction { files, error: Some(m), unread: None };
            },
        };
        if is_fix_entry_name(target_dir, name.as_str()) {
            match entry_contents(entry) {
                Ok(contents) => {
                    files.push(ExtractedFile { name, contents });
                    proof {
                        assert(files_view(files@) =~= taken_files(b, dir, names, (i + 1) as nat));
                    }
                },
                Err(e) => {
                    let m = message("Failed to read from zip: ", e);
                    proof {
                        assert(!entry_ok(b, dir, names, i as int));
                        assert forall|k: int|
                            0 <= k < names.len() && all_ok_before(b, dir, names, k)
                                && !#[trigger] entry_ok(b, dir, names, k) implies k == i by {
                            if k < i {
                                assert(entry_ok(b, dir, names, k));
                            }
                            if k > i {
                                assert(entry_ok(b, dir, names, i as int));
                            }
                        }
                    }
                    return Extraction { files, error: Some(m), unread: Some(name) };
                },
            }
        } else {
            proof {
                assert(files_view(files@) =~= taken_files(b, dir, names, (i + 1) as nat));
            }
        }
        proof {
            assert forall|j: int| 0 <= j < i + 1 implies #[trigger] entry_ok(b, dir, names, j) by {
                if j < i {
                    assert(entry_ok(b, dir, names, j));
                }
            }
        }
    }
    proof {
        assert forall|k: int|
            0 <= k < names.len() && all_ok_before(b, dir, names, k) && !#[trigger] entry_ok(
                b,
                dir,
                names,
                k,
            ) implies false by {
            assert(entry_ok(b, dir, names, k));
        }
    }
    Extraction { files, error: None, unread: None }
}

} // verus!
