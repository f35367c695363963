//! Assembling an interface from its files.
//!
//! An interface may take type declarations from fragment files, which may take
//! some from others. The files are found and read outside; here it is decided
//! which are needed, in what order their declarations come, and what is wrong
//! with them. A file that is reached twice contributes once; one that reaches
//! itself is an error.
use vstd::prelude::*;
use vstd::string::{StringExecFns, StringSliceAdditionalSpecFns};

use crate::ast::{decls_model, Decl, Interface, InterfaceModel, TypeDecl};
use crate::lexer::{error_text, ErrorModel};
use crate::parser::{
    first_undeclared, fragment_model, parse, parse_model, parse_type_fragment, undeclared_error,
    validate,
};
use crate::text::{same, strings_model};

verus! {

// ---------------------------------------------------------------------------
// Files
// ---------------------------------------------------------------------------

/// A fragment file that has been found and read.
pub struct IncludeFile {
    /// The directory that the include directive is relative to.
    pub dir: String,
    /// The path as the directive writes it.
    pub path: String,
    /// The two joined: how messages and rebuild rules name the file.
    pub full: String,
    /// The directory of the file, for its own directives.
    pub parent: String,
    /// The name under which the file is the same however it is reached.
    pub canonical: String,
    /// The content.
    pub source: String,
}

/// The model of an [`IncludeFile`].
pub struct FileModel {
    pub dir: Seq<char>,
    pub path: Seq<char>,
    pub full: Seq<char>,
    pub parent: Seq<char>,
    pub canonical: Seq<char>,
    pub source: Seq<char>,
}

impl View for IncludeFile {
    type V = FileModel;

    open spec fn view(&self) -> FileModel {
        FileModel {
            dir: self.dir@,
            path: self.path@,
            full: self.full@,
            parent: self.parent@,
            canonical: self.canonical@,
            source: self.source@,
        }
    }
}

/// The models of a list of files.
pub open spec fn files_model(fs: Seq<IncludeFile>) -> Seq<FileModel> {
    Seq::new(fs.len(), |i: int| fs[i]@)
}

/// The first file at or after position `i` that the directive `path` in `dir`
/// names.
pub open spec fn file_from(
    files: Seq<FileModel>,
    dir: Seq<char>,
    path: Seq<char>,
    i: nat,
) -> Option<FileModel>
    decreases files.len() - i,
{
    if i >= files.len() {
        None
    } else if files[i as int].dir == dir && files[i as int].path == path {
        Some(files[i as int])
    } else {
        file_from(files, dir, path, i + 1)
    }
}

/// The file that the directive `path` in `dir` names.
pub open spec fn file_for(files: Seq<FileModel>, dir: Seq<char>, path: Seq<char>) -> Option<
    FileModel,
> {
    file_from(files, dir, path, 0)
}

/// What `file_for` finds is one of the files.
pub proof fn found_file_is_known(files: Seq<FileModel>, dir: Seq<char>, path: Seq<char>, i: nat)
    ensures
        file_from(files, dir, path, i) matches Some(f) ==> files.contains(f),
    decreases files.len() - i,
{
    if i < files.len() && !(files[i as int].dir == dir && files[i as int].path == path) {
        found_file_is_known(files, dir, path, i + 1);
    }
}

fn find_file<'a>(files: &'a Vec<IncludeFile>, dir: &str, path: &str) -> (r: Option<
    &'a IncludeFile,
>)
    ensures
        match r {
            Some(f) => file_for(files_model(files@), dir@, path@) == Some(f@),
            None => file_for(files_model(files@), dir@, path@) is None,
        },
{
    let ghost m = files_model(files@);
    let mut i: usize = 0;
    while i < files.len()
        invariant
            i <= files.len(),
            m == files_model(files@),
            file_for(m, dir@, path@) == file_from(m, dir@, path@, i as nat),
        decreases files.len() - i,
    {
        if same(files[i].dir.as_str(), dir) && same(files[i].path.as_str(), path) {
            return Some(&files[i]);
        }
        i = i + 1;
    }
    None
}

// ---------------------------------------------------------------------------
// Resolution
// ---------------------------------------------------------------------------

/// The directives of one file, on the way through them. `canonical` is `None`
/// for the interface itself.
pub struct Frame {
    pub dir: Seq<char>,
    pub includes: Seq<Seq<char>>,
    pub next: nat,
    pub canonical: Option<Seq<char>>,
}

/// What has been collected: the files taken in, by canonical name, their
/// declarations, and the files to watch.
pub struct Collected {
    pub processed: Seq<Seq<char>>,
    pub types: Seq<Decl>,
    pub rerun: Seq<Seq<char>>,
}

/// How a resolution ends: with everything collected, at a file that is not yet
/// known, or with an error.
pub enum Resolution {
    Done(Collected),
    Missing(Seq<char>, Seq<char>),
    Failed(Seq<char>),
}

/// Whether a file is on the chain of files being read.
pub open spec fn on_stack(frames: Seq<Frame>, canonical: Seq<char>) -> bool {
    exists|i: int| 0 <= i < frames.len() && (#[trigger] frames[i]).canonical == Some(canonical)
}

/// The number of files that have not been taken in.
pub open spec fn remaining(files: Seq<FileModel>, processed: Seq<Seq<char>>) -> nat
    decreases files.len(),
{
    if files.len() == 0 {
        0
    } else {
        remaining(files.drop_last(), processed) + (if processed.contains(files.last().canonical) {
            0nat
        } else {
            1nat
        })
    }
}

/// The work that is left in the frames.
pub open spec fn pending(frames: Seq<Frame>) -> nat
    decreases frames.len(),
{
    if frames.len() == 0 {
        0
    } else {
        let f = frames.last();
        pending(frames.drop_last()) + 1 + (if f.next < f.includes.len() {
            (f.includes.len() - f.next) as nat
        } else {
            0
        })
    }
}

/// Taking a file in leaves fewer.
pub proof fn taking_in_leaves_fewer(
    files: Seq<FileModel>,
    processed: Seq<Seq<char>>,
    canonical: Seq<char>,
)
    ensures
        remaining(files, processed.push(canonical)) <= remaining(files, processed),
        !processed.contains(canonical) && (exists|i: int|
            0 <= i < files.len() && (#[trigger] files[i]).canonical == canonical) ==> remaining(
            files,
            processed.push(canonical),
        ) < remaining(files, processed),
    decreases files.len(),
{
    if files.len() > 0 {
        let rest = files.drop_last();
        taking_in_leaves_fewer(rest, processed, canonical);
        let last = files.last().canonical;
        let after = processed.push(canonical);
        assert(after[processed.len() as int] == canonical);
        if processed.contains(last) {
            let k = choose|k: int| 0 <= k < processed.len() && processed[k] == last;
            assert(after[k] == last);
        }
        if after.contains(last) && last != canonical {
            let k = choose|k: int| 0 <= k < after.len() && after[k] == last;
            assert(processed[k] == last);
        }
        if exists|i: int| 0 <= i < files.len() && (#[trigger] files[i]).canonical == canonical {
            let i = choose|i: int|
                0 <= i < files.len() && (#[trigger] files[i]).canonical == canonical;
            if i < rest.len() {
                assert(rest[i].canonical == canonical);
            }
        }
    }
}

/// Moving on in the last frame, or dropping it, leaves less work.
pub proof fn moving_on_leaves_less(frames: Seq<Frame>)
    requires
        frames.len() > 0,
    ensures
        pending(frames.drop_last()) < pending(frames),
        frames.last().next < frames.last().includes.len() ==> pending(advanced(frames)) < pending(
            frames,
        ),
{
    assert(advanced(frames).drop_last() =~= frames.drop_last());
}

/// The frames with the last one moved on.
pub open spec fn advanced(frames: Seq<Frame>) -> Seq<Frame> {
    let f = frames.last();
    frames.drop_last().push(Frame { next: f.next + 1, ..f })
}

/// The message that a file reaches itself.
pub open spec fn circular_message(canonical: Seq<char>) -> Seq<char> {
    "dynspire-codegen: circular include detected: "@ + canonical
}

/// The message that a fragment does not parse.
pub open spec fn fragment_message(full: Seq<char>, e: ErrorModel) -> Seq<char> {
    let text = error_text(e);
    "dynspire-codegen: parse error in include "@ + full + ": "@ + text
}

/// The resolution of the directives in `frames`, innermost last, after what has
/// been collected: directives are followed in order, and those of a file right
/// after its declarations. A file on the chain is an error, one taken in before
/// is skipped.
pub open spec fn resolve(files: Seq<FileModel>, frames: Seq<Frame>, got: Collected) -> Resolution
    decreases remaining(files, got.processed), pending(frames),
{
    if frames.len() == 0 {
        Resolution::Done(got)
    } else {
        proof {
            moving_on_leaves_less(frames);
        }
        let f = frames.last();
        if f.next >= f.includes.len() {
            resolve(files, frames.drop_last(), got)
        } else {
            let path = f.includes[f.next as int];
            match file_for(files, f.dir, path) {
                None => Resolution::Missing(f.dir, path),
                Some(file) => if on_stack(frames, file.canonical) {
                    Resolution::Failed(circular_message(file.canonical))
                } else if got.processed.contains(file.canonical) {
                    resolve(files, advanced(frames), got)
                } else {
                    proof {
                        found_file_is_known(files, f.dir, path, 0);
                        taking_in_leaves_fewer(files, got.processed, file.canonical);
                    }
                    match fragment_model(vstd::utf8::encode_utf8(file.source)) {
                        Err(e) => Resolution::Failed(fragment_message(file.full, e)),
                        Ok((types, subs)) => resolve(
                            files,
                            advanced(frames).push(
                                Frame {
                                    dir: file.parent,
                                    includes: subs,
                                    next: 0,
                                    canonical: Some(file.canonical),
                                },
                            ),
                            Collected {
                                processed: got.processed.push(file.canonical),
                                types: got.types + types,
                                rerun: got.rerun.push(file.full),
                            },
                        ),
                    }
                },
            }
        }
    }
}

/// The resolution of the directives of an interface in `dir`.
pub open spec fn resolve_all(
    files: Seq<FileModel>,
    includes: Seq<Seq<char>>,
    dir: Seq<char>,
) -> Resolution {
    resolve(
        files,
        seq![Frame { dir, includes, next: 0, canonical: None }],
        Collected { processed: Seq::empty(), types: Seq::empty(), rerun: Seq::empty() },
    )
}

proof fn lemma_processed_once(files: Seq<FileModel>, frames: Seq<Frame>, got: Collected)
    requires
        got.processed.no_duplicates(),
        got.processed.len() == got.rerun.len(),
    ensures
        resolve(files, frames, got) matches Resolution::Done(all) ==> {
            &&& all.processed.no_duplicates()
            &&& all.processed.len() == all.rerun.len()
            &&& got.types.is_prefix_of(all.types)
            &&& got.processed.is_prefix_of(all.processed)
        },
    decreases remaining(files, got.processed), pending(frames),
{
    if frames.len() > 0 {
        moving_on_leaves_less(frames);
        let f = frames.last();
        if f.next >= f.includes.len() {
            lemma_processed_once(files, frames.drop_last(), got);
        } else {
            let path = f.includes[f.next as int];
            if let Some(file) = file_for(files, f.dir, path) {
                if on_stack(frames, file.canonical) {
                } else if got.processed.contains(file.canonical) {
                    lemma_processed_once(files, advanced(frames), got);
                } else if let Ok((types, subs)) = fragment_model(
                    vstd::utf8::encode_utf8(file.source),
                ) {
                    found_file_is_known(files, f.dir, path, 0);
                    taking_in_leaves_fewer(files, got.processed, file.canonical);
                    let more = Collected {
                        processed: got.processed.push(file.canonical),
                        types: got.types + types,
                        rerun: got.rerun.push(file.full),
                    };
                    lemma_processed_once(
                        files,
                        advanced(frames).push(
                            Frame {
                                dir: file.parent,
                                includes: subs,
                                next: 0,
                                canonical: Some(file.canonical),
                            },
                        ),
                        more,
                    );
                    assert(got.types.is_prefix_of(more.types));
                    assert(got.processed.is_prefix_of(more.processed));
                }
            }
        }
    }
}

/// However often a file is reached, it is taken in once: no canonical name
/// occurs twice among the files that a resolution has taken in, and one file
/// is watched for each.
pub proof fn included_once(files: Seq<FileModel>, includes: Seq<Seq<char>>, dir: Seq<char>)
    ensures
        resolve_all(files, includes, dir) matches Resolution::Done(all) ==> {
            &&& all.processed.no_duplicates()
            &&& all.processed.len() == all.rerun.len()
        },
{
    lemma_processed_once(
        files,
        seq![Frame { dir, includes, next: 0, canonical: None }],
        Collected { processed: Seq::empty(), types: Seq::empty(), rerun: Seq::empty() },
    );
}

/// A directive that leads back to a file on the chain is an error, wherever it
/// stands.
pub proof fn cycles_fail(files: Seq<FileModel>, frames: Seq<Frame>, got: Collected, file: FileModel)
    requires
        frames.len() > 0,
        frames.last().next < frames.last().includes.len(),
        file_for(files, frames.last().dir, frames.last().includes[frames.last().next as int])
            == Some(file),
        on_stack(frames, file.canonical),
    ensures
        resolve(files, frames, got) == Resolution::Failed(circular_message(file.canonical)),
{
}

// ---------------------------------------------------------------------------
// The resolver
// ---------------------------------------------------------------------------

/// How [`resolve_includes`] ends.
pub enum Resolved {
    /// The declarations of the included files, and the files to watch.
    Done(Vec<TypeDecl>, Vec<String>),
    /// A file that has to be found and read first: a directory and the path in
    /// the directive.
    Missing(String, String),
    /// What is wrong.
    Failed(String),
}

struct WorkFrame {
    dir: String,
    includes: Vec<String>,
    next: usize,
    canonical: Option<String>,
}

impl View for WorkFrame {
    type V = Frame;

    closed spec fn view(&self) -> Frame {
        Frame {
            dir: self.dir@,
            includes: strings_model(self.includes@),
            next: self.next as nat,
            canonical: match self.canonical {
                Some(c) => Some(c@),
                None => None,
            },
        }
    }
}

spec fn frames_model(fs: Seq<WorkFrame>) -> Seq<Frame> {
    Seq::new(fs.len(), |i: int| fs[i]@)
}

fn stack_has(frames: &Vec<WorkFrame>, canonical: &str) -> (r: bool)
    ensures
        r == on_stack(frames_model(frames@), canonical@),
{
    let ghost m = frames_model(frames@);
    let mut i: usize = 0;
    while i < frames.len()
        invariant
            i <= frames.len(),
            m == frames_model(frames@),
            forall|k: int| 0 <= k < i ==> (#[trigger] m[k]).canonical != Some(canonical@),
        decreases frames.len() - i,
    {
        assert(m[i as int] == frames@[i as int]@);
        match &frames[i].canonical {
            Some(c) => {
                if same(c.as_str(), canonical) {
                    assert(m[i as int].canonical == Some(canonical@));
                    return true;
                }
            },
            None => {},
        }
        i = i + 1;
    }
    false
}

fn list_has(list: &Vec<String>, text: &str) -> (r: bool)
    ensures
        r == strings_model(list@).contains(text@),
{
    let ghost m = strings_model(list@);
    let mut i: usize = 0;
    while i < list.len()
        invariant
            i <= list.len(),
            m == strings_model(list@),
            forall|k: int| 0 <= k < i ==> m[k] != text@,
        decreases list.len() - i,
    {
        if same(list[i].as_str(), text) {
            assert(m[i as int] == text@);
            return true;
        }
        i = i + 1;
    }
    false
}

/// Follows the include directives of an interface in `dir` through the files
/// at hand.
pub fn resolve_includes(includes: &Vec<String>, dir: &str, files: &Vec<IncludeFile>) -> (r:
    Resolved)
    ensures
        match resolve_all(files_model(files@), strings_model(includes@), dir@) {
            Resolution::Done(all) => r matches Resolved::Done(types, rerun) && decls_model(types@)
                == all.types && strings_model(rerun@) == all.rerun,
            Resolution::Missing(d, p) => r matches Resolved::Missing(rd, rp) && rd@ == d && rp@
                == p,
            Resolution::Failed(msg) => r matches Resolved::Failed(rm) && rm@ == msg,
        },
{
    let ghost fm = files_model(files@);
    let mut root: Vec<String> = Vec::new();
    let mut i: usize = 0;
    while i < includes.len()
        invariant
            i <= includes.len(),
            root@.len() == i,
            forall|k: int| 0 <= k < i ==> (#[trigger] root@[k])@ == includes@[k]@,
        decreases includes.len() - i,
    {
        root.push(includes[i].clone());
        i = i + 1;
    }
    assert(strings_model(root@) =~= strings_model(includes@));
    let mut frames: Vec<WorkFrame> = Vec::new();
    frames.push(
        WorkFrame { dir: String::from_str(dir), includes: root, next: 0, canonical: None },
    );
    let mut processed: Vec<String> = Vec::new();
    let mut types: Vec<TypeDecl> = Vec::new();
    let mut rerun: Vec<String> = Vec::new();
    proof {
        assert(frames_model(frames@) =~= seq![
            Frame { dir: dir@, includes: strings_model(includes@), next: 0, canonical: None },
        ]);
        assert(strings_model(processed@) =~= Seq::empty());
        assert(decls_model(types@) =~= Seq::empty());
        assert(strings_model(rerun@) =~= Seq::empty());
    }
    while frames.len() > 0
        invariant
            fm == files_model(files@),
            resolve_all(fm, strings_model(includes@), dir@) == resolve(
                fm,
                frames_model(frames@),
                (Collected {
                    processed: strings_model(processed@),
                    types: decls_model(types@),
                    rerun: strings_model(rerun@),
                }),
            ),
        decreases remaining(fm, strings_model(processed@)), pending(frames_model(frames@)),
    {
        let ghost frs = frames_model(frames@);
        let ghost pm = strings_model(processed@);
        let ghost tm = decls_model(types@);
        let ghost rm = strings_model(rerun@);
        proof {
            moving_on_leaves_less(frs);
        }
        let last: usize = frames.len() - 1;
        assert(frs.last() == frames@[last as int]@);
        if frames[last].next >= frames[last].includes.len() {
            let _ = frames.pop();
            assert(frames_model(frames@) =~= frs.drop_last());
            continue;
        }
        let at: usize = frames[last].next;
        let file = match find_file(
            files,
            frames[last].dir.as_str(),
            frames[last].includes[at].as_str(),
        ) {
            None => {
                return Resolved::Missing(
                    frames[last].dir.clone(),
                    frames[last].includes[at].clone(),
                );
            },
            Some(f) => f,
        };
        let canonical = file.canonical.as_str();
        if stack_has(&frames, canonical) {
            return Resolved::Failed(String::from_str("dynspire-codegen: circular include detected: ")
                .concat(canonical));
        }
        proof {
            found_file_is_known(fm, frs.last().dir, frs.last().includes[at as int], 0);
            taking_in_leaves_fewer(fm, pm, canonical@);
        }
        let known = list_has(&processed, canonical);
        let mut frame = match frames.pop() {
            Some(f) => f,
            None => {
                return Resolved::Done(types, rerun);
            },
        };
        frame.next = at + 1;
        let ghost moved = frame@;
        frames.push(frame);
        assert(moved == (Frame { next: frs.last().next + 1, ..frs.last() }));
        assert(frames_model(frames@) =~= advanced(frs));
        if known {
            continue;
        }
        let full = file.full.as_str();
        match parse_type_fragment(file.source.as_str()) {
            Err(e) => {
                let text = e.to_string();
                return Resolved::Failed(String::from_str("dynspire-codegen: parse error in include ")
                    .concat(full)
                    .concat(": ")
                    .concat(text.as_str()));
            },
            Ok((found, subs)) => {
                let ghost found_model = decls_model(found@);
                let ghost subs_model = strings_model(subs@);
                let mut found = found;
                types.append(&mut found);
                assert(decls_model(types@) =~= tm + found_model);
                processed.push(String::from_str(canonical));
                assert(strings_model(processed@) =~= pm.push(canonical@));
                rerun.push(String::from_str(full));
                assert(strings_model(rerun@) =~= rm.push(full@));
                frames.push(
                    WorkFrame {
                        dir: file.parent.clone(),
                        includes: subs,
                        next: 0,
                        canonical: Some(file.canonical.clone()),
                    },
                );
                assert(frames_model(frames@) =~= advanced(frs).push(
                    Frame {
                        dir: file.parent@,
                        includes: subs_model,
                        next: 0,
                        canonical: Some(canonical@),
                    },
                ));
            },
        }
    }
    Resolved::Done(types, rerun)
}


// ---------------------------------------------------------------------------
// Merging
// ---------------------------------------------------------------------------

/// Whether one of the first `n` declarations has the name `name`.
pub open spec fn has_name(ds: Seq<Decl>, n: nat, name: Seq<char>) -> bool {
    exists|i: int| 0 <= i < n && (#[trigger] ds[i]).name() == name
}

/// Declaration `i` repeats the name of one before it.
pub open spec fn repeats(ds: Seq<Decl>, i: int) -> bool {
    has_name(ds, i as nat, ds[i].name())
}

/// The first `n` declarations have different names.
pub open spec fn distinct(ds: Seq<Decl>, n: nat) -> bool {
    forall|i: int| 0 <= i < n ==> !#[trigger] repeats(ds, i)
}

/// None of the first `n` local declarations has the name of an included one.
pub open spec fn disjoint(included: Seq<Decl>, local: Seq<Decl>, n: nat) -> bool {
    forall|i: int|
        0 <= i < n ==> !has_name(included, included.len(), (#[trigger] local[i]).name())
}

/// The message that two included declarations have the same name.
pub open spec fn twice_message(name: Seq<char>) -> Seq<char> {
    "dynspire-codegen: conflicting type definitions: `"@
        + name
        + "` defined in multiple included files"@
}

/// The message that a local declaration has the name of an included one.
pub open spec fn shadows_message(name: Seq<char>) -> Seq<char> {
    "dynspire-codegen: type `"@ + name + "` is both declared locally and included from a fragment"@
}

/// `msg` tells the first conflict between the declarations: among the included
/// ones, or else between a local and an included one.
pub open spec fn merge_conflict(included: Seq<Decl>, local: Seq<Decl>, msg: Seq<char>) -> bool {
    ||| exists|i: int|
        0 <= i < included.len() && distinct(included, i as nat) && #[trigger] repeats(included, i)
            && msg == twice_message(included[i].name())
    ||| distinct(included, included.len()) && exists|i: int|
        #![trigger local[i]]
        0 <= i < local.len() && disjoint(included, local, i as nat) && has_name(
            included,
            included.len(),
            local[i].name(),
        ) && msg == shadows_message(local[i].name())
}

fn name_among(ds: &Vec<TypeDecl>, n: usize, name: &str) -> (r: bool)
    requires
        n <= ds@.len(),
    ensures
        r == has_name(decls_model(ds@), n as nat, name@),
{
    let ghost m = decls_model(ds@);
    let mut i: usize = 0;
    while i < n
        invariant
            i <= n <= ds@.len(),
            m == decls_model(ds@),
            forall|k: int| 0 <= k < i ==> (#[trigger] m[k]).name() != name@,
        decreases n - i,
    {
        assert(m[i as int] == ds@[i as int]@);
        if same(ds[i].name(), name) {
            assert(m[i as int].name() == name@);
            return true;
        }
        i = i + 1;
    }
    false
}

/// Puts included declarations before the interface's own. A name that occurs
/// twice is an error, and leaves the interface as it was.
pub fn merge_types(iface: &mut Interface, included: Vec<TypeDecl>) -> (r: Result<(), String>)
    ensures
        match r {
            Ok(_) => {
                let inc = decls_model(included@);
                &&& distinct(inc, inc.len())
                &&& disjoint(inc, old(iface)@.types, old(iface)@.types.len())
                &&& final(iface)@ == (InterfaceModel {
                    types: inc + old(iface)@.types,
                    ..old(iface)@
                })
            },
            Err(msg) => {
                &&& merge_conflict(decls_model(included@), old(iface)@.types, msg@)
                &&& *final(iface) == *old(iface)
            },
        },
{
    let ghost inc = decls_model(included@);
    let ghost local = iface@.types;
    let mut i: usize = 0;
    while i < included.len()
        invariant
            i <= included.len(),
            inc == decls_model(included@),
            local == old(iface)@.types,
            *iface == *old(iface),
            distinct(inc, i as nat),
        decreases included.len() - i,
    {
        let name = included[i].name();
        assert(inc[i as int].name() == name@);
        if name_among(&included, i, name) {
            assert(repeats(inc, i as int));
            return Err(String::from_str("dynspire-codegen: conflicting type definitions: `")
                .concat(name)
                .concat("` defined in multiple included files"));
        }
        assert(!repeats(inc, i as int));
        i = i + 1;
    }
    let mut j: usize = 0;
    while j < iface.types.len()
        invariant
            j <= iface.types.len(),
            inc == decls_model(included@),
            local == old(iface)@.types,
            *iface == *old(iface),
            distinct(inc, inc.len()),
            disjoint(inc, local, j as nat),
        decreases iface.types.len() - j,
    {
        let name = iface.types[j].name();
        assert(local[j as int].name() == name@);
        if name_among(&included, included.len(), name) {
            return Err(String::from_str("dynspire-codegen: type `")
                .concat(name)
                .concat("` is both declared locally and included from a fragment"));
        }
        j = j + 1;
    }
    let mut merged = included;
    merged.append(&mut iface.types);
    assert(decls_model(merged@) =~= inc + local);
    iface.types = merged;
    Ok(())
}

/// Merging keeps the interface's own declarations and adds every included one:
/// after a merge each of their names is declared once, if no local name was
/// declared twice.
pub proof fn merged_names_are_distinct(included: Seq<Decl>, local: Seq<Decl>)
    requires
        distinct(included, included.len()),
        disjoint(included, local, local.len()),
        distinct(local, local.len()),
    ensures
        distinct(included + local, (included + local).len()),
{
    let all = included + local;
    assert forall|i: int| 0 <= i < all.len() implies !#[trigger] repeats(all, i) by {
        if repeats(all, i) {
            let k = choose|k: int| 0 <= k < i && (#[trigger] all[k]).name() == all[i].name();
            if i < included.len() {
                assert(included[k].name() == included[i].name());
                assert(repeats(included, i));
            } else if k < included.len() {
                assert(included[k].name() == local[i - included.len()].name());
                assert(has_name(included, included.len(), local[i - included.len()].name()));
            } else {
                assert(local[k - included.len()].name() == local[i - included.len()].name());
                assert(repeats(local, i - included.len()));
            }
        }
    }
}

// ---------------------------------------------------------------------------
// Loading
// ---------------------------------------------------------------------------

/// How [`load_interface`] ends.
pub enum Loaded {
    /// The complete interface, and the files to watch, its own first.
    Ready(Interface, Vec<String>),
    /// A fragment that has to be found and read first.
    Missing(String, String),
    /// What is wrong.
    Failed(String),
}

/// The message that the interface file does not parse.
pub open spec fn source_message(dspi_path: Seq<char>, e: ErrorModel) -> Seq<char> {
    let text = error_text(e);
    "dynspire-codegen: parse error in "@ + dspi_path + ": "@ + text
}

/// The message that the interface does not validate.
pub open spec fn invalid_message(dspi_path: Seq<char>, e: ErrorModel) -> Seq<char> {
    let text = error_text(e);
    "dynspire-codegen: validation error in "@ + dspi_path + ": "@ + text
}

/// What loading gives once the included declarations are known: they are put
/// before the interface's own, and every name must be declared.
pub open spec fn completed(
    r: Loaded,
    dspi_path: Seq<char>,
    iface: InterfaceModel,
    all: Collected,
) -> bool {
    let merged = InterfaceModel { types: all.types + iface.types, ..iface };
    match r {
        Loaded::Ready(out, rerun) => {
            &&& distinct(all.types, all.types.len())
            &&& disjoint(all.types, iface.types, iface.types.len())
            &&& first_undeclared(merged) is None
            &&& out@ == merged
            &&& strings_model(rerun@) == seq![dspi_path] + all.rerun
        },
        Loaded::Missing(_, _) => false,
        Loaded::Failed(msg) => {
            ||| merge_conflict(all.types, iface.types, msg@)
            ||| {
                &&& distinct(all.types, all.types.len())
                &&& disjoint(all.types, iface.types, iface.types.len())
                &&& first_undeclared(merged) is Some
                &&& msg@ == invalid_message(
                    dspi_path,
                    undeclared_error(first_undeclared(merged)->Some_0),
                )
            }
        },
    }
}

/// Parses the interface file at `dspi_path`, in directory `dir`, follows its
/// include directives through the files at hand, merges what they declare and
/// checks that every name is declared.
pub fn load_interface(dspi_path: &str, dir: &str, src: &str, files: &Vec<IncludeFile>) -> (r:
    Loaded)
    ensures
        match parse_model(src.spec_bytes()) {
            Err(e) => r matches Loaded::Failed(msg) && msg@ == source_message(dspi_path@, e),
            Ok(iface) => match resolve_all(files_model(files@), iface.includes, dir@) {
                Resolution::Missing(d, p) => r matches Loaded::Missing(rd, rp) && rd@ == d && rp@
                    == p,
                Resolution::Failed(m) => r matches Loaded::Failed(msg) && msg@ == m,
                Resolution::Done(all) => completed(r, dspi_path@, iface, all),
            },
        },
{
    let mut iface = match parse(src) {
        Err(e) => {
            let text = e.to_string();
            return Loaded::Failed(String::from_str("dynspire-codegen: parse error in ")
                .concat(dspi_path)
                .concat(": ")
                .concat(text.as_str()));
        },
        Ok(v) => v,
    };
    let (types, rerun) = match resolve_includes(&iface.includes, dir, files) {
        Resolved::Missing(d, p) => {
            return Loaded::Missing(d, p);
        },
        Resolved::Failed(msg) => {
            return Loaded::Failed(msg);
        },
        Resolved::Done(types, rerun) => (types, rerun),
    };
    match merge_types(&mut iface, types) {
        Err(msg) => {
            return Loaded::Failed(msg);
        },
        Ok(_) => {},
    }
    match validate(&iface) {
        Err(e) => {
            let text = e.to_string();
            return Loaded::Failed(String::from_str("dynspire-codegen: validation error in ")
                .concat(dspi_path)
                .concat(": ")
                .concat(text.as_str()));
        },
        Ok(_) => {},
    }
    let ghost rm = strings_model(rerun@);
    let mut rerun = rerun;
    let mut watch: Vec<String> = Vec::new();
    watch.push(String::from_str(dspi_path));
    watch.append(&mut rerun);
    assert(strings_model(watch@) =~= seq![dspi_path@] + rm);
    Loaded::Ready(iface, watch)
}

} // verus!
