//! Module loading: `import "..."` pulls the top-level declarations of another
//! file into one program (a flat namespace, each file included at most
//! once). A [`SourceMap`] lets diagnostics point into the right file even
//! when declarations come from several files.
//!
//! Reading files is the caller's part: [`Loader`] takes each file's
//! canonical path and text, and answers with the imports to load next.

use crate::ast::types::{Declaration, Program};
use crate::ast::parse_at;
use crate::lexer::display::{append_str, error_view_message, lemma_error_message_view};
use crate::ast::grammar::{decls_shape, import_paths, program_at};
use crate::lexer::spec::{lex, tokens_agree, LexOut};
use crate::lexer::tokenizer::tokenize_at;
use crate::lexer::types::{bytes_of, char_width, span_at, Span, Token, TokenKind};
use vstd::prelude::*;

verus! {

/// Number of bytes in the UTF-8 encoding of `s`.
pub closed spec fn byte_len(s: Seq<char>) -> nat {
    vstd::utf8::encode_utf8(s).len()
}

proof fn lemma_bytes_of_append(a: Seq<char>, b: Seq<char>)
    ensures
        bytes_of(a + b) == bytes_of(a) + bytes_of(b),
    decreases b.len(),
{
    if b.len() == 0 {
        assert(a + b =~= a);
    } else {
        lemma_bytes_of_append(a, b.drop_last());
        assert((a + b).drop_last() =~= a + b.drop_last());
    }
}

/// The byte length the lexer counts is the length of the UTF-8 encoding.
pub proof fn lemma_bytes_of_utf8(s: Seq<char>)
    ensures
        bytes_of(s) == byte_len(s),
    decreases s.len(),
{
    if s.len() > 0 {
        let rest = s.drop_first();
        lemma_bytes_of_utf8(rest);
        lemma_bytes_of_append(seq![s[0]], rest);
        assert(seq![s[0]] + rest =~= s);
        assert(seq![s[0]].drop_last() =~= Seq::<char>::empty());
        assert(bytes_of(Seq::<char>::empty()) == 0);
        assert(bytes_of(seq![s[0]]) == char_width(s[0]));
        let c = s[0] as u32;
        vstd::utf8::char_is_scalar(s[0]);
        assert(vstd::utf8::encode_scalar(c).len() == char_width(s[0]));
        assert(vstd::utf8::encode_utf8(s) == vstd::utf8::encode_scalar(c) + vstd::utf8::encode_utf8(
            rest,
        ));
        assert(bytes_of(s) == char_width(s[0]) + bytes_of(rest));
    }
}

/// One loaded source file, tagged with the global byte offset where it
/// starts.
pub struct SourceFile {
    pub path: String,
    pub src: String,
    pub base: usize,
}

/// Maps a global `Position::offset` back to the file it came from.
pub struct SourceMap {
    files: Vec<SourceFile>,
    total: usize,
}

/// The index of the last file whose base is at or below `offset`, looking
/// only at the first `k` files; -1 when there is none.
pub open spec fn last_file_at(files: Seq<SourceFile>, offset: int, k: int) -> int
    decreases k,
{
    if k <= 0 {
        -1
    } else if files[k - 1].base <= offset {
        k - 1
    } else {
        last_file_at(files, offset, k - 1)
    }
}

impl SourceMap {
    pub closed spec fn files(&self) -> Seq<SourceFile> {
        self.files@
    }

    pub closed spec fn total(&self) -> nat {
        self.total as nat
    }

    /// Each file starts where the previous one ends, the first at offset 0,
    /// and `total` is where the last one ends.
    pub open spec fn wf(&self) -> bool {
        &&& forall|i: int|
            0 <= i < self.files().len() ==> #[trigger] self.files()[i].base == if i == 0 {
                0
            } else {
                self.files()[i - 1].base + byte_len(self.files()[i - 1].src@)
            }
        &&& self.total() == if self.files().len() == 0 {
            0
        } else {
            self.files().last().base + byte_len(self.files().last().src@)
        }
    }

    pub fn new() -> (r: SourceMap)
        ensures
            r.files().len() == 0,
            r.total() == 0,
            r.wf(),
    {
        SourceMap { files: Vec::new(), total: 0 }
    }

    /// The global offset where the next file added would start.
    pub fn total_len(&self) -> (r: usize)
        ensures
            r == self.total(),
    {
        self.total
    }

    /// Adds a file; returns the global offset where it starts.
    pub fn add(&mut self, path: String, src: String) -> (base: usize)
        requires
            old(self).wf(),
            old(self).total() + byte_len(src@) <= usize::MAX,
        ensures
            base == old(self).total(),
            final(self).files() == old(self).files().push(SourceFile { path, src, base }),
            final(self).total() == old(self).total() + byte_len(src@),
            final(self).wf(),
    {
        let base = self.total;
        let n = src.as_str().len();
        self.total = self.total + n;
        self.files.push(SourceFile { path, src, base });
        base
    }

    /// The file containing a global byte offset: the last file whose base is
    /// at or below `offset` (files are stored in increasing base order).
    pub fn file_for_offset(&self, offset: usize) -> (r: Option<&SourceFile>)
        ensures
            match r {
                Some(f) => last_file_at(self.files(), offset as int, self.files().len() as int) >= 0
                    && *f == self.files()[last_file_at(
                    self.files(),
                    offset as int,
                    self.files().len() as int,
                )],
                None => last_file_at(self.files(), offset as int, self.files().len() as int) == -1,
            },
    {
        let mut k: usize = self.files.len();
        while k > 0
            invariant
                k <= self.files.len(),
                last_file_at(self.files@, offset as int, self.files.len() as int) == last_file_at(
                    self.files@,
                    offset as int,
                    k as int,
                ),
            decreases k,
        {
            if self.files[k - 1].base <= offset {
                return Some(&self.files[k - 1]);
            }
            k = k - 1;
        }
        None
    }
}

/// An offset inside a non-empty file is mapped back to that file.
pub proof fn law_offset_in_its_file(map: SourceMap, i: int, offset: int)
    requires
        map.wf(),
        0 <= i < map.files().len(),
        map.files()[i].base <= offset < map.files()[i].base + byte_len(map.files()[i].src@),
    ensures
        last_file_at(map.files(), offset, map.files().len() as int) == i,
{
    let files = map.files();
    assert forall|k: int| 0 < k < files.len() implies #[trigger] files[k].base == files[k
        - 1].base + byte_len(files[k - 1].src@) by {
        assert(map.files()[k].base == map.files()[k - 1].base + byte_len(map.files()[k - 1].src@));
    }
    assert forall|j: int| i < j < files.len() implies #[trigger] files[j].base > offset by {
        lemma_bases_grow(files, i, j);
    }
    lemma_last_file_skip(files, offset, i, files.len() as int);
}

proof fn lemma_bases_grow(files: Seq<SourceFile>, i: int, j: int)
    requires
        0 <= i < j < files.len(),
        forall|k: int|
            0 < k < files.len() ==> #[trigger] files[k].base == files[k - 1].base + byte_len(
                files[k - 1].src@,
            ),
    ensures
        files[j].base >= files[i].base + byte_len(files[i].src@),
    decreases j - i,
{
    if j - 1 > i {
        lemma_bases_grow(files, i, j - 1);
    }
    assert(files[j].base == files[j - 1].base + byte_len(files[j - 1].src@));
}

proof fn lemma_last_file_skip(files: Seq<SourceFile>, offset: int, i: int, k: int)
    requires
        0 <= i < k <= files.len(),
        files[i].base <= offset,
        forall|j: int| i < j < files.len() ==> #[trigger] files[j].base > offset,
    ensures
        last_file_at(files, offset, k) == i,
    decreases k,
{
    if k - 1 > i {
        assert(files[k - 1].base > offset);
        lemma_last_file_skip(files, offset, i, k - 1);
    }
}

/// A failure while loading the module graph. `span` (when present) uses
/// global offsets, so it can be reported against the [`SourceMap`].
pub struct ModuleError {
    pub span: Option<Span>,
    pub message: String,
}

/// The file an `import "path"` names: `path` with the `.frey` extension
/// appended unless it already ends with it. It is resolved against the
/// importing file's directory by whoever reads files.
pub open spec fn import_file_name(path: Seq<char>) -> Seq<char> {
    if path.len() >= 5 && path.subrange(path.len() - 5, path.len() as int) == ".frey"@ {
        path
    } else {
        path + ".frey"@
    }
}

/// The file an `import "path"` names, as text.
pub fn import_file_name_of(path: &str) -> (r: String)
    ensures
        r@ == import_file_name(path@),
{
    let ext = ".frey";
    let mut chars: Vec<char> = Vec::new();
    for c in it: path.chars()
        invariant
            chars@ == it.seq().take(it.index() as int),
    {
        chars.push(c);
    }
    assert(chars@ =~= path@);
    let n = chars.len();
    let ends = n >= 5 && chars[n - 5] == '.' && chars[n - 4] == 'f' && chars[n - 3] == 'r'
        && chars[n - 2] == 'e' && chars[n - 1] == 'y';
    proof {
        reveal_strlit(".frey");
        if n >= 5 {
            let tail = path@.subrange(n - 5, n as int);
            if ends {
                assert(tail =~= ".frey"@);
            } else if tail == ".frey"@ {
                assert(tail[0] == '.' && tail[1] == 'f' && tail[2] == 'r' && tail[3] == 'e' && tail[4]
                    == 'y');
            }
        }
    }
    let mut r = path.to_owned();
    if !ends {
        append_str(&mut r, ext);
    }
    r
}

/// The path `dir` joined with `name` (std's `Path::join`), as text.
pub uninterp spec fn path_join(dir: Seq<char>, name: Seq<char>) -> Seq<char>;

/// The directory holding the path `p` (std's `Path::parent`), if any.
pub uninterp spec fn path_parent(p: Seq<char>) -> Option<Seq<char>>;

/// `Path::new(dir).join(name)`, as text. The result is a function of the
/// two arguments alone and is not stated further here.
#[verifier::external_body]
fn join_path(dir: &str, name: &str) -> (r: String)
    ensures
        r@ == path_join(dir@, name@),
{
    std::path::Path::new(dir).join(name).to_string_lossy().into_owned()
}

/// `Path::new(p).parent()`, as text (empty where there is none). The result
/// is a function of the path alone and is not stated further here.
#[verifier::external_body]
fn parent_of(p: &str) -> (r: String)
    ensures
        match path_parent(p@) {
            Some(d) => r@ == d,
            None => r@ == Seq::<char>::empty(),
        },
{
    match std::path::Path::new(p).parent() {
        Some(d) => d.to_string_lossy().into_owned(),
        None => String::new(),
    }
}

/// A copy of a list of imports.
fn copy_imports(v: &Vec<(String, Span)>) -> (r: Vec<(String, Span)>)
    ensures
        imports_view(r@) == imports_view(v@),
        r@.len() == v@.len(),
        forall|i: int| 0 <= i < v@.len() ==> r@[i].0@ == v@[i].0@ && r@[i].1 == v@[i].1,
{
    let mut out: Vec<(String, Span)> = Vec::new();
    let mut i: usize = 0;
    while i < v.len()
        invariant
            i <= v.len(),
            out@.len() == i,
            forall|j: int| 0 <= j < i ==> out@[j].0@ == v@[j].0@ && out@[j].1 == v@[j].1,
        decreases v.len() - i,
    {
        out.push((v[i].0.clone(), v[i].1));
        i = i + 1;
    }
    assert(imports_view(out@) =~= imports_view(v@));
    out
}

/// The directory imports of the file at `p` are resolved against: its
/// parent, or the empty path.
pub open spec fn import_dir(p: Seq<char>) -> Seq<char> {
    match path_parent(p) {
        Some(d) => d,
        None => Seq::empty(),
    }
}

/// Resolves `import "path"` in a file of the directory `dir`: the file it
/// names (with `.frey` appended unless already there), joined to `dir`.
pub fn resolve_import_path(dir: &str, path: &str) -> (r: String)
    ensures
        r@ == path_join(dir@, import_file_name(path@)),
{
    let name = import_file_name_of(path);
    join_path(dir, name.as_str())
}

/// A file whose imports are being loaded: its directory, its imports (file
/// name and span of the `import`) and how many have been handed out.
pub struct Frame {
    dir: String,
    imports: Vec<(String, Span)>,
    next: usize,
}

/// A [`Frame`] by value.
pub struct FrameV {
    pub dir: Seq<char>,
    pub imports: Seq<(Seq<char>, Span)>,
    pub next: int,
}

pub open spec fn imports_view(v: Seq<(String, Span)>) -> Seq<(Seq<char>, Span)> {
    v.map_values(|p: (String, Span)| (p.0@, p.1))
}

pub closed spec fn frame_view(f: Frame) -> FrameV {
    FrameV { dir: f.dir@, imports: imports_view(f.imports@), next: f.next as int }
}

/// What the loader asks of its caller next.
pub enum LoadAction {
    /// Read the file at `path`, imported at `span`, and hand its canonical
    /// path and text to [`Loader::begin_file`].
    Read { path: String, span: Span },
    /// Every file is loaded and merged.
    Done,
}

/// A [`LoadAction`] by value.
pub enum ActionV {
    Read(Seq<char>, Span),
    Done,
}

pub open spec fn action_view(a: LoadAction) -> ActionV {
    match a {
        LoadAction::Read { path, span } => ActionV::Read(path@, span),
        LoadAction::Done => ActionV::Done,
    }
}

/// One step of loading, from the frames `fr`, the pending declarations
/// `pend` (one list per frame) and the merged declarations `decls`. The
/// innermost file hands out its next import; a file with none left has its
/// declarations merged and is left, and the step goes on with the file
/// that imported it. So a file's declarations are merged only after every
/// file it imports, and every file those import, has been handed out and
/// merged.
pub open spec fn load_step(fr: Seq<FrameV>, pend: Seq<Seq<Declaration>>, decls: Seq<Declaration>) -> (
    ActionV,
    Seq<FrameV>,
    Seq<Seq<Declaration>>,
    Seq<Declaration>,
)
    decreases fr.len(),
{
    if fr.len() == 0 {
        (ActionV::Done, fr, pend, decls)
    } else {
        let top = fr.last();
        if 0 <= top.next < top.imports.len() {
            (
                ActionV::Read(path_join(top.dir, top.imports[top.next].0), top.imports[top.next].1),
                fr.update(fr.len() - 1, FrameV { next: top.next + 1, ..top }),
                pend,
                decls,
            )
        } else {
            load_step(fr.drop_last(), pend.drop_last(), decls + pend.last())
        }
    }
}

/// A step merges the declarations of a file only once every import of that
/// file has been handed out, and leaves the files below it as they were:
/// the files it leaves are the innermost ones, each complete, and the
/// declarations merged are theirs, innermost first.
pub proof fn law_merged_after_imports(fr: Seq<FrameV>, pend: Seq<Seq<Declaration>>, decls: Seq<Declaration>)
    requires
        fr.len() == pend.len(),
    ensures
        ({
            let (a, fr2, pend2, d2) = load_step(fr, pend, decls);
            &&& fr2.len() <= fr.len()
            &&& pend2 == pend.subrange(0, fr2.len() as int)
            &&& forall|i: int| fr2.len() <= i < fr.len() ==> (#[trigger] fr[i]).next < 0 || fr[i].next
                >= fr[i].imports.len()
            &&& forall|i: int| 0 <= i < fr2.len() - 1 ==> #[trigger] fr2[i] == fr[i]
            &&& a is Done <==> fr2.len() == 0
        }),
    decreases fr.len(),
{
    if fr.len() == 0 {
        assert(pend.subrange(0, 0) =~= pend);
    } else {
        let top = fr.last();
        if 0 <= top.next < top.imports.len() {
            assert(pend.subrange(0, fr.len() as int) =~= pend);
            let fr2 = fr.update(fr.len() - 1, FrameV { next: top.next + 1, ..top });
            assert forall|i: int| 0 <= i < fr2.len() - 1 implies #[trigger] fr2[i] == fr[i] by {}
        } else {
            law_merged_after_imports(fr.drop_last(), pend.drop_last(), decls + pend.last());
            let (a, fr2, pend2, d2) = load_step(fr.drop_last(), pend.drop_last(), decls + pend.last());
            assert(pend.drop_last().subrange(0, fr2.len() as int) =~= pend.subrange(0, fr2.len() as int));
            assert forall|i: int| fr2.len() <= i < fr.len() implies (#[trigger] fr[i]).next < 0
                || fr[i].next >= fr[i].imports.len() by {
                if i < fr.len() - 1 {
                    assert(fr.drop_last()[i] == fr[i]);
                }
            }
            assert forall|i: int| 0 <= i < fr2.len() - 1 implies #[trigger] fr2[i] == fr[i] by {
                assert(fr.drop_last()[i] == fr[i]);
            }
        }
    }
}

/// Loads the files of a program one at a time, merging their declarations
/// in dependency order: a file's imports come before its own declarations.
pub struct Loader {
    sources: SourceMap,
    loaded: Vec<String>,
    declarations: Vec<Declaration>,
    /// Declarations of files whose imports are still being loaded, innermost
    /// last.
    pending: Vec<Vec<Declaration>>,
    /// The same files, with the imports still to hand out.
    frames: Vec<Frame>,
    next_node_id: u32,
}

impl Loader {
    pub closed spec fn sources(&self) -> SourceMap {
        self.sources
    }

    pub closed spec fn loaded(&self) -> Seq<Seq<char>> {
        self.loaded@.map_values(|p: String| p@)
    }

    pub closed spec fn pending_count(&self) -> nat {
        self.pending@.len()
    }

    pub closed spec fn pending_all(&self) -> Seq<Seq<Declaration>> {
        self.pending@.map_values(|v: Vec<Declaration>| v@)
    }

    pub closed spec fn frames(&self) -> Seq<FrameV> {
        self.frames@.map_values(|f: Frame| frame_view(f))
    }

    pub closed spec fn next_node_id(&self) -> u32 {
        self.next_node_id
    }

    /// The declarations of the file begun last and not yet finished.
    pub closed spec fn pending_last(&self) -> Seq<Declaration> {
        self.pending@.last()@
    }

    pub closed spec fn declarations(&self) -> Seq<Declaration> {
        self.declarations@
    }

    pub open spec fn wf(&self) -> bool {
        self.sources().wf()
    }

    pub fn new() -> (r: Loader)
        ensures
            r.wf(),
            r.sources().files().len() == 0,
            r.loaded().len() == 0,
            r.pending_count() == 0,
            r.next_node_id() == 0,
            r.declarations().len() == 0,
            r.frames().len() == 0,
    {
        let r = Loader {
            sources: SourceMap::new(),
            loaded: Vec::new(),
            declarations: Vec::new(),
            pending: Vec::new(),
            frames: Vec::new(),
            next_node_id: 0,
        };
        assert(r.loaded() =~= Seq::<Seq<char>>::empty());
        r
    }

    /// The global offset where the next file would start.
    pub fn source_total(&self) -> (r: usize)
        ensures
            r == self.sources().total(),
    {
        self.sources.total_len()
    }

    pub fn is_loaded(&self, path: &String) -> (r: bool)
        ensures
            r == self.loaded().contains(path@),
    {
        let mut i: usize = 0;
        while i < self.loaded.len()
            invariant
                i <= self.loaded.len(),
                forall|j: int| 0 <= j < i ==> self.loaded@[j]@ != path@,
            decreases self.loaded.len() - i,
        {
            if self.loaded[i] == *path {
                assert(self.loaded()[i as int] == path@);
                return true;
            }
            i = i + 1;
        }
        proof {
            if self.loaded().contains(path@) {
                let j = choose|j: int| 0 <= j < self.loaded().len() && self.loaded()[j] == path@;
                assert(self.loaded@[j]@ == path@);
            }
        }
        false
    }

    /// Takes the file at canonical path `canonical`, with text `src`.
    /// A file already loaded is skipped (`Ok(None)`); this also makes import
    /// cycles safe. Otherwise the file is recorded in the source map,
    /// lexed and parsed with node ids continuing from the previous file, and
    /// the files it imports are returned, each with the span of its
    /// `import`, to be loaded (and then [`Loader::finish_file`] called)
    /// before this file's declarations are merged.
    pub fn begin_file(&mut self, canonical: String, src: String) -> (r: Result<
        Option<Vec<(String, Span)>>,
        ModuleError,
    >)
        requires
            old(self).wf(),
            old(self).sources().total() + byte_len(src@) + 1 < usize::MAX,
        ensures
            final(self).wf(),
            old(self).loaded().contains(canonical@) ==> (r matches Ok(None) && *final(self) == *old(
                self,
            )),
            !old(self).loaded().contains(canonical@) ==> {
                &&& r !is Ok || r->Ok_0 is Some
                &&& final(self).loaded() == old(self).loaded().push(canonical@)
                &&& final(self).sources().files() == old(self).sources().files().push(
                    SourceFile { path: canonical, src, base: old(self).sources().total() as usize },
                )
                &&& final(self).declarations() == old(self).declarations()
                &&& match lex(src@) {
                    LexOut::Failed(ev, a, b) => (r matches Err(e) && e.span == Some(
                        span_at(src@, old(self).sources().total() as int, a, b),
                    ) && e.message@ == error_view_message(ev)),
                    LexOut::Done(ts) => {
                        &&& old(self).next_node_id() + 3 * (ts.len() + 1) > u32::MAX ==> r is Err
                        &&& (r matches Ok(Some(imports)) ==> final(self).pending_count()
                            == old(self).pending_count() + 1 && final(self).next_node_id()
                            >= old(self).next_node_id())
                        &&& old(self).next_node_id() + 3 * (ts.len() + 1) <= u32::MAX ==> exists|
                            toks: Seq<Token>,
                        |
                            #![trigger program_at(toks)]
                            tokens_agree(toks, ts, src@, old(self).sources().total() as int)
                                && match program_at(toks) {
                                Some((ds, is)) => r matches Ok(Some(imports)) && decls_shape(
                                    final(self).pending_last(),
                                ) == ds && imports@.len() == is.len() && (forall|j: int|
                                    0 <= j < is.len() ==> #[trigger] imports@[j].0@
                                        == import_file_name(is[j])),
                                None => r is Err,
                            }
                    },
                }
            },
            r matches Ok(Some(imports)) ==> final(self).frames() == old(self).frames().push(
                FrameV { dir: import_dir(canonical@), imports: imports_view(imports@), next: 0 },
            ) && final(self).pending_all() == old(self).pending_all().push(final(self).pending_last()),
            !(r matches Ok(Some(_))) ==> final(self).frames() == old(self).frames()
                && final(self).pending_all() == old(self).pending_all(),
    {
        if self.is_loaded(&canonical) {
            return Ok(None);
        }
        let dir = parent_of(canonical.as_str());
        self.loaded.push(canonical.clone());
        assert(self.loaded() =~= old(self).loaded().push(canonical@));
        proof {
            lemma_bytes_of_utf8(src@);
        }
        let base = self.sources.add(canonical, src);
        let src_ref = &self.sources.files[self.sources.files.len() - 1].src;
        let tokens = match tokenize_at(src_ref.as_str(), base) {
            Ok(t) => t,
            Err(e) => {
                proof {
                    lemma_error_message_view(e.kind);
                }
                return Err(ModuleError { span: Some(e.span), message: e.kind.message() });
            },
        };
        let ghost toks = tokens@;
        let n = tokens.len();
        if n == 0 || !matches!(tokens[n - 1].kind, TokenKind::Eof) || n > (u32::MAX
            - self.next_node_id) as usize / 3 {
            let mut message = String::new();
            append_str(&mut message, "too many tokens to number in one program");
            return Err(ModuleError { span: None, message });
        }
        let (program, next_node_id) = match parse_at(tokens, self.next_node_id) {
            Ok(p) => p,
            Err(e) => {
                return Err(ModuleError { span: Some(e.span), message: e.kind.message() });
            },
        };
        self.next_node_id = next_node_id;
        let mut imports: Vec<(String, Span)> = Vec::new();
        let mut i: usize = 0;
        while i < program.imports.len()
            invariant
                i <= program.imports.len(),
                imports.len() == i,
                forall|j: int|
                    0 <= j < i ==> imports@[j].0@ == import_file_name(
                        #[trigger] program.imports@[j].path@,
                    ) && imports@[j].1 == program.imports@[j].span,
            decreases program.imports.len() - i,
        {
            let target = import_file_name_of(program.imports[i].path.as_str());
            imports.push((target, program.imports[i].span));
            i = i + 1;
        }
        let ghost pend0 = self.pending_all();
        self.pending.push(program.declarations);
        assert(self.pending_all() =~= pend0.push(self.pending_last()));
        let copy = copy_imports(&imports);
        let ghost fr0 = self.frames();
        let frame = Frame { dir, imports: copy, next: 0 };
        self.frames.push(frame);
        assert(self.frames() =~= fr0.push(frame_view(frame)));
        proof {
            assert(program_at(toks) matches Some((ds, is)) && is == import_paths(program.imports@));
        }
        Ok(Some(imports))
    }

    /// Merges the declarations of the file begun last, once its imports have
    /// been loaded.
    pub fn finish_file(&mut self)
        requires
            old(self).pending_count() > 0,
        ensures
            final(self).pending_count() == old(self).pending_count() - 1,
            final(self).sources() == old(self).sources(),
            final(self).loaded() == old(self).loaded(),
            final(self).next_node_id() == old(self).next_node_id(),
            final(self).declarations().len() >= old(self).declarations().len(),
            final(self).declarations().subrange(0, old(self).declarations().len() as int)
                == old(self).declarations(),
            final(self).declarations() == old(self).declarations() + old(self).pending_last(),
            final(self).declarations() == old(self).declarations() + old(self).pending_all().last(),
            final(self).pending_all() == old(self).pending_all().drop_last(),
            final(self).frames() == old(self).frames(),
    {
        let decls = self.pending.pop();
        match decls {
            Some(mut ds) => {
                self.declarations.append(&mut ds);
            },
            None => {},
        }
        assert(self.declarations@.subrange(0, old(self).declarations@.len() as int)
            =~= old(self).declarations@);
        assert(self.pending_all() =~= old(self).pending_all().drop_last());
    }

    /// The next step of loading, as [`load_step`] says: the next import of
    /// the innermost file to read, after merging (innermost first) the
    /// declarations of every file whose imports have all been handed out;
    /// `Done` once every file is merged.
    pub fn next_action(&mut self) -> (r: LoadAction)
        requires
            old(self).frames().len() == old(self).pending_count(),
        ensures
            final(self).frames().len() == final(self).pending_count(),
            final(self).sources() == old(self).sources(),
            final(self).loaded() == old(self).loaded(),
            final(self).next_node_id() == old(self).next_node_id(),
            (action_view(r), final(self).frames(), final(self).pending_all(), final(self).declarations())
                == load_step(old(self).frames(), old(self).pending_all(), old(self).declarations()),
    {
        loop
            invariant
                self.frames().len() == self.pending_count(),
                self.frames().len() == self.pending_all().len(),
                self.sources() == old(self).sources(),
                self.loaded() == old(self).loaded(),
                self.next_node_id() == old(self).next_node_id(),
                load_step(old(self).frames(), old(self).pending_all(), old(self).declarations())
                    == load_step(self.frames(), self.pending_all(), self.declarations()),
            decreases self.frames@.len(),
        {
            let n = self.frames.len();
            if n == 0 {
                return LoadAction::Done;
            }
            let ghost fr = self.frames();
            let mut top = self.frames.pop().unwrap();
            assert(frame_view(top) == fr.last());
            if top.next < top.imports.len() {
                let k = top.next;
                let path = join_path(top.dir.as_str(), top.imports[k].0.as_str());
                let span = top.imports[k].1;
                assert(imports_view(top.imports@)[k as int] == (top.imports@[k as int].0@, span));
                top.next = k + 1;
                let ghost fv = frame_view(top);
                self.frames.push(top);
                assert(self.frames() =~= fr.update(fr.len() - 1, fv));
                return LoadAction::Read { path, span };
            } else {
                assert(self.frames() =~= fr.drop_last());
                self.finish_file();
            }
        }
    }

    /// The source map and the merged program.
    pub fn into_parts(self) -> (r: (SourceMap, Program))
        ensures
            r.0 == self.sources(),
            r.1.declarations@ == self.declarations(),
            r.1.imports@.len() == 0,
            r.1.span.start.offset == 0 && r.1.span.end.offset == 0,
    {
        (
            self.sources,
            Program { span: Span::default(), declarations: self.declarations, imports: Vec::new() },
        )
    }
}

} // verus!
