use vstd::prelude::*;
use vstd::string::StringExecFns;
use vstd::string::StrSliceExecFns;
use vstd::utf8::{decode_utf8, decode_utf8_encode_utf8, encode_utf8, valid_utf8};

pub use crate::context::TemplateContext;
use crate::error::Error;

verus! {

/// A text file of a template: its name within its directory and its bytes.
#[derive(Debug, Clone)]
pub struct TemplateFile {
    pub name: String,
    pub contents: Vec<u8>,
}

/// A directory of a template: its name within its parent and its entries, in order.
#[derive(Debug)]
pub struct TemplateDir {
    pub name: String,
    pub entries: Vec<TemplateEntry>,
}

/// One entry of a template directory.
#[derive(Debug)]
pub enum TemplateEntry {
    Dir(TemplateDir),
    File(TemplateFile),
}

/// A file to produce: its path relative to the output root, the template text
/// to render into it, and whether it is made executable afterwards.
#[derive(Debug, Clone)]
pub struct FileUnit {
    pub path: String,
    pub text: String,
    pub executable: bool,
}

/// One step of materialising a template, with paths relative to the output root.
#[derive(Debug, Clone)]
pub enum Step {
    CreateDir(String),
    WriteFile(FileUnit),
}

/// What a file unit stands for.
pub ghost struct UnitView {
    pub path: Seq<char>,
    pub text: Seq<char>,
    pub executable: bool,
}

/// What a step stands for.
pub ghost enum StepView {
    CreateDir(Seq<char>),
    WriteFile(UnitView),
}

impl View for FileUnit {
    type V = UnitView;

    open spec fn view(&self) -> UnitView {
        UnitView { path: self.path@, text: self.text@, executable: self.executable }
    }
}

impl View for Step {
    type V = StepView;

    open spec fn view(&self) -> StepView {
        match self {
            Step::CreateDir(p) => StepView::CreateDir(p@),
            Step::WriteFile(u) => StepView::WriteFile(u@),
        }
    }
}

/// The path of an entry named `name` inside the directory at `prefix`; the
/// output root itself is the empty path.
pub open spec fn child_path(prefix: Seq<char>, name: Seq<char>) -> Seq<char> {
    if prefix.len() == 0 {
        name
    } else {
        prefix + seq!['/'] + name
    }
}

/// A file name whose extension is `sh`: it ends in `.sh` after a non-empty stem.
pub open spec fn is_shell_script(name: Seq<char>) -> bool {
    let n = name.len();
    &&& n > 3
    &&& name[n - 3] == '.'
    &&& name[n - 2] == 's'
    &&& name[n - 1] == 'h'
}

/// The unit that produces a template file inside the directory at `prefix`.
pub open spec fn unit_of(f: TemplateFile, prefix: Seq<char>) -> UnitView {
    UnitView {
        path: child_path(prefix, f.name@),
        text: decode_utf8(f.contents@),
        executable: is_shell_script(f.name@),
    }
}

/// The path of the first file, in walk order from the `i`-th entry of `d` on, for
/// the directory at `prefix`, whose bytes are not valid UTF-8; `None` when every
/// file is text.
pub open spec fn first_non_text(d: TemplateDir, prefix: Seq<char>, i: int) -> Option<Seq<char>>
    decreases d, d.entries@.len() - i,
{
    if i < 0 || i >= d.entries@.len() {
        None
    } else {
        match d.entries@[i] {
            TemplateEntry::Dir(sub) => match first_non_text(sub, child_path(prefix, sub.name@), 0) {
                Some(p) => Some(p),
                None => first_non_text(d, prefix, i + 1),
            },
            TemplateEntry::File(f) => if valid_utf8(f.contents@) {
                first_non_text(d, prefix, i + 1)
            } else {
                Some(child_path(prefix, f.name@))
            },
        }
    }
}

/// The description of a template file, at `path`, that is not valid UTF-8.
pub open spec fn not_text_message_of(path: Seq<char>) -> Seq<char> {
    "Template file is not valid UTF-8: "@ + path
}

/// The steps of a depth-first walk of `d` from its `i`-th entry on, for the
/// directory at `prefix`: a directory is created, then its contents walked, before
/// the entries after it.
pub open spec fn walk_from(d: TemplateDir, prefix: Seq<char>, i: int) -> Seq<StepView>
    decreases d, d.entries@.len() - i,
{
    if i < 0 || i >= d.entries@.len() {
        seq![]
    } else {
        let here = match d.entries@[i] {
            TemplateEntry::Dir(sub) => {
                let p = child_path(prefix, sub.name@);
                seq![StepView::CreateDir(p)] + walk_from(sub, p, 0)
            },
            TemplateEntry::File(f) => seq![StepView::WriteFile(unit_of(f, prefix))],
        };
        here + walk_from(d, prefix, i + 1)
    }
}

/// The steps that materialise template `d`: the output root, then the walk.
pub open spec fn plan_of(d: TemplateDir) -> Seq<StepView> {
    seq![StepView::CreateDir(seq![])] + walk_from(d, seq![], 0)
}

/// The names of the directories among `es`, in order.
pub open spec fn template_names(es: Seq<TemplateEntry>) -> Seq<Seq<char>>
    decreases es.len(),
{
    if es.len() == 0 {
        seq![]
    } else {
        let rest = template_names(es.drop_last());
        match es.last() {
            TemplateEntry::Dir(d) => rest.push(d.name@),
            TemplateEntry::File(_) => rest,
        }
    }
}

/// The first directory among `es` from index `i` on whose name is `name`.
pub open spec fn find_from(es: Seq<TemplateEntry>, name: Seq<char>, i: int) -> Option<TemplateDir>
    decreases es.len() - i,
{
    if i < 0 || i >= es.len() {
        None
    } else {
        match es[i] {
            TemplateEntry::Dir(d) => if d.name@ == name {
                Some(d)
            } else {
                find_from(es, name, i + 1)
            },
            TemplateEntry::File(_) => find_from(es, name, i + 1),
        }
    }
}

/// The template called `name` in a catalog.
pub open spec fn find_template(catalog: TemplateDir, name: Seq<char>) -> Option<TemplateDir> {
    find_from(catalog.entries@, name, 0)
}

/// The views of a sequence of steps.
pub open spec fn step_views(s: Seq<Step>) -> Seq<StepView> {
    s.map_values(|x: Step| x@)
}

/// Relies on String::from_utf8: the text the bytes encode, when they are valid UTF-8.
#[verifier::external_body]
fn utf8_text(bytes: &Vec<u8>) -> (r: Option<String>)
    ensures
        r is Some <==> valid_utf8(bytes@),
        r matches Some(t) ==> t@ == decode_utf8(bytes@),
{
    String::from_utf8(bytes.clone()).ok()
}

/// The path of the entry `name` inside the directory at `prefix`.
fn join_path(prefix: &String, name: &String) -> (r: String)
    ensures
        r@ == child_path(prefix@, name@),
{
    if prefix.as_str().is_empty() {
        name.clone()
    } else {
        let r = prefix.clone().concat("/").concat(name.as_str());
        assert(r@ =~= prefix@ + seq!['/'] + name@) by {
            reveal_strlit("/");
        }
        r
    }
}

/// Whether a file name has the extension `sh`.
pub fn shell_script(name: &String) -> (r: bool)
    ensures
        r == is_shell_script(name@),
{
    let s = name.as_str();
    let n = s.unicode_len();
    n > 3 && s.get_char(n - 3) == '.' && s.get_char(n - 2) == 's' && s.get_char(n - 1) == 'h'
}

/// The unit that produces template file `f` inside the directory at `prefix`, or
/// the path of the file when its bytes are not valid UTF-8.
fn file_unit(f: &TemplateFile, prefix: &String) -> (r: Result<FileUnit, String>)
    ensures
        r is Ok <==> valid_utf8(f.contents@),
        r matches Ok(u) ==> u@ == unit_of(*f, prefix@),
        r matches Err(p) ==> p@ == child_path(prefix@, f.name@),
{
    let path = join_path(prefix, &f.name);
    match utf8_text(&f.contents) {
        Some(text) => Ok(FileUnit { path, text, executable: shell_script(&f.name) }),
        None => Err(path),
    }
}

proof fn lemma_step_views_push(s: Seq<Step>, x: Step)
    ensures
        step_views(s.push(x)) == step_views(s) + seq![x@],
{
    assert(step_views(s.push(x)) =~= step_views(s) + seq![x@]);
}

/// Appends to `out` the steps of the walk of `d` at `prefix`; gives the path of
/// the first file that is not valid UTF-8, if any, and then stops.
fn walk(d: &TemplateDir, prefix: &String, out: &mut Vec<Step>) -> (bad: Option<String>)
    ensures
        match bad {
            None => first_non_text(*d, prefix@, 0) is None,
            Some(p) => first_non_text(*d, prefix@, 0) == Some(p@),
        },
        bad is None ==> step_views(final(out)@) == step_views(old(out)@) + walk_from(
            *d,
            prefix@,
            0,
        ),
    decreases d,
{
    let n = d.entries.len();
    let mut i: usize = 0;
    while i < n
        invariant
            n == d.entries@.len(),
            0 <= i <= n,
            first_non_text(*d, prefix@, 0) == first_non_text(*d, prefix@, i as int),
            step_views(out@) + walk_from(*d, prefix@, i as int) == step_views(old(out)@)
                + walk_from(*d, prefix@, 0),
        decreases n - i,
    {
        let ghost before = out@;
        match &d.entries[i] {
            TemplateEntry::Dir(sub) => {
                let p = join_path(prefix, &sub.name);
                let step = Step::CreateDir(p.clone());
                proof {
                    lemma_step_views_push(out@, step);
                }
                out.push(step);
                assert(decreases_to!(d.entries => d.entries@[i as int]));
                let inner = walk(sub, &p, out);
                if inner.is_some() {
                    return inner;
                }
                assert(step_views(out@) + walk_from(*d, prefix@, i + 1) =~= step_views(before)
                    + walk_from(*d, prefix@, i as int));
            },
            TemplateEntry::File(f) => {
                match file_unit(f, prefix) {
                    Ok(u) => {
                        let step = Step::WriteFile(u);
                        proof {
                            lemma_step_views_push(out@, step);
                        }
                        out.push(step);
                        assert(step_views(out@) + walk_from(*d, prefix@, i + 1) =~= step_views(
                            before,
                        ) + walk_from(*d, prefix@, i as int));
                    },
                    Err(path) => {
                        return Some(path);
                    },
                }
            },
        }
        i += 1;
    }
    assert(step_views(out@) =~= step_views(out@) + walk_from(*d, prefix@, n as int));
    None
}

/// The directories to create, in order, and the files to produce, of a template
/// materialised by independent units of work.
#[derive(Debug, Clone)]
pub struct Batch {
    pub dirs: Vec<String>,
    pub files: Vec<FileUnit>,
}

/// The directories and the units of the walk of `d` from its `i`-th entry on,
/// for the directory at `prefix`, as the concurrent walker collects them.
pub open spec fn batch_from(d: TemplateDir, prefix: Seq<char>, i: int) -> (
    Seq<Seq<char>>,
    Seq<UnitView>,
)
    decreases d, d.entries@.len() - i,
{
    if i < 0 || i >= d.entries@.len() {
        (seq![], seq![])
    } else {
        let rest = batch_from(d, prefix, i + 1);
        match d.entries@[i] {
            TemplateEntry::Dir(sub) => {
                let p = child_path(prefix, sub.name@);
                let inner = batch_from(sub, p, 0);
                (seq![p] + inner.0 + rest.0, inner.1 + rest.1)
            },
            TemplateEntry::File(f) => (rest.0, seq![unit_of(f, prefix)] + rest.1),
        }
    }
}

/// The directories, root first, and the units of template `d` in the concurrent variant.
pub open spec fn batch_of(d: TemplateDir) -> (Seq<Seq<char>>, Seq<UnitView>) {
    let b = batch_from(d, seq![], 0);
    (seq![seq![]] + b.0, b.1)
}

/// The views of a sequence of units.
pub open spec fn unit_views(s: Seq<FileUnit>) -> Seq<UnitView> {
    s.map_values(|x: FileUnit| x@)
}

/// The views of a sequence of strings.
pub open spec fn string_views(s: Seq<String>) -> Seq<Seq<char>> {
    s.map_values(|x: String| x@)
}

/// Appends to `dirs` and `files` the directories and units of the walk of `d` at
/// `prefix`; gives the path of the first file that is not valid UTF-8, if any, and
/// then stops.
fn walk_batch(d: &TemplateDir, prefix: &String, dirs: &mut Vec<String>, files: &mut Vec<FileUnit>) -> (bad: Option<String>)
    ensures
        match bad {
            None => first_non_text(*d, prefix@, 0) is None,
            Some(p) => first_non_text(*d, prefix@, 0) == Some(p@),
        },
        bad is None ==> string_views(final(dirs)@) == string_views(old(dirs)@) + batch_from(
            *d,
            prefix@,
            0,
        ).0,
        bad is None ==> unit_views(final(files)@) == unit_views(old(files)@) + batch_from(
            *d,
            prefix@,
            0,
        ).1,
    decreases d,
{
    let n = d.entries.len();
    let mut i: usize = 0;
    while i < n
        invariant
            n == d.entries@.len(),
            0 <= i <= n,
            first_non_text(*d, prefix@, 0) == first_non_text(*d, prefix@, i as int),
            string_views(dirs@) + batch_from(*d, prefix@, i as int).0 == string_views(old(dirs)@)
                + batch_from(*d, prefix@, 0).0,
            unit_views(files@) + batch_from(*d, prefix@, i as int).1 == unit_views(old(files)@)
                + batch_from(*d, prefix@, 0).1,
        decreases n - i,
    {
        let ghost dirs_before = dirs@;
        let ghost files_before = files@;
        match &d.entries[i] {
            TemplateEntry::Dir(sub) => {
                let p = join_path(prefix, &sub.name);
                dirs.push(p.clone());
                assert(string_views(dirs@) =~= string_views(dirs_before) + seq![p@]);
                assert(decreases_to!(d.entries => d.entries@[i as int]));
                let inner = walk_batch(sub, &p, dirs, files);
                if inner.is_some() {
                    return inner;
                }
                assert(string_views(dirs@) + batch_from(*d, prefix@, i + 1).0 =~= string_views(
                    dirs_before,
                ) + batch_from(*d, prefix@, i as int).0);
                assert(unit_views(files@) + batch_from(*d, prefix@, i + 1).1 =~= unit_views(
                    files_before,
                ) + batch_from(*d, prefix@, i as int).1);
            },
            TemplateEntry::File(f) => {
                match file_unit(f, prefix) {
                    Ok(u) => {
                        files.push(u);
                        assert(unit_views(files@) =~= unit_views(files_before) + seq![u@]);
                        assert(unit_views(files@) + batch_from(*d, prefix@, i + 1).1 =~= unit_views(
                            files_before,
                        ) + batch_from(*d, prefix@, i as int).1);
                    },
                    Err(path) => {
                        return Some(path);
                    },
                }
            },
        }
        i += 1;
    }
    assert(string_views(dirs@) =~= string_views(dirs@) + batch_from(*d, prefix@, n as int).0);
    assert(unit_views(files@) =~= unit_views(files@) + batch_from(*d, prefix@, n as int).1);
    None
}

/// The first directory among `es` whose name is `name`.
pub(crate) fn find_dir<'a>(es: &'a Vec<TemplateEntry>, name: &str) -> (r: Option<&'a TemplateDir>)
    ensures
        match r {
            Some(d) => find_from(es@, name@, 0) == Some(*d),
            None => find_from(es@, name@, 0) is None,
        },
{
    let wanted = String::from_str(name);
    let mut i: usize = 0;
    while i < es.len()
        invariant
            0 <= i <= es@.len(),
            wanted@ == name@,
            find_from(es@, name@, 0) == find_from(es@, name@, i as int),
        decreases es.len() - i,
    {
        match &es[i] {
            TemplateEntry::Dir(d) => {
                if d.name == wanted {
                    return Some(d);
                }
            },
            TemplateEntry::File(_) => {},
        }
        i += 1;
    }
    None
}

/// The description of a template file, at `path`, that is not valid UTF-8.
fn not_text_message(path: String) -> (r: String)
    ensures
        r@ == not_text_message_of(path@),
{
    String::from_str("Template file is not valid UTF-8: ").concat(path.as_str())
}

/// The engine: a read-only catalog whose top-level directories are the templates.
#[derive(Debug)]
pub struct TemplateEngine {
    pub catalog: TemplateDir,
}

impl TemplateEngine {
    /// An engine over the given catalog.
    pub fn new(catalog: TemplateDir) -> (r: Result<TemplateEngine, Error>)
        ensures
            r matches Ok(e) && e.catalog == catalog,
    {
        Ok(TemplateEngine { catalog })
    }

    /// The names of the templates: the top-level directories of the catalog, in
    /// catalog order; files at the top level are not templates.
    pub fn list_templates(&self) -> (r: Result<Vec<String>, Error>)
        ensures
            r matches Ok(v) && string_views(v@) == template_names(self.catalog.entries@),
    {
        let es = &self.catalog.entries;
        let mut names: Vec<String> = Vec::new();
        let mut i: usize = 0;
        while i < es.len()
            invariant
                0 <= i <= es@.len(),
                string_views(names@) == template_names(es@.take(i as int)),
            decreases es.len() - i,
        {
            let ghost before = names@;
            assert(es@.take(i + 1).drop_last() =~= es@.take(i as int));
            match &es[i] {
                TemplateEntry::Dir(d) => {
                    names.push(d.name.clone());
                    assert(string_views(names@) =~= string_views(before).push(d.name@));
                },
                TemplateEntry::File(_) => {},
            }
            i += 1;
        }
        assert(es@.take(es@.len() as int) =~= es@);
        Ok(names)
    }

    /// The steps that materialise the template `template`: the output root, then
    /// each directory before its contents and each file with the text to render into
    /// it, depth first in catalog order. Fails when there is no such template, and
    /// when one of its files is not valid UTF-8, naming the first such file; there
    /// is then nothing to write.
    pub fn generate(&self, template: &str) -> (r: Result<Vec<Step>, Error>)
        ensures
            match find_template(self.catalog, template@) {
                None => r matches Err(Error::TemplateNotFound(m)) && m@ == template@,
                Some(d) => match first_non_text(d, seq![], 0) {
                    None => r matches Ok(s) && step_views(s@) == plan_of(d),
                    Some(p) => r matches Err(Error::InvalidTemplate(m)) && m@
                        == not_text_message_of(p),
                },
            },
    {
        let d = match find_dir(&self.catalog.entries, template) {
            Some(d) => d,
            None => return Err(Error::TemplateNotFound(String::from_str(template))),
        };
        let root = String::new();
        let mut steps: Vec<Step> = Vec::new();
        let first = Step::CreateDir(root.clone());
        proof {
            lemma_step_views_push(steps@, first);
        }
        steps.push(first);
        match walk(d, &root, &mut steps) {
            None => {
                assert(step_views(steps@) =~= plan_of(*d));
                Ok(steps)
            },
            Some(path) => Err(Error::InvalidTemplate(not_text_message(path))),
        }
    }

    /// The directories to create, root first and each before anything inside it,
    /// and the files to produce, of the template `template`, for a caller that
    /// hands each file to an independent unit of work once the directories exist.
    /// Fails as `generate` does.
    pub fn generate_async(&self, template: &str) -> (r: Result<Batch, Error>)
        ensures
            match find_template(self.catalog, template@) {
                None => r matches Err(Error::TemplateNotFound(m)) && m@ == template@,
                Some(d) => match first_non_text(d, seq![], 0) {
                    None => r matches Ok(b) && (string_views(b.dirs@), unit_views(b.files@))
                        == batch_of(d),
                    Some(p) => r matches Err(Error::InvalidTemplate(m)) && m@
                        == not_text_message_of(p),
                },
            },
    {
        let d = match find_dir(&self.catalog.entries, template) {
            Some(d) => d,
            None => return Err(Error::TemplateNotFound(String::from_str(template))),
        };
        let root = String::new();
        let mut dirs: Vec<String> = Vec::new();
        let mut files: Vec<FileUnit> = Vec::new();
        dirs.push(root.clone());
        assert(string_views(dirs@) =~= seq![seq![]]);
        assert(unit_views(files@) =~= seq![]);
        match walk_batch(d, &root, &mut dirs, &mut files) {
            None => {
                assert(string_views(dirs@) =~= batch_of(*d).0);
                assert(unit_views(files@) =~= batch_of(*d).1);
                Ok(Batch { dirs, files })
            },
            Some(path) => Err(Error::InvalidTemplate(not_text_message(path))),
        }
    }
}

/// Text that tera reads as markup somewhere: it holds `{{`, `{%` or `{#`.
pub open spec fn has_markup(t: Seq<char>) -> bool {
    exists|i: int|
        0 <= i < t.len() - 1 && #[trigger] t[i] == '{' && (t[i + 1] == '{' || t[i + 1] == '%'
            || t[i + 1] == '#')
}

/// Whether a text holds markup.
pub fn holds_markup(t: &str) -> (r: bool)
    ensures
        r == has_markup(t@),
{
    let n = t.unicode_len();
    let mut i: usize = 0;
    while i < n
        invariant
            n == t@.len(),
            0 <= i <= n,
            forall|j: int|
                0 <= j < i && j < n - 1 ==> !(#[trigger] t@[j] == '{' && (t@[j + 1] == '{' || t@[j + 1]
                    == '%' || t@[j + 1] == '#')),
        decreases n - i,
    {
        if i + 1 < n && t.get_char(i) == '{' {
            let c = t.get_char(i + 1);
            if c == '{' || c == '%' || c == '#' {
                return true;
            }
        }
        i += 1;
    }
    false
}

/// The text to write for a unit, given the outcome of rendering its text with
/// tera. Text without markup is tera's single text node and is written as it
/// stands; otherwise tera's output is written, and its failure is a `TemplateError`
/// with tera's description.
pub fn file_output(unit: &FileUnit, rendered: Result<String, String>) -> (r: Result<String, Error>)
    ensures
        !has_markup(unit.text@) ==> (r matches Ok(s) && s@ == unit.text@),
        has_markup(unit.text@) ==> match rendered {
            Ok(s) => r matches Ok(t) && t@ == s@,
            Err(m) => r matches Err(Error::TemplateError(e)) && e@ == m@,
        },
{
    if !holds_markup(unit.text.as_str()) {
        return Ok(unit.text.clone());
    }
    match rendered {
        Ok(s) => Ok(s),
        Err(m) => Err(Error::TemplateError(m)),
    }
}

/// The overall result of units of work that have all finished: success when every
/// one succeeded, else the failure of the first one that failed.
pub fn join_outcomes(outcomes: Vec<Result<(), Error>>) -> (joined: Result<(), Error>)
    ensures
        joined is Ok <==> forall|k: int| 0 <= k < outcomes@.len() ==> #[trigger] outcomes@[k] is Ok,
        joined is Err ==> exists|k: int|
            0 <= k < outcomes@.len() && outcomes@[k] == joined && forall|j: int|
                0 <= j < k ==> #[trigger] outcomes@[j] is Ok,
{
    let ghost all = outcomes@;
    let mut pending = outcomes;
    let mut i: usize = 0;
    while i < pending.len()
        invariant
            pending@ == all,
            all == outcomes@,
            0 <= i <= all.len(),
            forall|j: int| 0 <= j < i ==> #[trigger] all[j] is Ok,
        decreases pending.len() - i,
    {
        if pending[i].is_err() {
            let first = pending.remove(i);
            assert(first == all[i as int]);
            assert(!(all[i as int] is Ok));
            return first;
        }
        i += 1;
    }
    Ok(())
}

/// The directories that a sequence of steps creates, in order.
pub open spec fn dirs_of(s: Seq<StepView>) -> Seq<Seq<char>>
    decreases s.len(),
{
    if s.len() == 0 {
        seq![]
    } else {
        match s[0] {
            StepView::CreateDir(p) => seq![p] + dirs_of(s.skip(1)),
            StepView::WriteFile(_) => dirs_of(s.skip(1)),
        }
    }
}

/// The files that a sequence of steps writes, in order.
pub open spec fn units_of(s: Seq<StepView>) -> Seq<UnitView>
    decreases s.len(),
{
    if s.len() == 0 {
        seq![]
    } else {
        match s[0] {
            StepView::CreateDir(_) => units_of(s.skip(1)),
            StepView::WriteFile(u) => seq![u] + units_of(s.skip(1)),
        }
    }
}

proof fn lemma_split_concat(a: Seq<StepView>, b: Seq<StepView>)
    ensures
        dirs_of(a + b) == dirs_of(a) + dirs_of(b),
        units_of(a + b) == units_of(a) + units_of(b),
    decreases a.len(),
{
    if a.len() == 0 {
        assert(a + b =~= b);
        assert(dirs_of(a) + dirs_of(b) =~= dirs_of(b));
        assert(units_of(a) + units_of(b) =~= units_of(b));
    } else {
        lemma_split_concat(a.skip(1), b);
        assert((a + b).skip(1) =~= a.skip(1) + b);
        assert((a + b)[0] == a[0]);
        match a[0] {
            StepView::CreateDir(p) => {
                assert(seq![p] + (dirs_of(a.skip(1)) + dirs_of(b)) =~= (seq![p] + dirs_of(
                    a.skip(1),
                )) + dirs_of(b));
            },
            StepView::WriteFile(u) => {
                assert(seq![u] + (units_of(a.skip(1)) + units_of(b)) =~= (seq![u] + units_of(
                    a.skip(1),
                )) + units_of(b));
            },
        }
    }
}

proof fn lemma_split_single(x: StepView)
    ensures
        dirs_of(seq![x]) == match x {
            StepView::CreateDir(p) => seq![p],
            StepView::WriteFile(_) => Seq::<Seq<char>>::empty(),
        },
        units_of(seq![x]) == match x {
            StepView::CreateDir(_) => Seq::<UnitView>::empty(),
            StepView::WriteFile(u) => seq![u],
        },
{
    let s = seq![x];
    assert(s.skip(1) =~= Seq::<StepView>::empty());
    assert(dirs_of(s.skip(1)) == Seq::<Seq<char>>::empty());
    assert(units_of(s.skip(1)) == Seq::<UnitView>::empty());
    match x {
        StepView::CreateDir(p) => {
            assert(seq![p] + Seq::<Seq<char>>::empty() =~= seq![p]);
        },
        StepView::WriteFile(u) => {
            assert(seq![u] + Seq::<UnitView>::empty() =~= seq![u]);
        },
    }
}

proof fn lemma_walk_batch(d: TemplateDir, prefix: Seq<char>, i: int)
    ensures
        batch_from(d, prefix, i).0 == dirs_of(walk_from(d, prefix, i)),
        batch_from(d, prefix, i).1 == units_of(walk_from(d, prefix, i)),
    decreases d, d.entries@.len() - i,
{
    if i < 0 || i >= d.entries@.len() {
    } else {
        lemma_walk_batch(d, prefix, i + 1);
        let rest = walk_from(d, prefix, i + 1);
        match d.entries@[i] {
            TemplateEntry::Dir(sub) => {
                assert(decreases_to!(d.entries => d.entries@[i]));
                let p = child_path(prefix, sub.name@);
                lemma_walk_batch(sub, p, 0);
                let head = seq![StepView::CreateDir(p)];
                let inner = walk_from(sub, p, 0);
                lemma_split_concat(head, inner);
                lemma_split_concat(head + inner, rest);
                lemma_split_single(StepView::CreateDir(p));
                assert(units_of(head) + units_of(inner) =~= units_of(inner));
            },
            TemplateEntry::File(f) => {
                let head = seq![StepView::WriteFile(unit_of(f, prefix))];
                lemma_split_concat(head, rest);
                lemma_split_single(StepView::WriteFile(unit_of(f, prefix)));
                assert(dirs_of(head) + dirs_of(rest) =~= dirs_of(rest));
            },
        }
    }
}

/// The concurrent variant creates the same directories in the same order, and
/// produces the same files with the same texts and modes in the same order, as the
/// steps of the synchronous variant: concurrency changes timing, not output.
pub proof fn lemma_concurrent_matches_sequential(d: TemplateDir)
    ensures
        batch_of(d).0 == dirs_of(plan_of(d)),
        batch_of(d).1 == units_of(plan_of(d)),
{
    let root = seq![StepView::CreateDir(seq![])];
    let w = walk_from(d, seq![], 0);
    lemma_walk_batch(d, seq![], 0);
    lemma_split_concat(root, w);
    lemma_split_single(StepView::CreateDir(seq![]));
    assert(units_of(root) + units_of(w) =~= units_of(w));
}

proof fn lemma_listed_dirs(es: Seq<TemplateEntry>, j: int)
    requires
        0 <= j < es.len(),
        es[j] is Dir,
    ensures
        template_names(es).contains(es[j]->Dir_0.name@),
    decreases es.len(),
{
    let rest = template_names(es.drop_last());
    if j == es.len() - 1 {
        assert(template_names(es) == rest.push(es[j]->Dir_0.name@));
        assert(template_names(es)[rest.len() as int] == es[j]->Dir_0.name@);
    } else {
        lemma_listed_dirs(es.drop_last(), j);
        let k = choose|k: int| 0 <= k < rest.len() && rest[k] == es[j]->Dir_0.name@;
        match es.last() {
            TemplateEntry::Dir(d) => {
                assert(template_names(es)[k] == rest[k]);
            },
            TemplateEntry::File(_) => {},
        }
    }
}

proof fn lemma_found_is_listed(es: Seq<TemplateEntry>, name: Seq<char>, i: int)
    requires
        find_from(es, name, i) is Some,
    ensures
        template_names(es).contains(name),
    decreases es.len() - i,
{
    match es[i] {
        TemplateEntry::Dir(d) => {
            if d.name@ == name {
                lemma_listed_dirs(es, i);
            } else {
                lemma_found_is_listed(es, name, i + 1);
            }
        },
        TemplateEntry::File(_) => {
            lemma_found_is_listed(es, name, i + 1);
        },
    }
}

/// Listing depends on the catalog alone: engines over equal catalogs list the same
/// names, so two listings by one engine, which `&self` leaves unchanged, agree.
pub proof fn lemma_listing_is_stable(a: TemplateEngine, b: TemplateEngine)
    requires
        a.catalog == b.catalog,
    ensures
        template_names(a.catalog.entries@) == template_names(b.catalog.entries@),
{
}

/// A name that `list_templates` does not give names no template: `generate` and
/// `generate_async` fail on it with `TemplateNotFound`, before any step exists.
pub proof fn lemma_unlisted_template_not_found(catalog: TemplateDir, name: Seq<char>)
    requires
        !template_names(catalog.entries@).contains(name),
    ensures
        find_template(catalog, name) is None,
{
    if find_template(catalog, name) is Some {
        lemma_found_is_listed(catalog.entries@, name, 0);
    }
}

/// A template file that is valid UTF-8 is rendered from exactly the text its bytes
/// encode, so a file without markup, which renders to its own text, is written back
/// byte for byte.
pub proof fn lemma_literal_file_round_trip(f: TemplateFile, prefix: Seq<char>)
    requires
        valid_utf8(f.contents@),
    ensures
        encode_utf8(unit_of(f, prefix).text) == f.contents@,
{
    decode_utf8_encode_utf8(f.contents@);
}

} // verus!
