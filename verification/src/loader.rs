//! Loading of a program and everything that it imports. The loader decides;
//! its caller opens, reads and parses files and reports back.

use crate::ast::{Item, ModulePath, Program, Span};
use crate::text;
use crate::text::{has_text, join, push_text, same_text};
use vstd::hash_map::StringHashMap;
use vstd::prelude::*;

verus! {

/// Why a program cannot be loaded.
#[derive(Debug)]
pub enum LoadError {
    Parse { message: String, path: String, span: Span, source: String },
    FileNotFound { path: String, span: Span },
    CircularImport { cycle: Vec<String>, span: Span },
    UnresolvedName { name: String, module: String, span: Span },
    Io { path: String, message: String, span: Span },
}

/// Model of [`LoadError`].
pub enum Fail {
    Parse { message: Seq<char>, path: Seq<char>, span: Span, source: Seq<char> },
    FileNotFound { path: Seq<char>, span: Span },
    CircularImport { cycle: Seq<Seq<char>>, span: Span },
    UnresolvedName { name: Seq<char>, module: Seq<char>, span: Span },
    Io { path: Seq<char>, message: Seq<char>, span: Span },
}

impl View for LoadError {
    type V = Fail;

    open spec fn view(&self) -> Fail {
        match self {
            LoadError::Parse { message, path, span, source } => Fail::Parse {
                message: message@,
                path: path@,
                span: *span,
                source: source@,
            },
            LoadError::FileNotFound { path, span } => Fail::FileNotFound {
                path: path@,
                span: *span,
            },
            LoadError::CircularImport { cycle, span } => Fail::CircularImport {
                cycle: text::texts(cycle@),
                span: *span,
            },
            LoadError::UnresolvedName { name, module, span } => Fail::UnresolvedName {
                name: name@,
                module: module@,
                span: *span,
            },
            LoadError::Io { path, message, span } => Fail::Io {
                path: path@,
                message: message@,
                span: *span,
            },
        }
    }
}

impl Fail {
    /// The message shown to the user.
    pub open spec fn text(self) -> Seq<char> {
        match self {
            Fail::Parse { message, path, .. } => path + ": parse error: "@ + message,
            Fail::FileNotFound { path, .. } => "module not found: "@ + path,
            Fail::CircularImport { cycle, .. } => "circular import: "@ + text::joined(
                cycle,
                " → "@,
                cycle.len(),
            ),
            Fail::UnresolvedName { name, module, .. } => "cannot import '"@ + name + "' from '"@
                + module + "': name not defined"@,
            Fail::Io { path, message, .. } => "cannot read '"@ + path + "': "@ + message,
        }
    }
}

impl LoadError {
    /// Renders the error for the user.
    pub fn render(&self) -> (r: String)
        ensures
            r@ == self@.text(),
    {
        match self {
            LoadError::Parse { message, path, .. } => path.clone().concat(
                ": parse error: ",
            ).concat(message.as_str()),
            LoadError::FileNotFound { path, .. } => "module not found: ".to_string().concat(
                path.as_str(),
            ),
            LoadError::CircularImport { cycle, .. } => {
                let list = join(cycle, " → ");
                assert(text::texts(cycle@).len() == cycle@.len());
                "circular import: ".to_string().concat(list.as_str())
            },
            LoadError::UnresolvedName { name, module, .. } => "cannot import '".to_string().concat(
                name.as_str(),
            ).concat("' from '").concat(module.as_str()).concat("': name not defined"),
            LoadError::Io { path, message, .. } => "cannot read '".to_string().concat(
                path.as_str(),
            ).concat("': ").concat(message.as_str()),
        }
    }
}

/// A file that has been loaded: its definitions without its imports.
#[derive(Debug)]
pub struct LoadedFile {
    pub path: String,
    pub id: u32,
    pub items: Vec<Item>,
}

/// A file that is being loaded: the items to come, last first, the
/// definitions so far, and the import that is being followed.
#[derive(Debug)]
pub struct Frame {
    pub path: String,
    pub id: u32,
    pub todo: Vec<Item>,
    pub defs: Vec<Item>,
    pub waiting: Option<Item>,
}

/// A source text: its file and path.
#[derive(Debug)]
pub struct Source {
    pub id: u32,
    pub path: String,
    pub text: String,
}

/// What to do next.
#[derive(Debug)]
pub enum Next {
    /// Find the file of a module, given by its path below the directory of the
    /// current file.
    Open { parts: Vec<String>, span: Span },
    /// Read the current file.
    Read,
    /// Parse the current file.
    Parse,
    /// Everything is loaded.
    Done,
}

/// Files that are loaded, innermost last files that are being loaded, the
/// number of the next file, the texts read, and the names that each imported
/// module exports.
pub struct ModuleLoader {
    pub loaded: Vec<LoadedFile>,
    pub stack: Vec<Frame>,
    pub next_id: u32,
    pub sources: Vec<Source>,
    pub aliases: StringHashMap<Vec<String>>,
}

/// Model of [`LoadedFile`].
pub struct FileV {
    pub path: Seq<char>,
    pub id: u32,
    pub items: Seq<Item>,
}

/// Model of [`Frame`].
pub struct FrameV {
    pub path: Seq<char>,
    pub id: u32,
    pub todo: Seq<Item>,
    pub defs: Seq<Item>,
    pub waiting: Option<Item>,
}

/// Model of [`Source`].
pub struct SourceV {
    pub id: u32,
    pub path: Seq<char>,
    pub text: Seq<char>,
}

/// Model of [`Next`].
pub enum NextV {
    Open { parts: Seq<Seq<char>>, span: Span },
    Read,
    Parse,
    Done,
}

/// Model of [`ModuleLoader`].
#[verifier::ext_equal]
pub struct LoaderV {
    pub loaded: Seq<FileV>,
    pub stack: Seq<FrameV>,
    pub next_id: u32,
    pub sources: Seq<SourceV>,
    pub aliases: Map<Seq<char>, Seq<Seq<char>>>,
}

impl View for LoadedFile {
    type V = FileV;

    open spec fn view(&self) -> FileV {
        FileV { path: self.path@, id: self.id, items: self.items@ }
    }
}

impl View for Frame {
    type V = FrameV;

    open spec fn view(&self) -> FrameV {
        FrameV {
            path: self.path@,
            id: self.id,
            todo: self.todo@,
            defs: self.defs@,
            waiting: self.waiting,
        }
    }
}

impl View for Source {
    type V = SourceV;

    open spec fn view(&self) -> SourceV {
        SourceV { id: self.id, path: self.path@, text: self.text@ }
    }
}

impl View for Next {
    type V = NextV;

    open spec fn view(&self) -> NextV {
        match self {
            Next::Open { parts, span } => NextV::Open {
                parts: text::texts(parts@),
                span: *span,
            },
            Next::Read => NextV::Read,
            Next::Parse => NextV::Parse,
            Next::Done => NextV::Done,
        }
    }
}

impl View for ModuleLoader {
    type V = LoaderV;

    open spec fn view(&self) -> LoaderV {
        LoaderV {
            loaded: self.loaded@.map_values(|f: LoadedFile| f@),
            stack: self.stack@.map_values(|f: Frame| f@),
            next_id: self.next_id,
            sources: self.sources@.map_values(|s: Source| s@),
            aliases: self.aliases@.map_values(|v: Vec<String>| text::texts(v@)),
        }
    }
}

/// Path of a module below the directory of the file that imports it: the last
/// part is a file name.
pub open spec fn module_parts(segments: Seq<Seq<char>>) -> Seq<Seq<char>> {
    if segments.len() == 0 {
        segments
    } else {
        segments.update(segments.len() - 1, segments.last() + ".ml"@)
    }
}

/// Position of the loaded file with a path, from `i` on.
pub open spec fn file_at(files: Seq<FileV>, path: Seq<char>, i: nat) -> Option<int>
    decreases files.len() - i,
{
    if i >= files.len() {
        None
    } else if files[i as int].path == path {
        Some(i as int)
    } else {
        file_at(files, path, i + 1)
    }
}

/// Position of the file with a path among those being loaded, from `i` on.
pub open spec fn frame_at(stack: Seq<FrameV>, path: Seq<char>, i: nat) -> Option<int>
    decreases stack.len() - i,
{
    if i >= stack.len() {
        None
    } else if stack[i as int].path == path {
        Some(i as int)
    } else {
        frame_at(stack, path, i + 1)
    }
}

/// Names of the functions and kernels among the first `n` items.
pub open spec fn names_of(items: Seq<Item>, n: nat) -> Seq<Seq<char>>
    decreases n,
{
    if n == 0 {
        Seq::empty()
    } else {
        let rest = names_of(items, (n - 1) as nat);
        match items[n - 1] {
            Item::Fn(f) => rest.push(f.name@),
            Item::Kernel { name } => rest.push(name@),
            _ => rest,
        }
    }
}

/// Names that the loaded file with a number exports, looking from `i` on.
pub open spec fn exports(files: Seq<FileV>, id: u32, i: nat) -> Seq<Seq<char>>
    decreases files.len() - i,
{
    if i >= files.len() {
        Seq::empty()
    } else if files[i as int].id == id {
        names_of(files[i as int].items, files[i as int].items.len())
    } else {
        exports(files, id, i + 1)
    }
}

/// First imported name, from `i` on, that is not exported.
pub open spec fn first_unresolved(
    names: Seq<(String, Span)>,
    exported: Seq<Seq<char>>,
    i: nat,
) -> Option<int>
    decreases names.len() - i,
{
    if i >= names.len() {
        None
    } else if !exported.contains(names[i as int].0@) {
        Some(i as int)
    } else {
        first_unresolved(names, exported, i + 1)
    }
}

impl LoaderV {
    pub open spec fn start() -> LoaderV {
        LoaderV {
            loaded: Seq::empty(),
            stack: Seq::empty(),
            next_id: 0,
            sources: Seq::empty(),
            aliases: Map::empty(),
        }
    }

    /// Completes the import that the current file waits for: a module gets an
    /// alias, and single names have to exist.
    pub open spec fn arrive(self, id: u32) -> Result<LoaderV, Fail> {
        if self.stack.len() == 0 {
            Ok(self)
        } else {
            let top = self.stack.last();
            let done = LoaderV {
                stack: self.stack.update(
                    self.stack.len() - 1,
                    FrameV { waiting: None, ..top },
                ),
                ..self
            };
            match top.waiting {
                Some(Item::Import { path }) => if path.segments@.len() == 0 {
                    Ok(done)
                } else {
                    Ok(
                        LoaderV {
                            aliases: self.aliases.insert(
                                path.segments@.last()@,
                                exports(self.loaded, id, 0),
                            ),
                            ..done
                        },
                    )
                },
                Some(Item::FromImport { path, names }) => match first_unresolved(
                    names@,
                    exports(self.loaded, id, 0),
                    0,
                ) {
                    Some(k) => Err(
                        Fail::UnresolvedName {
                            name: names@[k].0@,
                            module: text::joined(
                                text::texts(path.segments@),
                                "."@,
                                path.segments@.len(),
                            ),
                            span: names@[k].1,
                        },
                    ),
                    None => Ok(done),
                },
                _ => Ok(done),
            }
        }
    }

    /// Goes through the items of the current file up to its next import; at
    /// its end, returns to the file that imports it.
    pub open spec fn advance(self) -> Result<(LoaderV, NextV), Fail>
        decreases self.stack.len(), self.stack.last().todo.len(),
    {
        if self.stack.len() == 0 {
            Ok((self, NextV::Done))
        } else {
            let top = self.stack.last();
            let below = self.stack.drop_last();
            if top.todo.len() == 0 {
                let s = LoaderV {
                    stack: below,
                    loaded: self.loaded.push(
                        FileV { path: top.path, id: top.id, items: top.defs },
                    ),
                    ..self
                };
                match s.arrive(top.id) {
                    Err(x) => Err(x),
                    Ok(s2) => if s2.stack.len() < self.stack.len() {
                        s2.advance()
                    } else {
                        Ok((s2, NextV::Done))
                    },
                }
            } else {
                let item = top.todo.last();
                let rest = top.todo.drop_last();
                match item {
                    Item::Import { path } => Ok(
                        (
                            LoaderV {
                                stack: below.push(
                                    FrameV { todo: rest, waiting: Some(item), ..top },
                                ),
                                ..self
                            },
                            NextV::Open {
                                parts: module_parts(text::texts(path.segments@)),
                                span: path.span,
                            },
                        ),
                    ),
                    Item::FromImport { path, .. } => Ok(
                        (
                            LoaderV {
                                stack: below.push(
                                    FrameV { todo: rest, waiting: Some(item), ..top },
                                ),
                                ..self
                            },
                            NextV::Open {
                                parts: module_parts(text::texts(path.segments@)),
                                span: path.span,
                            },
                        ),
                    ),
                    _ => (LoaderV {
                        stack: below.push(
                            FrameV { todo: rest, defs: top.defs.push(item), ..top },
                        ),
                        ..self
                    }).advance(),
                }
            }
        }
    }

    /// Takes note of the file that an import leads to: one that is loaded is
    /// used again, one that is being loaded closes a cycle, any other is to be
    /// read.
    pub open spec fn opened(self, path: Seq<char>, span: Span) -> Result<(LoaderV, NextV), Fail> {
        match file_at(self.loaded, path, 0) {
            Some(k) => match self.arrive(self.loaded[k].id) {
                Err(x) => Err(x),
                Ok(s) => s.advance(),
            },
            None => match frame_at(self.stack, path, 0) {
                Some(k) => Err(
                    Fail::CircularImport {
                        cycle: self.stack.skip(k).map_values(|f: FrameV| f.path).push(path),
                        span,
                    },
                ),
                None => Ok(
                    (
                        LoaderV {
                            stack: self.stack.push(
                                FrameV {
                                    path,
                                    id: self.next_id,
                                    todo: Seq::empty(),
                                    defs: Seq::empty(),
                                    waiting: None,
                                },
                            ),
                            next_id: self.next_id.wrapping_add(1),
                            ..self
                        },
                        NextV::Read,
                    ),
                ),
            },
        }
    }

    /// Takes note of the text of the current file.
    pub open spec fn read(self, source: Seq<char>) -> LoaderV {
        if self.stack.len() == 0 {
            self
        } else {
            LoaderV {
                sources: self.sources.push(
                    SourceV {
                        id: self.stack.last().id,
                        path: self.stack.last().path,
                        text: source,
                    },
                ),
                ..self
            }
        }
    }

    /// Takes note of the items of the current file.
    pub open spec fn parsed(self, items: Seq<Item>) -> Result<(LoaderV, NextV), Fail> {
        if self.stack.len() == 0 {
            Ok((self, NextV::Done))
        } else {
            (LoaderV {
                stack: self.stack.update(
                    self.stack.len() - 1,
                    FrameV { todo: items.reverse(), ..self.stack.last() },
                ),
                ..self
            }).advance()
        }
    }
}

/// Whether a step had the outcome that a model says.
pub open spec fn steps(
    r: Result<Next, LoadError>,
    after: LoaderV,
    goal: Result<(LoaderV, NextV), Fail>,
) -> bool {
    match r {
        Ok(n) => goal == Ok::<(LoaderV, NextV), Fail>((after, n@)),
        Err(e) => goal == Err::<(LoaderV, NextV), Fail>(e@),
    }
}

/// Path of a module below the directory of the file that imports it.
pub fn resolve_path(segments: &Vec<String>) -> (r: Vec<String>)
    ensures
        text::texts(r@) == module_parts(text::texts(segments@)),
{
    let mut out: Vec<String> = Vec::new();
    let n: usize = segments.len();
    let mut i: usize = 0;
    let ghost goal = module_parts(text::texts(segments@));
    assert(goal.len() == n);
    while i < n
        invariant
            i <= n,
            n == segments.len(),
            goal == module_parts(text::texts(segments@)),
            goal.len() == n,
            out.len() == i,
            forall|j: int| 0 <= j < i ==> (#[trigger] out@[j])@ == goal[j],
        decreases n - i,
    {
        assert(text::texts(segments@)[i as int] == segments@[i as int]@);
        if i < n - 1 {
            out.push(segments[i].clone());
        } else {
            out.push(segments[i].clone().concat(".ml"));
        }
        i = i + 1;
    }
    assert(text::texts(out@) =~= goal);
    out
}

impl ModuleLoader {
    pub fn new() -> (r: Self)
        ensures
            r@ == LoaderV::start(),
    {
        let r = ModuleLoader {
            loaded: Vec::new(),
            stack: Vec::new(),
            next_id: 0,
            sources: Vec::new(),
            aliases: StringHashMap::new(),
        };
        assert(r@ =~= LoaderV::start());
        r
    }

    /// Names that a loaded file exports.
    pub fn exported_names(&self, id: u32) -> (r: Vec<String>)
        ensures
            text::texts(r@) == exports(self@.loaded, id, 0),
    {
        let mut i: usize = 0;
        while i < self.loaded.len()
            invariant
                i <= self.loaded.len(),
                exports(self@.loaded, id, 0) == exports(self@.loaded, id, i as nat),
            decreases self.loaded.len() - i,
        {
            let f = &self.loaded[i];
            assert(self@.loaded[i as int] == f@);
            if f.id == id {
                let mut out: Vec<String> = Vec::new();
                let mut k: usize = 0;
                assert(text::texts(out@) =~= Seq::<Seq<char>>::empty());
                while k < f.items.len()
                    invariant
                        k <= f.items.len(),
                        text::texts(out@) == names_of(f.items@, k as nat),
                    decreases f.items.len() - k,
                {
                    match &f.items[k] {
                        Item::Fn(d) => {
                            push_text(&mut out, d.name.clone());
                        },
                        Item::Kernel { name } => {
                            push_text(&mut out, name.clone());
                        },
                        _ => {},
                    }
                    k = k + 1;
                }
                return out;
            }
            i = i + 1;
        }
        let none: Vec<String> = Vec::new();
        assert(text::texts(none@) =~= Seq::<Seq<char>>::empty());
        none
    }

    fn validate_names(&self, id: u32, names: &Vec<(String, Span)>, path: &ModulePath) -> (r: Result<
        (),
        LoadError,
    >)
        ensures
            match r {
                Ok(_) => first_unresolved(names@, exports(self@.loaded, id, 0), 0) is None,
                Err(e) => match first_unresolved(names@, exports(self@.loaded, id, 0), 0) {
                    Some(k) => e@ == (Fail::UnresolvedName {
                        name: names@[k].0@,
                        module: text::joined(
                            text::texts(path.segments@),
                            "."@,
                            path.segments@.len(),
                        ),
                        span: names@[k].1,
                    }),
                    None => false,
                },
            },
    {
        let exported = self.exported_names(id);
        let mut i: usize = 0;
        while i < names.len()
            invariant
                i <= names.len(),
                text::texts(exported@) == exports(self@.loaded, id, 0),
                first_unresolved(names@, exports(self@.loaded, id, 0), 0) == first_unresolved(
                    names@,
                    exports(self@.loaded, id, 0),
                    i as nat,
                ),
            decreases names.len() - i,
        {
            if !has_text(&exported, names[i].0.as_str()) {
                return Err(
                    LoadError::UnresolvedName {
                        name: names[i].0.clone(),
                        module: join(&path.segments, "."),
                        span: names[i].1,
                    },
                );
            }
            i = i + 1;
        }
        Ok(())
    }

    fn arrive(&mut self, id: u32) -> (r: Result<(), LoadError>)
        ensures
            match r {
                Ok(_) => old(self)@.arrive(id) == Ok::<LoaderV, Fail>(final(self)@),
                Err(e) => old(self)@.arrive(id) == Err::<LoaderV, Fail>(e@),
            },
    {
        let n: usize = self.stack.len();
        if n == 0 {
            return Ok(());
        }
        let ghost before = self.stack@;
        let top = self.stack.pop().unwrap();
        let Frame { path, id: own, todo, defs, waiting } = top;
        proof {
            assert(old(self)@.stack.last() == top@);
        }
        match &waiting {
            Some(Item::Import { path: module }) => {
                let k: usize = module.segments.len();
                if k > 0 {
                    let names = self.exported_names(id);
                    let key = module.segments[k - 1].clone();
                    let ghost was = self.aliases@;
                    let ghost kv = key@;
                    let ghost nv = names;
                    self.aliases.insert(key, names);
                    proof {
                        let f = |v: Vec<String>| text::texts(v@);
                        assert(was.insert(kv, nv).map_values(f) =~= was.map_values(f).insert(
                            kv,
                            f(nv),
                        ));
                        assert(kv == module.segments@.last()@);
                    }
                }
            },
            Some(Item::FromImport { path: module, names }) => {
                match self.validate_names(id, names, module) {
                    Ok(_) => {},
                    Err(e) => {
                        return Err(e);
                    },
                }
            },
            _ => {},
        }
        self.stack.push(Frame { path, id: own, todo, defs, waiting: None });
        proof {
            let g = |f: Frame| f@;
            let last = self.stack@.last();
            assert(last@ == (FrameV { waiting: None, ..top@ }));
            assert(self.stack@.map_values(g) =~= before.map_values(g).update(
                before.len() - 1,
                last@,
            ));
            assert(old(self)@.arrive(id)->Ok_0 =~= self@);
        }
        Ok(())
    }

    #[verifier::rlimit(50)]
    #[verifier::spinoff_prover]
    fn advance(&mut self) -> (r: Result<Next, LoadError>)
        ensures
            steps(r, final(self)@, old(self)@.advance()),
    {
        let ghost g = |f: Frame| f@;
        loop
            invariant
                old(self)@.advance() == self@.advance(),
                g == (|f: Frame| f@),
            decreases self@.stack.len(), self@.stack.last().todo.len(),
        {
            if self.stack.len() == 0 {
                return Ok(Next::Done);
            }
            let ghost start = self@;
            let top = self.stack.pop().unwrap();
            proof {
                assert(start.stack.last() == top@);
                assert(self.stack@.map_values(g) =~= start.stack.drop_last());
            }
            let Frame { path, id, mut todo, mut defs, waiting } = top;
            if todo.len() == 0 {
                let ghost files = self.loaded@;
                let file = LoadedFile { path, id, items: defs };
                let ghost fv = file@;
                self.loaded.push(file);
                proof {
                    let f = |x: LoadedFile| x@;
                    assert(self.loaded@.map_values(f) =~= files.map_values(f).push(fv));
                    assert(self@ =~= (LoaderV {
                        stack: start.stack.drop_last(),
                        loaded: start.loaded.push(fv),
                        ..start
                    }));
                }
                match self.arrive(id) {
                    Ok(_) => {},
                    Err(e) => {
                        return Err(e);
                    },
                }
            } else {
                let ghost before = todo@;
                let item = todo.pop().unwrap();
                let open: Option<(Vec<String>, Span)> = match &item {
                    Item::Import { path: module } => Some(
                        (resolve_path(&module.segments), module.span),
                    ),
                    Item::FromImport { path: module, .. } => Some(
                        (resolve_path(&module.segments), module.span),
                    ),
                    _ => None,
                };
                match open {
                    Some((parts, span)) => {
                        let frame = Frame { path, id, todo, defs, waiting: Some(item) };
                        let ghost fv = frame@;
                        self.stack.push(frame);
                        proof {
                            assert(self.stack@.map_values(g) =~= start.stack.drop_last().push(
                                fv,
                            ));
                            assert(fv == (FrameV {
                                todo: before.drop_last(),
                                waiting: Some(before.last()),
                                ..top@
                            }));
                            assert(self@ =~= (LoaderV {
                                stack: start.stack.drop_last().push(fv),
                                ..start
                            }));
                        }
                        return Ok(Next::Open { parts, span });
                    },
                    None => {
                        let ghost had = defs@;
                        defs.push(item);
                        let frame = Frame { path, id, todo, defs, waiting };
                        let ghost fv = frame@;
                        self.stack.push(frame);
                        proof {
                            assert(self.stack@.map_values(g) =~= start.stack.drop_last().push(
                                fv,
                            ));
                            assert(fv == (FrameV {
                                todo: before.drop_last(),
                                defs: had.push(before.last()),
                                ..top@
                            }));
                            assert(self@ =~= (LoaderV {
                                stack: start.stack.drop_last().push(fv),
                                ..start
                            }));
                            assert(self@.stack.last() == fv);
                        }
                    },
                }
            }
        }
    }

    /// Takes note of the file that an import, or the command line, leads to.
    pub fn opened(&mut self, path: String, span: Span) -> (r: Result<Next, LoadError>)
        ensures
            steps(r, final(self)@, old(self)@.opened(path@, span)),
    {
        let mut i: usize = 0;
        while i < self.loaded.len()
            invariant
                i <= self.loaded.len(),
                self@ == old(self)@,
                file_at(self@.loaded, path@, 0) == file_at(self@.loaded, path@, i as nat),
            decreases self.loaded.len() - i,
        {
            assert(self@.loaded[i as int] == self.loaded@[i as int]@);
            if same_text(self.loaded[i].path.as_str(), path.as_str()) {
                let id: u32 = self.loaded[i].id;
                match self.arrive(id) {
                    Ok(_) => {},
                    Err(e) => {
                        return Err(e);
                    },
                }
                return self.advance();
            }
            i = i + 1;
        }
        let mut k: usize = 0;
        while k < self.stack.len()
            invariant
                k <= self.stack.len(),
                self@ == old(self)@,
                file_at(self@.loaded, path@, 0) is None,
                frame_at(self@.stack, path@, 0) == frame_at(self@.stack, path@, k as nat),
            decreases self.stack.len() - k,
        {
            assert(self@.stack[k as int] == self.stack@[k as int]@);
            if same_text(self.stack[k].path.as_str(), path.as_str()) {
                let mut cycle: Vec<String> = Vec::new();
                let mut j: usize = k;
                while j < self.stack.len()
                    invariant
                        k <= j <= self.stack.len(),
                        cycle.len() == j - k,
                        forall|q: int|
                            0 <= q < cycle.len() ==> (#[trigger] cycle@[q])@ == self.stack@[k
                                + q].path@,
                    decreases self.stack.len() - j,
                {
                    cycle.push(self.stack[j].path.clone());
                    j = j + 1;
                }
                proof {
                    assert(text::texts(cycle@) =~= self@.stack.skip(k as int).map_values(
                        |f: FrameV| f.path,
                    ));
                }
                push_text(&mut cycle, path);
                return Err(LoadError::CircularImport { cycle, span });
            }
            k = k + 1;
        }
        let id: u32 = self.next_id;
        self.next_id = id.wrapping_add(1);
        let ghost before = self.stack@;
        let frame = Frame { path, id, todo: Vec::new(), defs: Vec::new(), waiting: None };
        let ghost fv = frame@;
        self.stack.push(frame);
        proof {
            let g = |f: Frame| f@;
            assert(fv.todo =~= Seq::<Item>::empty());
            assert(fv.defs =~= Seq::<Item>::empty());
            assert(self.stack@.map_values(g) =~= before.map_values(g).push(fv));
            assert(self@ =~= old(self)@.opened(path@, span)->Ok_0.0);
        }
        Ok(Next::Read)
    }

    /// Takes note of the text of the current file.
    pub fn read(&mut self, source: String) -> (r: Next)
        ensures
            final(self)@ == old(self)@.read(source@),
            r@ == NextV::Parse,
    {
        let n: usize = self.stack.len();
        if n > 0 {
            let ghost before = self.sources@;
            let s = Source {
                id: self.stack[n - 1].id,
                path: self.stack[n - 1].path.clone(),
                text: source,
            };
            let ghost sv = s@;
            self.sources.push(s);
            proof {
                let f = |x: Source| x@;
                assert(self@.stack.last() == self.stack@[n - 1]@);
                assert(self.sources@.map_values(f) =~= before.map_values(f).push(sv));
                assert(self@ =~= old(self)@.read(source@));
            }
        }
        Next::Parse
    }

    /// Takes note of the items of the current file.
    pub fn parsed(&mut self, items: Vec<Item>) -> (r: Result<Next, LoadError>)
        ensures
            steps(r, final(self)@, old(self)@.parsed(items@)),
    {
        let n: usize = self.stack.len();
        if n == 0 {
            return Ok(Next::Done);
        }
        let ghost all = items@;
        let mut items = items;
        let mut todo: Vec<Item> = Vec::new();
        while items.len() > 0
            invariant
                all =~= items@ + todo@.reverse(),
            decreases items.len(),
        {
            let ghost had = items@;
            let ghost got = todo@;
            let x = items.pop().unwrap();
            todo.push(x);
            assert(todo@.reverse() =~= seq![x] + got.reverse());
            assert(had =~= items@.push(x));
        }
        proof {
            assert(items@ =~= Seq::<Item>::empty());
            assert(todo@.reverse() =~= all);
            assert(todo@ =~= all.reverse());
        }
        let ghost before = self.stack@;
        let top = self.stack.pop().unwrap();
        let Frame { path, id, todo: _, defs, waiting } = top;
        let frame = Frame { path, id, todo, defs, waiting };
        let ghost fv = frame@;
        self.stack.push(frame);
        proof {
            let g = |f: Frame| f@;
            assert(old(self)@.stack.last() == top@);
            assert(fv == (FrameV { todo: all.reverse(), ..top@ }));
            assert(self.stack@.map_values(g) =~= before.map_values(g).update(
                before.len() - 1,
                fv,
            ));
            assert(self@ =~= (LoaderV {
                stack: old(self)@.stack.update(old(self)@.stack.len() - 1, fv),
                ..old(self)@
            }));
        }
        self.advance()
    }

    /// Path of the file that is being loaded.
    pub fn current_path(&self) -> (r: Option<&String>)
        ensures
            match r {
                Some(p) => self@.stack.len() > 0 && p@ == self@.stack.last().path,
                None => self@.stack.len() == 0,
            },
    {
        let n: usize = self.stack.len();
        if n == 0 {
            None
        } else {
            assert(self@.stack.last() == self.stack@[n - 1]@);
            Some(&self.stack[n - 1].path)
        }
    }

    /// The whole program: the definitions of all files in the order in which
    /// they were completed, so that what a file imports comes before it.
    pub fn finish(self) -> (r: Program)
        ensures
            r.items@ == flattened(self@.loaded, self@.loaded.len()),
    {
        let mut loaded = self.loaded;
        let ghost files = loaded@.map_values(|f: LoadedFile| f@);
        assert(files == self@.loaded);
        let mut back: Vec<LoadedFile> = Vec::new();
        while loaded.len() > 0
            invariant
                files =~= (loaded@ + back@.reverse()).map_values(|f: LoadedFile| f@),
            decreases loaded.len(),
        {
            let ghost had = loaded@;
            let ghost got = back@;
            let x = loaded.pop().unwrap();
            back.push(x);
            assert(had =~= loaded@.push(x));
            assert(loaded@ + back@.reverse() =~= had + got.reverse());
        }
        assert(loaded@ + back@.reverse() =~= back@.reverse());
        let mut out: Vec<Item> = Vec::new();
        let ghost n = files.len();
        assert(out@ =~= flattened(files, 0));
        while back.len() > 0
            invariant
                n == files.len(),
                back.len() <= n,
                files.skip(n - back.len()) =~= back@.reverse().map_values(
                    |f: LoadedFile| f@,
                ),
                out@ == flattened(files, (n - back.len()) as nat),
            decreases back.len(),
        {
            let ghost had = back@;
            let f = back.pop().unwrap();
            let mut items = f.items;
            let ghost k = n - had.len();
            let ghost before = out@;
            let ghost its = items@;
            out.append(&mut items);
            proof {
                assert(had =~= back@.push(f));
                assert(had.reverse()[0] == f);
                assert(files.skip(k)[0] == f@);
                assert(files[k] == f@);
                assert(out@ =~= before + its);
                assert(files.skip(k + 1) =~= back@.reverse().map_values(|f: LoadedFile| f@)) by {
                    assert forall|q: int| 0 <= q < back.len() implies #[trigger] files.skip(
                        k + 1,
                    )[q] == back@.reverse().map_values(|f: LoadedFile| f@)[q] by {
                        assert(files.skip(k)[q + 1] == had.reverse()[q + 1]@);
                        assert(had.reverse()[q + 1] == back@.reverse()[q]);
                    }
                }
            }
        }
        Program { items: out }
    }
}

/// The definitions of the first `n` files, in order.
pub open spec fn flattened(files: Seq<FileV>, n: nat) -> Seq<Item>
    decreases n,
{
    if n == 0 {
        Seq::empty()
    } else {
        flattened(files, (n - 1) as nat) + files[n - 1].items
    }
}

} // verus!
