//! The loader over files in memory, the lint, and the command line.

use malus::ast::{
    Expr, ExprKind, FnDef, Item, ModulePath, Program, Span, Stmt, StmtKind, TypeParam,
};
use malus::cli::parse_args;
use malus::lint::check_no_unroll;
use malus::loader::{resolve_path, LoadError, ModuleLoader, Next};

// ── Loading ──────────────────────────────────────────────────────────────────

/// A file: its path, its text, and what the text parses to.
struct File {
    path: &'static str,
    lines: &'static [&'static str],
}

fn span(start: u32) -> Span {
    Span { file: 0, start, end: start + 1 }
}

fn define(name: &str) -> Item {
    Item::Fn(FnDef { name: name.to_string(), type_params: vec![], body: vec![] })
}

fn module(dotted: &str) -> ModulePath {
    ModulePath { segments: dotted.split('.').map(|s| s.to_string()).collect(), span: span(7) }
}

fn parse_line(line: &str) -> Item {
    let words: Vec<&str> = line.split(' ').collect();
    match words[0] {
        "fn" => define(words[1]),
        "kernel" => Item::Kernel { name: words[1].to_string() },
        "struct" => Item::Struct { name: words[1].to_string() },
        "import" => Item::Import { path: module(words[1]) },
        "from" => Item::FromImport {
            path: module(words[1]),
            names: words[3..].iter().map(|n| (n.to_string(), span(9))).collect(),
        },
        other => panic!("unexpected {other}"),
    }
}

struct Loaded {
    program: Program,
    aliases: Vec<(String, Vec<String>)>,
    sources: usize,
    reads: usize,
}

fn load(files: &[File], entry: &str, watched: &[&str]) -> Result<Loaded, LoadError> {
    let mut loader = ModuleLoader::new();
    let mut reads = 0;
    let mut next = loader.opened(entry.to_string(), Span { file: 0, start: 0, end: 0 })?;
    loop {
        next = match next {
            Next::Open { parts, span } => {
                let here = loader.current_path().unwrap();
                let dir = &here[..here.rfind('/').unwrap()];
                let path = format!("{dir}/{}", parts.join("/"));
                if !files.iter().any(|f| f.path == path) {
                    return Err(LoadError::FileNotFound { path, span });
                }
                loader.opened(path, span)?
            }
            Next::Read => {
                reads += 1;
                let path = loader.current_path().unwrap().to_string();
                let file = files.iter().find(|f| f.path == path).unwrap();
                loader.read(file.lines.join("\n"))
            }
            Next::Parse => {
                let path = loader.current_path().unwrap().to_string();
                let file = files.iter().find(|f| f.path == path).unwrap();
                loader.parsed(file.lines.iter().map(|l| parse_line(l)).collect())?
            }
            Next::Done => break,
        };
    }
    let aliases = watched
        .iter()
        .filter_map(|w| loader.aliases.get(w).map(|names| (w.to_string(), names.clone())))
        .collect();
    let sources = loader.sources.len();
    Ok(Loaded { program: loader.finish(), aliases, sources, reads })
}

fn names(p: &Program) -> Vec<&str> {
    p.items
        .iter()
        .filter_map(|i| match i {
            Item::Fn(f) => Some(f.name.as_str()),
            Item::Kernel { name } => Some(name.as_str()),
            _ => None,
        })
        .collect()
}

fn file(path: &'static str, lines: &'static [&'static str]) -> File {
    File { path, lines }
}

#[test]
fn single_file_no_imports() {
    let loaded = load(&[file("/d/main.ml", &["fn main"])], "/d/main.ml", &[]).unwrap();
    assert_eq!(names(&loaded.program), vec!["main"]);
    assert_eq!(loaded.sources, 1);
}

#[test]
fn simple_import() {
    let files = [file("/d/ops.ml", &["fn add"]), file("/d/main.ml", &["import ops", "fn main"])];
    let loaded = load(&files, "/d/main.ml", &[]).unwrap();
    let names = names(&loaded.program);
    assert!(names.contains(&"add"), "add missing: {:?}", names);
    assert!(names.contains(&"main"), "main missing: {:?}", names);
}

#[test]
fn from_import() {
    let files = [file("/d/ops.ml", &["fn add", "fn mul"]), file("/d/main.ml", &["from ops import add", "fn main"])];
    let loaded = load(&files, "/d/main.ml", &[]).unwrap();
    let names = names(&loaded.program);
    assert!(names.contains(&"add"));
    assert!(names.contains(&"mul"));
    assert!(names.contains(&"main"));
}

#[test]
fn dotted_path() {
    let files = [file("/d/models/net.ml", &["fn forward"]), file("/d/main.ml", &["import models.net", "fn main"])];
    let loaded = load(&files, "/d/main.ml", &[]).unwrap();
    assert!(names(&loaded.program).contains(&"forward"));
}

#[test]
fn transitive_imports() {
    let files = [
        file("/d/base.ml", &["fn base_fn"]),
        file("/d/mid.ml", &["import base", "fn mid_fn"]),
        file("/d/main.ml", &["import mid", "fn main"]),
    ];
    let loaded = load(&files, "/d/main.ml", &[]).unwrap();
    assert_eq!(names(&loaded.program), vec!["base_fn", "mid_fn", "main"]);
}

#[test]
fn diamond_deduplication() {
    let files = [
        file("/d/common.ml", &["fn shared"]),
        file("/d/a.ml", &["import common", "fn a_fn"]),
        file("/d/b.ml", &["import common", "fn b_fn"]),
        file("/d/main.ml", &["import a", "import b", "fn main"]),
    ];
    let loaded = load(&files, "/d/main.ml", &[]).unwrap();
    let names = names(&loaded.program);
    let shared_count = names.iter().filter(|n| **n == "shared").count();
    assert_eq!(shared_count, 1, "expected shared once, got {:?}", names);
    assert_eq!(loaded.reads, 4);
}

#[test]
fn circular_import_detected() {
    let files = [
        file("/d/b.ml", &["import a", "fn b_fn"]),
        file("/d/a.ml", &["import b", "fn a_fn"]),
        file("/d/main.ml", &["import a", "fn main"]),
    ];
    let err = load(&files, "/d/main.ml", &[]).err().unwrap();
    assert!(matches!(err, LoadError::CircularImport { .. }), "expected CircularImport");
    assert_eq!(err.render(), "circular import: /d/a.ml → /d/b.ml → /d/a.ml");
}

#[test]
fn missing_file_error() {
    let files = [file("/d/main.ml", &["import nonexistent", "fn main"])];
    let err = load(&files, "/d/main.ml", &[]).err().unwrap();
    assert!(matches!(err, LoadError::FileNotFound { .. }), "expected FileNotFound");
    assert_eq!(err.render(), "module not found: /d/nonexistent.ml");
}

#[test]
fn unresolved_name_error() {
    let files = [file("/d/ops.ml", &["fn add"]), file("/d/main.ml", &["from ops import nonexistent", "fn main"])];
    let err = load(&files, "/d/main.ml", &[]).err().unwrap();
    assert!(matches!(err, LoadError::UnresolvedName { ref name, .. } if name == "nonexistent"));
    assert_eq!(err.render(), "cannot import 'nonexistent' from 'ops': name not defined");
}

#[test]
fn module_alias_recorded() {
    let files = [file("/d/ops.ml", &["fn add", "fn mul"]), file("/d/main.ml", &["import ops", "fn main"])];
    let loaded = load(&files, "/d/main.ml", &["ops"]).unwrap();
    assert_eq!(loaded.aliases.len(), 1, "alias 'ops' missing");
    let exported = &loaded.aliases[0].1;
    assert!(exported.contains(&"add".to_string()));
    assert!(exported.contains(&"mul".to_string()));
}

#[test]
fn deps_come_before_entry_in_flat_program() {
    let files = [file("/d/ops.ml", &["fn helper"]), file("/d/main.ml", &["import ops", "fn main"])];
    let loaded = load(&files, "/d/main.ml", &[]).unwrap();
    let names = names(&loaded.program);
    let helper_pos = names.iter().position(|n| *n == "helper").unwrap();
    let main_pos = names.iter().position(|n| *n == "main").unwrap();
    assert!(helper_pos < main_pos, "expected helper before main: {:?}", names);
}

#[test]
fn structs_are_loaded_but_not_exported() {
    let files = [
        file("/d/ops.ml", &["struct S", "kernel k"]),
        file("/d/main.ml", &["import ops", "from ops import k", "fn main"]),
    ];
    let loaded = load(&files, "/d/main.ml", &["ops"]).unwrap();
    assert_eq!(loaded.program.items.len(), 3);
    assert_eq!(loaded.aliases[0].1, vec!["k".to_string()]);
}

#[test]
fn last_part_of_a_module_is_a_file() {
    assert_eq!(resolve_path(&vec!["a".to_string(), "b".to_string()]), vec!["a", "b.ml"]);
}

#[test]
fn load_errors_are_rendered() {
    let e = LoadError::Parse {
        message: "bad".to_string(),
        path: "m.ml".to_string(),
        span: span(0),
        source: String::new(),
    };
    assert_eq!(e.render(), "m.ml: parse error: bad");
    let e = LoadError::Io { path: "m.ml".to_string(), message: "denied".to_string(), span: span(0) };
    assert_eq!(e.render(), "cannot read 'm.ml': denied");
}

// ── The lint ─────────────────────────────────────────────────────────────────

fn e(kind: ExprKind) -> Expr {
    Expr { kind }
}

fn id(name: &str) -> Expr {
    e(ExprKind::Ident(name.to_string()))
}

fn lit() -> Expr {
    e(ExprKind::Lit)
}

fn dot(base: Expr, field: &str) -> Expr {
    e(ExprKind::FieldAccess { base: Box::new(base), field: field.to_string() })
}

fn bin(l: Expr, r: Expr) -> Expr {
    e(ExprKind::BinOp { lhs: Box::new(l), rhs: Box::new(r) })
}

fn call(callee: Expr, args: Vec<Expr>) -> Expr {
    e(ExprKind::Call { callee: Box::new(callee), args })
}

fn call_fn(name: &str, args: Vec<Expr>) -> Expr {
    call(id(name), args)
}

fn at(base: Expr, index: Expr) -> Expr {
    e(ExprKind::Index { base: Box::new(base), indices: vec![index] })
}

fn list(elements: Vec<Expr>) -> Expr {
    e(ExprKind::ArrayLiteral { elements })
}

fn tensor() -> Expr {
    e(ExprKind::TensorLiteral { elements: vec![lit()] })
}

fn s(kind: StmtKind) -> Stmt {
    Stmt { kind }
}

fn bind(expr: Expr) -> Stmt {
    s(StmtKind::Let { expr })
}

fn run(expr: Expr) -> Stmt {
    s(StmtKind::Expr(expr))
}

fn set(target: Expr, expr: Expr) -> Stmt {
    s(StmtKind::Assign { target, expr })
}

fn each(end: Expr, body: Vec<Stmt>) -> Stmt {
    s(StmtKind::For { start: lit(), end, body })
}

fn fun(name: &str, bound: Option<&str>, body: Vec<Stmt>) -> FnDef {
    let type_params = match bound {
        Some(b) => vec![TypeParam { name: "M".to_string(), bound: Some(b.to_string()) }],
        None => vec![],
    };
    FnDef { name: name.to_string(), type_params, body }
}

fn module_impl(for_type: &str) -> Item {
    let body = vec![s(StmtKind::Return { expr: dot(id("self"), "params") })];
    Item::Impl { for_type: for_type.to_string(), methods: vec![fun("parameters", None, body)] }
}

fn ps(field: &str) -> Expr {
    dot(at(id("ps"), id("i")), field)
}

/// `ps[i] = variable(ps[i].data - opt.lr * ps[i].grad)` for every parameter.
fn update(model: &str) -> Vec<Stmt> {
    let step = bin(ps("data"), bin(dot(id("opt"), "lr"), ps("grad")));
    vec![
        s(StmtKind::LetMut { expr: call(dot(id(model), "parameters"), vec![]) }),
        each(
            call_fn("len", vec![id("ps")]),
            vec![set(at(id("ps"), id("i")), call_fn("variable", vec![step]))],
        ),
    ]
}

fn adamw() -> Item {
    Item::Fn(fun("adamw", Some("Module"), update("model")))
}

fn structs(names: &[&str]) -> Vec<Item> {
    names.iter().map(|n| Item::Struct { name: n.to_string() }).collect()
}

fn make_gpt() -> Stmt {
    bind(call_fn("GPT", vec![list(vec![call_fn("variable", vec![tensor()])])]))
}

fn make_opt() -> Stmt {
    bind(call_fn("AdamW", vec![lit()]))
}

fn check(items: Vec<Item>) -> Vec<String> {
    check_no_unroll(&Program { items }).into_iter().map(|v| v.0).collect()
}

#[test]
fn test_no_unroll_lint_catches_hand_unrolled_optimizer() {
    let mut items = structs(&["AdamW", "Block"]);
    let wq = || dot(id("blk"), "wq");
    let by_hand = vec![
        bind(bin(dot(wq(), "grad"), bin(lit(), dot(wq(), "data")))),
        set(wq(), call_fn("variable", vec![bin(dot(wq(), "data"), bin(dot(id("opt"), "lr"), id("g")))])),
    ];
    items.push(Item::Fn(fun("adamw_block", None, by_hand)));
    items.push(Item::Fn(fun(
        "main",
        None,
        vec![
            bind(call_fn("variable", vec![tensor()])),
            bind(call_fn("Block", vec![id("wq")])),
            make_opt(),
            run(call_fn("adamw_block", vec![id("opt"), id("blk"), lit()])),
        ],
    )));
    let violations = check(items);
    assert!(!violations.is_empty(), "expected the hand-unrolled fixture to fail the lint");
    assert_eq!(
        violations,
        vec![
            "expected exactly one `fn` generic over `Module`, found 0: []",
            "fn 'adamw_block' reads `.grad` 1 time(s) — hand-unrolled optimizer logic may only live in the fn generic over `Module`",
        ]
    );
}

#[test]
fn test_no_unroll_lint_passes_minimal_generic_optimizer() {
    let mut items = structs(&["AdamW", "GPT"]);
    items.push(Item::Trait { name: "Module".to_string() });
    items.push(module_impl("GPT"));
    items.push(adamw());
    let main = vec![make_gpt(), make_opt(), run(call_fn("adamw", vec![id("gpt"), id("opt")]))];
    items.push(Item::Fn(fun("main", None, main)));
    let violations = check(items);
    assert!(violations.is_empty(), "expected the minimal generic optimizer to pass, got: {:#?}", violations);
}

#[test]
fn test_no_unroll_lint_catches_two_module_generic_fns() {
    let body = || {
        vec![
            bind(call(dot(id("model"), "parameters"), vec![])),
            run(call_fn("print", vec![call_fn("len", vec![id("ps")])])),
        ]
    };
    let mut items = structs(&["GPT"]);
    items.push(Item::Trait { name: "Module".to_string() });
    items.push(module_impl("GPT"));
    items.push(Item::Fn(fun("adamw", Some("Module"), body())));
    items.push(Item::Fn(fun("sgd", Some("Module"), body())));
    let main = vec![
        make_gpt(),
        run(call_fn("adamw", vec![id("gpt")])),
        run(call_fn("sgd", vec![id("gpt")])),
    ];
    items.push(Item::Fn(fun("main", None, main)));
    let violations = check(items);
    assert!(
        violations.iter().any(|v| v.contains("exactly one")),
        "expected a violation for two Module-generic fns, got: {:#?}", violations
    );
    assert_eq!(violations[0], "expected exactly one `fn` generic over `Module`, found 2: [\"adamw\", \"sgd\"]");
}

#[test]
fn test_no_unroll_lint_catches_grad_read_in_main() {
    let mut items = structs(&["AdamW", "GPT"]);
    items.push(Item::Trait { name: "Module".to_string() });
    items.push(module_impl("GPT"));
    items.push(adamw());
    let sneaky = dot(at(dot(id("gpt"), "params"), lit()), "grad");
    let main = vec![
        make_gpt(),
        make_opt(),
        run(call_fn("adamw", vec![id("gpt"), id("opt")])),
        bind(sneaky),
        run(call_fn("print", vec![id("sneaky")])),
    ];
    items.push(Item::Fn(fun("main", None, main)));
    let violations = check(items);
    assert!(
        violations.iter().any(|v| v.contains("main") && v.contains(".grad")),
        "expected a violation for `.grad` read in main, got: {:#?}", violations
    );
}

#[test]
fn test_no_unroll_lint_catches_hand_unrolled_submodule_helper() {
    let mut items = structs(&["AdamW", "Block", "GPT"]);
    items.push(Item::Trait { name: "Module".to_string() });
    items.push(module_impl("Block"));
    items.push(module_impl("GPT"));
    items.push(adamw());
    items.push(Item::Fn(fun("update_block_by_hand", None, update("blk"))));
    let blocks = || dot(id("gpt"), "blocks");
    let main = vec![
        make_gpt(),
        make_opt(),
        each(
            call_fn("len", vec![blocks()]),
            vec![run(call_fn("update_block_by_hand", vec![at(blocks(), id("i")), id("opt")]))],
        ),
        run(call_fn("adamw", vec![id("gpt"), id("opt")])),
    ];
    items.push(Item::Fn(fun("main", None, main)));
    assert!(!check(items).is_empty(), "expected the hand-unrolled per-Block helper to fail the lint");
}

#[test]
fn parameters_are_asked_for_once() {
    let twice = vec![
        bind(call(dot(id("model"), "parameters"), vec![])),
        bind(call(dot(id("model"), "parameters"), vec![])),
    ];
    let v = check(vec![Item::Fn(fun("adamw", Some("Module"), twice))]);
    assert_eq!(v, vec!["expected exactly one `.parameters()` call inside 'adamw', found 2"]);
}

#[test]
fn methods_read_no_gradients() {
    let method = fun("step", None, vec![run(dot(id("self"), "grad"))]);
    let items = vec![adamw(), Item::Impl { for_type: "GPT".to_string(), methods: vec![method] }];
    let v = check(items);
    assert_eq!(v.len(), 1);
    assert!(v[0].starts_with("impl method 'GPT::step' reads `.grad` 1 time(s)"));
}

// ── The command line ─────────────────────────────────────────────────────────

fn args(list: &[&str]) -> Vec<String> {
    list.iter().map(|a| a.to_string()).collect()
}

#[test]
fn options_and_path_come_in_any_order() {
    let a = parse_args(&args(&["malus", "--bench", "x.ml", "--static-barriers", "y.ml"]));
    assert!(a.bench);
    assert!(a.static_barriers);
    assert_eq!(a.path.unwrap(), "x.ml");
    let a = parse_args(&args(&["malus", "--other"]));
    assert!(!a.bench);
    assert!(!a.static_barriers);
    assert!(a.path.is_none());
    let a = parse_args(&args(&["--bench", "-x"]));
    assert!(!a.bench);
    assert_eq!(a.path.unwrap(), "-x");
}
