//! Options of the LLVM code generator, the target triple it defaults to,
//! and the shapes of module it can compile so far.

use vstd::prelude::*;
use crate::args::{dec_text, decimal_usize};
use crate::strs::push_str;

verus! {

/// Options of one compilation.
#[derive(Debug, Clone, Default)]
pub struct CompileOptions {
    /// Target triple; the host's default when absent.
    pub target: Option<String>,
    /// Whether the module is the program's entry point.
    pub is_entry_module: bool,
}

/// The default target triple of a host with operating system `os` and
/// architecture `arch` (as `std::env::consts` names them).
pub open spec fn spec_target_triple(os: Seq<char>, arch: Seq<char>) -> Seq<char> {
    if os == "macos"@ && arch == "aarch64"@ {
        "arm64-apple-macosx15.0.0"@
    } else if os == "macos"@ && arch == "x86_64"@ {
        "x86_64-apple-macosx15.0.0"@
    } else if os == "linux"@ && arch == "x86_64"@ {
        "x86_64-unknown-linux-gnu"@
    } else if os == "linux"@ && arch == "aarch64"@ {
        "aarch64-unknown-linux-gnu"@
    } else {
        "arm64-apple-macosx15.0.0"@
    }
}

/// The default target triple for a host.
pub fn default_target_triple(os: &str, arch: &str) -> (r: String)
    ensures
        r@ == spec_target_triple(os@, arch@),
{
    let mac = crate::strs::str_eq(os, "macos");
    let linux = crate::strs::str_eq(os, "linux");
    let arm = crate::strs::str_eq(arch, "aarch64");
    let x86 = crate::strs::str_eq(arch, "x86_64");
    if mac && arm {
        "arm64-apple-macosx15.0.0".to_owned()
    } else if mac && x86 {
        "x86_64-apple-macosx15.0.0".to_owned()
    } else if linux && x86 {
        "x86_64-unknown-linux-gnu".to_owned()
    } else if linux && arm {
        "aarch64-unknown-linux-gnu".to_owned()
    } else {
        "arm64-apple-macosx15.0.0".to_owned()
    }
}

/// The target triple of a compilation: the one asked for, or the host's default.
pub fn target_triple(opts: &CompileOptions, os: &str, arch: &str) -> (r: String)
    ensures
        r@ == match opts.target {
            Some(t) => t@,
            None => spec_target_triple(os@, arch@),
        },
{
    match &opts.target {
        Some(t) => t.clone(),
        None => default_target_triple(os, arch),
    }
}

/// What the code generator reads of an expression: which kind it is, and
/// the parts of a call, of a property read and of a number literal.
/// A `Number` literal is held as the text of its `double` constant.
#[derive(Debug)]
pub enum HirExpr {
    Undefined,
    Null,
    Bool,
    Number(String),
    Integer(i64),
    BigInt,
    String,
    I18nString,
    LocalGet,
    LocalSet,
    GlobalGet,
    GlobalSet,
    Update,
    Binary,
    Unary,
    Compare,
    Logical,
    Call { callee: Box<HirExpr>, args: Vec<HirExpr> },
    CallSpread,
    FuncRef,
    ExternFuncRef,
    NativeModuleRef,
    NativeMethodCall,
    PropertyGet { object: Box<HirExpr>, property: String },
    PropertySet,
    PropertyUpdate,
    /// Any other kind of expression.
    Other,
}

/// A top-level statement: an expression statement, or any other kind.
#[derive(Debug)]
pub enum InitStmt {
    Expr(HirExpr),
    Other,
}

/// The number that a supported statement prints.
#[derive(Debug, Clone, PartialEq, Eq)]
pub enum NumberLiteral {
    Integer(i64),
    /// The text of the `double` constant.
    Number(String),
}

/// What the code generator reads of a module before lowering it: its name,
/// how many imports, classes and functions it has, and its top-level
/// statements.
#[derive(Debug)]
pub struct ModuleShape {
    pub name: String,
    pub imports: usize,
    pub classes: usize,
    pub functions: usize,
    pub init: Vec<InitStmt>,
}

/// The name of an expression's kind, as error messages give it.
pub open spec fn spec_variant_name(e: HirExpr) -> Seq<char> {
    match e {
        HirExpr::Undefined => "Undefined"@,
        HirExpr::Null => "Null"@,
        HirExpr::Bool => "Bool"@,
        HirExpr::Number(_) => "Number"@,
        HirExpr::Integer(_) => "Integer"@,
        HirExpr::BigInt => "BigInt"@,
        HirExpr::String => "String"@,
        HirExpr::I18nString => "I18nString"@,
        HirExpr::LocalGet => "LocalGet"@,
        HirExpr::LocalSet => "LocalSet"@,
        HirExpr::GlobalGet => "GlobalGet"@,
        HirExpr::GlobalSet => "GlobalSet"@,
        HirExpr::Update => "Update"@,
        HirExpr::Binary => "Binary"@,
        HirExpr::Unary => "Unary"@,
        HirExpr::Compare => "Compare"@,
        HirExpr::Logical => "Logical"@,
        HirExpr::Call { .. } => "Call"@,
        HirExpr::CallSpread => "CallSpread"@,
        HirExpr::FuncRef => "FuncRef"@,
        HirExpr::ExternFuncRef => "ExternFuncRef"@,
        HirExpr::NativeModuleRef => "NativeModuleRef"@,
        HirExpr::NativeMethodCall => "NativeMethodCall"@,
        HirExpr::PropertyGet { .. } => "PropertyGet"@,
        HirExpr::PropertySet => "PropertySet"@,
        HirExpr::PropertyUpdate => "PropertyUpdate"@,
        HirExpr::Other => "<other>"@,
    }
}

/// A number literal, or why the expression is not one.
pub open spec fn spec_number_literal(e: HirExpr) -> Result<NumberLiteral, Seq<char>> {
    match e {
        HirExpr::Integer(i) => Ok(NumberLiteral::Integer(i)),
        HirExpr::Number(t) => Ok(NumberLiteral::Number(t)),
        _ => Err("perry-codegen-llvm Phase 1: expected number literal, got "@ + spec_variant_name(e)),
    }
}

/// The number printed by `console.log(<number>)` (a call of property `log`
/// of a global, with one number-literal argument), or why the expression is
/// not that call.
pub open spec fn spec_console_log_number(e: HirExpr) -> Result<NumberLiteral, Seq<char>> {
    match e {
        HirExpr::Call { callee, args } => match *callee {
            HirExpr::PropertyGet { object, property } => {
                if !(*object is GlobalGet) {
                    Err("Phase 1 only supports console.log(<number>); callee.object is not a GlobalGet"@)
                } else if property@ != "log"@ {
                    Err("Phase 1 only supports console.log(<number>); got console."@ + property@)
                } else if args@.len() != 1 {
                    Err(
                        "Phase 1 only supports a single numeric argument to console.log; got "@
                            + dec_text(args@.len()),
                    )
                } else {
                    spec_number_literal(args@[0])
                }
            },
            _ => Err("Phase 1 only supports console.log(<number>); callee is not a PropertyGet"@),
        },
        _ => Err("Phase 1 only supports a top-level Call expression; got "@ + spec_variant_name(e)),
    }
}

/// The number a top-level statement prints, or why it cannot be lowered.
pub open spec fn spec_lower_stmt(s: InitStmt) -> Result<NumberLiteral, Seq<char>> {
    match s {
        InitStmt::Expr(e) => spec_console_log_number(e),
        InitStmt::Other => Err("perry-codegen-llvm Phase 1: only Stmt::Expr is supported at top level; got <other>"@),
    }
}

/// The numbers the statements print, in order, or the index of the first
/// statement that cannot be lowered and why.
pub open spec fn spec_lower_all(s: Seq<InitStmt>) -> Result<Seq<NumberLiteral>, (int, Seq<char>)>
    decreases s.len(),
{
    if s.len() == 0 {
        Ok(Seq::empty())
    } else {
        match spec_lower_all(s.drop_last()) {
            Err(e) => Err(e),
            Ok(v) => match spec_lower_stmt(s.last()) {
                Ok(n) => Ok(v.push(n)),
                Err(c) => Err(((s.len() - 1) as int, c)),
            },
        }
    }
}

/// Why a module cannot be compiled yet, if it cannot: only an entry module
/// without imports, classes or functions, with at least one top-level
/// statement, each a `console.log` of one number literal, is supported. The
/// module-level reasons are tried first, in that order; a statement that
/// cannot be lowered is reported with its index and the module's name, then
/// the cause.
pub open spec fn spec_unsupported(m: ModuleShape, is_entry: bool) -> Option<Seq<char>> {
    let name = m.name@;
    if !is_entry {
        Some(
            "perry-codegen-llvm Phase 1 only supports the entry module; non-entry module '"@ + name
                + "' is not yet supported"@,
        )
    } else if m.imports != 0 {
        Some(
            "perry-codegen-llvm Phase 1 does not support imports; module '"@ + name + "' has "@
                + dec_text(m.imports as nat) + " imports"@,
        )
    } else if m.classes != 0 || m.functions != 0 {
        Some(
            "perry-codegen-llvm Phase 1 only supports top-level statements; module '"@ + name
                + "' has "@ + dec_text(m.classes as nat) + " classes and "@ + dec_text(
                m.functions as nat,
            ) + " functions"@,
        )
    } else if m.init@.len() == 0 {
        Some(
            "perry-codegen-llvm Phase 1: module '"@ + name + "' has no init statements to lower"@,
        )
    } else {
        match spec_lower_all(m.init@) {
            Ok(_) => None,
            Err((i, c)) => Some(
                "lowering init statement #"@ + dec_text(i as nat) + " of module '"@ + name + "': "@
                    + c,
            ),
        }
    }
}

fn variant_name(e: &HirExpr) -> (r: &'static str)
    ensures
        r@ == spec_variant_name(*e),
{
    match e {
        HirExpr::Undefined => "Undefined",
        HirExpr::Null => "Null",
        HirExpr::Bool => "Bool",
        HirExpr::Number(_) => "Number",
        HirExpr::Integer(_) => "Integer",
        HirExpr::BigInt => "BigInt",
        HirExpr::String => "String",
        HirExpr::I18nString => "I18nString",
        HirExpr::LocalGet => "LocalGet",
        HirExpr::LocalSet => "LocalSet",
        HirExpr::GlobalGet => "GlobalGet",
        HirExpr::GlobalSet => "GlobalSet",
        HirExpr::Update => "Update",
        HirExpr::Binary => "Binary",
        HirExpr::Unary => "Unary",
        HirExpr::Compare => "Compare",
        HirExpr::Logical => "Logical",
        HirExpr::Call { .. } => "Call",
        HirExpr::CallSpread => "CallSpread",
        HirExpr::FuncRef => "FuncRef",
        HirExpr::ExternFuncRef => "ExternFuncRef",
        HirExpr::NativeModuleRef => "NativeModuleRef",
        HirExpr::NativeMethodCall => "NativeMethodCall",
        HirExpr::PropertyGet { .. } => "PropertyGet",
        HirExpr::PropertySet => "PropertySet",
        HirExpr::PropertyUpdate => "PropertyUpdate",
        HirExpr::Other => "<other>",
    }
}

fn cat(a: &str, b: &str) -> (r: String)
    ensures
        r@ == a@ + b@,
{
    let mut s = String::new();
    push_str(&mut s, a);
    push_str(&mut s, b);
    s
}

/// A number literal, or why the expression is not one.
pub fn lower_number_literal(e: &HirExpr) -> (r: Result<NumberLiteral, String>)
    ensures
        match spec_number_literal(*e) {
            Ok(n) => r == Ok::<NumberLiteral, String>(n),
            Err(m) => r matches Err(x) && x@ == m,
        },
{
    match e {
        HirExpr::Integer(i) => Ok(NumberLiteral::Integer(*i)),
        HirExpr::Number(t) => Ok(NumberLiteral::Number(t.clone())),
        _ => Err(cat("perry-codegen-llvm Phase 1: expected number literal, got ", variant_name(e))),
    }
}

/// The number printed by a `console.log(<number>)` expression, or why the
/// expression is not one.
pub fn match_console_log_number(e: &HirExpr) -> (r: Result<NumberLiteral, String>)
    ensures
        match spec_console_log_number(*e) {
            Ok(n) => r == Ok::<NumberLiteral, String>(n),
            Err(m) => r matches Err(x) && x@ == m,
        },
{
    match e {
        HirExpr::Call { callee, args } => match &**callee {
            HirExpr::PropertyGet { object, property } => {
                if !matches!(**object, HirExpr::GlobalGet) {
                    return Err(
                        "Phase 1 only supports console.log(<number>); callee.object is not a GlobalGet".to_owned(),
                    );
                }
                if !crate::strs::str_eq(property.as_str(), "log") {
                    return Err(cat("Phase 1 only supports console.log(<number>); got console.", property.as_str()));
                }
                if args.len() != 1 {
                    let n = decimal_usize(args.len());
                    return Err(
                        cat("Phase 1 only supports a single numeric argument to console.log; got ", n.as_str()),
                    );
                }
                lower_number_literal(&args[0])
            },
            _ => Err("Phase 1 only supports console.log(<number>); callee is not a PropertyGet".to_owned()),
        },
        _ => Err(cat("Phase 1 only supports a top-level Call expression; got ", variant_name(e))),
    }
}

/// The number a top-level statement prints, or why it cannot be lowered.
pub fn lower_init_stmt(s: &InitStmt) -> (r: Result<NumberLiteral, String>)
    ensures
        match spec_lower_stmt(*s) {
            Ok(n) => r == Ok::<NumberLiteral, String>(n),
            Err(m) => r matches Err(x) && x@ == m,
        },
{
    match s {
        InitStmt::Expr(e) => match_console_log_number(e),
        InitStmt::Other => Err(
            "perry-codegen-llvm Phase 1: only Stmt::Expr is supported at top level; got <other>".to_owned(),
        ),
    }
}

/// Checks that a module can be compiled with these options, and gives the
/// numbers its statements print, in order; the error names the first thing
/// that is not supported yet.
pub fn check_module(m: &ModuleShape, opts: &CompileOptions) -> (r: Result<Vec<NumberLiteral>, String>)
    ensures
        match spec_unsupported(*m, opts.is_entry_module) {
            None => r matches Ok(v) && spec_lower_all(m.init@) == Ok::<Seq<NumberLiteral>, (int, Seq<char>)>(v@),
            Some(msg) => r matches Err(e) && e@ == msg,
        },
{
    let mut e = String::new();
    if !opts.is_entry_module {
        push_str(&mut e, "perry-codegen-llvm Phase 1 only supports the entry module; non-entry module '");
        push_str(&mut e, m.name.as_str());
        push_str(&mut e, "' is not yet supported");
        return Err(e);
    }
    if m.imports != 0 {
        push_str(&mut e, "perry-codegen-llvm Phase 1 does not support imports; module '");
        push_str(&mut e, m.name.as_str());
        push_str(&mut e, "' has ");
        let n = decimal_usize(m.imports);
        push_str(&mut e, n.as_str());
        push_str(&mut e, " imports");
        return Err(e);
    }
    if m.classes != 0 || m.functions != 0 {
        push_str(&mut e, "perry-codegen-llvm Phase 1 only supports top-level statements; module '");
        push_str(&mut e, m.name.as_str());
        push_str(&mut e, "' has ");
        let c = decimal_usize(m.classes);
        push_str(&mut e, c.as_str());
        push_str(&mut e, " classes and ");
        let f = decimal_usize(m.functions);
        push_str(&mut e, f.as_str());
        push_str(&mut e, " functions");
        return Err(e);
    }
    assert(e@ == Seq::<char>::empty());
    if m.init.len() == 0 {
        push_str(&mut e, "perry-codegen-llvm Phase 1: module '");
        push_str(&mut e, m.name.as_str());
        push_str(&mut e, "' has no init statements to lower");
        return Err(e);
    }
    let mut out: Vec<NumberLiteral> = Vec::new();
    let mut i: usize = 0;
    assert(m.init@.take(0) =~= Seq::<InitStmt>::empty());
    while i < m.init.len()
        invariant
            i <= m.init@.len(),
            opts.is_entry_module,
            m.imports == 0 && m.classes == 0 && m.functions == 0,
            m.init@.len() > 0,
            e@ == Seq::<char>::empty(),
            spec_lower_all(m.init@.take(i as int)) == Ok::<Seq<NumberLiteral>, (int, Seq<char>)>(out@),
        decreases m.init@.len() - i,
    {
        let ghost t = m.init@.take(i + 1);
        assert(t.drop_last() =~= m.init@.take(i as int));
        assert(t.last() == m.init@[i as int]);
        match lower_init_stmt(&m.init[i]) {
            Ok(n) => {
                out.push(n);
            },
            Err(cause) => {
                push_str(&mut e, "lowering init statement #");
                let d = decimal_usize(i);
                push_str(&mut e, d.as_str());
                push_str(&mut e, " of module '");
                push_str(&mut e, m.name.as_str());
                push_str(&mut e, "': ");
                push_str(&mut e, cause.as_str());
                proof {
                    assert(e@ =~= "lowering init statement #"@ + dec_text(i as nat) + " of module '"@ + m.name@
                        + "': "@ + cause@);
                    assert(spec_lower_all(t) == Err::<Seq<NumberLiteral>, (int, Seq<char>)>((i as int, cause@)));
                    lemma_lower_all_prefix(m.init@, i as int + 1);
                }
                return Err(e);
            },
        }
        i = i + 1;
    }
    assert(m.init@.take(m.init@.len() as int) =~= m.init@);
    Ok(out)
}

/// A failure in a prefix of the statements is the failure of them all.
proof fn lemma_lower_all_prefix(s: Seq<InitStmt>, j: int)
    requires
        0 <= j <= s.len(),
        spec_lower_all(s.take(j)) is Err,
    ensures
        spec_lower_all(s) == spec_lower_all(s.take(j)),
    decreases s.len() - j,
{
    if j < s.len() {
        let t = s.take(j + 1);
        assert(t.drop_last() =~= s.take(j));
        assert(spec_lower_all(t) == spec_lower_all(s.take(j)));
        lemma_lower_all_prefix(s, j + 1);
    } else {
        assert(s.take(j) =~= s);
    }
}
} // verus!
