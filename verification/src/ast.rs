//! The syntax-tree model that the rewrite engine works on.
//!
//! Every node is a plain data value: identifiers and literals are `String`s,
//! lists are `Vec`s.  Each executable node type has a ghost counterpart
//! (`Spec*`) whose lists are `Seq`s, together with a view function (`*_dv`)
//! that maps the executable tree to the ghost tree.  All contracts in this
//! crate are stated over the ghost trees.

use vstd::prelude::*;

verus! {

// ---------------------------------------------------------------------------
// Attribute metadata: the argument language of attributes.
// ---------------------------------------------------------------------------

/// One argument of an attribute: a bare word, a string literal, a
/// `name = "value"` pair, or a nested `name(args...)` list.
#[derive(Debug, PartialEq, Eq)]
pub enum Meta {
    Word(String),
    Str(String),
    NameValue(String, String),
    List(String, Vec<Meta>),
}

pub enum SpecMeta {
    Word(Seq<char>),
    Str(Seq<char>),
    NameValue(Seq<char>, Seq<char>),
    List(Seq<char>, Seq<SpecMeta>),
}

pub open spec fn meta_dv(m: Meta) -> SpecMeta
    decreases m,
{
    match m {
        Meta::Word(w) => SpecMeta::Word(w@),
        Meta::Str(s) => SpecMeta::Str(s@),
        Meta::NameValue(n, v) => SpecMeta::NameValue(n@, v@),
        Meta::List(n, args) => SpecMeta::List(n@, metas_dv(args@)),
    }
}

pub open spec fn metas_dv(s: Seq<Meta>) -> Seq<SpecMeta>
    decreases s,
{
    if s.len() == 0 {
        Seq::empty()
    } else {
        metas_dv(s.drop_last()).push(meta_dv(s.last()))
    }
}

/// An attribute `#[a::b(args...)]`: a path of identifiers plus arguments.
/// A documentation line `#[doc = "text"]` is the special case of a
/// single-segment path `doc` with a single `Meta::Str` argument.
#[derive(Debug, PartialEq, Eq)]
pub struct Attr {
    pub path: Vec<String>,
    pub args: Vec<Meta>,
}

pub struct SpecAttr {
    pub path: Seq<Seq<char>>,
    pub args: Seq<SpecMeta>,
}

pub open spec fn strings_dv(s: Seq<String>) -> Seq<Seq<char>>
    decreases s,
{
    if s.len() == 0 {
        Seq::empty()
    } else {
        strings_dv(s.drop_last()).push(s.last()@)
    }
}

pub open spec fn attr_dv(a: Attr) -> SpecAttr {
    SpecAttr { path: strings_dv(a.path@), args: metas_dv(a.args@) }
}

pub open spec fn attrs_dv(s: Seq<Attr>) -> Seq<SpecAttr>
    decreases s,
{
    if s.len() == 0 {
        Seq::empty()
    } else {
        attrs_dv(s.drop_last()).push(attr_dv(s.last()))
    }
}

// ---------------------------------------------------------------------------
// Paths and types.
// ---------------------------------------------------------------------------

/// One segment of a path, possibly with generic arguments:
/// `Future<Output = T>` is a segment with ident `Future` and one binding.
#[derive(Debug, PartialEq, Eq)]
pub struct PathSeg {
    pub ident: String,
    pub args: Vec<GenArg>,
}

/// A generic argument: a type, or an associated-type binding `Name = Type`.
#[derive(Debug, PartialEq, Eq)]
pub enum GenArg {
    Ty(Ty),
    Binding(String, Ty),
}

/// A type: a path type, or an opaque type that the engine never looks into,
/// kept as its source text.
#[derive(Debug, PartialEq, Eq)]
pub enum Ty {
    Path(Path),
    Opaque(String),
}

/// A path `a::b<args>::c`.
#[derive(Debug, PartialEq, Eq)]
pub struct Path {
    pub segments: Vec<PathSeg>,
}

pub struct SpecPathSeg {
    pub ident: Seq<char>,
    pub args: Seq<SpecGenArg>,
}

pub enum SpecGenArg {
    Ty(SpecTy),
    Binding(Seq<char>, Box<SpecTy>),
}

pub enum SpecTy {
    Path(SpecPath),
    Opaque(Seq<char>),
}

pub struct SpecPath {
    pub segments: Seq<SpecPathSeg>,
}

pub open spec fn seg_dv(s: PathSeg) -> SpecPathSeg
    decreases s,
{
    SpecPathSeg { ident: s.ident@, args: genargs_dv(s.args@) }
}

pub open spec fn genargs_dv(s: Seq<GenArg>) -> Seq<SpecGenArg>
    decreases s,
{
    if s.len() == 0 {
        Seq::empty()
    } else {
        genargs_dv(s.drop_last()).push(genarg_dv(s.last()))
    }
}

pub open spec fn genarg_dv(a: GenArg) -> SpecGenArg
    decreases a,
{
    match a {
        GenArg::Ty(t) => SpecGenArg::Ty(ty_dv(t)),
        GenArg::Binding(n, t) => SpecGenArg::Binding(n@, Box::new(ty_dv(t))),
    }
}

pub open spec fn ty_dv(t: Ty) -> SpecTy
    decreases t,
{
    match t {
        Ty::Path(p) => SpecTy::Path(path_dv(p)),
        Ty::Opaque(s) => SpecTy::Opaque(s@),
    }
}

pub open spec fn path_dv(p: Path) -> SpecPath
    decreases p,
{
    SpecPath { segments: segs_dv(p.segments@) }
}

pub open spec fn segs_dv(s: Seq<PathSeg>) -> Seq<SpecPathSeg>
    decreases s,
{
    if s.len() == 0 {
        Seq::empty()
    } else {
        segs_dv(s.drop_last()).push(seg_dv(s.last()))
    }
}

pub open spec fn paths_dv(s: Seq<Path>) -> Seq<SpecPath>
    decreases s,
{
    if s.len() == 0 {
        Seq::empty()
    } else {
        paths_dv(s.drop_last()).push(path_dv(s.last()))
    }
}

pub open spec fn opt_ty_dv(t: Option<Ty>) -> Option<SpecTy> {
    match t {
        Option::Some(t0) => Option::Some(ty_dv(t0)),
        Option::None => Option::None,
    }
}

// ---------------------------------------------------------------------------
// Generics and signatures.
// ---------------------------------------------------------------------------

/// A generic type parameter with its trait bounds: `T: Future<Output = U>`.
#[derive(Debug, PartialEq, Eq)]
pub struct TypeParam {
    pub ident: String,
    pub bounds: Vec<Path>,
}

/// A where-clause predicate: `T: Bound1 + Bound2`.
#[derive(Debug, PartialEq, Eq)]
pub struct WherePred {
    pub bounded: Ty,
    pub bounds: Vec<Path>,
}

#[derive(Debug, PartialEq, Eq)]
pub struct Generics {
    pub params: Vec<TypeParam>,
    pub preds: Vec<WherePred>,
}

/// One value parameter of a function.
#[derive(Debug, PartialEq, Eq)]
pub struct FnArg {
    pub name: String,
    pub ty: Ty,
}

/// A function signature.  `is_async` is the suspension marker.
#[derive(Debug, PartialEq, Eq)]
pub struct Signature {
    pub is_async: bool,
    pub ident: String,
    pub generics: Generics,
    pub inputs: Vec<FnArg>,
    pub output: Option<Ty>,
}

pub struct SpecTypeParam {
    pub ident: Seq<char>,
    pub bounds: Seq<SpecPath>,
}

pub struct SpecWherePred {
    pub bounded: SpecTy,
    pub bounds: Seq<SpecPath>,
}

pub struct SpecGenerics {
    pub params: Seq<SpecTypeParam>,
    pub preds: Seq<SpecWherePred>,
}

pub struct SpecFnArg {
    pub name: Seq<char>,
    pub ty: SpecTy,
}

pub struct SpecSignature {
    pub is_async: bool,
    pub ident: Seq<char>,
    pub generics: SpecGenerics,
    pub inputs: Seq<SpecFnArg>,
    pub output: Option<SpecTy>,
}

pub open spec fn typaram_dv(t: TypeParam) -> SpecTypeParam {
    SpecTypeParam { ident: t.ident@, bounds: paths_dv(t.bounds@) }
}

pub open spec fn typarams_dv(s: Seq<TypeParam>) -> Seq<SpecTypeParam>
    decreases s,
{
    if s.len() == 0 {
        Seq::empty()
    } else {
        typarams_dv(s.drop_last()).push(typaram_dv(s.last()))
    }
}

pub open spec fn pred_dv(p: WherePred) -> SpecWherePred {
    SpecWherePred { bounded: ty_dv(p.bounded), bounds: paths_dv(p.bounds@) }
}

pub open spec fn preds_dv(s: Seq<WherePred>) -> Seq<SpecWherePred>
    decreases s,
{
    if s.len() == 0 {
        Seq::empty()
    } else {
        preds_dv(s.drop_last()).push(pred_dv(s.last()))
    }
}

pub open spec fn generics_dv(g: Generics) -> SpecGenerics {
    SpecGenerics { params: typarams_dv(g.params@), preds: preds_dv(g.preds@) }
}

pub open spec fn fnarg_dv(a: FnArg) -> SpecFnArg {
    SpecFnArg { name: a.name@, ty: ty_dv(a.ty) }
}

pub open spec fn fnargs_dv(s: Seq<FnArg>) -> Seq<SpecFnArg>
    decreases s,
{
    if s.len() == 0 {
        Seq::empty()
    } else {
        fnargs_dv(s.drop_last()).push(fnarg_dv(s.last()))
    }
}

pub open spec fn sig_dv(s: Signature) -> SpecSignature {
    SpecSignature {
        is_async: s.is_async,
        ident: s.ident@,
        generics: generics_dv(s.generics),
        inputs: fnargs_dv(s.inputs@),
        output: opt_ty_dv(s.output),
    }
}

// ---------------------------------------------------------------------------
// Expressions, statements, items.
// ---------------------------------------------------------------------------

/// An expression.  `Await` is the suspend-expression, `Async` the
/// suspend-block-expression.  A macro invocation carries either a parsed
/// comma-separated expression list or raw source text.
#[derive(Debug, PartialEq, Eq)]
pub enum Expr {
    Path(Path),
    Lit(String),
    Call(Box<Expr>, Vec<Expr>),
    Await(Box<Expr>),
    Async(Block),
    Block(Block),
    MacroCall(Path, MacArgs),
}

#[derive(Debug, PartialEq, Eq)]
pub enum MacArgs {
    Exprs(Vec<Expr>),
    Raw(String),
}

#[derive(Debug, PartialEq, Eq)]
pub enum Stmt {
    Expr(Expr),
    Let(String, Expr),
    Item(Box<Item>),
}

#[derive(Debug, PartialEq, Eq)]
pub struct Block {
    pub stmts: Vec<Stmt>,
}

/// A named field of a struct.
#[derive(Debug, PartialEq, Eq)]
pub struct Field {
    pub attrs: Vec<Attr>,
    pub ident: String,
    pub ty: Ty,
}

/// A free function or an inherent/trait-impl method.
#[derive(Debug, PartialEq, Eq)]
pub struct FnDef {
    pub attrs: Vec<Attr>,
    pub sig: Signature,
    pub body: Block,
}

/// A trait method: a signature with an optional default body.
#[derive(Debug, PartialEq, Eq)]
pub struct TraitMethod {
    pub attrs: Vec<Attr>,
    pub sig: Signature,
    pub body: Option<Block>,
}

/// A node of a grouped import: `a::{b, c as d, e::*}`.
#[derive(Debug, PartialEq, Eq)]
pub enum UseTree {
    Prefix(String, Box<UseTree>),
    Name(String),
    Rename(String, String),
    Group(Vec<UseTree>),
    Glob,
}

/// A declaration.
#[derive(Debug, PartialEq, Eq)]
#[allow(inconsistent_fields)]
pub enum Item {
    Fn(FnDef),
    Struct { attrs: Vec<Attr>, ident: String, fields: Vec<Field> },
    Trait { attrs: Vec<Attr>, ident: String, methods: Vec<TraitMethod> },
    Impl { attrs: Vec<Attr>, trait_path: Option<Path>, self_ty: Ty, methods: Vec<FnDef> },
    Use { attrs: Vec<Attr>, tree: UseTree },
    Mod { attrs: Vec<Attr>, ident: String, items: Vec<Item> },
}

pub enum SpecExpr {
    Path(SpecPath),
    Lit(Seq<char>),
    Call(Box<SpecExpr>, Seq<SpecExpr>),
    Await(Box<SpecExpr>),
    Async(SpecBlock),
    Block(SpecBlock),
    MacroCall(SpecPath, SpecMacArgs),
}

pub enum SpecMacArgs {
    Exprs(Seq<SpecExpr>),
    Raw(Seq<char>),
}

pub enum SpecStmt {
    Expr(SpecExpr),
    Let(Seq<char>, Box<SpecExpr>),
    Item(Box<SpecItem>),
}

pub struct SpecBlock {
    pub stmts: Seq<SpecStmt>,
}

pub struct SpecField {
    pub attrs: Seq<SpecAttr>,
    pub ident: Seq<char>,
    pub ty: SpecTy,
}

pub struct SpecFnDef {
    pub attrs: Seq<SpecAttr>,
    pub sig: SpecSignature,
    pub body: SpecBlock,
}

pub struct SpecTraitMethod {
    pub attrs: Seq<SpecAttr>,
    pub sig: SpecSignature,
    pub body: Option<SpecBlock>,
}

pub enum SpecUseTree {
    Prefix(Seq<char>, Box<SpecUseTree>),
    Name(Seq<char>),
    Rename(Seq<char>, Seq<char>),
    Group(Seq<SpecUseTree>),
    Glob,
}

#[allow(inconsistent_fields)]
pub enum SpecItem {
    Fn(SpecFnDef),
    Struct { attrs: Seq<SpecAttr>, ident: Seq<char>, fields: Seq<SpecField> },
    Trait { attrs: Seq<SpecAttr>, ident: Seq<char>, methods: Seq<SpecTraitMethod> },
    Impl {
        attrs: Seq<SpecAttr>,
        trait_path: Option<SpecPath>,
        self_ty: SpecTy,
        methods: Seq<SpecFnDef>,
    },
    Use { attrs: Seq<SpecAttr>, tree: SpecUseTree },
    Mod { attrs: Seq<SpecAttr>, ident: Seq<char>, items: Seq<SpecItem> },
}

pub open spec fn expr_dv(e: Expr) -> SpecExpr
    decreases e,
{
    match e {
        Expr::Path(p) => SpecExpr::Path(path_dv(p)),
        Expr::Lit(s) => SpecExpr::Lit(s@),
        Expr::Call(f, args) => SpecExpr::Call(Box::new(expr_dv(*f)), exprs_dv(args@)),
        Expr::Await(inner) => SpecExpr::Await(Box::new(expr_dv(*inner))),
        Expr::Async(b) => SpecExpr::Async(block_dv(b)),
        Expr::Block(b) => SpecExpr::Block(block_dv(b)),
        Expr::MacroCall(p, a) => SpecExpr::MacroCall(path_dv(p), macargs_dv(a)),
    }
}

pub open spec fn exprs_dv(s: Seq<Expr>) -> Seq<SpecExpr>
    decreases s,
{
    if s.len() == 0 {
        Seq::empty()
    } else {
        exprs_dv(s.drop_last()).push(expr_dv(s.last()))
    }
}

pub open spec fn macargs_dv(a: MacArgs) -> SpecMacArgs
    decreases a,
{
    match a {
        MacArgs::Exprs(es) => SpecMacArgs::Exprs(exprs_dv(es@)),
        MacArgs::Raw(s) => SpecMacArgs::Raw(s@),
    }
}

pub open spec fn stmt_dv(s: Stmt) -> SpecStmt
    decreases s,
{
    match s {
        Stmt::Expr(e) => SpecStmt::Expr(expr_dv(e)),
        Stmt::Let(n, e) => SpecStmt::Let(n@, Box::new(expr_dv(e))),
        Stmt::Item(i) => SpecStmt::Item(Box::new(item_dv(*i))),
    }
}

pub open spec fn stmts_dv(s: Seq<Stmt>) -> Seq<SpecStmt>
    decreases s,
{
    if s.len() == 0 {
        Seq::empty()
    } else {
        stmts_dv(s.drop_last()).push(stmt_dv(s.last()))
    }
}

pub open spec fn block_dv(b: Block) -> SpecBlock
    decreases b,
{
    SpecBlock { stmts: stmts_dv(b.stmts@) }
}

pub open spec fn opt_block_dv(b: Option<Block>) -> Option<SpecBlock>
    decreases b,
{
    match b {
        Option::Some(b0) => Option::Some(block_dv(b0)),
        Option::None => Option::None,
    }
}

pub open spec fn field_dv(f: Field) -> SpecField
    decreases f,
{
    SpecField { attrs: attrs_dv(f.attrs@), ident: f.ident@, ty: ty_dv(f.ty) }
}

pub open spec fn fields_dv(s: Seq<Field>) -> Seq<SpecField>
    decreases s,
{
    if s.len() == 0 {
        Seq::empty()
    } else {
        fields_dv(s.drop_last()).push(field_dv(s.last()))
    }
}

pub open spec fn fndef_dv(f: FnDef) -> SpecFnDef
    decreases f,
{
    SpecFnDef { attrs: attrs_dv(f.attrs@), sig: sig_dv(f.sig), body: block_dv(f.body) }
}

pub open spec fn fndefs_dv(s: Seq<FnDef>) -> Seq<SpecFnDef>
    decreases s,
{
    if s.len() == 0 {
        Seq::empty()
    } else {
        fndefs_dv(s.drop_last()).push(fndef_dv(s.last()))
    }
}

pub open spec fn method_dv(m: TraitMethod) -> SpecTraitMethod
    decreases m,
{
    SpecTraitMethod {
        attrs: attrs_dv(m.attrs@),
        sig: sig_dv(m.sig),
        body: match m.body {
            Option::Some(b) => Option::Some(block_dv(b)),
            Option::None => Option::None,
        },
    }
}

pub open spec fn methods_dv(s: Seq<TraitMethod>) -> Seq<SpecTraitMethod>
    decreases s,
{
    if s.len() == 0 {
        Seq::empty()
    } else {
        methods_dv(s.drop_last()).push(method_dv(s.last()))
    }
}

pub open spec fn usetree_dv(t: UseTree) -> SpecUseTree
    decreases t,
{
    match t {
        UseTree::Prefix(n, sub) => SpecUseTree::Prefix(n@, Box::new(usetree_dv(*sub))),
        UseTree::Name(n) => SpecUseTree::Name(n@),
        UseTree::Rename(n, a) => SpecUseTree::Rename(n@, a@),
        UseTree::Group(ts) => SpecUseTree::Group(usetrees_dv(ts@)),
        UseTree::Glob => SpecUseTree::Glob,
    }
}

pub open spec fn usetrees_dv(s: Seq<UseTree>) -> Seq<SpecUseTree>
    decreases s,
{
    if s.len() == 0 {
        Seq::empty()
    } else {
        usetrees_dv(s.drop_last()).push(usetree_dv(s.last()))
    }
}

pub open spec fn opt_path_dv(p: Option<Path>) -> Option<SpecPath> {
    match p {
        Option::Some(p0) => Option::Some(path_dv(p0)),
        Option::None => Option::None,
    }
}

pub open spec fn item_dv(i: Item) -> SpecItem
    decreases i,
{
    match i {
        Item::Fn(f) => SpecItem::Fn(fndef_dv(f)),
        Item::Struct { attrs, ident, fields } => SpecItem::Struct {
            attrs: attrs_dv(attrs@),
            ident: ident@,
            fields: fields_dv(fields@),
        },
        Item::Trait { attrs, ident, methods } => SpecItem::Trait {
            attrs: attrs_dv(attrs@),
            ident: ident@,
            methods: methods_dv(methods@),
        },
        Item::Impl { attrs, trait_path, self_ty, methods } => SpecItem::Impl {
            attrs: attrs_dv(attrs@),
            trait_path: opt_path_dv(trait_path),
            self_ty: ty_dv(self_ty),
            methods: fndefs_dv(methods@),
        },
        Item::Use { attrs, tree } => SpecItem::Use {
            attrs: attrs_dv(attrs@),
            tree: usetree_dv(tree),
        },
        Item::Mod { attrs, ident, items } => SpecItem::Mod {
            attrs: attrs_dv(attrs@),
            ident: ident@,
            items: items_dv(items@),
        },
    }
}

pub open spec fn items_dv(s: Seq<Item>) -> Seq<SpecItem>
    decreases s,
{
    if s.len() == 0 {
        Seq::empty()
    } else {
        items_dv(s.drop_last()).push(item_dv(s.last()))
    }
}

// ---------------------------------------------------------------------------
// Pointwise characterizations of the sequence views.
// ---------------------------------------------------------------------------

pub proof fn lemma_strings_dv(s: Seq<String>)
    ensures
        strings_dv(s).len() == s.len(),
        forall|i: int| 0 <= i < s.len() ==> strings_dv(s)[i] == s[i]@,
    decreases s,
{
    if s.len() > 0 {
        lemma_strings_dv(s.drop_last());
    }
}

pub proof fn lemma_metas_dv(s: Seq<Meta>)
    ensures
        metas_dv(s).len() == s.len(),
        forall|i: int| 0 <= i < s.len() ==> metas_dv(s)[i] == meta_dv(s[i]),
    decreases s,
{
    if s.len() > 0 {
        lemma_metas_dv(s.drop_last());
    }
}

pub proof fn lemma_attrs_dv(s: Seq<Attr>)
    ensures
        attrs_dv(s).len() == s.len(),
        forall|i: int| 0 <= i < s.len() ==> attrs_dv(s)[i] == attr_dv(s[i]),
    decreases s,
{
    if s.len() > 0 {
        lemma_attrs_dv(s.drop_last());
    }
}

pub proof fn lemma_genargs_dv(s: Seq<GenArg>)
    ensures
        genargs_dv(s).len() == s.len(),
        forall|i: int| 0 <= i < s.len() ==> genargs_dv(s)[i] == genarg_dv(s[i]),
    decreases s,
{
    if s.len() > 0 {
        lemma_genargs_dv(s.drop_last());
    }
}

pub proof fn lemma_segs_dv(s: Seq<PathSeg>)
    ensures
        segs_dv(s).len() == s.len(),
        forall|i: int| 0 <= i < s.len() ==> segs_dv(s)[i] == seg_dv(s[i]),
    decreases s,
{
    if s.len() > 0 {
        lemma_segs_dv(s.drop_last());
    }
}

pub proof fn lemma_items_dv(s: Seq<Item>)
    ensures
        items_dv(s).len() == s.len(),
        forall|i: int| 0 <= i < s.len() ==> items_dv(s)[i] == item_dv(s[i]),
    decreases s,
{
    if s.len() > 0 {
        lemma_items_dv(s.drop_last());
    }
}

pub proof fn lemma_stmts_dv(s: Seq<Stmt>)
    ensures
        stmts_dv(s).len() == s.len(),
        forall|i: int| 0 <= i < s.len() ==> stmts_dv(s)[i] == stmt_dv(s[i]),
    decreases s,
{
    if s.len() > 0 {
        lemma_stmts_dv(s.drop_last());
    }
}

} // verus!

verus! {

// ---------------------------------------------------------------------------
// Small executable utilities: comparisons and view-preserving copies.
// ---------------------------------------------------------------------------

/// Whether a string equals a given literal word.
pub fn is_word(s: &String, w: &str) -> (r: bool)
    ensures
        r == (s@ == w@),
{
    let ws = String::from_str(w);
    *s == ws
}

pub fn string_eq(a: &String, b: &String) -> (r: bool)
    ensures
        r == (a@ == b@),
{
    *a == *b
}

pub fn clone_string(s: &String) -> (r: String)
    ensures
        r@ == s@,
{
    s.clone()
}

pub fn clone_opt_string(s: &Option<String>) -> (r: Option<String>)
    ensures
        r matches Some(x) ==> s@ matches Some(y) && x@ == y@,
        r is None <==> s is None,
{
    match s {
        Option::Some(x) => Option::Some(x.clone()),
        Option::None => Option::None,
    }
}

pub fn clone_strings(v: &Vec<String>) -> (r: Vec<String>)
    ensures
        strings_dv(r@) == strings_dv(v@),
{
    let mut r: Vec<String> = Vec::new();
    let mut i: usize = 0;
    while i < v.len()
        invariant
            0 <= i <= v.len(),
            r@.len() == i,
            forall|j: int| 0 <= j < i ==> r@[j]@ == v@[j]@,
        decreases v@.len() - i,
    {
        r.push(v[i].clone());
        i = i + 1;
    }
    proof {
        lemma_strings_dv(r@);
        lemma_strings_dv(v@);
        assert(strings_dv(r@) =~= strings_dv(v@));
    }
    r
}

pub fn clone_meta(m: &Meta) -> (r: Meta)
    ensures
        meta_dv(r) == meta_dv(*m),
    decreases *m,
{
    match m {
        Meta::Word(w) => Meta::Word(w.clone()),
        Meta::Str(s) => Meta::Str(s.clone()),
        Meta::NameValue(n, v) => Meta::NameValue(n.clone(), v.clone()),
        Meta::List(n, args) => Meta::List(n.clone(), clone_metas(args)),
    }
}

pub fn clone_metas(v: &Vec<Meta>) -> (r: Vec<Meta>)
    ensures
        metas_dv(r@) == metas_dv(v@),
    decreases v@,
{
    let mut r: Vec<Meta> = Vec::new();
    let mut i: usize = 0;
    while i < v.len()
        invariant
            0 <= i <= v.len(),
            r@.len() == i,
            forall|j: int| 0 <= j < i ==> meta_dv(r@[j]) == meta_dv(v@[j]),
        decreases v@.len() - i,
    {
        let m = clone_meta(&v[i]);
        r.push(m);
        i = i + 1;
    }
    proof {
        lemma_metas_dv(r@);
        lemma_metas_dv(v@);
        assert(metas_dv(r@) =~= metas_dv(v@));
    }
    r
}

pub fn clone_attr(a: &Attr) -> (r: Attr)
    ensures
        attr_dv(r) == attr_dv(*a),
{
    Attr { path: clone_strings(&a.path), args: clone_metas(&a.args) }
}

pub fn clone_attrs(v: &Vec<Attr>) -> (r: Vec<Attr>)
    ensures
        attrs_dv(r@) == attrs_dv(v@),
{
    let mut r: Vec<Attr> = Vec::new();
    let mut i: usize = 0;
    while i < v.len()
        invariant
            0 <= i <= v.len(),
            r@.len() == i,
            forall|j: int| 0 <= j < i ==> attr_dv(r@[j]) == attr_dv(v@[j]),
        decreases v@.len() - i,
    {
        let a = clone_attr(&v[i]);
        r.push(a);
        i = i + 1;
    }
    proof {
        lemma_attrs_dv(r@);
        lemma_attrs_dv(v@);
        assert(attrs_dv(r@) =~= attrs_dv(v@));
    }
    r
}

pub fn clone_seg(s: &PathSeg) -> (r: PathSeg)
    ensures
        seg_dv(r) == seg_dv(*s),
    decreases *s,
{
    PathSeg { ident: s.ident.clone(), args: clone_genargs(&s.args) }
}

pub fn clone_genargs(v: &Vec<GenArg>) -> (r: Vec<GenArg>)
    ensures
        genargs_dv(r@) == genargs_dv(v@),
    decreases v@,
{
    let mut r: Vec<GenArg> = Vec::new();
    let mut i: usize = 0;
    while i < v.len()
        invariant
            0 <= i <= v.len(),
            r@.len() == i,
            forall|j: int| 0 <= j < i ==> genarg_dv(r@[j]) == genarg_dv(v@[j]),
        decreases v@.len() - i,
    {
        let a = clone_genarg(&v[i]);
        r.push(a);
        i = i + 1;
    }
    proof {
        lemma_genargs_dv(r@);
        lemma_genargs_dv(v@);
        assert(genargs_dv(r@) =~= genargs_dv(v@));
    }
    r
}

pub fn clone_genarg(a: &GenArg) -> (r: GenArg)
    ensures
        genarg_dv(r) == genarg_dv(*a),
    decreases *a,
{
    match a {
        GenArg::Ty(t) => GenArg::Ty(clone_ty(t)),
        GenArg::Binding(n, t) => GenArg::Binding(n.clone(), clone_ty(t)),
    }
}

pub fn clone_ty(t: &Ty) -> (r: Ty)
    ensures
        ty_dv(r) == ty_dv(*t),
    decreases *t,
{
    match t {
        Ty::Path(p) => Ty::Path(clone_path(p)),
        Ty::Opaque(s) => Ty::Opaque(s.clone()),
    }
}

pub fn clone_path(p: &Path) -> (r: Path)
    ensures
        path_dv(r) == path_dv(*p),
    decreases *p,
{
    let mut segs: Vec<PathSeg> = Vec::new();
    let mut i: usize = 0;
    while i < p.segments.len()
        invariant
            0 <= i <= p.segments.len(),
            segs@.len() == i,
            forall|j: int| 0 <= j < i ==> seg_dv(segs@[j]) == seg_dv(p.segments@[j]),
        decreases p.segments@.len() - i,
    {
        let s = clone_seg(&p.segments[i]);
        segs.push(s);
        i = i + 1;
    }
    proof {
        lemma_segs_dv(segs@);
        lemma_segs_dv(p.segments@);
        assert(segs_dv(segs@) =~= segs_dv(p.segments@));
    }
    Path { segments: segs }
}

} // verus!

verus! {

pub proof fn lemma_paths_dv(s: Seq<Path>)
    ensures
        paths_dv(s).len() == s.len(),
        forall|i: int| 0 <= i < s.len() ==> paths_dv(s)[i] == path_dv(s[i]),
    decreases s,
{
    if s.len() > 0 {
        lemma_paths_dv(s.drop_last());
    }
}

pub proof fn lemma_typarams_dv(s: Seq<TypeParam>)
    ensures
        typarams_dv(s).len() == s.len(),
        forall|i: int| 0 <= i < s.len() ==> typarams_dv(s)[i] == typaram_dv(s[i]),
    decreases s,
{
    if s.len() > 0 {
        lemma_typarams_dv(s.drop_last());
    }
}

pub proof fn lemma_preds_dv(s: Seq<WherePred>)
    ensures
        preds_dv(s).len() == s.len(),
        forall|i: int| 0 <= i < s.len() ==> preds_dv(s)[i] == pred_dv(s[i]),
    decreases s,
{
    if s.len() > 0 {
        lemma_preds_dv(s.drop_last());
    }
}

} // verus!

verus! {

pub fn clone_typarams(v: &Vec<TypeParam>) -> (r: Vec<TypeParam>)
    ensures
        typarams_dv(r@) == typarams_dv(v@),
{
    let mut r: Vec<TypeParam> = Vec::new();
    let mut i: usize = 0;
    while i < v.len()
        invariant
            0 <= i <= v.len(),
            r@.len() == i,
            forall|j: int| 0 <= j < i ==> typaram_dv(r@[j]) == typaram_dv(v@[j]),
        decreases v@.len() - i,
    {
        let t = TypeParam { ident: clone_string(&v[i].ident), bounds: clone_paths(&v[i].bounds) };
        r.push(t);
        i = i + 1;
    }
    proof {
        lemma_typarams_dv(r@);
        lemma_typarams_dv(v@);
        assert(typarams_dv(r@) =~= typarams_dv(v@));
    }
    r
}

pub fn clone_preds(v: &Vec<WherePred>) -> (r: Vec<WherePred>)
    ensures
        preds_dv(r@) == preds_dv(v@),
{
    let mut r: Vec<WherePred> = Vec::new();
    let mut i: usize = 0;
    while i < v.len()
        invariant
            0 <= i <= v.len(),
            r@.len() == i,
            forall|j: int| 0 <= j < i ==> pred_dv(r@[j]) == pred_dv(v@[j]),
        decreases v@.len() - i,
    {
        let p = WherePred { bounded: clone_ty(&v[i].bounded), bounds: clone_paths(&v[i].bounds) };
        r.push(p);
        i = i + 1;
    }
    proof {
        lemma_preds_dv(r@);
        lemma_preds_dv(v@);
        assert(preds_dv(r@) =~= preds_dv(v@));
    }
    r
}

pub fn clone_paths(v: &Vec<Path>) -> (r: Vec<Path>)
    ensures
        paths_dv(r@) == paths_dv(v@),
{
    let mut r: Vec<Path> = Vec::new();
    let mut i: usize = 0;
    while i < v.len()
        invariant
            0 <= i <= v.len(),
            r@.len() == i,
            forall|j: int| 0 <= j < i ==> path_dv(r@[j]) == path_dv(v@[j]),
        decreases v@.len() - i,
    {
        let p = clone_path(&v[i]);
        r.push(p);
        i = i + 1;
    }
    proof {
        lemma_paths_dv(r@);
        lemma_paths_dv(v@);
        assert(paths_dv(r@) =~= paths_dv(v@));
    }
    r
}

} // verus!

verus! {

pub proof fn lemma_exprs_dv(s: Seq<Expr>)
    ensures
        exprs_dv(s).len() == s.len(),
        forall|i: int| 0 <= i < s.len() ==> exprs_dv(s)[i] == expr_dv(s[i]),
    decreases s,
{
    if s.len() > 0 {
        lemma_exprs_dv(s.drop_last());
    }
}

pub proof fn lemma_fields_dv(s: Seq<Field>)
    ensures
        fields_dv(s).len() == s.len(),
        forall|i: int| 0 <= i < s.len() ==> fields_dv(s)[i] == field_dv(s[i]),
    decreases s,
{
    if s.len() > 0 {
        lemma_fields_dv(s.drop_last());
    }
}

pub proof fn lemma_fndefs_dv(s: Seq<FnDef>)
    ensures
        fndefs_dv(s).len() == s.len(),
        forall|i: int| 0 <= i < s.len() ==> fndefs_dv(s)[i] == fndef_dv(s[i]),
    decreases s,
{
    if s.len() > 0 {
        lemma_fndefs_dv(s.drop_last());
    }
}

pub proof fn lemma_methods_dv(s: Seq<TraitMethod>)
    ensures
        methods_dv(s).len() == s.len(),
        forall|i: int| 0 <= i < s.len() ==> methods_dv(s)[i] == method_dv(s[i]),
    decreases s,
{
    if s.len() > 0 {
        lemma_methods_dv(s.drop_last());
    }
}

pub proof fn lemma_usetrees_dv(s: Seq<UseTree>)
    ensures
        usetrees_dv(s).len() == s.len(),
        forall|i: int| 0 <= i < s.len() ==> usetrees_dv(s)[i] == usetree_dv(s[i]),
    decreases s,
{
    if s.len() > 0 {
        lemma_usetrees_dv(s.drop_last());
    }
}

pub proof fn lemma_fnargs_dv(s: Seq<FnArg>)
    ensures
        fnargs_dv(s).len() == s.len(),
        forall|i: int| 0 <= i < s.len() ==> fnargs_dv(s)[i] == fnarg_dv(s[i]),
    decreases s,
{
    if s.len() > 0 {
        lemma_fnargs_dv(s.drop_last());
    }
}

// ---------------------------------------------------------------------------
// View-preserving copies of whole trees: each variant of the dispatcher
// starts from a fresh copy of the input tree.
// ---------------------------------------------------------------------------

pub fn clone_expr(e: &Expr) -> (r: Expr)
    ensures
        expr_dv(r) == expr_dv(*e),
    decreases *e, 0int,
{
    match e {
        Expr::Path(p) => Expr::Path(clone_path(p)),
        Expr::Lit(s) => Expr::Lit(s.clone()),
        Expr::Call(f, args) => Expr::Call(Box::new(clone_expr(f)), clone_exprs(args)),
        Expr::Await(inner) => Expr::Await(Box::new(clone_expr(inner))),
        Expr::Async(b) => Expr::Async(clone_block(b)),
        Expr::Block(b) => Expr::Block(clone_block(b)),
        Expr::MacroCall(p, a) => {
            let na = match a {
                MacArgs::Exprs(es) => {
                    proof {
                        assert(macargs_dv(*a) == SpecMacArgs::Exprs(exprs_dv(es@)));
                    }
                    MacArgs::Exprs(clone_exprs(es))
                },
                MacArgs::Raw(s) => {
                    proof {
                        assert(macargs_dv(*a) == SpecMacArgs::Raw(s@));
                    }
                    MacArgs::Raw(s.clone())
                },
            };
            let out = Expr::MacroCall(clone_path(p), na);
            proof {
                assert(expr_dv(*e) == SpecExpr::MacroCall(path_dv(*p), macargs_dv(*a)));
                assert(path_dv(out->MacroCall_0) == path_dv(*p));
                assert(macargs_dv(out->MacroCall_1) == macargs_dv(*a));
                assert(expr_dv(out) == SpecExpr::MacroCall(
                    path_dv(out->MacroCall_0),
                    macargs_dv(out->MacroCall_1),
                ));
            }
            out
        },
    }
}

pub fn clone_exprs(v: &Vec<Expr>) -> (r: Vec<Expr>)
    ensures
        exprs_dv(r@) == exprs_dv(v@),
    decreases v@, 1int,
{
    let mut r: Vec<Expr> = Vec::new();
    let mut i: usize = 0;
    while i < v.len()
        invariant
            0 <= i <= v.len(),
            r@.len() == i,
            forall|j: int| 0 <= j < i ==> expr_dv(r@[j]) == expr_dv(v@[j]),
        decreases v@.len() - i,
    {
        let e = clone_expr(&v[i]);
        r.push(e);
        i = i + 1;
    }
    proof {
        lemma_exprs_dv(r@);
        lemma_exprs_dv(v@);
        assert(exprs_dv(r@) =~= exprs_dv(v@));
    }
    r
}

pub fn clone_stmt(s: &Stmt) -> (r: Stmt)
    ensures
        stmt_dv(r) == stmt_dv(*s),
    decreases *s, 0int,
{
    match s {
        Stmt::Expr(e) => Stmt::Expr(clone_expr(e)),
        Stmt::Let(n, e) => Stmt::Let(n.clone(), clone_expr(e)),
        Stmt::Item(i) => Stmt::Item(Box::new(clone_item(i))),
    }
}

pub fn clone_block(b: &Block) -> (r: Block)
    ensures
        block_dv(r) == block_dv(*b),
    decreases *b, 1int,
{
    let mut stmts: Vec<Stmt> = Vec::new();
    let mut i: usize = 0;
    while i < b.stmts.len()
        invariant
            0 <= i <= b.stmts.len(),
            stmts@.len() == i,
            forall|j: int| 0 <= j < i ==> stmt_dv(stmts@[j]) == stmt_dv(b.stmts@[j]),
        decreases b.stmts@.len() - i,
    {
        let s = clone_stmt(&b.stmts[i]);
        stmts.push(s);
        i = i + 1;
    }
    proof {
        lemma_stmts_dv(stmts@);
        lemma_stmts_dv(b.stmts@);
        assert(stmts_dv(stmts@) =~= stmts_dv(b.stmts@));
    }
    Block { stmts }
}

pub fn clone_sig(s: &Signature) -> (r: Signature)
    ensures
        sig_dv(r) == sig_dv(*s),
{
    let mut inputs: Vec<FnArg> = Vec::new();
    let mut i: usize = 0;
    while i < s.inputs.len()
        invariant
            0 <= i <= s.inputs.len(),
            inputs@.len() == i,
            forall|j: int| 0 <= j < i ==> fnarg_dv(inputs@[j]) == fnarg_dv(s.inputs@[j]),
        decreases s.inputs@.len() - i,
    {
        let a = FnArg { name: clone_string(&s.inputs[i].name), ty: clone_ty(&s.inputs[i].ty) };
        inputs.push(a);
        i = i + 1;
    }
    proof {
        lemma_fnargs_dv(inputs@);
        lemma_fnargs_dv(s.inputs@);
        assert(fnargs_dv(inputs@) =~= fnargs_dv(s.inputs@));
    }
    Signature {
        is_async: s.is_async,
        ident: clone_string(&s.ident),
        generics: Generics {
            params: clone_typarams(&s.generics.params),
            preds: clone_preds(&s.generics.preds),
        },
        inputs,
        output: match &s.output {
            Option::Some(t) => Option::Some(clone_ty(t)),
            Option::None => Option::None,
        },
    }
}

pub fn clone_fndef(f: &FnDef) -> (r: FnDef)
    ensures
        fndef_dv(r) == fndef_dv(*f),
    decreases *f, 1int,
{
    FnDef { attrs: clone_attrs(&f.attrs), sig: clone_sig(&f.sig), body: clone_block(&f.body) }
}

pub fn clone_usetree(t: &UseTree) -> (r: UseTree)
    ensures
        usetree_dv(r) == usetree_dv(*t),
    decreases *t, 0int,
{
    match t {
        UseTree::Prefix(n, sub) => UseTree::Prefix(n.clone(), Box::new(clone_usetree(sub))),
        UseTree::Name(n) => UseTree::Name(n.clone()),
        UseTree::Rename(n, a) => UseTree::Rename(n.clone(), a.clone()),
        UseTree::Group(ts) => UseTree::Group(clone_usetrees(ts)),
        UseTree::Glob => UseTree::Glob,
    }
}


pub fn clone_usetrees(v: &Vec<UseTree>) -> (r: Vec<UseTree>)
    ensures
        usetrees_dv(r@) == usetrees_dv(v@),
    decreases v@, 1int,
{
    let mut r: Vec<UseTree> = Vec::new();
    let mut i: usize = 0;
    while i < v.len()
        invariant
            0 <= i <= v.len(),
            r@.len() == i,
            forall|j: int| 0 <= j < i ==> usetree_dv(r@[j]) == usetree_dv(v@[j]),
        decreases v@.len() - i,
    {
        let t2 = clone_usetree(&v[i]);
        r.push(t2);
        i = i + 1;
    }
    proof {
        lemma_usetrees_dv(r@);
        lemma_usetrees_dv(v@);
        assert(usetrees_dv(r@) =~= usetrees_dv(v@));
    }
    r
}


pub fn clone_methods(v: &Vec<TraitMethod>) -> (r: Vec<TraitMethod>)
    ensures
        methods_dv(r@) == methods_dv(v@),
    decreases v@, 3int,
{
    let mut r: Vec<TraitMethod> = Vec::new();
    let mut i: usize = 0;
    while i < v.len()
        invariant
            0 <= i <= v.len(),
            r@.len() == i,
            forall|j: int| 0 <= j < i ==> method_dv(r@[j]) == method_dv(v@[j]),
        decreases v@.len() - i,
    {
        let m = clone_method(&v[i]);
        r.push(m);
        i = i + 1;
    }
    proof {
        lemma_methods_dv(r@);
        lemma_methods_dv(v@);
        assert(methods_dv(r@) =~= methods_dv(v@));
    }
    r
}

pub fn clone_method(m: &TraitMethod) -> (r: TraitMethod)
    ensures
        method_dv(r) == method_dv(*m),
    decreases *m, 2int,
{
    TraitMethod {
        attrs: clone_attrs(&m.attrs),
        sig: clone_sig(&m.sig),
        body: match &m.body {
            Option::Some(b) => Option::Some(clone_block(b)),
            Option::None => Option::None,
        },
    }
}

pub fn clone_fndefs(v: &Vec<FnDef>) -> (r: Vec<FnDef>)
    ensures
        fndefs_dv(r@) == fndefs_dv(v@),
    decreases v@, 2int,
{
    let mut r: Vec<FnDef> = Vec::new();
    let mut i: usize = 0;
    while i < v.len()
        invariant
            0 <= i <= v.len(),
            r@.len() == i,
            forall|j: int| 0 <= j < i ==> fndef_dv(r@[j]) == fndef_dv(v@[j]),
        decreases v@.len() - i,
    {
        let m = clone_fndef(&v[i]);
        r.push(m);
        i = i + 1;
    }
    proof {
        lemma_fndefs_dv(r@);
        lemma_fndefs_dv(v@);
        assert(fndefs_dv(r@) =~= fndefs_dv(v@));
    }
    r
}

pub fn clone_items(v: &Vec<Item>) -> (r: Vec<Item>)
    ensures
        items_dv(r@) == items_dv(v@),
    decreases v@, 3int,
{
    let mut r: Vec<Item> = Vec::new();
    let mut i: usize = 0;
    while i < v.len()
        invariant
            0 <= i <= v.len(),
            r@.len() == i,
            forall|j: int| 0 <= j < i ==> item_dv(r@[j]) == item_dv(v@[j]),
        decreases v@.len() - i,
    {
        let it = clone_item(&v[i]);
        r.push(it);
        i = i + 1;
    }
    proof {
        lemma_items_dv(r@);
        lemma_items_dv(v@);
        assert(items_dv(r@) =~= items_dv(v@));
    }
    r
}

pub fn clone_item(i: &Item) -> (r: Item)
    ensures
        item_dv(r) == item_dv(*i),
    decreases *i, 2int,
{
    match i {
        Item::Fn(f) => Item::Fn(clone_fndef(f)),
        Item::Struct { attrs, ident, fields } => {
            let mut fs: Vec<Field> = Vec::new();
            let mut k: usize = 0;
            while k < fields.len()
                invariant
                    0 <= k <= fields.len(),
                    fs@.len() == k,
                    forall|j: int| 0 <= j < k ==> field_dv(fs@[j]) == field_dv(fields@[j]),
                decreases fields@.len() - k,
            {
                let f = Field {
                    attrs: clone_attrs(&fields[k].attrs),
                    ident: clone_string(&fields[k].ident),
                    ty: clone_ty(&fields[k].ty),
                };
                fs.push(f);
                k = k + 1;
            }
            proof {
                lemma_fields_dv(fs@);
                lemma_fields_dv(fields@);
                assert(fields_dv(fs@) =~= fields_dv(fields@));
            }
            Item::Struct { attrs: clone_attrs(attrs), ident: clone_string(ident), fields: fs }
        },
        Item::Trait { attrs, ident, methods } => {
            Item::Trait {
                attrs: clone_attrs(attrs),
                ident: clone_string(ident),
                methods: clone_methods(methods),
            }
        },
        Item::Impl { attrs, trait_path, self_ty, methods } => {
            Item::Impl {
                attrs: clone_attrs(attrs),
                trait_path: match trait_path {
                    Option::Some(p) => Option::Some(clone_path(p)),
                    Option::None => Option::None,
                },
                self_ty: clone_ty(self_ty),
                methods: clone_fndefs(methods),
            }
        },
        Item::Use { attrs, tree } => Item::Use {
            attrs: clone_attrs(attrs),
            tree: clone_usetree(tree),
        },
        Item::Mod { attrs, ident, items } => {
            Item::Mod {
                attrs: clone_attrs(attrs),
                ident: clone_string(ident),
                items: clone_items(items),
            }
        },
    }
}

} // verus!
