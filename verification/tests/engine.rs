//! Scenario tests for the variant expansion engine.

use maybe_async_cfg2::ast::{Attr, Block, Expr, Field, FnArg, FnDef, GenArg, Generics, Item,
    Meta, Path, PathSeg, Signature, Stmt, Ty, TypeParam, UseTree};
use maybe_async_cfg2::dispatch::maybe;
use maybe_async_cfg2::params::MacError;

fn s(x: &str) -> String {
    x.to_string()
}

fn seg(name: &str) -> PathSeg {
    PathSeg { ident: s(name), args: vec![] }
}

fn path1(name: &str) -> Path {
    Path { segments: vec![seg(name)] }
}

fn ty1(name: &str) -> Ty {
    Ty::Path(path1(name))
}

fn cfg_feature(name: &str) -> Attr {
    Attr { path: vec![s("cfg")], args: vec![Meta::NameValue(s("feature"), s(name))] }
}

fn two_variant_args(extra: Vec<Meta>) -> Vec<Meta> {
    let mut args = extra;
    args.push(Meta::List(s("sync"), vec![Meta::NameValue(s("feature"), s("use_sync"))]));
    args.push(Meta::List(s("async"), vec![Meta::NameValue(s("feature"), s("use_async"))]));
    args
}

fn simple_struct(field_attrs: Vec<Attr>) -> Item {
    Item::Struct {
        attrs: vec![],
        ident: s("S"),
        fields: vec![Field { attrs: field_attrs, ident: s("f"), ty: ty1("Foo") }],
    }
}

#[test]
fn struct_two_variants_renamed_and_gated() {
    let args = two_variant_args(vec![Meta::List(s("idents"), vec![Meta::Word(s("Foo"))])]);
    let item = simple_struct(vec![]);
    let out = maybe(&args, &item).unwrap();
    let expected_sync = Item::Struct {
        attrs: vec![cfg_feature("use_sync")],
        ident: s("SSync"),
        fields: vec![Field { attrs: vec![], ident: s("f"), ty: ty1("FooSync") }],
    };
    let expected_async = Item::Struct {
        attrs: vec![cfg_feature("use_async")],
        ident: s("SAsync"),
        fields: vec![Field { attrs: vec![], ident: s("f"), ty: ty1("FooAsync") }],
    };
    assert_eq!(out, vec![expected_sync, expected_async]);
}

fn await_call_fn() -> Item {
    Item::Fn(FnDef {
        attrs: vec![],
        sig: Signature {
            is_async: true,
            ident: s("func"),
            generics: Generics { params: vec![], preds: vec![] },
            inputs: vec![],
            output: None,
        },
        body: Block {
            stmts: vec![Stmt::Expr(Expr::Await(Box::new(Expr::Call(
                Box::new(Expr::Path(path1("op"))),
                vec![],
            ))))],
        },
    })
}

#[test]
fn suspending_fn_two_variants() {
    let args = two_variant_args(vec![]);
    let item = await_call_fn();
    let out = maybe(&args, &item).unwrap();
    assert_eq!(out.len(), 2);
    match &out[0] {
        Item::Fn(f) => {
            assert_eq!(f.sig.ident, s("func_sync"));
            assert!(!f.sig.is_async);
            assert_eq!(
                f.body.stmts,
                vec![Stmt::Expr(Expr::Call(Box::new(Expr::Path(path1("op"))), vec![]))]
            );
        }
        other => panic!("expected a function, got {:?}", other),
    }
    match &out[1] {
        Item::Fn(f) => {
            assert_eq!(f.sig.ident, s("func_async"));
            assert!(f.sig.is_async);
            assert_eq!(
                f.body.stmts,
                vec![Stmt::Expr(Expr::Await(Box::new(Expr::Call(
                    Box::new(Expr::Path(path1("op"))),
                    vec![],
                ))))]
            );
        }
        other => panic!("expected a function, got {:?}", other),
    }
}

#[test]
fn keep_if_field_present_only_in_named_variant() {
    let only_if_sync = Attr {
        path: vec![s("maybe_async_cfg2"), s("only_if")],
        args: vec![Meta::NameValue(s("key"), s("sync"))],
    };
    let args = two_variant_args(vec![]);
    let item = simple_struct(vec![only_if_sync]);
    let out = maybe(&args, &item).unwrap();
    assert_eq!(out.len(), 2);
    match (&out[0], &out[1]) {
        (
            Item::Struct { fields: sync_fields, .. },
            Item::Struct { fields: async_fields, .. },
        ) => {
            assert_eq!(sync_fields.len(), 1);
            assert_eq!(sync_fields[0].ident, s("f"));
            assert_eq!(sync_fields[0].attrs, vec![]);
            assert_eq!(async_fields.len(), 0);
        }
        other => panic!("expected two structs, got {:?}", other),
    }
}

#[test]
fn use_mode_rename_becomes_alias() {
    let args = two_variant_args(vec![Meta::List(
        s("idents"),
        vec![Meta::List(
            s("name"),
            vec![Meta::Word(s("use")), Meta::NameValue(s("sync"), s("alt_name"))],
        )],
    )]);
    let item = Item::Use {
        attrs: vec![],
        tree: UseTree::Prefix(s("extcrate"), Box::new(UseTree::Name(s("name")))),
    };
    let out = maybe(&args, &item).unwrap();
    assert_eq!(out.len(), 2);
    match &out[0] {
        Item::Use { tree, .. } => {
            assert_eq!(
                tree,
                &UseTree::Prefix(
                    s("extcrate"),
                    Box::new(UseTree::Rename(s("name"), s("alt_name"))),
                )
            );
        }
        other => panic!("expected an import, got {:?}", other),
    }
    match &out[1] {
        Item::Use { tree, .. } => {
            assert_eq!(
                tree,
                &UseTree::Prefix(
                    s("extcrate"),
                    Box::new(UseTree::Rename(s("name"), s("nameAsync"))),
                )
            );
        }
        other => panic!("expected an import, got {:?}", other),
    }
}

#[test]
fn drop_attrs_removes_attribute_in_one_variant() {
    fn marker() -> Attr {
        Attr { path: vec![s("marker")], args: vec![] }
    }
    let mut args = vec![];
    args.push(Meta::List(
        s("sync"),
        vec![
            Meta::NameValue(s("feature"), s("use_sync")),
            Meta::List(s("drop_attrs"), vec![Meta::Word(s("marker"))]),
        ],
    ));
    args.push(Meta::List(s("async"), vec![Meta::NameValue(s("feature"), s("use_async"))]));
    let item = simple_struct(vec![marker()]);
    let out = maybe(&args, &item).unwrap();
    match (&out[0], &out[1]) {
        (
            Item::Struct { fields: sync_fields, .. },
            Item::Struct { fields: async_fields, .. },
        ) => {
            assert_eq!(sync_fields[0].attrs, vec![]);
            assert_eq!(async_fields[0].attrs, vec![marker()]);
        }
        other => panic!("expected two structs, got {:?}", other),
    }
}

#[test]
fn repeated_invocation_is_byte_identical() {
    let args = two_variant_args(vec![Meta::List(s("idents"), vec![Meta::Word(s("Foo"))])]);
    let item = simple_struct(vec![]);
    let a = maybe(&args, &item).unwrap();
    let b = maybe(&args, &item).unwrap();
    assert_eq!(a, b);
}

#[test]
fn duplicate_variant_keys_are_rejected() {
    let mut args = vec![];
    args.push(Meta::List(s("sync"), vec![Meta::NameValue(s("key"), s("k"))]));
    args.push(Meta::List(s("async"), vec![Meta::NameValue(s("key"), s("k"))]));
    let item = simple_struct(vec![]);
    let out = maybe(&args, &item);
    assert_eq!(out, Err(MacError::DuplicateKey(s("k"))));
}

#[test]
fn unknown_parameter_is_rejected() {
    let args = vec![Meta::NameValue(s("bogus"), s("x"))];
    let item = simple_struct(vec![]);
    let out = maybe(&args, &item);
    assert_eq!(out, Err(MacError::UnknownParam(s("bogus"))));
}

#[test]
fn future_bound_is_substituted_within_one_function_only() {
    // fn f<T: Future<Output = Out>>(x: T) { g() }  next to  fn h(y: T)
    let future_bound = Path {
        segments: vec![PathSeg {
            ident: s("Future"),
            args: vec![GenArg::Binding(s("Output"), ty1("Out"))],
        }],
    };
    let f = Item::Fn(FnDef {
        attrs: vec![],
        sig: Signature {
            is_async: true,
            ident: s("f"),
            generics: Generics {
                params: vec![TypeParam { ident: s("T"), bounds: vec![future_bound] }],
                preds: vec![],
            },
            inputs: vec![FnArg { name: s("x"), ty: ty1("T") }],
            output: None,
        },
        body: Block { stmts: vec![] },
    });
    let h = Item::Fn(FnDef {
        attrs: vec![],
        sig: Signature {
            is_async: false,
            ident: s("h"),
            generics: Generics { params: vec![], preds: vec![] },
            inputs: vec![FnArg { name: s("y"), ty: ty1("T") }],
            output: None,
        },
        body: Block { stmts: vec![] },
    });
    let m = Item::Mod { attrs: vec![], ident: s("inner"), items: vec![f, h] };
    let args = vec![Meta::List(
        s("sync"),
        vec![Meta::NameValue(s("feature"), s("use_sync"))],
    )];
    let out = maybe(&args, &m).unwrap();
    assert_eq!(out.len(), 1);
    match &out[0] {
        Item::Mod { items, .. } => {
            match &items[0] {
                Item::Fn(ff) => {
                    // the bounded parameter is removed, the use of T resolved
                    assert_eq!(ff.sig.generics.params, vec![]);
                    assert_eq!(ff.sig.inputs[0].ty, ty1("Out"));
                }
                other => panic!("expected a function, got {:?}", other),
            }
            match &items[1] {
                Item::Fn(hh) => {
                    // the sibling keeps its T untouched
                    assert_eq!(hh.sig.inputs[0].ty, ty1("T"));
                }
                other => panic!("expected a function, got {:?}", other),
            }
        }
        other => panic!("expected a module, got {:?}", other),
    }
}

#[test]
fn tagged_doc_example_kept_only_in_its_variant() {
    let doc = |line: &str| Attr { path: vec![s("doc")], args: vec![Meta::Str(s(line))] };
    let item = Item::Struct {
        attrs: vec![
            doc("Summary."),
            doc("```rust, only_if(sync)"),
            doc("let a = 1;"),
            doc("```"),
            doc("```rust, only_if(async)"),
            doc("let b = 2;"),
            doc("```"),
        ],
        ident: s("S"),
        fields: vec![],
    };
    let args = two_variant_args(vec![]);
    let out = maybe(&args, &item).unwrap();
    match &out[0] {
        Item::Struct { attrs, .. } => {
            let expected = vec![
                cfg_feature("use_sync"),
                doc("Summary."),
                doc("```rust, only_if(sync)"),
                doc("let a = 1;"),
                doc("```"),
            ];
            assert_eq!(attrs, &expected);
        }
        other => panic!("expected a struct, got {:?}", other),
    }
}

#[test]
fn replace_feature_rewrites_nested_cfg() {
    let field_attr = Attr {
        path: vec![s("cfg")],
        args: vec![Meta::List(
            s("any"),
            vec![Meta::NameValue(s("feature"), s("secure"))],
        )],
    };
    let mut args = vec![];
    args.push(Meta::List(
        s("sync"),
        vec![
            Meta::NameValue(s("feature"), s("use_sync")),
            Meta::List(
                s("replace_feature"),
                vec![Meta::Str(s("secure")), Meta::Str(s("secure_sync"))],
            ),
        ],
    ));
    let item = simple_struct(vec![field_attr]);
    let out = maybe(&args, &item).unwrap();
    match &out[0] {
        Item::Struct { fields, .. } => {
            let expected = Attr {
                path: vec![s("cfg")],
                args: vec![Meta::List(
                    s("any"),
                    vec![Meta::NameValue(s("feature"), s("secure_sync"))],
                )],
            };
            assert_eq!(fields[0].attrs, vec![expected]);
        }
        other => panic!("expected a struct, got {:?}", other),
    }
}
