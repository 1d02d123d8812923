use witgen::definition::{Definition, Field};
use witgen::dispatch::{decimal_text, Diagnostic, Item};
use witgen::types::{PathArgs, TranslationError, TypeExpr, Wrapper};
use witgen::witgen;

fn ty(ident: &str) -> TypeExpr {
    TypeExpr::Path {
        text: ident.to_string(),
        qualified: false,
        ident: ident.to_string(),
        args: PathArgs::Absent,
    }
}

fn record() -> Item {
    Item::Supported(Definition::Record {
        name: "TestStruct".to_string(),
        fields: vec![Field { name: "inner".to_string(), ty: ty("String") }],
    })
}

#[test]
fn unsupported_item_is_reported() {
    let res = witgen(&Item::Unsupported, Some("true"));
    assert_eq!(res, Err(Diagnostic::UnsupportedItem));
    assert_eq!(res.unwrap_err().message(), "unsupported item kind");
}

#[test]
fn disabled_switch_renders_and_writes_nothing() {
    let out = witgen(&record(), None).unwrap();
    assert_eq!(out.fragment, "record TestStruct {\n    inner: string,\n}");
    assert_eq!(out.artifact, None);
    let off = witgen(&record(), Some("false")).unwrap();
    assert_eq!(off.fragment, "record TestStruct {\n    inner: string,\n}");
    assert_eq!(off.artifact, None);
}

#[test]
fn enabled_switch_gives_the_artifact_of_the_fragment() {
    let out = witgen(&record(), Some("TRUE")).unwrap();
    let artifact = out.artifact.unwrap();
    assert_eq!(artifact.content, out.fragment.as_bytes().to_vec());
    assert_eq!(artifact.file_name, witgen::store::file_name(&out.fragment));
}

#[test]
fn failure_is_reported_under_the_definition_name() {
    let item = Item::Supported(Definition::Alias {
        name: "Bad".to_string(),
        target: TypeExpr::Other { text: "& str".to_string() },
    });
    let res = witgen(&item, Some("true"));
    assert_eq!(
        res,
        Err(Diagnostic::Translation {
            definition: "Bad".to_string(),
            cause: TranslationError::UnsupportedShape { rendered: "& str".to_string() },
        })
    );
    assert_eq!(res.unwrap_err().message(), "cannot translate type '& str'");
}

#[test]
fn arity_message() {
    let error = TranslationError::ArityViolation { wrapper: Wrapper::List, arity: 2 };
    assert_eq!(error.message(), "Vec has unsupported arity 2");
    let none = TranslationError::ArityViolation { wrapper: Wrapper::Optional, arity: 0 };
    assert_eq!(none.message(), "Option has unsupported arity 0");
    let many = TranslationError::ArityViolation { wrapper: Wrapper::Fallible, arity: 12 };
    assert_eq!(many.message(), "Result has unsupported arity 12");
}

#[test]
fn decimal_texts() {
    assert_eq!(decimal_text(0), "0");
    assert_eq!(decimal_text(7), "7");
    assert_eq!(decimal_text(10), "10");
    assert_eq!(decimal_text(12345), "12345");
    assert_eq!(decimal_text(9007199254740993), "9007199254740993");
}
