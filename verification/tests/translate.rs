use witgen::types::{nominal, wrapper_named, PathArgs, TranslationError, TypeExpr, Wrapper};

fn named(ident: &str) -> TypeExpr {
    TypeExpr::Path {
        text: ident.to_string(),
        qualified: false,
        ident: ident.to_string(),
        args: PathArgs::Absent,
    }
}

fn generic(ident: &str, text: &str, args: Vec<TypeExpr>) -> TypeExpr {
    TypeExpr::Path {
        text: text.to_string(),
        qualified: false,
        ident: ident.to_string(),
        args: PathArgs::Angle(args),
    }
}

fn other(text: &str) -> TypeExpr {
    TypeExpr::Other { text: text.to_string() }
}

fn unsupported(text: &str) -> Result<String, TranslationError> {
    Err(TranslationError::UnsupportedShape { rendered: text.to_string() })
}

fn ok(text: &str) -> Result<String, TranslationError> {
    Ok(text.to_string())
}

#[test]
fn signed_integers_take_the_signed_marker() {
    assert_eq!(named("i8").to_wit(), ok("s8"));
    assert_eq!(named("i16").to_wit(), ok("s16"));
    assert_eq!(named("i32").to_wit(), ok("s32"));
    assert_eq!(named("i64").to_wit(), ok("s64"));
}

#[test]
fn machine_sized_integers_become_64_bit() {
    assert_eq!(named("usize").to_wit(), ok("u64"));
    assert_eq!(named("isize").to_wit(), ok("s64"));
}

#[test]
fn other_names_pass_through() {
    assert_eq!(named("u8").to_wit(), ok("u8"));
    assert_eq!(named("u64").to_wit(), ok("u64"));
    assert_eq!(named("bool").to_wit(), ok("bool"));
    assert_eq!(named("f32").to_wit(), ok("f32"));
    assert_eq!(named("i128").to_wit(), ok("i128"));
    assert_eq!(named("TestStruct").to_wit(), ok("TestStruct"));
}

#[test]
fn text_is_string() {
    assert_eq!(named("String").to_wit(), ok("string"));
}

#[test]
fn qualified_text_is_string() {
    let ty = TypeExpr::Path {
        text: "std :: string :: String".to_string(),
        qualified: true,
        ident: "String".to_string(),
        args: PathArgs::Absent,
    };
    assert_eq!(ty.to_wit(), ok("string"));
}

#[test]
fn list_of_text_nests_in_order() {
    let ty = generic("Vec", "Vec < String >", vec![named("String")]);
    let text = ty.to_wit().unwrap();
    assert_eq!(text, "list <string>");
    let list_at = text.find("list").unwrap();
    let string_at = text.find("string").unwrap();
    assert!(list_at < string_at);
}

#[test]
fn option_of_named_type() {
    let ty = generic("Option", "Option < Y >", vec![named("Y")]);
    assert_eq!(ty.to_wit(), ok("option <Y>"));
}

#[test]
fn wrappers_nest() {
    let inner = generic("Option", "Option < i32 >", vec![named("i32")]);
    let ty = generic("Vec", "Vec < Option < i32 > >", vec![inner]);
    assert_eq!(ty.to_wit(), ok("list <option <s32>>"));
}

#[test]
fn single_wrapper_with_no_argument_is_an_arity_violation() {
    let list = generic("Vec", "Vec < >", vec![]);
    assert_eq!(
        list.to_wit(),
        Err(TranslationError::ArityViolation { wrapper: Wrapper::List, arity: 0 })
    );
    let option = generic("Option", "Option < >", vec![]);
    assert_eq!(
        option.to_wit(),
        Err(TranslationError::ArityViolation { wrapper: Wrapper::Optional, arity: 0 })
    );
}

#[test]
fn single_wrapper_with_two_arguments_is_an_arity_violation() {
    let list = generic("Vec", "Vec < u8 , u16 >", vec![named("u8"), named("u16")]);
    assert_eq!(
        list.to_wit(),
        Err(TranslationError::ArityViolation { wrapper: Wrapper::List, arity: 2 })
    );
    let option = generic("Option", "Option < u8 , u16 >", vec![named("u8"), named("u16")]);
    assert_eq!(
        option.to_wit(),
        Err(TranslationError::ArityViolation { wrapper: Wrapper::Optional, arity: 2 })
    );
}

#[test]
fn arity_is_tested_before_the_arguments() {
    let list = generic("Vec", "Vec < & str , u16 >", vec![other("& str"), named("u16")]);
    assert_eq!(
        list.to_wit(),
        Err(TranslationError::ArityViolation { wrapper: Wrapper::List, arity: 2 })
    );
}

#[test]
fn wrapper_without_angle_brackets_is_unsupported() {
    assert_eq!(named("Vec").to_wit(), unsupported("Vec"));
    assert_eq!(named("Option").to_wit(), unsupported("Option"));
    assert_eq!(named("Result").to_wit(), unsupported("Result"));
    let call = TypeExpr::Path {
        text: "Vec (u8)".to_string(),
        qualified: false,
        ident: "Vec".to_string(),
        args: PathArgs::Parenthesized,
    };
    assert_eq!(call.to_wit(), unsupported("Vec (u8)"));
}

#[test]
fn fallible_with_two_arguments() {
    let ty = generic("Result", "Result < String , u8 >", vec![named("String"), named("u8")]);
    assert_eq!(ty.to_wit(), ok("expected <string, u8>"));
}

#[test]
fn fallible_with_one_argument() {
    let ty = generic("Result", "Result < String >", vec![named("String")]);
    assert_eq!(ty.to_wit(), ok("expected <string>"));
}

#[test]
fn fallible_with_three_arguments_is_an_arity_violation() {
    let ty = generic(
        "Result",
        "Result < u8 , u8 , u8 >",
        vec![named("u8"), named("u8"), named("u8")],
    );
    assert_eq!(
        ty.to_wit(),
        Err(TranslationError::ArityViolation { wrapper: Wrapper::Fallible, arity: 3 })
    );
}

#[test]
fn fallible_with_no_argument_is_an_arity_violation() {
    let ty = generic("Result", "Result < >", vec![]);
    assert_eq!(
        ty.to_wit(),
        Err(TranslationError::ArityViolation { wrapper: Wrapper::Fallible, arity: 0 })
    );
}

#[test]
fn arrays_and_slices_are_lists() {
    let array = TypeExpr::Array { elem: Box::new(named("u8")) };
    let slice = TypeExpr::Slice { elem: Box::new(named("u8")) };
    assert_eq!(array.to_wit(), ok("list <u8>"));
    assert_eq!(slice.to_wit(), ok("list <u8>"));
}

#[test]
fn empty_tuple() {
    let ty = TypeExpr::Tuple { elems: vec![] };
    assert_eq!(ty.to_wit(), ok("tuple<>"));
}

#[test]
fn tuple_keeps_the_order_of_its_elements() {
    let ty = TypeExpr::Tuple { elems: vec![named("String"), named("i64"), named("bool")] };
    assert_eq!(ty.to_wit(), ok("tuple<string, s64, bool>"));
    let one = TypeExpr::Tuple { elems: vec![named("u8")] };
    assert_eq!(one.to_wit(), ok("tuple<u8>"));
}

#[test]
fn other_shapes_are_unsupported_verbatim() {
    assert_eq!(other("& 'a str").to_wit(), unsupported("& 'a str"));
    assert_eq!(other("* const u8").to_wit(), unsupported("* const u8"));
    assert_eq!(other("dyn Trait").to_wit(), unsupported("dyn Trait"));
}

#[test]
fn a_failure_inside_aborts_the_whole_type() {
    let ty = generic("Vec", "Vec < & str >", vec![other("& str")]);
    assert_eq!(ty.to_wit(), unsupported("& str"));
    let array = TypeExpr::Array { elem: Box::new(other("fn ()")) };
    assert_eq!(array.to_wit(), unsupported("fn ()"));
}

#[test]
fn the_first_failure_in_order_is_reported() {
    let ty = TypeExpr::Tuple {
        elems: vec![named("u8"), other("& A"), generic("Vec", "Vec < >", vec![]), other("& B")],
    };
    assert_eq!(ty.to_wit(), unsupported("& A"));
}

#[test]
fn qualified_names_are_unsupported() {
    let ty = TypeExpr::Path {
        text: "foo :: Bar".to_string(),
        qualified: true,
        ident: "Bar".to_string(),
        args: PathArgs::Absent,
    };
    assert_eq!(ty.to_wit(), unsupported("foo :: Bar"));
}

#[test]
fn user_generics_are_unsupported() {
    let ty = generic("HashMap", "HashMap < u8 , u8 >", vec![named("u8"), named("u8")]);
    assert_eq!(ty.to_wit(), unsupported("HashMap < u8 , u8 >"));
}

#[test]
fn wrapper_names() {
    assert_eq!(wrapper_named(&"Vec".to_string()), Some(Wrapper::List));
    assert_eq!(wrapper_named(&"Option".to_string()), Some(Wrapper::Optional));
    assert_eq!(wrapper_named(&"Result".to_string()), Some(Wrapper::Fallible));
    assert_eq!(wrapper_named(&"vec".to_string()), None);
    assert_eq!(Wrapper::List.keyword_str(), "list");
    assert_eq!(Wrapper::Optional.keyword_str(), "option");
    assert_eq!(Wrapper::Fallible.keyword_str(), "expected");
    assert_eq!(Wrapper::Fallible.host_name_str(), "Result");
}

#[test]
fn nominal_tokens() {
    assert_eq!(nominal(&"i32".to_string()), "s32");
    assert_eq!(nominal(&"usize".to_string()), "u64");
    assert_eq!(nominal(&"Thing".to_string()), "Thing");
}
