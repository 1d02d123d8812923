//! Type expressions and their translation into the interface grammar.

use vstd::prelude::*;
use vstd::string::*;

verus! {

/// The generic wrappers that the interface grammar knows.
#[derive(Debug, Clone, Copy, PartialEq, Eq)]
pub enum Wrapper {
    /// `Vec<T>`, rendered `list <T>`.
    List,
    /// `Option<T>`, rendered `option <T>`.
    Optional,
    /// `Result<T, E>`, rendered `expected <T, E>`, or `Result<T>`, rendered
    /// `expected <T>`.
    Fallible,
}

impl Wrapper {
    /// The wrapper's keyword in the interface grammar.
    pub open spec fn keyword(self) -> Seq<char> {
        match self {
            Wrapper::List => "list"@,
            Wrapper::Optional => "option"@,
            Wrapper::Fallible => "expected"@,
        }
    }

    /// The wrapper's name in the host language.
    pub open spec fn host_name(self) -> Seq<char> {
        match self {
            Wrapper::List => "Vec"@,
            Wrapper::Optional => "Option"@,
            Wrapper::Fallible => "Result"@,
        }
    }

    /// The most type arguments that the wrapper takes.
    pub open spec fn max_arity(self) -> nat {
        match self {
            Wrapper::List => 1,
            Wrapper::Optional => 1,
            Wrapper::Fallible => 2,
        }
    }

    /// The fewest type arguments that the wrapper takes.
    pub open spec fn min_arity(self) -> nat {
        match self {
            Wrapper::List => 1,
            Wrapper::Optional => 1,
            Wrapper::Fallible => 1,
        }
    }

    /// The keyword as text.
    pub fn keyword_str(self) -> (word: &'static str)
        ensures
            word@ == self.keyword(),
    {
        match self {
            Wrapper::List => "list",
            Wrapper::Optional => "option",
            Wrapper::Fallible => "expected",
        }
    }

    /// The host name as text.
    pub fn host_name_str(self) -> (word: &'static str)
        ensures
            word@ == self.host_name(),
    {
        match self {
            Wrapper::List => "Vec",
            Wrapper::Optional => "Option",
            Wrapper::Fallible => "Result",
        }
    }
}

/// What follows the last name of a path.
#[derive(Debug, PartialEq, Eq)]
pub enum PathArgs {
    /// Nothing: `Name`.
    Absent,
    /// Arguments in round brackets: `Name(A) -> B`.
    Parenthesized,
    /// Arguments in angle brackets, in order: `Name<A, B>`. An argument that
    /// is no type (a lifetime, a constant) stands as `TypeExpr::Other`.
    Angle(Vec<TypeExpr>),
}

/// A type as it is written in a definition.
#[derive(Debug, PartialEq, Eq)]
pub enum TypeExpr {
    /// An array of fixed size, `[T; N]`. Its size is not kept.
    Array { elem: Box<TypeExpr> },
    /// A slice, `[T]`.
    Slice { elem: Box<TypeExpr> },
    /// A type named by a path. `ident` is the path's last name and `args`
    /// what follows it; `qualified` says that the path has more than that one
    /// name, or a leading `::`; `text` is the whole type as written.
    Path { text: String, qualified: bool, ident: String, args: PathArgs },
    /// A tuple, `(A, B)`, possibly empty.
    Tuple { elems: Vec<TypeExpr> },
    /// Any other shape (a reference, a pointer, a trait object, a closure),
    /// as written.
    Other { text: String },
}

/// Why a type has no translation.
#[derive(Debug, Clone, PartialEq, Eq)]
pub enum TranslationError {
    /// The type, or a part of it, has a shape without a mapping. `rendered`
    /// is the offending type as written.
    UnsupportedShape { rendered: String },
    /// A wrapper was given a number of type arguments that it does not take.
    ArityViolation { wrapper: Wrapper, arity: usize },
}

/// A `TranslationError` as a mathematical value.
pub enum Failure {
    UnsupportedShape { rendered: Seq<char> },
    ArityViolation { wrapper: Wrapper, arity: nat },
}

impl View for TranslationError {
    type V = Failure;

    open spec fn view(&self) -> Failure {
        match self {
            TranslationError::UnsupportedShape { rendered } => Failure::UnsupportedShape {
                rendered: rendered@,
            },
            TranslationError::ArityViolation { wrapper, arity } => Failure::ArityViolation {
                wrapper: *wrapper,
                arity: *arity as nat,
            },
        }
    }
}

/// The result of a translation as a mathematical value.
pub open spec fn outcome(res: Result<String, TranslationError>) -> Result<Seq<char>, Failure> {
    match res {
        Ok(text) => Ok(text@),
        Err(error) => Err(error@),
    }
}

/// The token for a type named by a lone identifier. The signed integers of
/// fixed width take the grammar's `s` in place of `i`; the integers of the
/// machine's width become the 64-bit ones; any other name stands for itself.
pub open spec fn nominal_token(ident: Seq<char>) -> Seq<char> {
    if ident == "i8"@ {
        "s8"@
    } else if ident == "i16"@ {
        "s16"@
    } else if ident == "i32"@ {
        "s32"@
    } else if ident == "i64"@ {
        "s64"@
    } else if ident == "isize"@ {
        "s64"@
    } else if ident == "usize"@ {
        "u64"@
    } else {
        ident
    }
}

/// The wrapper that a path's last name stands for, if any.
pub open spec fn wrapper_of(ident: Seq<char>) -> Option<Wrapper> {
    if ident == "Vec"@ {
        Some(Wrapper::List)
    } else if ident == "Option"@ {
        Some(Wrapper::Optional)
    } else if ident == "Result"@ {
        Some(Wrapper::Fallible)
    } else {
        None
    }
}

/// `keyword <inner>`, where `inner` has a translation; else its failure.
pub open spec fn enclosed(keyword: Seq<char>, inner: Result<Seq<char>, Failure>) -> Result<
    Seq<char>,
    Failure,
> {
    match inner {
        Ok(text) => Ok(keyword + " <"@ + text + ">"@),
        Err(failure) => Err(failure),
    }
}

/// `tuple<inner>`, where `inner` has a translation; else its failure.
pub open spec fn tupled(inner: Result<Seq<char>, Failure>) -> Result<Seq<char>, Failure> {
    match inner {
        Ok(text) => Ok("tuple<"@ + text + ">"@),
        Err(failure) => Err(failure),
    }
}

/// The translation of a type into the interface grammar, or the failure of
/// the first part of it, in the order written, that has none.
pub open spec fn wit_type(ty: TypeExpr) -> Result<Seq<char>, Failure>
    decreases ty, 0nat,
{
    match ty {
        TypeExpr::Array { elem } => enclosed(Wrapper::List.keyword(), wit_type(*elem)),
        TypeExpr::Slice { elem } => enclosed(Wrapper::List.keyword(), wit_type(*elem)),
        TypeExpr::Path { text, qualified, ident, args } => match wrapper_of(ident@) {
            Some(wrapper) => match args {
                PathArgs::Angle(list) => if list.len() < wrapper.min_arity() || list.len()
                    > wrapper.max_arity() {
                    Err(Failure::ArityViolation { wrapper, arity: list.len() as nat })
                } else {
                    enclosed(wrapper.keyword(), wit_list(list, list.len() as nat))
                },
                _ => Err(Failure::UnsupportedShape { rendered: text@ }),
            },
            None => if ident@ == "String"@ {
                Ok("string"@)
            } else if qualified || !(args is Absent) {
                Err(Failure::UnsupportedShape { rendered: text@ })
            } else {
                Ok(nominal_token(ident@))
            },
        },
        TypeExpr::Tuple { elems } => tupled(wit_list(elems, elems.len() as nat)),
        TypeExpr::Other { text } => Err(Failure::UnsupportedShape { rendered: text@ }),
    }
}

/// The translations of the first `n` types of `list`, joined by `, `; or the
/// failure of the first among them that has no translation.
pub open spec fn wit_list(list: Vec<TypeExpr>, n: nat) -> Result<Seq<char>, Failure>
    decreases list, n,
{
    if n == 0 || n > list.len() {
        Ok(Seq::empty())
    } else {
        match wit_list(list, (n - 1) as nat) {
            Err(failure) => Err(failure),
            Ok(before) => match wit_type(list[n - 1]) {
                Err(failure) => Err(failure),
                Ok(text) => if n == 1 {
                    Ok(text)
                } else {
                    Ok(before + ", "@ + text)
                },
            },
        }
    }
}

/// Whether `ident` is the name `name`.
fn is_name(ident: &String, name: &str) -> (same: bool)
    ensures
        same == (ident@ == name@),
{
    let other = String::from_str(name);
    *ident == other
}

/// `open` + `inner` + `>`.
fn bracket(open: &str, inner: &str) -> (text: String)
    ensures
        text@ == open@ + inner@ + ">"@,
{
    let mut text = String::from_str(open);
    text.append(inner);
    text.append(">");
    text
}

/// `keyword <inner>`.
fn enclose(keyword: &str, inner: &str) -> (text: String)
    ensures
        text@ == keyword@ + " <"@ + inner@ + ">"@,
{
    let mut text = String::from_str(keyword);
    text.append(" <");
    text.append(inner);
    text.append(">");
    text
}

/// The wrapper that the name `ident` stands for, if any.
pub fn wrapper_named(ident: &String) -> (wrapper: Option<Wrapper>)
    ensures
        wrapper == wrapper_of(ident@),
{
    if is_name(ident, "Vec") {
        Some(Wrapper::List)
    } else if is_name(ident, "Option") {
        Some(Wrapper::Optional)
    } else if is_name(ident, "Result") {
        Some(Wrapper::Fallible)
    } else {
        None
    }
}

/// The token for a type named by the lone identifier `ident`.
pub fn nominal(ident: &String) -> (token: String)
    ensures
        token@ == nominal_token(ident@),
{
    if is_name(ident, "i8") {
        String::from_str("s8")
    } else if is_name(ident, "i16") {
        String::from_str("s16")
    } else if is_name(ident, "i32") {
        String::from_str("s32")
    } else if is_name(ident, "i64") {
        String::from_str("s64")
    } else if is_name(ident, "isize") {
        String::from_str("s64")
    } else if is_name(ident, "usize") {
        String::from_str("u64")
    } else {
        ident.clone()
    }
}

/// Translates the types of `list` in order and joins them by `, `. Stops at
/// the first that has no translation.
pub fn join_wit(list: &Vec<TypeExpr>) -> (res: Result<String, TranslationError>)
    ensures
        outcome(res) == wit_list(*list, list.len() as nat),
    decreases *list, 1nat,
{
    let mut joined = String::new();
    let mut i: usize = 0;
    while i < list.len()
        invariant
            i <= list.len(),
            wit_list(*list, i as nat) == Ok::<Seq<char>, Failure>(joined@),
        decreases list.len() - i,
    {
        match list[i].to_wit() {
            Err(error) => {
                proof {
                    lemma_failure_stays(*list, (i + 1) as nat, list.len() as nat);
                }
                return Err(error);
            },
            Ok(text) => {
                if i > 0 {
                    joined.append(", ");
                }
                joined.append(text.as_str());
                assert(i == 0 ==> joined@ =~= text@);
            },
        }
        i += 1;
    }
    Ok(joined)
}

/// A failure among the first `n` types is the failure of every longer
/// prefix.
pub proof fn lemma_failure_stays(list: Vec<TypeExpr>, n: nat, m: nat)
    requires
        n <= m <= list.len(),
        wit_list(list, n) is Err,
    ensures
        wit_list(list, m) == wit_list(list, n),
    decreases m,
{
    if n < m {
        lemma_failure_stays(list, n, (m - 1) as nat);
    }
}

/// Where every type before the `k`-th has a translation and the `k`-th has
/// none, the failure of the `k`-th is the failure of the whole list.
pub proof fn lemma_first_failure(list: Vec<TypeExpr>, k: nat)
    requires
        k < list.len(),
        forall|j: int| 0 <= j < k ==> (#[trigger] wit_type(list[j])) is Ok,
        wit_type(list[k as int]) is Err,
    ensures
        wit_list(list, list.len() as nat) == Err::<Seq<char>, Failure>(
            wit_type(list[k as int])->Err_0,
        ),
{
    lemma_prefix_translates(list, k);
    lemma_failure_stays(list, k + 1, list.len() as nat);
}

/// Where each of the first `n` types has a translation, so has the list of
/// them.
pub proof fn lemma_prefix_translates(list: Vec<TypeExpr>, n: nat)
    requires
        n <= list.len(),
        forall|j: int| 0 <= j < n ==> (#[trigger] wit_type(list[j])) is Ok,
    ensures
        wit_list(list, n) is Ok,
    decreases n,
{
    if n > 0 {
        lemma_prefix_translates(list, (n - 1) as nat);
        assert(wit_type(list[n - 1]) is Ok);
    }
}

/// Each wrapper's name in the host language stands for that wrapper, and the
/// name of text for none.
pub proof fn lemma_names_distinct()
    ensures
        wrapper_of("Vec"@) == Some(Wrapper::List),
        wrapper_of("Option"@) == Some(Wrapper::Optional),
        wrapper_of("Result"@) == Some(Wrapper::Fallible),
        wrapper_of("String"@) is None,
{
    reveal_strlit("Vec");
    reveal_strlit("Option");
    reveal_strlit("Result");
    reveal_strlit("String");
    assert("Vec"@.len() == 3);
    assert("Option"@.len() == 6 && "Option"@[0] == 'O');
    assert("Result"@.len() == 6 && "Result"@[0] == 'R');
    assert("String"@.len() == 6 && "String"@[0] == 'S');
}

/// A list or an option applied to one type renders as its keyword, a
/// blank, and the translation of that type in angle brackets; where that
/// type has no translation, its failure is the whole type's failure.
pub proof fn lemma_single_wrapper(ty: TypeExpr)
    requires
        ty is Path,
        ty->ident@ == "Vec"@ || ty->ident@ == "Option"@,
        ty->args is Angle,
        ty->args->Angle_0.len() == 1,
    ensures
        ty->ident@ == "Vec"@ ==> wit_type(ty) == enclosed(
            "list"@,
            wit_type(ty->args->Angle_0[0]),
        ),
        ty->ident@ == "Option"@ ==> wit_type(ty) == enclosed(
            "option"@,
            wit_type(ty->args->Angle_0[0]),
        ),
{
    lemma_names_distinct();
    let list = ty->args->Angle_0;
    assert(wit_list(list, 1) == match wit_type(list[0]) {
        Ok(text) => Ok::<Seq<char>, Failure>(text),
        Err(failure) => Err(failure),
    }) by {
        assert(wit_list(list, 0) == Ok::<Seq<char>, Failure>(Seq::empty()));
    }
}

/// A list of text renders as `list <string>`: the list's keyword first, and
/// the token of text inside its brackets.
pub proof fn lemma_list_of_text(ty: TypeExpr)
    requires
        ty is Path,
        ty->ident@ == "Vec"@,
        ty->args is Angle,
        ty->args->Angle_0.len() == 1,
        ty->args->Angle_0[0] is Path,
        ty->args->Angle_0[0]->ident@ == "String"@,
    ensures
        wit_type(ty) == Ok::<Seq<char>, Failure>("list <string>"@),
        wit_type(ty)->Ok_0.subrange(0, 4) == "list"@,
        wit_type(ty)->Ok_0.subrange(6, 12) == "string"@,
{
    lemma_single_wrapper(ty);
    lemma_names_distinct();
    reveal_strlit("list");
    reveal_strlit("string");
    reveal_strlit(" <");
    reveal_strlit(">");
    reveal_strlit("list <string>");
    let inner = ty->args->Angle_0[0];
    assert(wrapper_of(inner->ident@) is None);
    assert(wit_type(inner) == Ok::<Seq<char>, Failure>("string"@));
    assert("list"@ + " <"@ + "string"@ + ">"@ =~= "list <string>"@);
    assert("list <string>"@.subrange(0, 4) =~= "list"@);
    assert("list <string>"@.subrange(6, 12) =~= "string"@);
}

/// A list or an option applied in angle brackets to no type, or to two or
/// more, has no translation: the failure is an arity violation that names
/// the wrapper and the number of arguments found. No argument is picked.
pub proof fn lemma_arity_enforced(ty: TypeExpr)
    requires
        ty is Path,
        ty->ident@ == "Vec"@ || ty->ident@ == "Option"@,
        ty->args is Angle,
        ty->args->Angle_0.len() != 1,
    ensures
        wit_type(ty) == Err::<Seq<char>, Failure>(
            Failure::ArityViolation {
                wrapper: if ty->ident@ == "Vec"@ {
                    Wrapper::List
                } else {
                    Wrapper::Optional
                },
                arity: ty->args->Angle_0.len() as nat,
            },
        ),
{
    lemma_names_distinct();
}

/// The fallible wrapper applied in angle brackets to no type, or to three or
/// more, has no translation: the failure is an arity violation.
pub proof fn lemma_fallible_arity_enforced(ty: TypeExpr)
    requires
        ty is Path,
        ty->ident@ == "Result"@,
        ty->args is Angle,
        ty->args->Angle_0.len() == 0 || ty->args->Angle_0.len() > 2,
    ensures
        wit_type(ty) == Err::<Seq<char>, Failure>(
            Failure::ArityViolation {
                wrapper: Wrapper::Fallible,
                arity: ty->args->Angle_0.len() as nat,
            },
        ),
{
    lemma_names_distinct();
}

impl TypeExpr {
    /// Translates the type into the interface grammar.
    pub fn to_wit(&self) -> (res: Result<String, TranslationError>)
        ensures
            outcome(res) == wit_type(*self),
        decreases *self, 0nat,
    {
        match self {
            TypeExpr::Array { elem } => match elem.to_wit() {
                Ok(inner) => Ok(enclose("list", inner.as_str())),
                Err(error) => Err(error),
            },
            TypeExpr::Slice { elem } => match elem.to_wit() {
                Ok(inner) => Ok(enclose("list", inner.as_str())),
                Err(error) => Err(error),
            },
            TypeExpr::Path { text, qualified, ident, args } => match wrapper_named(ident) {
                Some(wrapper) => match args {
                    PathArgs::Angle(list) => {
                        let arity = list.len();
                        let fits = match wrapper {
                            Wrapper::List => arity == 1,
                            Wrapper::Optional => arity == 1,
                            Wrapper::Fallible => 1 <= arity && arity <= 2,
                        };
                        if !fits {
                            Err(TranslationError::ArityViolation { wrapper, arity })
                        } else {
                            match join_wit(list) {
                                Ok(inner) => Ok(enclose(wrapper.keyword_str(), inner.as_str())),
                                Err(error) => Err(error),
                            }
                        }
                    },
                    _ => Err(TranslationError::UnsupportedShape { rendered: text.clone() }),
                },
                None => if is_name(ident, "String") {
                    Ok(String::from_str("string"))
                } else if *qualified {
                    Err(TranslationError::UnsupportedShape { rendered: text.clone() })
                } else {
                    match args {
                        PathArgs::Absent => Ok(nominal(ident)),
                        _ => Err(TranslationError::UnsupportedShape { rendered: text.clone() }),
                    }
                },
            },
            TypeExpr::Tuple { elems } => match join_wit(elems) {
                Ok(inner) => Ok(bracket("tuple<", inner.as_str())),
                Err(error) => Err(error),
            },
            TypeExpr::Other { text } => Err(
                TranslationError::UnsupportedShape { rendered: text.clone() },
            ),
        }
    }
}

} // verus!
