use vstd::prelude::*;

use crate::primitive::Primitive;

verus! {

/// How a group of tokens is enclosed.
#[derive(Clone, Copy, Debug, PartialEq, Eq, Structural)]
pub enum Delimiter {
    Parenthesis,
    Brace,
    Bracket,
    Invisible,
}

/// One token of a type expression, as a compiler front end hands it out:
/// `&'a str` is `Punct('&')`, `Punct('\'')`, `Ident("a")`, `Ident("str")`,
/// and `[u8; 4]` is one bracketed group.
#[derive(Debug, PartialEq, Eq)]
pub enum Token {
    Ident(String),
    Punct(char),
    Literal(String),
    Group { delimiter: Delimiter, tokens: Vec<Token> },
}

/// The classification of a type expression.
#[derive(Debug, PartialEq, Eq)]
pub enum TypeExpr {
    Primitive(Primitive),
    Optional(Box<TypeExpr>),
    Sequence(Box<TypeExpr>),
    Nested(String),
}

/// The mathematical value of a [`TypeExpr`].
pub enum TypeModel {
    Primitive(Primitive),
    Optional(Box<TypeModel>),
    Sequence(Box<TypeModel>),
    Nested(Seq<char>),
}

impl TypeExpr {
    pub open spec fn model(&self) -> TypeModel
        decreases self,
    {
        match self {
            TypeExpr::Primitive(k) => TypeModel::Primitive(*k),
            TypeExpr::Optional(inner) => TypeModel::Optional(Box::new(inner.model())),
            TypeExpr::Sequence(inner) => TypeModel::Sequence(Box::new(inner.model())),
            TypeExpr::Nested(name) => TypeModel::Nested(name@),
        }
    }
}

impl View for TypeExpr {
    type V = TypeModel;

    open spec fn view(&self) -> TypeModel {
        self.model()
    }
}

pub open spec fn is_punct(t: Token, c: char) -> bool {
    t matches Token::Punct(d) && d == c
}

pub open spec fn is_ident(t: Token, name: Seq<char>) -> bool {
    t matches Token::Ident(s) && s@ == name
}

/// `k` is the position of the first `c` in `toks`.
pub open spec fn first_punct_at(toks: Seq<Token>, c: char, k: int) -> bool {
    &&& 0 <= k < toks.len()
    &&& is_punct(toks[k], c)
    &&& forall|j: int| 0 <= j < k ==> !is_punct(#[trigger] toks[j], c)
}

/// `toks` is a path: an optional leading `::`, then identifiers joined by `::`.
pub open spec fn is_path(toks: Seq<Token>) -> bool
    decreases toks.len(),
{
    let n = toks.len() as int;
    if n == 0 || !(toks[n - 1] is Ident) {
        false
    } else if n == 1 {
        true
    } else if n >= 3 && is_punct(toks[n - 2], ':') && is_punct(toks[n - 3], ':') {
        n == 3 || is_path(toks.subrange(0, n - 3))
    } else {
        false
    }
}

/// The primitive kind that a type name denotes, if any.
pub open spec fn primitive_named(name: Seq<char>) -> Option<Primitive> {
    if name == "i8"@ {
        Some(Primitive::I8)
    } else if name == "i16"@ {
        Some(Primitive::I16)
    } else if name == "i32"@ {
        Some(Primitive::I32)
    } else if name == "i64"@ {
        Some(Primitive::I64)
    } else if name == "i128"@ {
        Some(Primitive::I128)
    } else if name == "isize"@ {
        Some(Primitive::Isize)
    } else if name == "u8"@ {
        Some(Primitive::U8)
    } else if name == "u16"@ {
        Some(Primitive::U16)
    } else if name == "u32"@ {
        Some(Primitive::U32)
    } else if name == "u64"@ {
        Some(Primitive::U64)
    } else if name == "u128"@ {
        Some(Primitive::U128)
    } else if name == "usize"@ {
        Some(Primitive::Usize)
    } else if name == "f32"@ {
        Some(Primitive::F32)
    } else if name == "f64"@ {
        Some(Primitive::F64)
    } else if name == "bool"@ {
        Some(Primitive::Bool)
    } else if name == "String"@ || name == "str"@ {
        Some(Primitive::Text)
    } else {
        None
    }
}

/// A path without type arguments: a primitive if its last name is one,
/// otherwise a record named by its last name.
pub open spec fn leaf_model(name: Seq<char>) -> TypeModel {
    match primitive_named(name) {
        Some(k) => TypeModel::Primitive(k),
        None => TypeModel::Nested(name),
    }
}

pub open spec fn wrap_sequence(t: Option<TypeModel>) -> Option<TypeModel> {
    match t {
        Some(m) => Some(TypeModel::Sequence(Box::new(m))),
        None => None,
    }
}

pub open spec fn wrap_optional(t: Option<TypeModel>) -> Option<TypeModel> {
    match t {
        Some(m) => Some(TypeModel::Optional(Box::new(m))),
        None => None,
    }
}

/// Where the referenced type starts after a leading `&`: past an optional
/// lifetime and an optional `mut`.
pub open spec fn reference_body_start(toks: Seq<Token>) -> int {
    let j = if toks.len() >= 3 && is_punct(toks[1], '\'') && toks[2] is Ident {
        3int
    } else {
        1int
    };
    if j < toks.len() && is_ident(toks[j], "mut"@) {
        j + 1
    } else {
        j
    }
}

/// The classification of a type expression, or `None` where the tokens are
/// no type expression that this library can describe.
///
/// A reference is classified as the type it refers to; an array or slice
/// as a sequence of its element type; `Option<T>` as optional and `Vec<T>`
/// as a sequence of `T`; a plain path by its last name.
pub open spec fn parse_type(toks: Seq<Token>) -> Option<TypeModel>
    decreases toks, 0int,
{
    let n = toks.len() as int;
    if n == 0 {
        None
    } else if is_punct(toks[0], '&') {
        let j = reference_body_start(toks);
        parse_type(toks.subrange(j, n))
    } else if n == 1 && toks[0] is Group {
        if toks[0]->delimiter != Delimiter::Bracket {
            None
        } else {
            wrap_sequence(bracket_element(toks[0]->tokens@))
        }
    } else if exists|k: int| first_punct_at(toks, '<', k) {
        let k = choose|k: int| first_punct_at(toks, '<', k);
        let path = toks.subrange(0, k);
        if !is_path(path) || !is_punct(toks[n - 1], '>') || k + 1 > n - 1 {
            None
        } else {
            let name = toks[k - 1]->Ident_0@;
            let arg = parse_type(toks.subrange(k + 1, n - 1));
            if name == "Option"@ {
                wrap_optional(arg)
            } else if name == "Vec"@ {
                wrap_sequence(arg)
            } else {
                None
            }
        }
    } else if is_path(toks) {
        Some(leaf_model(toks[n - 1]->Ident_0@))
    } else {
        None
    }
}

/// The element type of a bracketed group: the tokens before its first `;`.
pub open spec fn bracket_element(inner: Seq<Token>) -> Option<TypeModel>
    decreases inner, 1int,
{
    if exists|k: int| first_punct_at(inner, ';', k) {
        let k = choose|k: int| first_punct_at(inner, ';', k);
        parse_type(inner.subrange(0, k))
    } else {
        parse_type(inner)
    }
}

pub open spec fn option_model(r: Option<TypeExpr>) -> Option<TypeModel> {
    match r {
        Some(t) => Some(t@),
        None => None,
    }
}

/// Whether two strings hold the same characters.
pub fn str_eq(a: &str, b: &str) -> (r: bool)
    ensures
        r == (a@ == b@),
{
    let n = a.unicode_len();
    if n != b.unicode_len() {
        return false;
    }
    let mut i: usize = 0;
    while i < n
        invariant
            n == a@.len(),
            n == b@.len(),
            i <= n,
            forall|j: int| 0 <= j < i ==> a@[j] == b@[j],
        decreases n - i,
    {
        if a.get_char(i) != b.get_char(i) {
            return false;
        }
        i += 1;
    }
    assert(a@ =~= b@);
    true
}

/// The primitive kind that a type name denotes, if any.
pub fn primitive_from_name(name: &str) -> (r: Option<Primitive>)
    ensures
        r == primitive_named(name@),
{
    if str_eq(name, "i8") {
        Some(Primitive::I8)
    } else if str_eq(name, "i16") {
        Some(Primitive::I16)
    } else if str_eq(name, "i32") {
        Some(Primitive::I32)
    } else if str_eq(name, "i64") {
        Some(Primitive::I64)
    } else if str_eq(name, "i128") {
        Some(Primitive::I128)
    } else if str_eq(name, "isize") {
        Some(Primitive::Isize)
    } else if str_eq(name, "u8") {
        Some(Primitive::U8)
    } else if str_eq(name, "u16") {
        Some(Primitive::U16)
    } else if str_eq(name, "u32") {
        Some(Primitive::U32)
    } else if str_eq(name, "u64") {
        Some(Primitive::U64)
    } else if str_eq(name, "u128") {
        Some(Primitive::U128)
    } else if str_eq(name, "usize") {
        Some(Primitive::Usize)
    } else if str_eq(name, "f32") {
        Some(Primitive::F32)
    } else if str_eq(name, "f64") {
        Some(Primitive::F64)
    } else if str_eq(name, "bool") {
        Some(Primitive::Bool)
    } else if str_eq(name, "String") || str_eq(name, "str") {
        Some(Primitive::Text)
    } else {
        None
    }
}

fn punct_at(toks: &Vec<Token>, i: usize, c: char) -> (r: bool)
    requires
        i < toks@.len(),
    ensures
        r == is_punct(toks@[i as int], c),
{
    match &toks[i] {
        Token::Punct(d) => *d == c,
        _ => false,
    }
}

fn ident_at(toks: &Vec<Token>, i: usize) -> (r: bool)
    requires
        i < toks@.len(),
    ensures
        r == toks@[i as int] is Ident,
{
    match &toks[i] {
        Token::Ident(_) => true,
        _ => false,
    }
}

fn ident_named_at(toks: &Vec<Token>, i: usize, name: &str) -> (r: bool)
    requires
        i < toks@.len(),
    ensures
        r == is_ident(toks@[i as int], name@),
{
    match &toks[i] {
        Token::Ident(s) => str_eq(s.as_str(), name),
        _ => false,
    }
}

fn find_punct(toks: &Vec<Token>, lo: usize, hi: usize, c: char) -> (k: usize)
    requires
        lo <= hi <= toks@.len(),
    ensures
        lo <= k <= hi,
        forall|j: int| lo <= j < k ==> !is_punct(#[trigger] toks@[j], c),
        k < hi ==> is_punct(toks@[k as int], c),
{
    let mut k = lo;
    while k < hi
        invariant
            lo <= k <= hi,
            hi <= toks@.len(),
            forall|j: int| lo <= j < k ==> !is_punct(#[trigger] toks@[j], c),
        decreases hi - k,
    {
        if punct_at(toks, k, c) {
            return k;
        }
        k += 1;
    }
    k
}

fn path_ok(toks: &Vec<Token>, lo: usize, hi: usize) -> (r: bool)
    requires
        lo <= hi <= toks@.len(),
    ensures
        r == is_path(toks@.subrange(lo as int, hi as int)),
    decreases hi - lo,
{
    let ghost sub = toks@.subrange(lo as int, hi as int);
    let n = hi - lo;
    if n == 0 || !ident_at(toks, hi - 1) {
        return false;
    }
    if n == 1 {
        return true;
    }
    if n >= 3 && punct_at(toks, hi - 2, ':') && punct_at(toks, hi - 3, ':') {
        assert(sub.subrange(0, n - 3) =~= toks@.subrange(lo as int, hi - 3));
        n == 3 || path_ok(toks, lo, hi - 3)
    } else {
        false
    }
}

fn leaf_type(name: &String) -> (r: TypeExpr)
    ensures
        r@ == leaf_model(name@),
{
    match primitive_from_name(name.as_str()) {
        Some(k) => TypeExpr::Primitive(k),
        None => TypeExpr::Nested(name.clone()),
    }
}

fn parse_range(toks: &Vec<Token>, lo: usize, hi: usize) -> (r: Option<TypeExpr>)
    requires
        lo <= hi <= toks@.len(),
    ensures
        option_model(r) == parse_type(toks@.subrange(lo as int, hi as int)),
    decreases toks@.subrange(lo as int, hi as int), 1int,
{
    let ghost sub = toks@.subrange(lo as int, hi as int);
    if lo == hi {
        return None;
    }
    if punct_at(toks, lo, '&') {
        let mut j: usize = lo + 1;
        if hi - lo >= 3 && punct_at(toks, lo + 1, '\'') && ident_at(toks, lo + 2) {
            j = lo + 3;
        }
        if j < hi && ident_named_at(toks, j, "mut") {
            j = j + 1;
        }
        assert(j - lo == reference_body_start(sub));
        assert(toks@.subrange(j as int, hi as int) =~= sub.subrange(j - lo, hi - lo));
        return parse_range(toks, j, hi);
    }
    if hi - lo == 1 {
        match &toks[lo] {
            Token::Group { delimiter, tokens } => {
                assert(sub[0] == toks@[lo as int]);
                if *delimiter != Delimiter::Bracket {
                    return None;
                }
                return parse_bracketed(tokens);
            },
            _ => {},
        }
    }
    parse_path_type(toks, lo, hi)
}

fn parse_bracketed(tokens: &Vec<Token>) -> (r: Option<TypeExpr>)
    ensures
        option_model(r) == wrap_sequence(bracket_element(tokens@)),
    decreases tokens@, 2int,
{
    let ghost inner = tokens@;
    let k = find_punct(tokens, 0, tokens.len(), ';');
    if k < tokens.len() {
        assert(first_punct_at(inner, ';', k as int));
    } else {
        assert(!exists|k: int| first_punct_at(inner, ';', k));
        assert(inner.subrange(0, inner.len() as int) =~= inner);
    }
    match parse_range(tokens, 0, k) {
        Some(t) => Some(TypeExpr::Sequence(Box::new(t))),
        None => None,
    }
}

fn parse_path_type(toks: &Vec<Token>, lo: usize, hi: usize) -> (r: Option<TypeExpr>)
    requires
        lo < hi <= toks@.len(),
        !is_punct(toks@[lo as int], '&'),
        !(hi - lo == 1 && toks@[lo as int] is Group),
    ensures
        option_model(r) == parse_type(toks@.subrange(lo as int, hi as int)),
    decreases toks@.subrange(lo as int, hi as int), 0int,
{
    let ghost sub = toks@.subrange(lo as int, hi as int);
    let k = find_punct(toks, lo, hi, '<');
    if k < hi {
        assert(first_punct_at(sub, '<', k - lo));
        let ghost chosen = choose|k: int| first_punct_at(sub, '<', k);
        assert(chosen == k - lo);
        assert(toks@.subrange(lo as int, k as int) =~= sub.subrange(0, k - lo));
        assert(sub[hi - lo - 1] == toks@[hi - 1]);
        if !path_ok(toks, lo, k) || !punct_at(toks, hi - 1, '>') || k + 1 > hi - 1 {
            return None;
        }
        assert(toks@.subrange(k + 1, hi - 1) =~= sub.subrange(k - lo + 1, hi - lo - 1));
        assert(sub[k - lo - 1] == toks@[k - 1]);
        let arg = parse_range(toks, k + 1, hi - 1);
        match &toks[k - 1] {
            Token::Ident(name) => {
                if str_eq(name.as_str(), "Option") {
                    match arg {
                        Some(t) => Some(TypeExpr::Optional(Box::new(t))),
                        None => None,
                    }
                } else if str_eq(name.as_str(), "Vec") {
                    match arg {
                        Some(t) => Some(TypeExpr::Sequence(Box::new(t))),
                        None => None,
                    }
                } else {
                    None
                }
            },
            _ => None,
        }
    } else {
        assert(!exists|k: int| first_punct_at(sub, '<', k));
        if !path_ok(toks, lo, hi) {
            return None;
        }
        assert(sub =~= toks@.subrange(lo as int, hi as int));
        match &toks[hi - 1] {
            Token::Ident(name) => Some(leaf_type(name)),
            _ => None,
        }
    }
}

/// Classifies the token sequence of a type expression; `None` where
/// [`parse_type`] finds no describable type in it.
pub fn classify(tokens: &Vec<Token>) -> (r: Option<TypeExpr>)
    ensures
        option_model(r) == parse_type(tokens@),
{
    assert(tokens@.subrange(0, tokens@.len() as int) =~= tokens@);
    parse_range(tokens, 0, tokens.len())
}

} // verus!
