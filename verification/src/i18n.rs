//! Bilingual (Russian / English) diagnostic message catalog.
//!
//! Every message is a fixed sequence of literal pieces with the caller's arguments
//! placed between them; `interleave` states exactly how a message is assembled.
use vstd::prelude::*;
use vstd::string::*;
use crate::text::{dec_digits, texts, u64_text};

verus! {

/// Language in which diagnostics are rendered.
#[derive(Debug, Clone, Copy, PartialEq, Eq)]
pub enum Locale {
    /// Russian, the default diagnostic language.
    Ru,
    /// English.
    En,
}

/// The locale used when none is chosen explicitly.
pub fn default_locale() -> (r: Locale)
    ensures
        r == Locale::Ru,
{
    Locale::Ru
}

/// `pieces[0] + args[0] + pieces[1] + args[1] + ... + pieces[n]`.
pub open spec fn interleave(pieces: Seq<Seq<char>>, args: Seq<Seq<char>>) -> Seq<char>
    decreases args.len(),
{
    if args.len() == 0 || pieces.len() == 0 {
        if pieces.len() > 0 {
            pieces[0]
        } else {
            Seq::empty()
        }
    } else {
        interleave(pieces.drop_last(), args.drop_last()) + args.last() + pieces.last()
    }
}

/// The views of a sequence of string slices.
pub open spec fn str_texts(v: Seq<&str>) -> Seq<Seq<char>> {
    v.map_values(|s: &str| s@)
}

/// Assembles a message from its literal pieces and arguments.
pub fn render(pieces: &Vec<&str>, args: &Vec<String>) -> (r: String)
    requires
        pieces@.len() == args@.len() + 1,
    ensures
        r@ == interleave(str_texts(pieces@), texts(args@)),
{
    let ghost ps = str_texts(pieces@);
    let ghost xs = texts(args@);
    let mut r = String::from_str(pieces[0]);
    let n = args.len();
    let mut i: usize = 0;
    assert(ps.take(1).drop_last() =~= Seq::<Seq<char>>::empty());
    while i < n
        invariant
            n == args@.len(),
            pieces@.len() == n + 1,
            i <= n,
            ps == str_texts(pieces@),
            xs == texts(args@),
            r@ == interleave(ps.take(i + 1), xs.take(i as int)),
        decreases n - i,
    {
        r.append(args[i].as_str());
        r.append(pieces[i + 1]);
        i = i + 1;
        assert(ps.take(i + 1).drop_last() =~= ps.take(i as int));
        assert(xs.take(i as int).drop_last() =~= xs.take(i - 1));
    }
    assert(ps.take(n + 1) =~= ps);
    assert(xs.take(n as int) =~= xs);
    r
}

// ---------------------------------------------------------------------------
// Literal pieces of each message, per locale.
// ---------------------------------------------------------------------------

/// Pieces of the complexity budget violation message (arguments: calculated, limit).
pub open spec fn complexity_pieces(l: Locale) -> Seq<Seq<char>> {
    match l {
        Locale::Ru => seq![
            "❌ Превышен лимит сложности GraphQL-запроса: рассчитано "@,
            ", максимально допустимо "@,
            ""@,
        ],
        Locale::En => seq![
            "❌ GraphQL query complexity limit exceeded: calculated "@,
            ", max allowed "@,
            ""@,
        ],
    }
}

fn complexity_pieces_exec(l: Locale) -> (r: Vec<&'static str>)
    ensures
        str_texts(r@) == complexity_pieces(l),
        r@.len() == complexity_pieces(l).len(),
{
    let r = match l {
        Locale::Ru => vec![
            "❌ Превышен лимит сложности GraphQL-запроса: рассчитано ",
            ", максимально допустимо ",
            "",
        ],
        Locale::En => vec!["❌ GraphQL query complexity limit exceeded: calculated ", ", max allowed ", ""],
    };
    assert(str_texts(r@) =~= complexity_pieces(l));
    r
}

/// Pieces of the depth budget violation message (arguments: calculated, limit).
pub open spec fn depth_pieces(l: Locale) -> Seq<Seq<char>> {
    match l {
        Locale::Ru => seq![
            "❌ Превышен лимит глубины вложенности GraphQL-запроса: рассчитано "@,
            ", максимально допустимо "@,
            ""@,
        ],
        Locale::En => seq![
            "❌ GraphQL query depth limit exceeded: calculated "@,
            ", max allowed "@,
            ""@,
        ],
    }
}

fn depth_pieces_exec(l: Locale) -> (r: Vec<&'static str>)
    ensures
        str_texts(r@) == depth_pieces(l),
        r@.len() == depth_pieces(l).len(),
{
    let r = match l {
        Locale::Ru => vec![
            "❌ Превышен лимит глубины вложенности GraphQL-запроса: рассчитано ",
            ", максимально допустимо ",
            "",
        ],
        Locale::En => vec!["❌ GraphQL query depth limit exceeded: calculated ", ", max allowed ", ""],
    };
    assert(str_texts(r@) =~= depth_pieces(l));
    r
}

/// Pieces of the argument validation failure message (argument: the validation detail).
pub open spec fn validation_pieces(l: Locale) -> Seq<Seq<char>> {
    match l {
        Locale::Ru => seq!["❌ Ошибка валидации аргументов GraphQL-запроса: "@, ""@],
        Locale::En => seq!["❌ GraphQL query argument validation failed: "@, ""@],
    }
}

fn validation_pieces_exec(l: Locale) -> (r: Vec<&'static str>)
    ensures
        str_texts(r@) == validation_pieces(l),
        r@.len() == validation_pieces(l).len(),
{
    let r = match l {
        Locale::Ru => vec!["❌ Ошибка валидации аргументов GraphQL-запроса: ", ""],
        Locale::En => vec!["❌ GraphQL query argument validation failed: ", ""],
    };
    assert(str_texts(r@) =~= validation_pieces(l));
    r
}

/// Pieces of the missing required argument message (arguments: argument, query).
pub open spec fn required_pieces(l: Locale) -> Seq<Seq<char>> {
    match l {
        Locale::Ru => seq!["Обязательный аргумент '"@, "' не указан в запросе '"@, "'"@],
        Locale::En => seq!["Required argument '"@, "' is missing in query '"@, "'"@],
    }
}

fn required_pieces_exec(l: Locale) -> (r: Vec<&'static str>)
    ensures
        str_texts(r@) == required_pieces(l),
        r@.len() == required_pieces(l).len(),
{
    let r = match l {
        Locale::Ru => vec!["Обязательный аргумент '", "' не указан в запросе '", "'"],
        Locale::En => vec!["Required argument '", "' is missing in query '", "'"],
    };
    assert(str_texts(r@) =~= required_pieces(l));
    r
}

/// Which bound a validation rule enforces, for the wording of its message.
#[derive(Debug, Clone, Copy, PartialEq, Eq)]
pub enum BoundKind {
    /// A lower numeric bound.
    Min,
    /// An upper numeric bound.
    Max,
    /// An inclusive numeric range.
    Range,
    /// A lower length bound.
    MinLen,
    /// An upper length bound.
    MaxLen,
}

/// Pieces of a bound violation message (arguments: argument, query, bound, received value).
pub open spec fn bound_pieces(l: Locale, k: BoundKind) -> Seq<Seq<char>> {
    match (l, k) {
        (Locale::Ru, BoundKind::Min) => seq!["Аргумент '"@, "' в запросе '"@, "' должен быть не менее "@, " (получено: "@, ")"@],
        (Locale::Ru, BoundKind::Max) => seq!["Аргумент '"@, "' в запросе '"@, "' должен быть не более "@, " (получено: "@, ")"@],
        (Locale::Ru, BoundKind::Range) => seq!["Аргумент '"@, "' в запросе '"@, "' должен быть в диапазоне "@, " (получено: "@, ")"@],
        (Locale::Ru, BoundKind::MinLen) => seq!["Длина аргумента '"@, "' в запросе '"@, "' должна быть не менее "@, " (получено: "@, ")"@],
        (Locale::Ru, BoundKind::MaxLen) => seq!["Длина аргумента '"@, "' в запросе '"@, "' должна быть не более "@, " (получено: "@, ")"@],
        (Locale::En, BoundKind::Min) => seq!["Argument '"@, "' in query '"@, "' must be at least "@, " (got: "@, ")"@],
        (Locale::En, BoundKind::Max) => seq!["Argument '"@, "' in query '"@, "' must be at most "@, " (got: "@, ")"@],
        (Locale::En, BoundKind::Range) => seq!["Argument '"@, "' in query '"@, "' must be in range "@, " (got: "@, ")"@],
        (Locale::En, BoundKind::MinLen) => seq!["Length of argument '"@, "' in query '"@, "' must be at least "@, " (got: "@, ")"@],
        (Locale::En, BoundKind::MaxLen) => seq!["Length of argument '"@, "' in query '"@, "' must be at most "@, " (got: "@, ")"@],
    }
}

fn bound_pieces_exec(l: Locale, k: BoundKind) -> (r: Vec<&'static str>)
    ensures
        str_texts(r@) == bound_pieces(l, k),
        r@.len() == 5,
{
    let r = match (l, k) {
        (Locale::Ru, BoundKind::Min) => vec!["Аргумент '", "' в запросе '", "' должен быть не менее ", " (получено: ", ")"],
        (Locale::Ru, BoundKind::Max) => vec!["Аргумент '", "' в запросе '", "' должен быть не более ", " (получено: ", ")"],
        (Locale::Ru, BoundKind::Range) => vec!["Аргумент '", "' в запросе '", "' должен быть в диапазоне ", " (получено: ", ")"],
        (Locale::Ru, BoundKind::MinLen) => vec!["Длина аргумента '", "' в запросе '", "' должна быть не менее ", " (получено: ", ")"],
        (Locale::Ru, BoundKind::MaxLen) => vec!["Длина аргумента '", "' в запросе '", "' должна быть не более ", " (получено: ", ")"],
        (Locale::En, BoundKind::Min) => vec!["Argument '", "' in query '", "' must be at least ", " (got: ", ")"],
        (Locale::En, BoundKind::Max) => vec!["Argument '", "' in query '", "' must be at most ", " (got: ", ")"],
        (Locale::En, BoundKind::Range) => vec!["Argument '", "' in query '", "' must be in range ", " (got: ", ")"],
        (Locale::En, BoundKind::MinLen) => vec!["Length of argument '", "' in query '", "' must be at least ", " (got: ", ")"],
        (Locale::En, BoundKind::MaxLen) => vec!["Length of argument '", "' in query '", "' must be at most ", " (got: ", ")"],
    };
    assert(str_texts(r@) =~= bound_pieces(l, k));
    r
}

// ---------------------------------------------------------------------------
// Messages.
// ---------------------------------------------------------------------------

/// Text of the complexity budget violation.
pub open spec fn complexity_text(l: Locale, calculated: u32, limit: u32) -> Seq<char> {
    interleave(complexity_pieces(l), seq![dec_digits(calculated as nat), dec_digits(limit as nat)])
}

/// Text of the depth budget violation.
pub open spec fn depth_text(l: Locale, calculated: u32, limit: u32) -> Seq<char> {
    interleave(depth_pieces(l), seq![dec_digits(calculated as nat), dec_digits(limit as nat)])
}

/// Text of an argument validation failure wrapping `detail`.
pub open spec fn validation_text(l: Locale, detail: Seq<char>) -> Seq<char> {
    interleave(validation_pieces(l), seq![detail])
}

/// Text of a missing required argument.
pub open spec fn required_text(l: Locale, arg: Seq<char>, query: Seq<char>) -> Seq<char> {
    interleave(required_pieces(l), seq![arg, query])
}

/// Text of a violated bound: `bound` and `got` are already spelled out.
pub open spec fn bound_text(
    l: Locale,
    k: BoundKind,
    arg: Seq<char>,
    query: Seq<char>,
    bound: Seq<char>,
    got: Seq<char>,
) -> Seq<char> {
    interleave(bound_pieces(l, k), seq![arg, query, bound, got])
}

/// Renders the complexity budget violation.
pub fn complexity_message(l: Locale, calculated: u32, limit: u32) -> (r: String)
    ensures
        r@ == complexity_text(l, calculated, limit),
{
    let args = vec![u64_text(calculated as u64), u64_text(limit as u64)];
    assert(texts(args@) =~= seq![dec_digits(calculated as nat), dec_digits(limit as nat)]);
    render(&complexity_pieces_exec(l), &args)
}

/// Renders the depth budget violation.
pub fn depth_message(l: Locale, calculated: u32, limit: u32) -> (r: String)
    ensures
        r@ == depth_text(l, calculated, limit),
{
    let args = vec![u64_text(calculated as u64), u64_text(limit as u64)];
    assert(texts(args@) =~= seq![dec_digits(calculated as nat), dec_digits(limit as nat)]);
    render(&depth_pieces_exec(l), &args)
}

/// Renders an argument validation failure wrapping `detail`.
pub fn validation_message(l: Locale, detail: &str) -> (r: String)
    ensures
        r@ == validation_text(l, detail@),
{
    let args = vec![String::from_str(detail)];
    assert(texts(args@) =~= seq![detail@]);
    render(&validation_pieces_exec(l), &args)
}

/// Renders the missing required argument message.
pub fn required_message(l: Locale, arg: &str, query: &str) -> (r: String)
    ensures
        r@ == required_text(l, arg@, query@),
{
    let args = vec![String::from_str(arg), String::from_str(query)];
    assert(texts(args@) =~= seq![arg@, query@]);
    render(&required_pieces_exec(l), &args)
}

/// Renders a violated bound message.
pub fn bound_message(l: Locale, k: BoundKind, arg: &str, query: &str, bound: String, got: String) -> (r: String)
    ensures
        r@ == bound_text(l, k, arg@, query@, bound@, got@),
{
    let args = vec![String::from_str(arg), String::from_str(query), bound, got];
    assert(texts(args@) =~= seq![arg@, query@, bound@, got@]);
    render(&bound_pieces_exec(l, k), &args)
}

} // verus!
