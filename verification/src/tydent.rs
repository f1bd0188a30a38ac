//! The grammar of type names ("tydents"): named types, `&T`, `[T; N]`
//! and `()`, with the whitespace the language allows inside them.
//!
//! The parsers report one of four outcomes: a value and the position after
//! it; a recoverable miss (another alternative may be tried); a committed
//! failure (no alternative is tried); or the use of generic arguments
//! (`Name <&T, ...>`), which the language does not implement and rejects
//! by stopping the program.

use vstd::prelude::*;
use crate::spanned::Spanned;
use crate::ast::{Ident, IdentV, Tydent, TydentV, sty_view, ident_of};
use crate::text::string_of_range;

verus! {

/// A space the type grammar allows.
pub open spec fn is_space(c: char) -> bool {
    ||| c == ' '
    ||| c == '\t'
    ||| c == '\u{FEFF}'
    ||| c == '\u{00A0}'
    ||| c == '\u{1680}'
    ||| ('\u{2000}' <= c && c <= '\u{200A}')
    ||| c == '\u{202F}'
    ||| c == '\u{205F}'
    ||| c == '\u{3000}'
}

/// An ASCII letter.
pub open spec fn is_alpha(c: char) -> bool {
    ('a' <= c && c <= 'z') || ('A' <= c && c <= 'Z')
}

/// An ASCII digit.
pub open spec fn is_digit(c: char) -> bool {
    '0' <= c && c <= '9'
}

/// A character that may start an identifier.
pub open spec fn is_ident_start(c: char) -> bool {
    is_alpha(c) || c == '_'
}

/// A character that may continue an identifier.
pub open spec fn is_ident_char(c: char) -> bool {
    is_alpha(c) || is_digit(c) || c == '_'
}

/// The first position at or after `p` that does not hold a space.
pub open spec fn skip_spaces(s: Seq<char>, p: int) -> int
    decreases s.len() - p,
{
    if 0 <= p < s.len() && is_space(s[p]) { skip_spaces(s, p + 1) } else { p }
}

/// The first position at or after `p` that does not hold an identifier character.
pub open spec fn ident_end(s: Seq<char>, p: int) -> int
    decreases s.len() - p,
{
    if 0 <= p < s.len() && is_ident_char(s[p]) { ident_end(s, p + 1) } else { p }
}

/// The first position at or after `p` that does not hold a digit.
pub open spec fn digits_end(s: Seq<char>, p: int) -> int
    decreases s.len() - p,
{
    if 0 <= p < s.len() && is_digit(s[p]) { digits_end(s, p + 1) } else { p }
}

/// The number that the digits `s[p..e]` spell.
pub open spec fn digits_value(s: Seq<char>, p: int, e: int) -> nat
    decreases e - p,
{
    if p < e {
        digits_value(s, p, e - 1) * 10 + ((s[e - 1] as nat) - ('0' as nat)) as nat
    } else {
        0
    }
}

pub proof fn lemma_skip_spaces(s: Seq<char>, p: int)
    requires
        0 <= p <= s.len(),
    ensures
        p <= skip_spaces(s, p) <= s.len(),
        skip_spaces(s, p) < s.len() ==> !is_space(s[skip_spaces(s, p)]),
    decreases s.len() - p,
{
    if p < s.len() && is_space(s[p]) {
        lemma_skip_spaces(s, p + 1);
    }
}

pub proof fn lemma_ident_end(s: Seq<char>, p: int)
    requires
        0 <= p <= s.len(),
    ensures
        p <= ident_end(s, p) <= s.len(),
    decreases s.len() - p,
{
    if p < s.len() && is_ident_char(s[p]) {
        lemma_ident_end(s, p + 1);
    }
}

pub proof fn lemma_digits_end(s: Seq<char>, p: int)
    requires
        0 <= p <= s.len(),
    ensures
        p <= digits_end(s, p) <= s.len(),
        forall|k: int| p <= k < digits_end(s, p) ==> is_digit(#[trigger] s[k]),
    decreases s.len() - p,
{
    if p < s.len() && is_digit(s[p]) {
        lemma_digits_end(s, p + 1);
    }
}

/// The outcome of parsing a type name in the abstract.
pub enum TyParse {
    /// The type, and the position after it.
    Done(Spanned<TydentV>, int),
    /// Not a match; another alternative may be tried.
    Miss,
    /// A committed failure.
    Fail,
    /// Generic arguments were given.
    Generics,
}

/// The outcome of parsing a type name.
#[derive(Debug)]
pub enum TydentParse {
    Done(Spanned<Tydent>, usize),
    Miss,
    Fail,
    Generics,
}

impl View for TydentParse {
    type V = TyParse;

    open spec fn view(&self) -> TyParse {
        match self {
            TydentParse::Done(t, e) => TyParse::Done(sty_view(*t), *e as int),
            TydentParse::Miss => TyParse::Miss,
            TydentParse::Fail => TyParse::Fail,
            TydentParse::Generics => TyParse::Generics,
        }
    }
}

/// The outcome of the generic-argument list parser in the abstract.
pub enum ListParse {
    Done(int),
    Miss,
    Fail,
    Generics,
}

/// A type value with an empty span.
pub open spec fn unspanned(t: TydentV) -> Spanned<TydentV> {
    Spanned { start: 0, end: 0, value: t }
}

/// An unsigned integer (array length): digits, whose value fits in 64 bits.
pub open spec fn spec_array_len(s: Seq<char>, p: int) -> Option<(u64, int)> {
    if 0 <= p < s.len() && is_digit(s[p]) {
        let e = digits_end(s, p);
        let v = digits_value(s, p, e);
        if v <= u64::MAX { Some((v as u64, e)) } else { None }
    } else {
        None
    }
}

/// `tydent := ref | array | "()" | named`
pub open spec fn spec_tydent(s: Seq<char>, p: int) -> TyParse
    decreases s.len() - p, 3int,
{
    match spec_tydent_ref(s, p) {
        TyParse::Miss => match spec_tydent_array(s, p) {
            TyParse::Miss => if 0 <= p && p + 1 < s.len() && s[p] == '(' && s[p + 1] == ')' {
                TyParse::Done(unspanned(TydentV::Empty), p + 2)
            } else {
                spec_tydent_named(s, p)
            },
            r => r,
        },
        r => r,
    }
}

/// `ref := "&" space* tydent` (committed after the `&`)
pub open spec fn spec_tydent_ref(s: Seq<char>, p: int) -> TyParse
    decreases s.len() - p, 0int,
{
    if 0 <= p < s.len() && s[p] == '&' {
        let q = skip_spaces(s, p + 1);
        if q > p && q <= s.len() {
            match spec_tydent(s, q) {
                TyParse::Done(t, e) => TyParse::Done(unspanned(TydentV::Ref(Box::new(t))), e),
                TyParse::Generics => TyParse::Generics,
                _ => TyParse::Fail,
            }
        } else {
            TyParse::Fail
        }
    } else {
        TyParse::Miss
    }
}

/// `array := "[" space* tydent space* ";" space* len space* "]"`
/// (committed after the `[` up to the closing `]`)
pub open spec fn spec_tydent_array(s: Seq<char>, p: int) -> TyParse
    decreases s.len() - p, 0int,
{
    if 0 <= p < s.len() && s[p] == '[' {
        let q = skip_spaces(s, p + 1);
        if q > p && q <= s.len() {
            match spec_tydent(s, q) {
                TyParse::Done(t, e) => {
                    let q2 = skip_spaces(s, e);
                    if 0 <= q2 < s.len() && s[q2] == ';' {
                        match spec_array_len(s, skip_spaces(s, q2 + 1)) {
                            Some((n, e2)) => {
                                let q4 = skip_spaces(s, e2);
                                if 0 <= q4 < s.len() && s[q4] == ']' {
                                    TyParse::Done(unspanned(TydentV::Array(Box::new(t), n)), q4 + 1)
                                } else {
                                    TyParse::Miss
                                }
                            },
                            None => TyParse::Fail,
                        }
                    } else {
                        TyParse::Fail
                    }
                },
                TyParse::Generics => TyParse::Generics,
                _ => TyParse::Fail,
            }
        } else {
            TyParse::Fail
        }
    } else {
        TyParse::Miss
    }
}

/// `named := ident [space "<" generic-list ">"]`; a complete generic
/// argument list is rejected.
pub open spec fn spec_tydent_named(s: Seq<char>, p: int) -> TyParse
    decreases s.len() - p, 2int,
{
    if 0 <= p < s.len() && is_ident_start(s[p]) {
        let ie = ident_end(s, p + 1);
        let name = unspanned(TydentV::Name(ident_of(Spanned { start: 0, end: 0, value: s.subrange(p, ie) })));
        if ie > p && 0 <= ie && ie + 1 < s.len() && is_space(s[ie]) && s[ie + 1] == '<' {
            match spec_generic_list(s, ie + 2) {
                ListParse::Done(l) => if 0 <= l < s.len() && s[l] == '>' {
                    TyParse::Generics
                } else {
                    TyParse::Done(name, ie)
                },
                ListParse::Generics => TyParse::Generics,
                _ => TyParse::Fail,
            }
        } else {
            TyParse::Done(name, ie)
        }
    } else {
        TyParse::Miss
    }
}

/// One generic argument: `space ref space`.
pub open spec fn spec_generic_elem(s: Seq<char>, p: int) -> ListParse
    decreases s.len() - p, 1int,
{
    if 0 <= p < s.len() && is_space(s[p]) {
        match spec_tydent_ref(s, p + 1) {
            TyParse::Done(_, e) => if 0 <= e < s.len() && is_space(s[e]) {
                ListParse::Done(e + 1)
            } else {
                ListParse::Miss
            },
            TyParse::Miss => ListParse::Miss,
            TyParse::Fail => ListParse::Fail,
            TyParse::Generics => ListParse::Generics,
        }
    } else {
        ListParse::Miss
    }
}

/// The rest of a generic argument list after an argument ending at `p`.
pub open spec fn spec_generic_rest(s: Seq<char>, p: int) -> ListParse
    decreases s.len() - p, 1int,
{
    if 0 <= p < s.len() && s[p] == ',' {
        match spec_generic_elem(s, p + 1) {
            ListParse::Done(e) => if e > p && e <= s.len() { spec_generic_rest(s, e) } else { ListParse::Done(p) },
            ListParse::Miss => ListParse::Done(p),
            r => r,
        }
    } else {
        ListParse::Done(p)
    }
}

/// A generic argument list: one or more arguments separated by `,`.
pub open spec fn spec_generic_list(s: Seq<char>, p: int) -> ListParse
    decreases s.len() - p, 2int,
{
    match spec_generic_elem(s, p) {
        ListParse::Done(e) => if e > p && e <= s.len() { spec_generic_rest(s, e) } else { ListParse::Done(e) },
        r => r,
    }
}

/// The whole of `s` as one type name: the type, `None` when it is not one.
pub open spec fn spec_parse_tydent(s: Seq<char>) -> Option<Spanned<TydentV>> {
    match spec_tydent(s, 0) {
        TyParse::Done(t, e) => if e == s.len() { Some(t) } else { None },
        _ => None,
    }
}

/// Whether reading `s` as a type name meets generic arguments.
pub open spec fn spec_tydent_generics(s: Seq<char>) -> bool {
    spec_tydent(s, 0) is Generics
}


fn exec_is_space(c: char) -> (r: bool)
    ensures
        r == is_space(c),
{
    c == ' ' || c == '\t' || c == '\u{FEFF}' || c == '\u{00A0}' || c == '\u{1680}'
        || ('\u{2000}' <= c && c <= '\u{200A}') || c == '\u{202F}' || c == '\u{205F}'
        || c == '\u{3000}'
}

fn exec_is_alpha(c: char) -> (r: bool)
    ensures
        r == is_alpha(c),
{
    ('a' <= c && c <= 'z') || ('A' <= c && c <= 'Z')
}

fn exec_is_digit(c: char) -> (r: bool)
    ensures
        r == is_digit(c),
{
    '0' <= c && c <= '9'
}

fn exec_skip_spaces(s: &[char], p: usize) -> (r: usize)
    requires
        p <= s@.len(),
    ensures
        r == skip_spaces(s@, p as int),
        p <= r <= s@.len(),
{
    let mut i = p;
    proof { lemma_skip_spaces(s@, p as int); }
    while i < s.len() && exec_is_space(s[i])
        invariant
            p <= i <= s@.len(),
            skip_spaces(s@, i as int) == skip_spaces(s@, p as int),
        decreases s@.len() - i,
    {
        i = i + 1;
    }
    i
}

fn exec_ident_end(s: &[char], p: usize) -> (r: usize)
    requires
        p <= s@.len(),
    ensures
        r == ident_end(s@, p as int),
        p <= r <= s@.len(),
{
    let mut i = p;
    while i < s.len() && (exec_is_alpha(s[i]) || exec_is_digit(s[i]) || s[i] == '_')
        invariant
            p <= i <= s@.len(),
            ident_end(s@, i as int) == ident_end(s@, p as int),
        decreases s@.len() - i,
    {
        i = i + 1;
    }
    i
}

proof fn lemma_digits_value_mono(s: Seq<char>, p: int, k: int, e: int)
    requires
        p <= k <= e,
        forall|j: int| p <= j < e ==> is_digit(#[trigger] s[j]),
    ensures
        digits_value(s, p, k) <= digits_value(s, p, e),
    decreases e - k,
{
    if k < e {
        lemma_digits_value_mono(s, p, k, e - 1);
    }
}

fn exec_array_len(s: &[char], p: usize) -> (r: Option<(u64, usize)>)
    requires
        p <= s@.len(),
    ensures
        match r {
            Some((n, e)) => spec_array_len(s@, p as int) == Some((n, e as int)),
            None => spec_array_len(s@, p as int) is None,
        },
        r matches Some((n, e)) ==> p < e <= s@.len(),
{
    if !(p < s.len() && exec_is_digit(s[p])) {
        return None;
    }
    proof { lemma_digits_end(s@, p as int); }
    let ghost e = digits_end(s@, p as int);
    let mut i = p;
    let mut value: u64 = 0;
    while i < s.len() && exec_is_digit(s[i])
        invariant
            p <= i <= e,
            e == digits_end(s@, p as int),
            e <= s@.len(),
            forall|k: int| p <= k < e ==> is_digit(#[trigger] s@[k]),
            forall|k: int| p <= k < i ==> is_digit(#[trigger] s@[k]),
            digits_end(s@, i as int) == e,
            value as nat == digits_value(s@, p as int, i as int),
        decreases s@.len() - i,
    {
        proof {
            lemma_digits_end(s@, i + 1);
            assert(digits_end(s@, i as int) == digits_end(s@, i + 1));
        }
        let d = (s[i] as u32 - '0' as u32) as u64;
        assert(digits_value(s@, p as int, i + 1) == digits_value(s@, p as int, i as int) * 10 + d);
        match value.checked_mul(10) {
            Some(v) => match v.checked_add(d) {
                Some(w) => {
                    value = w;
                },
                None => {
                    proof { lemma_digits_value_mono(s@, p as int, i + 1, e); }
                    return None;
                },
            },
            None => {
                proof { lemma_digits_value_mono(s@, p as int, i + 1, e); }
                return None;
            },
        }
        i = i + 1;
    }
    Some((value, i))
}

/// The outcome of parsing a generic-argument list.
pub enum ListOutcome {
    Done(usize),
    Miss,
    Fail,
    Generics,
}

impl View for ListOutcome {
    type V = ListParse;

    open spec fn view(&self) -> ListParse {
        match self {
            ListOutcome::Done(e) => ListParse::Done(*e as int),
            ListOutcome::Miss => ListParse::Miss,
            ListOutcome::Fail => ListParse::Fail,
            ListOutcome::Generics => ListParse::Generics,
        }
    }
}

fn unspanned_exec(t: Tydent) -> (r: Spanned<Tydent>)
    ensures
        r.start == 0,
        r.end == 0,
        r.value == t,
{
    Spanned::from_value(t)
}

/// Parses a type name starting at `p`.
fn exec_tydent(s: &[char], p: usize) -> (r: TydentParse)
    requires
        p <= s@.len(),
    ensures
        r@ == spec_tydent(s@, p as int),
        r matches TydentParse::Done(_, e) ==> e <= s@.len(),
    decreases s@.len() - p, 3int,
{
    match exec_tydent_ref(s, p) {
        TydentParse::Miss => match exec_tydent_array(s, p) {
            TydentParse::Miss => {
                if p < s.len() && s.len() - p > 1 && s[p] == '(' && s[p + 1] == ')' {
                    let t = unspanned_exec(Tydent::Empty);
                    assert(sty_view(t) == unspanned(TydentV::Empty));
                    TydentParse::Done(t, p + 2)
                } else {
                    exec_tydent_named(s, p)
                }
            },
            r => r,
        },
        r => r,
    }
}

fn exec_tydent_ref(s: &[char], p: usize) -> (r: TydentParse)
    requires
        p <= s@.len(),
    ensures
        r@ == spec_tydent_ref(s@, p as int),
        r matches TydentParse::Done(_, e) ==> e <= s@.len(),
    decreases s@.len() - p, 0int,
{
    if p < s.len() && s[p] == '&' {
        let q = exec_skip_spaces(s, p + 1);
        match exec_tydent(s, q) {
            TydentParse::Done(t, e) => {
                let r = unspanned_exec(Tydent::Ref(Box::new(t)));
                assert(sty_view(r) == unspanned(TydentV::Ref(Box::new(sty_view(t)))));
                TydentParse::Done(r, e)
            },
            TydentParse::Generics => TydentParse::Generics,
            _ => TydentParse::Fail,
        }
    } else {
        TydentParse::Miss
    }
}

fn exec_tydent_array(s: &[char], p: usize) -> (r: TydentParse)
    requires
        p <= s@.len(),
    ensures
        r@ == spec_tydent_array(s@, p as int),
        r matches TydentParse::Done(_, e) ==> e <= s@.len(),
    decreases s@.len() - p, 0int,
{
    if p < s.len() && s[p] == '[' {
        let q = exec_skip_spaces(s, p + 1);
        match exec_tydent(s, q) {
            TydentParse::Done(t, e) => {
                let q2 = exec_skip_spaces(s, e);
                if q2 < s.len() && s[q2] == ';' {
                    let q3 = exec_skip_spaces(s, q2 + 1);
                    match exec_array_len(s, q3) {
                        Some((n, e2)) => {
                            let q4 = exec_skip_spaces(s, e2);
                            if q4 < s.len() && s[q4] == ']' {
                                let r = unspanned_exec(Tydent::Array(Box::new(t), n));
                                assert(sty_view(r) == unspanned(TydentV::Array(Box::new(sty_view(t)), n)));
                                TydentParse::Done(r, q4 + 1)
                            } else {
                                TydentParse::Miss
                            }
                        },
                        None => TydentParse::Fail,
                    }
                } else {
                    TydentParse::Fail
                }
            },
            TydentParse::Generics => TydentParse::Generics,
            _ => TydentParse::Fail,
        }
    } else {
        TydentParse::Miss
    }
}

fn exec_tydent_named(s: &[char], p: usize) -> (r: TydentParse)
    requires
        p <= s@.len(),
    ensures
        r@ == spec_tydent_named(s@, p as int),
        r matches TydentParse::Done(_, e) ==> e <= s@.len(),
    decreases s@.len() - p, 2int,
{
    if p < s.len() && (exec_is_alpha(s[p]) || s[p] == '_') {
        let ie = exec_ident_end(s, p + 1);
        let text = string_of_range(s, p, ie);
        let name = unspanned_exec(Tydent::Name(Ident::from_string(text)));
        assert(sty_view(name) == unspanned(TydentV::Name(ident_of(Spanned { start: 0, end: 0, value: s@.subrange(p as int, ie as int) }))));
        if ie < s.len() && s.len() - ie > 1 && exec_is_space(s[ie]) && s[ie + 1] == '<' {
            match exec_generic_list(s, ie + 2) {
                ListOutcome::Done(l) => {
                    if l < s.len() && s[l] == '>' {
                        TydentParse::Generics
                    } else {
                        TydentParse::Done(name, ie)
                    }
                },
                ListOutcome::Generics => TydentParse::Generics,
                _ => TydentParse::Fail,
            }
        } else {
            TydentParse::Done(name, ie)
        }
    } else {
        TydentParse::Miss
    }
}

fn exec_generic_elem(s: &[char], p: usize) -> (r: ListOutcome)
    requires
        p <= s@.len(),
    ensures
        r@ == spec_generic_elem(s@, p as int),
        r matches ListOutcome::Done(e) ==> e <= s@.len(),
    decreases s@.len() - p, 1int,
{
    if p < s.len() && exec_is_space(s[p]) {
        match exec_tydent_ref(s, p + 1) {
            TydentParse::Done(_, e) => {
                if e < s.len() && exec_is_space(s[e]) {
                    ListOutcome::Done(e + 1)
                } else {
                    ListOutcome::Miss
                }
            },
            TydentParse::Miss => ListOutcome::Miss,
            TydentParse::Fail => ListOutcome::Fail,
            TydentParse::Generics => ListOutcome::Generics,
        }
    } else {
        ListOutcome::Miss
    }
}

fn exec_generic_rest(s: &[char], p: usize) -> (r: ListOutcome)
    requires
        p <= s@.len(),
    ensures
        r@ == spec_generic_rest(s@, p as int),
        r matches ListOutcome::Done(e) ==> e <= s@.len(),
    decreases s@.len() - p, 1int,
{
    if p < s.len() && s[p] == ',' {
        match exec_generic_elem(s, p + 1) {
            ListOutcome::Done(e) => if e > p { exec_generic_rest(s, e) } else { ListOutcome::Done(p) },
            ListOutcome::Miss => ListOutcome::Done(p),
            r => r,
        }
    } else {
        ListOutcome::Done(p)
    }
}

fn exec_generic_list(s: &[char], p: usize) -> (r: ListOutcome)
    requires
        p <= s@.len(),
    ensures
        r@ == spec_generic_list(s@, p as int),
        r matches ListOutcome::Done(e) ==> e <= s@.len(),
    decreases s@.len() - p, 2int,
{
    match exec_generic_elem(s, p) {
        ListOutcome::Done(e) => if e > p { exec_generic_rest(s, e) } else { ListOutcome::Done(e) },
        r => r,
    }
}

/// Reads all of `s` as one type name: the type when all of `s` is one,
/// `Err(true)` when generic arguments were given, `Err(false)` otherwise.
pub fn parse_tydent_chars(s: &[char]) -> (r: Result<Spanned<Tydent>, bool>)
    ensures
        match r {
            Ok(t) => spec_parse_tydent(s@) == Some(sty_view(t)),
            Err(g) => spec_parse_tydent(s@) is None && g == spec_tydent_generics(s@),
        },
{
    match exec_tydent(s, 0) {
        TydentParse::Done(t, e) => if e == s.len() { Ok(t) } else { Err(false) },
        TydentParse::Generics => Err(true),
        _ => Err(false),
    }
}
} // verus!
