//! The naming oracle: from declared identifiers to the names that the
//! generated code uses.
//!
//! Declared identifiers are written in snake case. Types are named in upper
//! camel case and functions, arguments and fields in lower camel case. Within
//! one scope no two identifiers may end up with the same name.

use vstd::prelude::*;
use crate::template::slot_texts;
use crate::text::{chars_of, text_of};

verus! {

/// Whether `c` is one of `a` to `z`.
pub open spec fn is_lower(c: char) -> bool {
    'a' <= c <= 'z'
}

/// Whether `c` is one of `A` to `Z`.
pub open spec fn is_upper(c: char) -> bool {
    'A' <= c <= 'Z'
}

/// Whether `c` is one of `0` to `9`.
pub open spec fn is_digit(c: char) -> bool {
    '0' <= c <= '9'
}

/// The capital of a letter of `a` to `z`; any other character as it is.
pub open spec fn upper(c: char) -> char {
    if is_lower(c) {
        ((c as u32) - 32) as char
    } else {
        c
    }
}

/// The small letter of a capital of `A` to `Z`; any other character as it is.
pub open spec fn lower(c: char) -> char {
    if is_upper(c) {
        ((c as u32) + 32) as char
    } else {
        c
    }
}

/// `s` without its underscores, each character that follows one (or, with
/// `capital` set, the first one) turned into its capital.
pub open spec fn camel(s: Seq<char>, capital: bool) -> Seq<char>
    decreases s.len(),
{
    if s.len() == 0 {
        Seq::empty()
    } else if s[0] == '_' {
        camel(s.drop_first(), true)
    } else {
        seq![if capital { upper(s[0]) } else { s[0] }] + camel(s.drop_first(), false)
    }
}

/// `s` with its first character turned into its small letter.
pub open spec fn lower_first(s: Seq<char>) -> Seq<char> {
    if s.len() == 0 {
        s
    } else {
        seq![lower(s[0])] + s.drop_first()
    }
}

/// The name of a type: upper camel case.
pub open spec fn upper_camel(s: Seq<char>) -> Seq<char> {
    camel(s, true)
}

/// The name of a function, argument or field: lower camel case.
pub open spec fn lower_camel(s: Seq<char>) -> Seq<char> {
    lower_first(camel(s, false))
}

/// The case convention of a kind of name.
#[derive(Clone, Copy, Debug, PartialEq, Eq, Structural)]
pub enum Style {
    /// Types: `UpperCamel`.
    Type,
    /// Functions, arguments and fields: `lowerCamel`.
    Member,
}

/// The name that `s` is given in the convention `style`.
pub open spec fn converted(s: Seq<char>, style: Style) -> Seq<char> {
    match style {
        Style::Type => upper_camel(s),
        Style::Member => lower_camel(s),
    }
}

/// Whether the rest of an identifier is in snake case: small letters, digits
/// and single underscores, each underscore followed by a letter. With
/// `start` set, `s` is the start of a word and begins with a letter.
pub open spec fn snake_tail(s: Seq<char>, start: bool) -> bool
    decreases s.len(),
{
    if s.len() == 0 {
        !start
    } else if s[0] == '_' {
        !start && snake_tail(s.drop_first(), true)
    } else if is_lower(s[0]) {
        snake_tail(s.drop_first(), false)
    } else {
        is_digit(s[0]) && !start && snake_tail(s.drop_first(), false)
    }
}

/// Whether `s` is an identifier in snake case, as declarations are written:
/// words of small letters and digits, each beginning with a letter, with a
/// single underscore between two words.
pub open spec fn is_snake(s: Seq<char>) -> bool {
    snake_tail(s, true)
}

/// Camel case turned back: an underscore and the small letter in place of
/// each capital.
pub open spec fn uncamel(s: Seq<char>) -> Seq<char>
    decreases s.len(),
{
    if s.len() == 0 {
        Seq::empty()
    } else if is_upper(s[0]) {
        seq!['_', lower(s[0])] + uncamel(s.drop_first())
    } else {
        seq![s[0]] + uncamel(s.drop_first())
    }
}

/// Turning the camel case of a snake-case text back gives the text again,
/// with an underscore in front where its first letter was turned into a capital.
pub proof fn lemma_uncamel_camel(s: Seq<char>, start: bool)
    requires
        snake_tail(s, start),
    ensures
        uncamel(camel(s, start)) == if start {
            seq!['_'] + s
        } else {
            s
        },
    decreases s.len(),
{
    if s.len() == 0 {
    } else {
        let rest = s.drop_first();
        let c = s[0];
        if c == '_' {
            lemma_uncamel_camel(rest, true);
            assert(seq!['_'] + rest =~= s);
        } else {
            lemma_uncamel_camel(rest, false);
            let head = if start {
                upper(c)
            } else {
                c
            };
            let out = seq![head] + camel(rest, false);
            assert(out.drop_first() =~= camel(rest, false));
            assert(out[0] == head);
            if start {
                assert(is_lower(c));
                assert(is_upper(head));
                assert(lower(head) == c);
                assert(seq!['_', c] + rest =~= seq!['_'] + s);
            } else {
                assert(!is_upper(c));
                assert(seq![c] + rest =~= s);
            }
        }
    }
}

/// Two snake-case identifiers with the same upper-camel-case name are the
/// same identifier.
pub proof fn lemma_upper_camel_injective(a: Seq<char>, b: Seq<char>)
    requires
        is_snake(a),
        is_snake(b),
        upper_camel(a) == upper_camel(b),
    ensures
        a == b,
{
    lemma_uncamel_camel(a, true);
    lemma_uncamel_camel(b, true);
    assert((seq!['_'] + a).drop_first() =~= a);
    assert((seq!['_'] + b).drop_first() =~= b);
}

/// Two snake-case identifiers with the same lower-camel-case name are the
/// same identifier.
pub proof fn lemma_lower_camel_injective(a: Seq<char>, b: Seq<char>)
    requires
        is_snake(a),
        is_snake(b),
        lower_camel(a) == lower_camel(b),
    ensures
        a == b,
{
    lemma_lower_first_fixed(a);
    lemma_lower_first_fixed(b);
    lemma_uncamel_camel(a, false);
    lemma_uncamel_camel(b, false);
}

/// The camel case of a snake-case identifier begins with a small letter, so
/// turning its first character into one changes nothing.
proof fn lemma_lower_first_fixed(s: Seq<char>)
    requires
        is_snake(s),
    ensures
        lower_first(camel(s, false)) == camel(s, false),
        snake_tail(s, false),
{
    let out = camel(s, false);
    assert(out[0] == s[0]);
    assert(out =~= seq![lower(out[0])] + out.drop_first());
    lemma_start_is_tail(s);
}

proof fn lemma_start_is_tail(s: Seq<char>)
    requires
        snake_tail(s, true),
    ensures
        snake_tail(s, false),
{
}

/// No two distinct snake-case identifiers are given the same name.
pub proof fn lemma_converted_injective(a: Seq<char>, b: Seq<char>, style: Style)
    requires
        is_snake(a),
        is_snake(b),
        a != b,
    ensures
        converted(a, style) != converted(b, style),
{
    if converted(a, style) == converted(b, style) {
        match style {
            Style::Type => lemma_upper_camel_injective(a, b),
            Style::Member => lemma_lower_camel_injective(a, b),
        }
    }
}

/// Whether `s` holds no underscore.
pub open spec fn plain(s: Seq<char>) -> bool {
    forall|i: int| 0 <= i < s.len() ==> s[i] != '_'
}

/// Camel case holds no underscore.
pub proof fn lemma_camel_plain(s: Seq<char>, capital: bool)
    ensures
        plain(camel(s, capital)),
    decreases s.len(),
{
    if s.len() > 0 {
        if s[0] == '_' {
            lemma_camel_plain(s.drop_first(), true);
        } else {
            lemma_camel_plain(s.drop_first(), false);
            let head = if capital {
                upper(s[0])
            } else {
                s[0]
            };
            let out = seq![head] + camel(s.drop_first(), false);
            assert forall|i: int| 0 <= i < out.len() implies out[i] != '_' by {
                if i > 0 {
                    assert(out[i] == camel(s.drop_first(), false)[i - 1]);
                }
            }
        }
    }
}

/// A text without underscores is its own camel case, but for the capital
/// that its first character may be turned into.
proof fn lemma_camel_of_plain(s: Seq<char>)
    requires
        plain(s),
    ensures
        camel(s, false) == s,
        s.len() > 0 ==> camel(s, true) == seq![upper(s[0])] + s.drop_first(),
    decreases s.len(),
{
    if s.len() > 0 {
        let rest = s.drop_first();
        assert forall|i: int| 0 <= i < rest.len() implies rest[i] != '_' by {
            assert(rest[i] == s[i + 1]);
        }
        lemma_camel_of_plain(rest);
        assert(seq![s[0]] + rest =~= s);
    }
}

/// A name in lower camel case is its own name: converting twice is
/// converting once.
pub proof fn lemma_lower_camel_idempotent(s: Seq<char>)
    ensures
        lower_camel(lower_camel(s)) == lower_camel(s),
{
    let once = lower_camel(s);
    lemma_camel_plain(s, false);
    let inner = camel(s, false);
    if inner.len() > 0 {
        assert forall|i: int| 0 <= i < once.len() implies once[i] != '_' by {
            if i > 0 {
                assert(once[i] == inner[i]);
            } else {
                assert(once[0] == lower(inner[0]));
            }
        }
        lemma_camel_of_plain(once);
        assert(lower(lower(inner[0])) == lower(inner[0]));
        assert(once.drop_first() =~= inner.drop_first());
        assert(lower_first(once) =~= once);
    } else {
        lemma_camel_of_plain(once);
    }
}

/// A name in upper camel case is its own name: converting twice is
/// converting once.
pub proof fn lemma_upper_camel_idempotent(s: Seq<char>)
    ensures
        upper_camel(upper_camel(s)) == upper_camel(s),
{
    let once = upper_camel(s);
    lemma_camel_plain(s, true);
    lemma_camel_of_plain(once);
    if once.len() > 0 {
        lemma_camel_head(s);
        assert(upper(once[0]) == once[0]);
        assert(seq![once[0]] + once.drop_first() =~= once);
    }
}

/// Upper camel case begins with a character that is its own capital.
proof fn lemma_camel_head(s: Seq<char>)
    ensures
        camel(s, true).len() > 0 ==> upper(camel(s, true)[0]) == camel(s, true)[0],
    decreases s.len(),
{
    if s.len() > 0 {
        if s[0] == '_' {
            lemma_camel_head(s.drop_first());
        } else {
            let out = seq![upper(s[0])] + camel(s.drop_first(), false);
            assert(out[0] == upper(s[0]));
            assert(upper(upper(s[0])) == upper(s[0]));
        }
    }
}

/// The capital of `c`.
fn to_upper(c: char) -> (r: char)
    ensures
        r == upper(c),
{
    if 'a' <= c && c <= 'z' {
        ((c as u8) - 32) as char
    } else {
        c
    }
}

/// The small letter of `c`.
fn to_lower(c: char) -> (r: char)
    ensures
        r == lower(c),
{
    if 'A' <= c && c <= 'Z' {
        ((c as u8) + 32) as char
    } else {
        c
    }
}

/// The camel case of `s`, with a capital first where `capital` is set.
fn camel_chars(s: &Vec<char>, capital: bool) -> (out: Vec<char>)
    ensures
        out@ == camel(s@, capital),
{
    let mut out: Vec<char> = Vec::new();
    let mut next_capital = capital;
    let mut i: usize = 0;
    assert(s@.skip(0) =~= s@);
    while i < s.len()
        invariant
            i <= s.len(),
            camel(s@, capital) == out@ + camel(s@.skip(i as int), next_capital),
        decreases s.len() - i,
    {
        let c = s[i];
        proof {
            assert(s@.skip(i as int).drop_first() =~= s@.skip(i + 1));
            assert(s@.skip(i as int)[0] == c);
        }
        if c == '_' {
            next_capital = true;
        } else {
            let ghost before = out@;
            let shown = if next_capital {
                to_upper(c)
            } else {
                c
            };
            out.push(shown);
            next_capital = false;
            assert(before + (seq![shown] + camel(s@.skip(i + 1), false)) =~= out@ + camel(
                s@.skip(i + 1),
                false,
            ));
        }
        i = i + 1;
    }
    assert(out@ + Seq::<char>::empty() =~= out@);
    out
}

/// The name of the type declared as `ident`.
pub fn class_name(ident: &str) -> (name: String)
    ensures
        name@ == upper_camel(ident@),
{
    let chars = chars_of(ident);
    text_of(&camel_chars(&chars, true))
}

/// The name of the function, argument or field declared as `ident`.
pub fn member_name(ident: &str) -> (name: String)
    ensures
        name@ == lower_camel(ident@),
{
    let chars = chars_of(ident);
    let mut out = camel_chars(&chars, false);
    if out.len() > 0 {
        let first = to_lower(out[0]);
        let ghost before = out@;
        out.set(0, first);
        assert(out@ =~= seq![lower(before[0])] + before.drop_first());
    }
    text_of(&out)
}

/// The name that `ident` is given in the convention `style`.
pub fn convert(ident: &str, style: Style) -> (name: String)
    ensures
        name@ == converted(ident@, style),
{
    match style {
        Style::Type => class_name(ident),
        Style::Member => member_name(ident),
    }
}

/// Two places of one scope whose identifiers are given the same name.
#[derive(Clone, Copy, Debug, PartialEq, Eq, Structural)]
pub struct Clash {
    /// The earlier place.
    pub first: usize,
    /// The later place.
    pub second: usize,
}

/// Whether no two places of the scope `idents` are given the same name.
pub open spec fn collision_free(idents: Seq<Seq<char>>, style: Style) -> bool {
    forall|i: int, j: int|
        0 <= i < j < idents.len() ==> converted(idents[i], style) != converted(idents[j], style)
}

/// Whether the identifier at `j` is given a name that an earlier one has.
pub open spec fn repeats(idents: Seq<Seq<char>>, style: Style, j: int) -> bool {
    exists|i: int| 0 <= i < j && converted(idents[i], style) == converted(idents[j], style)
}

/// A scope of distinct snake-case identifiers is free of collisions.
pub proof fn lemma_snake_scope_collision_free(idents: Seq<Seq<char>>, style: Style)
    requires
        forall|i: int| 0 <= i < idents.len() ==> is_snake(#[trigger] idents[i]),
        forall|i: int, j: int| 0 <= i < j < idents.len() ==> idents[i] != idents[j],
    ensures
        collision_free(idents, style),
{
    assert forall|i: int, j: int| 0 <= i < j < idents.len() implies converted(
        idents[i],
        style,
    ) != converted(idents[j], style) by {
        lemma_converted_injective(idents[i], idents[j], style);
    }
}

/// The place before `end` of the first of `names` that equals `name`.
fn position_of(names: &Vec<String>, end: usize, name: &String) -> (r: Option<usize>)
    requires
        end <= names@.len(),
    ensures
        match r {
            Some(i) => i < end && names@[i as int]@ == name@ && forall|k: int|
                0 <= k < i ==> (#[trigger] names@[k])@ != name@,
            None => forall|k: int| 0 <= k < end ==> (#[trigger] names@[k])@ != name@,
        },
{
    let mut i: usize = 0;
    while i < end
        invariant
            i <= end <= names@.len(),
            forall|k: int| 0 <= k < i ==> (#[trigger] names@[k])@ != name@,
        decreases end - i,
    {
        if names[i] == *name {
            return Some(i);
        }
        i = i + 1;
    }
    None
}

/// Gives every identifier of one scope its name in the convention `style`.
///
/// Where two places would be given the same name the scope is refused, with
/// the first place whose name an earlier one has and the earliest that has it.
pub fn convert_scope(idents: &Vec<String>, style: Style) -> (r: Result<Vec<String>, Clash>)
    ensures
        match r {
            Ok(names) => {
                &&& collision_free(slot_texts(idents@), style)
                &&& names@.len() == idents@.len()
                &&& forall|i: int|
                    0 <= i < names@.len() ==> (#[trigger] names@[i])@ == converted(
                        idents@[i]@,
                        style,
                    )
                &&& forall|i: int, j: int|
                    0 <= i < j < names@.len() ==> names@[i]@ != names@[j]@
            },
            Err(clash) => {
                &&& clash.first < clash.second < idents@.len()
                &&& converted(idents@[clash.first as int]@, style) == converted(
                    idents@[clash.second as int]@,
                    style,
                )
                &&& forall|j: int| 0 <= j < clash.second ==> !#[trigger] repeats(slot_texts(idents@), style, j)
                &&& forall|i: int|
                    0 <= i < clash.first ==> converted((#[trigger] idents@[i])@, style)
                        != converted(idents@[clash.second as int]@, style)
            },
        },
{
    let mut names: Vec<String> = Vec::new();
    let mut j: usize = 0;
    while j < idents.len()
        invariant
            j <= idents.len(),
            names@.len() == j,
            forall|i: int|
                0 <= i < j ==> (#[trigger] names@[i])@ == converted(idents@[i]@, style),
            forall|k: int| 0 <= k < j ==> !#[trigger] repeats(slot_texts(idents@), style, k),
        decreases idents.len() - j,
    {
        let name = convert(idents[j].as_str(), style);
        match position_of(&names, j, &name) {
            Some(i) => {
                proof {
                    assert(names@[i as int]@ == converted(idents@[i as int]@, style));
                    assert forall|k: int| 0 <= k < i implies converted(
                        (#[trigger] idents@[k])@,
                        style,
                    ) != converted(idents@[j as int]@, style) by {
                        assert(names@[k]@ == converted(idents@[k]@, style));
                    }
                }
                return Err(Clash { first: i, second: j });
            },
            None => {
                proof {
                    assert forall|k: int| 0 <= k < j implies converted(idents@[k]@, style)
                        != converted(idents@[j as int]@, style) by {
                        assert(names@[k]@ == converted(idents@[k]@, style));
                    }
                    assert(!repeats(slot_texts(idents@), style, j as int));
                }
                names.push(name);
            },
        }
        j = j + 1;
    }
    proof {
        let texts = slot_texts(idents@);
        assert forall|a: int, b: int| 0 <= a < b < texts.len() implies converted(
            texts[a],
            style,
        ) != converted(texts[b], style) by {
            assert(!repeats(texts, style, b));
        }
        assert forall|a: int, b: int| 0 <= a < b < idents@.len() implies converted(
            idents@[a]@,
            style,
        ) != converted(idents@[b]@, style) by {
            assert(texts[a] == idents@[a]@ && texts[b] == idents@[b]@);
        }
        assert forall|a: int, b: int| 0 <= a < b < names@.len() implies names@[a]@
            != names@[b]@ by {
            assert(names@[a]@ == converted(idents@[a]@, style));
            assert(names@[b]@ == converted(idents@[b]@, style));
        }
    }
    Ok(names)
}

} // verus!
