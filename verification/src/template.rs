//! Templates of generated code: listings of lines, each with its level of
//! indentation, in which `$0` to `$9` stand for the texts of slots and `$$`
//! for a dollar sign.

use vstd::prelude::*;
use crate::naming::is_digit;
use crate::text::{chars_of, text_of};
use crate::tokens::{depth, Token, token_models, TokenModel, within_depth};

verus! {

/// One line of a template: its level of indentation and its text.
pub type TemplateLine = (u8, &'static str);

/// The number that the digit `c` stands for.
pub open spec fn digit_value(c: char) -> int {
    c as int - 48
}

/// The texts of `slots`, in order.
pub open spec fn slot_texts(slots: Seq<String>) -> Seq<Seq<char>> {
    Seq::new(slots.len(), |i: int| slots[i]@)
}

/// `line` with the text of a slot in place of each `$` and digit that
/// names one, and the character itself in place of any other `$` and
/// character.
pub open spec fn filled(line: Seq<char>, slots: Seq<Seq<char>>) -> Seq<char>
    decreases line.len(),
{
    if line.len() == 0 {
        Seq::empty()
    } else if line[0] == '$' && line.len() >= 2 {
        if is_digit(line[1]) && digit_value(line[1]) < slots.len() {
            slots[digit_value(line[1])] + filled(line.skip(2), slots)
        } else {
            seq![line[1]] + filled(line.skip(2), slots)
        }
    } else {
        seq![line[0]] + filled(line.drop_first(), slots)
    }
}

/// The tokens that take the indentation from level `from` to level `to`.
pub open spec fn shift(from: int, to: int) -> Seq<TokenModel>
    decreases
            if from < to {
                to - from
            } else {
                from - to
            },
{
    if from < to {
        seq![TokenModel::Indent] + shift(from + 1, to)
    } else if from > to {
        seq![TokenModel::Unindent] + shift(from - 1, to)
    } else {
        Seq::empty()
    }
}

/// The tokens of an empty line. The empty text behind it keeps a change
/// of indentation that follows from taking the empty line away.
pub open spec fn blank_tokens() -> Seq<TokenModel> {
    seq![TokenModel::Line, TokenModel::Literal(Seq::empty())]
}

/// The tokens of a line of text at level `to` after a line at level
/// `from`: the change of indentation, the line break, and the text with its
/// slots filled.
pub open spec fn text_tokens(from: int, to: int, text: Seq<char>, slots: Seq<Seq<char>>) -> Seq<
    TokenModel,
> {
    shift(from, to) + seq![TokenModel::Push, TokenModel::Literal(filled(text, slots))]
}

/// The tokens of the lines of `template` after a line at the indentation
/// level `level`, and back to level 0 after the last. A line without text
/// is an empty line, whatever its level.
pub open spec fn expanded_from(
    template: Seq<TemplateLine>,
    slots: Seq<Seq<char>>,
    level: int,
) -> Seq<TokenModel>
    decreases template.len(),
{
    if template.len() == 0 {
        shift(level, 0)
    } else if template[0].1@.len() == 0 {
        blank_tokens() + expanded_from(template.drop_first(), slots, level)
    } else {
        text_tokens(level, template[0].0 as int, template[0].1@, slots) + expanded_from(
            template.drop_first(),
            slots,
            template[0].0 as int,
        )
    }
}

/// The tokens of `template` with `slots` filled in.
pub open spec fn expanded(template: Seq<TemplateLine>, slots: Seq<Seq<char>>) -> Seq<TokenModel> {
    expanded_from(template, slots, 0)
}

/// The models of a token list with one token more.
pub proof fn lemma_models_push(tokens: Seq<Token>, token: Token)
    ensures
        token_models(tokens.push(token)) == token_models(tokens).push(token@),
{
    assert(token_models(tokens.push(token)) =~= token_models(tokens).push(token@));
}

/// The models of two token lists joined.
pub proof fn lemma_models_concat(a: Seq<Token>, b: Seq<Token>)
    ensures
        token_models(a + b) == token_models(a) + token_models(b),
{
    assert(token_models(a + b) =~= token_models(a) + token_models(b));
}

/// `line` with `slots` filled in.
pub fn fill(line: &str, slots: &Vec<String>) -> (out: String)
    ensures
        out@ == filled(line@, slot_texts(slots@)),
{
    let chars = chars_of(line);
    let ghost texts = slot_texts(slots@);
    let mut out: Vec<char> = Vec::new();
    let mut i: usize = 0;
    assert(chars@.skip(0) =~= chars@);
    while i < chars.len()
        invariant
            i <= chars.len(),
            texts == slot_texts(slots@),
            filled(chars@, texts) == out@ + filled(chars@.skip(i as int), texts),
        decreases chars.len() - i,
    {
        let ghost rest = chars@.skip(i as int);
        let ghost before = out@;
        let c = chars[i];
        if c == '$' && chars.len() - i >= 2 {
            let d = chars[i + 1];
            proof {
                assert(rest[1] == d);
                assert(rest.skip(2) =~= chars@.skip(i + 2));
            }
            if '0' <= d && d <= '9' && ((d as u8 - 48) as usize) < slots.len() {
                let mut text = chars_of(slots[(d as u8 - 48) as usize].as_str());
                let ghost inserted = text@;
                out.append(&mut text);
                assert(before + (inserted + filled(chars@.skip(i + 2), texts)) =~= out@ + filled(
                    chars@.skip(i + 2),
                    texts,
                ));
            } else {
                out.push(d);
                assert(before + (seq![d] + filled(chars@.skip(i + 2), texts)) =~= out@ + filled(
                    chars@.skip(i + 2),
                    texts,
                ));
            }
            i = i + 2;
        } else {
            proof {
                assert(rest.drop_first() =~= chars@.skip(i + 1));
            }
            out.push(c);
            assert(before + (seq![c] + filled(chars@.skip(i + 1), texts)) =~= out@ + filled(
                chars@.skip(i + 1),
                texts,
            ));
            i = i + 1;
        }
    }
    assert(out@ + Seq::<char>::empty() =~= out@);
    text_of(&out)
}

/// Appends the tokens that take the indentation from level `from` to level `to`.
fn push_shift(from: u8, to: u8, out: &mut Vec<Token>)
    ensures
        token_models(final(out)@) == token_models(old(out)@) + shift(from as int, to as int),
{
    let ghost start = token_models(out@);
    let mut at: u8 = from;
    assert(start + shift(at as int, to as int) =~= start + shift(from as int, to as int));
    while at != to
        invariant
            token_models(out@) + shift(at as int, to as int) == start + shift(
                from as int,
                to as int,
            ),
        decreases
                if at < to {
                    to - at
                } else {
                    at - to
                },
    {
        let ghost before = token_models(out@);
        proof {
            lemma_models_push(out@, if at < to { Token::Indent } else { Token::Unindent });
        }
        if at < to {
            out.push(Token::Indent);
            at = at + 1;
            assert(before + (seq![TokenModel::Indent] + shift(at as int, to as int))
                =~= token_models(out@) + shift(at as int, to as int));
        } else {
            out.push(Token::Unindent);
            at = at - 1;
            assert(before + (seq![TokenModel::Unindent] + shift(at as int, to as int))
                =~= token_models(out@) + shift(at as int, to as int));
        }
    }
    assert(token_models(out@) + Seq::<TokenModel>::empty() =~= token_models(out@));
}

/// Appends the tokens of an empty line.
fn push_blank(out: &mut Vec<Token>)
    ensures
        token_models(final(out)@) == token_models(old(out)@) + blank_tokens(),
{
    let ghost start = out@;
    let barrier = Token::Literal(String::new());
    out.push(Token::Line);
    out.push(barrier);
    proof {
        lemma_models_push(start, Token::Line);
        lemma_models_push(start.push(Token::Line), barrier);
        assert(token_models(start).push(TokenModel::Line).push(barrier@) =~= token_models(start)
            + blank_tokens());
    }
}

/// Appends the tokens of a line of text at level `to` after a line at
/// level `from`.
fn push_text(from: u8, to: u8, text: &str, slots: &Vec<String>, out: &mut Vec<Token>)
    ensures
        token_models(final(out)@) == token_models(old(out)@) + text_tokens(
            from as int,
            to as int,
            text@,
            slot_texts(slots@),
        ),
{
    let ghost start = token_models(out@);
    push_shift(from, to, out);
    let ghost shifted = out@;
    let literal = Token::Literal(fill(text, slots));
    out.push(Token::Push);
    out.push(literal);
    proof {
        lemma_models_push(shifted, Token::Push);
        lemma_models_push(shifted.push(Token::Push), literal);
        assert(token_models(out@) =~= start + text_tokens(
            from as int,
            to as int,
            text@,
            slot_texts(slots@),
        ));
    }
}

/// Appends the tokens of `template` with `slots` filled in.
pub fn expand(template: &[TemplateLine], slots: &Vec<String>, out: &mut Vec<Token>)
    ensures
        token_models(final(out)@) == token_models(old(out)@) + expanded(
            template@,
            slot_texts(slots@),
        ),
{
    let ghost start = token_models(out@);
    let ghost texts = slot_texts(slots@);
    let mut level: u8 = 0;
    let mut i: usize = 0;
    assert(template@.skip(0) =~= template@);
    while i < template.len()
        invariant
            i <= template.len(),
            texts == slot_texts(slots@),
            token_models(out@) + expanded_from(template@.skip(i as int), texts, level as int)
                == start + expanded(template@, texts),
        decreases template.len() - i,
    {
        let ghost before = token_models(out@);
        let ghost rest = template@.skip(i as int);
        let (next, text) = template[i];
        proof {
            assert(rest[0] == template@[i as int]);
            assert(rest.drop_first() =~= template@.skip(i + 1));
        }
        if text.is_empty() {
            push_blank(out);
            proof {
                assert(before + (blank_tokens() + expanded_from(
                    template@.skip(i + 1),
                    texts,
                    level as int,
                )) =~= token_models(out@) + expanded_from(
                    template@.skip(i + 1),
                    texts,
                    level as int,
                ));
            }
        } else {
            push_text(level, next, text, slots, out);
            proof {
                assert(before + (text_tokens(level as int, next as int, text@, texts)
                    + expanded_from(template@.skip(i + 1), texts, next as int)) =~= token_models(
                    out@,
                ) + expanded_from(template@.skip(i + 1), texts, next as int));
            }
            level = next;
        }
        i = i + 1;
    }
    push_shift(level, 0, out);
}

/// The texts of each set of `sets`, in order.
pub open spec fn slot_sets(sets: Seq<Vec<String>>) -> Seq<Seq<Seq<char>>> {
    Seq::new(sets.len(), |i: int| slot_texts(sets[i]@))
}

/// The tokens of `template`, once for each of the first `end` sets of
/// slots, in order.
pub open spec fn expanded_each(
    template: Seq<TemplateLine>,
    sets: Seq<Seq<Seq<char>>>,
    end: int,
) -> Seq<TokenModel>
    decreases end,
{
    if end <= 0 {
        Seq::empty()
    } else {
        expanded_each(template, sets, end - 1) + expanded(template, sets[end - 1])
    }
}

/// Appends the tokens of `template` once for each set of slots, in order.
pub fn expand_each(template: &[TemplateLine], sets: &Vec<Vec<String>>, out: &mut Vec<Token>)
    ensures
        token_models(final(out)@) == token_models(old(out)@) + expanded_each(
            template@,
            slot_sets(sets@),
            sets@.len() as int,
        ),
{
    let ghost start = token_models(out@);
    let ghost all = slot_sets(sets@);
    let mut i: usize = 0;
    assert(start + expanded_each(template@, all, 0) =~= start);
    while i < sets.len()
        invariant
            i <= sets.len(),
            all == slot_sets(sets@),
            token_models(out@) == start + expanded_each(template@, all, i as int),
        decreases sets.len() - i,
    {
        expand(template, &sets[i], out);
        i = i + 1;
        assert(token_models(out@) =~= start + expanded_each(template@, all, i as int));
    }
}

/// A group of a listing: the slots of its head and tail, and the sets of
/// slots of the lines between them.
pub struct Group {
    pub slots: Vec<String>,
    pub sets: Vec<Vec<String>>,
}

/// The texts of a group: those of its head and tail, and those of the
/// lines between them.
pub type GroupTexts = (Seq<Seq<char>>, Seq<Seq<Seq<char>>>);

/// The texts of each of `groups`, in order.
pub open spec fn group_texts(groups: Seq<Group>) -> Seq<GroupTexts> {
    Seq::new(groups.len(), |i: int| (slot_texts(groups[i].slots@), slot_sets(groups[i].sets@)))
}

/// The tokens of the first `end` groups, in order: for each the head, the
/// line template once for each of its sets, and the tail.
pub open spec fn expanded_groups(
    head: Seq<TemplateLine>,
    each: Seq<TemplateLine>,
    tail: Seq<TemplateLine>,
    groups: Seq<GroupTexts>,
    end: int,
) -> Seq<TokenModel>
    decreases end,
{
    if end <= 0 {
        Seq::empty()
    } else {
        let group = groups[end - 1];
        expanded_groups(head, each, tail, groups, end - 1) + expanded(head, group.0)
            + expanded_each(each, group.1, group.1.len() as int) + expanded(tail, group.0)
    }
}

/// Appends the tokens of the groups, in order: for each the head, the line
/// template once for each of its sets, and the tail.
pub fn expand_groups(
    head: &[TemplateLine],
    each: &[TemplateLine],
    tail: &[TemplateLine],
    groups: &Vec<Group>,
    out: &mut Vec<Token>,
)
    ensures
        token_models(final(out)@) == token_models(old(out)@) + expanded_groups(
            head@,
            each@,
            tail@,
            group_texts(groups@),
            groups@.len() as int,
        ),
{
    let ghost start = token_models(out@);
    let ghost all = group_texts(groups@);
    let mut i: usize = 0;
    assert(start + expanded_groups(head@, each@, tail@, all, 0) =~= start);
    while i < groups.len()
        invariant
            i <= groups.len(),
            all == group_texts(groups@),
            token_models(out@) == start + expanded_groups(head@, each@, tail@, all, i as int),
        decreases groups.len() - i,
    {
        expand(head, &groups[i].slots, out);
        expand_each(each, &groups[i].sets, out);
        expand(tail, &groups[i].slots, out);
        i = i + 1;
        assert(token_models(out@) =~= start + expanded_groups(head@, each@, tail@, all, i as int));
    }
}

/// The first `end` of `parts`, with `separator` between two.
pub open spec fn joined(parts: Seq<Seq<char>>, separator: Seq<char>, end: int) -> Seq<char>
    decreases end,
{
    if end <= 0 {
        Seq::empty()
    } else if end == 1 {
        parts[0]
    } else {
        joined(parts, separator, end - 1) + separator + parts[end - 1]
    }
}

/// `parts`, with `separator` between two.
pub fn join_all(parts: &Vec<String>, separator: &str) -> (out: String)
    ensures
        out@ == joined(slot_texts(parts@), separator@, parts@.len() as int),
{
    let ghost texts = slot_texts(parts@);
    let mut out = String::new();
    let mut i: usize = 0;
    while i < parts.len()
        invariant
            i <= parts.len(),
            texts == slot_texts(parts@),
            out@ == joined(texts, separator@, i as int),
        decreases parts.len() - i,
    {
        if i == 0 {
            out = parts[0].clone();
        } else {
            out = crate::text::join3(out.as_str(), separator, parts[i].as_str());
        }
        i = i + 1;
    }
    out
}

/// The deepest level of indentation that a template can reach.
pub open spec fn max_level() -> int {
    255
}

/// Whether the indentation level, which is `start` before `tokens`, is a
/// level of a template after every one of them.
pub open spec fn stays(tokens: Seq<TokenModel>, start: int) -> bool
    decreases tokens.len(),
{
    tokens.len() == 0 || (stays(tokens.drop_last(), start) && 0 <= start + depth(tokens)
        <= max_level())
}

/// Whether `tokens` keep the indentation within the levels of a template
/// and leave it where it was.
pub open spec fn balanced(tokens: Seq<TokenModel>) -> bool {
    stays(tokens, 0) && depth(tokens) == 0
}

/// The levels that two lists change the indentation by add up.
pub proof fn lemma_depth_concat(a: Seq<TokenModel>, b: Seq<TokenModel>)
    ensures
        depth(a + b) == depth(a) + depth(b),
    decreases b.len(),
{
    if b.len() == 0 {
        assert(a + b =~= a);
    } else {
        assert((a + b).drop_last() =~= a + b.drop_last());
        lemma_depth_concat(a, b.drop_last());
    }
}

/// A list that stays within the levels, followed by one that does so from
/// where the first ends, stays within the levels.
pub proof fn lemma_stays_concat(a: Seq<TokenModel>, b: Seq<TokenModel>, start: int)
    requires
        stays(a, start),
        stays(b, start + depth(a)),
    ensures
        stays(a + b, start),
        depth(a + b) == depth(a) + depth(b),
    decreases b.len(),
{
    lemma_depth_concat(a, b);
    if b.len() == 0 {
        assert(a + b =~= a);
    } else {
        assert((a + b).drop_last() =~= a + b.drop_last());
        lemma_stays_concat(a, b.drop_last(), start);
    }
}

/// Two balanced lists, one after the other, are balanced.
pub proof fn lemma_balanced_concat(a: Seq<TokenModel>, b: Seq<TokenModel>)
    requires
        balanced(a),
        balanced(b),
    ensures
        balanced(a + b),
{
    lemma_stays_concat(a, b, 0);
}

/// A list that stays within the levels of a template stays within the
/// depth that the formatter can hold.
pub proof fn lemma_stays_within_depth(tokens: Seq<TokenModel>)
    requires
        stays(tokens, 0),
    ensures
        within_depth(tokens),
    decreases tokens.len(),
{
    if tokens.len() > 0 {
        lemma_stays_within_depth(tokens.drop_last());
    }
}

/// One token that changes the level by `change`.
proof fn lemma_stays_one(token: TokenModel, start: int, change: int)
    requires
        change == match token {
            TokenModel::Indent => 1int,
            TokenModel::Unindent => -1int,
            _ => 0int,
        },
        0 <= start + change <= max_level(),
    ensures
        stays(seq![token], start),
        depth(seq![token]) == change,
{
    let one = seq![token];
    assert(one.drop_last() =~= Seq::<TokenModel>::empty());
    assert(one.last() == token);
    assert(depth(one.drop_last()) == 0);
    assert(stays(one.drop_last(), start));
    assert(depth(one) == change);
}

/// The tokens that take the indentation from one level of a template to
/// another stay within the levels.
pub proof fn lemma_shift_stays(from: int, to: int)
    requires
        0 <= from <= max_level(),
        0 <= to <= max_level(),
    ensures
        stays(shift(from, to), from),
        depth(shift(from, to)) == to - from,
    decreases
            if from < to {
                to - from
            } else {
                from - to
            },
{
    if from < to {
        lemma_stays_one(TokenModel::Indent, from, 1);
        lemma_shift_stays(from + 1, to);
        lemma_stays_concat(seq![TokenModel::Indent], shift(from + 1, to), from);
    } else if from > to {
        lemma_stays_one(TokenModel::Unindent, from, -1);
        lemma_shift_stays(from - 1, to);
        lemma_stays_concat(seq![TokenModel::Unindent], shift(from - 1, to), from);
    }
}

/// The tokens of the lines of a template stay within the levels and end at
/// level 0.
pub proof fn lemma_expanded_from_stays(
    template: Seq<TemplateLine>,
    slots: Seq<Seq<char>>,
    level: int,
)
    requires
        0 <= level <= max_level(),
    ensures
        stays(expanded_from(template, slots, level), level),
        depth(expanded_from(template, slots, level)) == -level,
    decreases template.len(),
{
    if template.len() == 0 {
        lemma_shift_stays(level, 0);
    } else if template[0].1@.len() == 0 {
        let rest = expanded_from(template.drop_first(), slots, level);
        lemma_expanded_from_stays(template.drop_first(), slots, level);
        lemma_stays_one(TokenModel::Line, level, 0);
        lemma_stays_one(TokenModel::Literal(Seq::empty()), level, 0);
        lemma_stays_concat(
            seq![TokenModel::Line],
            seq![TokenModel::Literal(Seq::empty())],
            level,
        );
        assert(blank_tokens() =~= seq![TokenModel::Line] + seq![
            TokenModel::Literal(Seq::empty()),
        ]);
        lemma_stays_concat(blank_tokens(), rest, level);
    } else {
        let next = template[0].0 as int;
        let text = TokenModel::Literal(filled(template[0].1@, slots));
        let rest = expanded_from(template.drop_first(), slots, next);
        lemma_expanded_from_stays(template.drop_first(), slots, next);
        lemma_shift_stays(level, next);
        lemma_stays_one(TokenModel::Push, next, 0);
        lemma_stays_one(text, next, 0);
        lemma_stays_concat(seq![TokenModel::Push], seq![text], next);
        assert(seq![TokenModel::Push, text] =~= seq![TokenModel::Push] + seq![text]);
        lemma_stays_concat(shift(level, next), seq![TokenModel::Push, text], level);
        lemma_stays_concat(text_tokens(level, next, template[0].1@, slots), rest, level);
    }
}

/// The tokens of a template are balanced.
pub proof fn lemma_expanded_balanced(template: Seq<TemplateLine>, slots: Seq<Seq<char>>)
    ensures
        balanced(expanded(template, slots)),
{
    lemma_expanded_from_stays(template, slots, 0);
}

/// The tokens of a template, once for each set of slots, are balanced.
pub proof fn lemma_expanded_each_balanced(
    template: Seq<TemplateLine>,
    sets: Seq<Seq<Seq<char>>>,
    end: int,
)
    ensures
        balanced(expanded_each(template, sets, end)),
    decreases end,
{
    if end > 0 {
        lemma_expanded_each_balanced(template, sets, end - 1);
        lemma_expanded_balanced(template, sets[end - 1]);
        lemma_balanced_concat(
            expanded_each(template, sets, end - 1),
            expanded(template, sets[end - 1]),
        );
    }
}

/// The tokens of the groups of a listing are balanced.
pub proof fn lemma_expanded_groups_balanced(
    head: Seq<TemplateLine>,
    each: Seq<TemplateLine>,
    tail: Seq<TemplateLine>,
    groups: Seq<GroupTexts>,
    end: int,
)
    ensures
        balanced(expanded_groups(head, each, tail, groups, end)),
    decreases end,
{
    if end > 0 {
        let group = groups[end - 1];
        let a = expanded_groups(head, each, tail, groups, end - 1);
        let b = expanded(head, group.0);
        let c = expanded_each(each, group.1, group.1.len() as int);
        let d = expanded(tail, group.0);
        lemma_expanded_groups_balanced(head, each, tail, groups, end - 1);
        lemma_expanded_balanced(head, group.0);
        lemma_expanded_each_balanced(each, group.1, group.1.len() as int);
        lemma_expanded_balanced(tail, group.0);
        lemma_balanced_concat(a, b);
        lemma_balanced_concat(a + b, c);
        lemma_balanced_concat(a + b + c, d);
    }
}

} // verus!
