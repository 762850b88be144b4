//! Properties of scanning that hold for every text.
use vstd::prelude::*;
use crate::lexer::{
    keyword, lemma_run_end, lemma_step_advances, line_at, opt_seq, run_end, scan, scan_from,
    step, CharClass,
};
use crate::token::{errors_view, tokens_view, Kind, LexError, Token, TokenModel};

verus! {

/// How a punctuation or operator token is spelled.
pub open spec fn spelling(k: Kind) -> Seq<char> {
    match k {
        Kind::LeftParen => seq!['('],
        Kind::RightParen => seq![')'],
        Kind::LeftBrace => seq!['{'],
        Kind::RightBrace => seq!['}'],
        Kind::Comma => seq![','],
        Kind::Dot => seq!['.'],
        Kind::Minus => seq!['-'],
        Kind::Plus => seq!['+'],
        Kind::Semicolon => seq![';'],
        Kind::Slash => seq!['/'],
        Kind::Star => seq!['*'],
        Kind::Bang => seq!['!'],
        Kind::BangEqual => seq!['!', '='],
        Kind::Equal => seq!['='],
        Kind::EqualEqual => seq!['=', '='],
        Kind::Greater => seq!['>'],
        Kind::GreaterEqual => seq!['>', '='],
        Kind::Less => seq!['<'],
        Kind::LessEqual => seq!['<', '='],
        _ => seq![],
    }
}

/// `t.lexeme` occurs in `s`.
pub open spec fn occurs_in(s: Seq<char>, t: TokenModel) -> bool {
    exists|p: int|
        0 <= p && p + t.lexeme.len() <= s.len() && #[trigger] s.subrange(p, p + t.lexeme.len())
            == t.lexeme
}

/// What holds of every token that a step of scanning produces.
pub open spec fn well_formed_token(s: Seq<char>, t: TokenModel) -> bool {
    &&& !(t.kind is Eof)
    &&& occurs_in(s, t)
    &&& t.kind.is_punctuation() ==> t.lexeme == spelling(t.kind)
    &&& t.kind is Identifier ==> keyword(t.kind->Identifier_0) is None
}

proof fn lemma_step_token(s: Seq<char>, i: int)
    requires
        0 <= i < s.len(),
        step(s, i).token is Some,
    ensures
        well_formed_token(s, step(s, i).token->0),
        (step(s, i).token->0).lexeme == s.subrange(i, step(s, i).next),
{
    lemma_step_advances(s, i);
    let st = step(s, i);
    let t = st.token->0;
    assert(t.lexeme == s.subrange(i, st.next));
    assert(s.subrange(i, i + t.lexeme.len()) == t.lexeme);
    if st.next == i + 1 {
        assert(s.subrange(i, i + 1) =~= seq![s[i]]);
    }
    if st.next == i + 2 {
        assert(s.subrange(i, i + 2) =~= seq![s[i], s[i + 1]]);
    }
}

/// Every token before the last satisfies `well_formed_token`, and the last
/// is `Eof`.
proof fn lemma_scan_from_tokens(s: Seq<char>, i: nat)
    requires
        i <= s.len(),
    ensures
        scan_from(s, i).0.len() >= 1,
        scan_from(s, i).0.last().kind is Eof,
        forall|k: int|
            0 <= k < scan_from(s, i).0.len() - 1 ==> well_formed_token(
                s,
                #[trigger] scan_from(s, i).0[k],
            ),
    decreases s.len() - i,
{
    if i < s.len() {
        let st = step(s, i as int);
        lemma_step_advances(s, i as int);
        lemma_scan_from_tokens(s, st.next as nat);
        let rest = scan_from(s, st.next as nat).0;
        let all = scan_from(s, i).0;
        assert(all == opt_seq(st.token) + rest);
        if st.token is Some {
            lemma_step_token(s, i as int);
            assert forall|k: int| 0 <= k < all.len() - 1 implies well_formed_token(
                s,
                #[trigger] all[k],
            ) by {
                if k > 0 {
                    assert(all[k] == rest[k - 1]);
                }
            }
        } else {
            assert(all =~= rest);
        }
    }
}

/// For every text, the tokens end in `Eof`, and no `Eof` comes before it.
pub proof fn eof_ends_tokens(s: Seq<char>)
    ensures
        scan(s).0.len() >= 1,
        scan(s).0.last().kind is Eof,
        forall|k: int| 0 <= k < scan(s).0.len() - 1 ==> !(#[trigger] scan(s).0[k].kind is Eof),
{
    lemma_scan_from_tokens(s, 0);
    assert forall|k: int| 0 <= k < scan(s).0.len() - 1 implies !(
    #[trigger] scan(s).0[k].kind is Eof) by {
        assert(well_formed_token(s, scan(s).0[k]));
    }
}

/// The lexeme of every punctuation or operator token is that operator's
/// spelling, and it occurs in the source text; in general the lexeme of each
/// token is exactly the text its scanning step consumed.
pub proof fn punctuation_round_trip(s: Seq<char>)
    ensures
        forall|k: int|
            0 <= k < scan(s).0.len() && (#[trigger] scan(s).0[k]).kind.is_punctuation() ==> {
                &&& scan(s).0[k].lexeme == spelling(scan(s).0[k].kind)
                &&& occurs_in(s, scan(s).0[k])
            },
        forall|i: int|
            0 <= i < s.len() && (#[trigger] step(s, i)).token is Some ==> (step(s, i).token->0).lexeme
                == s.subrange(i, step(s, i).next),
{
    lemma_scan_from_tokens(s, 0);
    assert forall|i: int|
        0 <= i < s.len() && (#[trigger] step(s, i)).token is Some implies (step(
        s,
        i,
    ).token->0).lexeme == s.subrange(i, step(s, i).next) by {
        lemma_step_token(s, i);
    }
}

/// No identifier token spells a reserved word: a reserved word is always
/// scanned as its keyword.
pub proof fn keywords_are_never_identifiers(s: Seq<char>)
    ensures
        forall|k: int|
            0 <= k < scan(s).0.len() && (#[trigger] scan(s).0[k]).kind is Identifier ==> keyword(
                scan(s).0[k].kind->Identifier_0,
            ) is None,
        forall|i: int|
            0 <= i < s.len() && crate::lexer::spec_is_alpha(s[i]) && keyword(
                s.subrange(i, run_end(s, i, CharClass::IdentChar)),
            ) is Some ==> (#[trigger] step(s, i)).token == Some(
                TokenModel {
                    kind: keyword(s.subrange(i, run_end(s, i, CharClass::IdentChar)))->0,
                    lexeme: s.subrange(i, run_end(s, i, CharClass::IdentChar)),
                    line: line_at(s, i),
                },
            ),
{
    lemma_scan_from_tokens(s, 0);
}

/// A character outside the grammar gives an `UnexpectedCharacter` error on
/// its line, no token, and scanning resumes just after it.
pub proof fn unexpected_character_skips_one(s: Seq<char>, i: int)
    requires
        0 <= i < s.len(),
        !"(){},.-+;*!=<>/ \r\t\n\""@.contains(s[i]),
        !crate::lexer::spec_is_digit(s[i]),
        !crate::lexer::spec_is_alpha(s[i]),
    ensures
        step(s, i).next == i + 1,
        step(s, i).token is None,
        step(s, i).error == Some(
            crate::token::LexErrorModel {
                kind: crate::token::LexErrorKind::UnexpectedCharacter,
                line: line_at(s, i),
            },
        ),
{
    reveal_strlit("(){},.-+;*!=<>/ \r\t\n\"");
    let g = "(){},.-+;*!=<>/ \r\t\n\""@;
    assert(g[0] == '(' && g[1] == ')' && g[2] == '{' && g[3] == '}' && g[4] == ',');
    assert(g[5] == '.' && g[6] == '-' && g[7] == '+' && g[8] == ';' && g[9] == '*');
    assert(g[10] == '!' && g[11] == '=' && g[12] == '<' && g[13] == '>' && g[14] == '/');
    assert(g[15] == ' ' && g[16] == '\r' && g[17] == '\t' && g[18] == '\n' && g[19] == '"');
}

/// An opening quote with no closing quote after it gives an
/// `UnterminatedString` error on the quote's line and no token, and scanning
/// goes on from the end of the text.
pub proof fn unterminated_string_runs_to_end(s: Seq<char>, i: int)
    requires
        0 <= i < s.len(),
        s[i] == '"',
        forall|j: int| i < j < s.len() ==> s[j] != '"',
    ensures
        step(s, i).next == s.len(),
        step(s, i).token is None,
        step(s, i).error == Some(
            crate::token::LexErrorModel {
                kind: crate::token::LexErrorKind::UnterminatedString,
                line: line_at(s, i),
            },
        ),
{
    lemma_run_end(s, i + 1, CharClass::NotQuote);
}

/// Whether `s` from `i` on holds only whitespace and line comments.
pub open spec fn blank_from(s: Seq<char>, i: nat) -> bool
    decreases s.len() - i,
    via blank_from_decreases
{
    if i >= s.len() {
        true
    } else if s[i as int] == ' ' || s[i as int] == '\r' || s[i as int] == '\t' || s[i as int]
        == '\n' {
        blank_from(s, i + 1)
    } else if s[i as int] == '/' && i + 1 < s.len() && s[i + 1 as int] == '/' {
        blank_from(s, run_end(s, i as int, CharClass::NotNewline) as nat)
    } else {
        false
    }
}

#[via_fn]
proof fn blank_from_decreases(s: Seq<char>, i: nat) {
    if i < s.len() {
        lemma_run_end(s, i as int, CharClass::NotNewline);
        lemma_run_end(s, i + 1 as int, CharClass::NotNewline);
    }
}

proof fn lemma_blank_from(s: Seq<char>, i: nat)
    requires
        i <= s.len(),
        blank_from(s, i),
    ensures
        scan_from(s, i) == scan_from(s, s.len()),
    decreases s.len() - i,
{
    if i < s.len() {
        let st = step(s, i as int);
        lemma_step_advances(s, i as int);
        lemma_blank_from(s, st.next as nat);
        let rest = scan_from(s, st.next as nat);
        assert(scan_from(s, i).0 =~= rest.0);
        assert(scan_from(s, i).1 =~= rest.1);
    }
}

/// A text of only whitespace and comments scans to a lone `Eof` on its last
/// line, with no error.
pub proof fn blank_text_scans_to_eof(s: Seq<char>)
    requires
        blank_from(s, 0),
    ensures
        scan(s).0 == seq![TokenModel { kind: Kind::Eof, lexeme: seq![], line: line_at(s, s.len() as int) }],
        scan(s).1 == Seq::<crate::token::LexErrorModel>::empty(),
{
    lemma_blank_from(s, 0);
}

/// Scanning is a pure function of the text: two runs whose tokens and errors
/// both meet `scan_tokens`'s contract for the same text agree on both.
pub proof fn scanning_is_repeatable(
    s: Seq<char>,
    tokens1: Seq<Token>,
    errors1: Seq<LexError>,
    tokens2: Seq<Token>,
    errors2: Seq<LexError>,
)
    requires
        tokens_view(tokens1) == scan(s).0,
        errors_view(errors1) == scan(s).1,
        tokens_view(tokens2) == scan(s).0,
        errors_view(errors2) == scan(s).1,
    ensures
        tokens_view(tokens1) == tokens_view(tokens2),
        errors_view(errors1) == errors_view(errors2),
{
}

} // verus!
