//! The order of parties, tokens, choice ids and accounts: variants in the
//! order they are declared, then their fields in order, texts compared
//! character by character (the order that a derived `Ord` gives them).
use crate::assoc::OrderedKey;
use crate::ast::{ChoiceId, ChoiceIdV, Party, PartyV, Token, TokenV};
use crate::text::{lemma_text_lt_irreflexive, lemma_text_lt_total, lemma_text_lt_transitive, same_text, text_less, text_lt};
use vstd::prelude::*;

verus! {

pub open spec fn party_rank(p: PartyV) -> int {
    match p {
        PartyV::Hole(_) => 0,
        PartyV::Role(_) => 1,
        PartyV::Address(_) => 2,
    }
}

pub open spec fn party_name(p: PartyV) -> Seq<char> {
    match p {
        PartyV::Hole(n) => n,
        PartyV::Role(n) => n,
        PartyV::Address(n) => n,
    }
}

pub open spec fn party_lt(a: PartyV, b: PartyV) -> bool {
    party_rank(a) < party_rank(b) || (party_rank(a) == party_rank(b) && text_lt(party_name(a), party_name(b)))
}

pub open spec fn token_lt(a: TokenV, b: TokenV) -> bool {
    match (a, b) {
        (TokenV::Hole(x), TokenV::Hole(y)) => text_lt(x, y),
        (TokenV::Hole(_), TokenV::Token { .. }) => true,
        (TokenV::Token { .. }, TokenV::Hole(_)) => false,
        (
            TokenV::Token { currency_symbol: c1, token_name: t1 },
            TokenV::Token { currency_symbol: c2, token_name: t2 },
        ) => text_lt(c1, c2) || (c1 == c2 && text_lt(t1, t2)),
    }
}

pub open spec fn choice_id_lt(a: ChoiceIdV, b: ChoiceIdV) -> bool {
    match (a, b) {
        (ChoiceIdV::Hole(x), ChoiceIdV::Hole(y)) => text_lt(x, y),
        (ChoiceIdV::Hole(_), ChoiceIdV::ChoiceId { .. }) => true,
        (ChoiceIdV::ChoiceId { .. }, ChoiceIdV::Hole(_)) => false,
        (ChoiceIdV::ChoiceId { name: n1, party: p1 }, ChoiceIdV::ChoiceId { name: n2, party: p2 }) => text_lt(n1, n2)
            || (n1 == n2 && party_lt(p1, p2)),
    }
}

proof fn lemma_party_order(a: PartyV, b: PartyV, c: PartyV)
    ensures
        !party_lt(a, a),
        party_lt(a, b) && party_lt(b, c) ==> party_lt(a, c),
        party_lt(a, b) || party_lt(b, a) || a == b,
{
    lemma_text_lt_irreflexive(party_name(a));
    if party_lt(a, b) && party_lt(b, c) && party_rank(a) == party_rank(b) && party_rank(b) == party_rank(c) {
        lemma_text_lt_transitive(party_name(a), party_name(b), party_name(c));
    }
    lemma_text_lt_total(party_name(a), party_name(b));
}

proof fn lemma_token_order(a: TokenV, b: TokenV, c: TokenV)
    ensures
        !token_lt(a, a),
        token_lt(a, b) && token_lt(b, c) ==> token_lt(a, c),
        token_lt(a, b) || token_lt(b, a) || a == b,
{
    match (a, b, c) {
        (TokenV::Hole(x), TokenV::Hole(y), TokenV::Hole(z)) => {
            lemma_text_lt_irreflexive(x);
            lemma_text_lt_total(x, y);
            if text_lt(x, y) && text_lt(y, z) {
                lemma_text_lt_transitive(x, y, z);
            }
        },
        (TokenV::Hole(x), TokenV::Hole(y), _) => {
            lemma_text_lt_irreflexive(x);
            lemma_text_lt_total(x, y);
        },
        (
            TokenV::Token { currency_symbol: c1, token_name: t1 },
            TokenV::Token { currency_symbol: c2, token_name: t2 },
            TokenV::Token { currency_symbol: c3, token_name: t3 },
        ) => {
            lemma_text_lt_irreflexive(c1);
            lemma_text_lt_irreflexive(t1);
            lemma_text_lt_total(c1, c2);
            lemma_text_lt_total(t1, t2);
            if token_lt(a, b) && token_lt(b, c) {
                if text_lt(c1, c2) && text_lt(c2, c3) {
                    lemma_text_lt_transitive(c1, c2, c3);
                }
                if text_lt(t1, t2) && text_lt(t2, t3) {
                    lemma_text_lt_transitive(t1, t2, t3);
                }
            }
        },
        (TokenV::Token { currency_symbol: c1, token_name: t1 }, TokenV::Token { currency_symbol: c2, token_name: t2 }, _) => {
            lemma_text_lt_irreflexive(c1);
            lemma_text_lt_irreflexive(t1);
            lemma_text_lt_total(c1, c2);
            lemma_text_lt_total(t1, t2);
        },
        (TokenV::Hole(x), _, _) => {
            lemma_text_lt_irreflexive(x);
        },
        (TokenV::Token { currency_symbol: c1, token_name: t1 }, _, _) => {
            lemma_text_lt_irreflexive(c1);
            lemma_text_lt_irreflexive(t1);
        },
    }
}

proof fn lemma_choice_id_order(a: ChoiceIdV, b: ChoiceIdV, c: ChoiceIdV)
    ensures
        !choice_id_lt(a, a),
        choice_id_lt(a, b) && choice_id_lt(b, c) ==> choice_id_lt(a, c),
        choice_id_lt(a, b) || choice_id_lt(b, a) || a == b,
{
    match (a, b, c) {
        (ChoiceIdV::Hole(x), ChoiceIdV::Hole(y), ChoiceIdV::Hole(z)) => {
            lemma_text_lt_irreflexive(x);
            lemma_text_lt_total(x, y);
            if text_lt(x, y) && text_lt(y, z) {
                lemma_text_lt_transitive(x, y, z);
            }
        },
        (ChoiceIdV::Hole(x), ChoiceIdV::Hole(y), _) => {
            lemma_text_lt_irreflexive(x);
            lemma_text_lt_total(x, y);
        },
        (
            ChoiceIdV::ChoiceId { name: n1, party: p1 },
            ChoiceIdV::ChoiceId { name: n2, party: p2 },
            ChoiceIdV::ChoiceId { name: n3, party: p3 },
        ) => {
            lemma_text_lt_irreflexive(n1);
            lemma_text_lt_total(n1, n2);
            lemma_party_order(p1, p2, p3);
            if text_lt(n1, n2) && text_lt(n2, n3) {
                lemma_text_lt_transitive(n1, n2, n3);
            }
        },
        (ChoiceIdV::ChoiceId { name: n1, party: p1 }, ChoiceIdV::ChoiceId { name: n2, party: p2 }, _) => {
            lemma_text_lt_irreflexive(n1);
            lemma_text_lt_total(n1, n2);
            lemma_party_order(p1, p2, p2);
        },
        (ChoiceIdV::Hole(x), _, _) => {
            lemma_text_lt_irreflexive(x);
        },
        (ChoiceIdV::ChoiceId { name: n1, party: p1 }, _, _) => {
            lemma_text_lt_irreflexive(n1);
            lemma_party_order(p1, p1, p1);
        },
    }
}

fn party_rank_of(p: &Party) -> (r: u8)
    ensures
        r as int == party_rank(p@),
{
    match p {
        Party::Hole(_) => 0,
        Party::Role(_) => 1,
        Party::Address(_) => 2,
    }
}

fn party_name_of(p: &Party) -> (r: &str)
    ensures
        r@ == party_name(p@),
{
    match p {
        Party::Hole(n) => n.as_str(),
        Party::Role(n) => n.as_str(),
        Party::Address(n) => n.as_str(),
    }
}

/// Whether `a` comes before `b`.
pub fn party_less(a: &Party, b: &Party) -> (r: bool)
    ensures
        r == party_lt(a@, b@),
{
    let ra = party_rank_of(a);
    let rb = party_rank_of(b);
    ra < rb || (ra == rb && text_less(party_name_of(a), party_name_of(b)))
}

/// Whether `a` and `b` are the same party.
pub fn same_party(a: &Party, b: &Party) -> (r: bool)
    ensures
        r == (a@ == b@),
{
    match (a, b) {
        (Party::Hole(x), Party::Hole(y)) => same_text(x.as_str(), y.as_str()),
        (Party::Role(x), Party::Role(y)) => same_text(x.as_str(), y.as_str()),
        (Party::Address(x), Party::Address(y)) => same_text(x.as_str(), y.as_str()),
        _ => false,
    }
}

/// Whether `a` and `b` are the same token.
pub fn same_token(a: &Token, b: &Token) -> (r: bool)
    ensures
        r == (a@ == b@),
{
    match (a, b) {
        (Token::Hole(x), Token::Hole(y)) => same_text(x.as_str(), y.as_str()),
        (
            Token::Token { currency_symbol: c1, token_name: t1 },
            Token::Token { currency_symbol: c2, token_name: t2 },
        ) => same_text(c1.as_str(), c2.as_str()) && same_text(t1.as_str(), t2.as_str()),
        _ => false,
    }
}

/// Whether `a` and `b` are the same choice id.
pub fn same_choice_id(a: &ChoiceId, b: &ChoiceId) -> (r: bool)
    ensures
        r == (a@ == b@),
{
    match (a, b) {
        (ChoiceId::Hole(x), ChoiceId::Hole(y)) => same_text(x.as_str(), y.as_str()),
        (ChoiceId::ChoiceId { name: n1, party: p1 }, ChoiceId::ChoiceId { name: n2, party: p2 }) => same_text(
            n1.as_str(),
            n2.as_str(),
        ) && same_party(p1, p2),
        _ => false,
    }
}

/// Whether `a` comes before `b`.
pub fn token_less(a: &Token, b: &Token) -> (r: bool)
    ensures
        r == token_lt(a@, b@),
{
    match (a, b) {
        (Token::Hole(x), Token::Hole(y)) => text_less(x.as_str(), y.as_str()),
        (Token::Hole(_), Token::Token { .. }) => true,
        (Token::Token { .. }, Token::Hole(_)) => false,
        (
            Token::Token { currency_symbol: c1, token_name: t1 },
            Token::Token { currency_symbol: c2, token_name: t2 },
        ) => text_less(c1.as_str(), c2.as_str()) || (same_text(c1.as_str(), c2.as_str()) && text_less(
            t1.as_str(),
            t2.as_str(),
        )),
    }
}

impl OrderedKey for ChoiceId {
    open spec fn key_lt(a: ChoiceIdV, b: ChoiceIdV) -> bool {
        choice_id_lt(a, b)
    }

    proof fn lemma_key_lt_irreflexive(a: ChoiceIdV) {
        lemma_choice_id_order(a, a, a);
    }

    proof fn lemma_key_lt_transitive(a: ChoiceIdV, b: ChoiceIdV, c: ChoiceIdV) {
        lemma_choice_id_order(a, b, c);
    }

    proof fn lemma_key_lt_total(a: ChoiceIdV, b: ChoiceIdV) {
        lemma_choice_id_order(a, b, b);
    }

    fn less(&self, other: &Self) -> (r: bool) {
        match (self, other) {
            (ChoiceId::Hole(x), ChoiceId::Hole(y)) => text_less(x.as_str(), y.as_str()),
            (ChoiceId::Hole(_), ChoiceId::ChoiceId { .. }) => true,
            (ChoiceId::ChoiceId { .. }, ChoiceId::Hole(_)) => false,
            (ChoiceId::ChoiceId { name: n1, party: p1 }, ChoiceId::ChoiceId { name: n2, party: p2 }) => text_less(
                n1.as_str(),
                n2.as_str(),
            ) || (same_text(n1.as_str(), n2.as_str()) && party_less(p1, p2)),
        }
    }

    fn copy_key(&self) -> (r: Self) {
        self.duplicate()
    }
}

/// An account: its owner and the token it holds.
#[derive(Debug, Clone, PartialEq, Eq)]
pub struct AccountId {
    pub owner: Party,
    pub token: Token,
}

pub struct AccountIdV {
    pub owner: PartyV,
    pub token: TokenV,
}

impl View for AccountId {
    type V = AccountIdV;

    open spec fn view(&self) -> AccountIdV {
        AccountIdV { owner: self.owner@, token: self.token@ }
    }
}

pub open spec fn account_lt(a: AccountIdV, b: AccountIdV) -> bool {
    party_lt(a.owner, b.owner) || (a.owner == b.owner && token_lt(a.token, b.token))
}

impl OrderedKey for AccountId {
    open spec fn key_lt(a: AccountIdV, b: AccountIdV) -> bool {
        account_lt(a, b)
    }

    proof fn lemma_key_lt_irreflexive(a: AccountIdV) {
        lemma_party_order(a.owner, a.owner, a.owner);
        lemma_token_order(a.token, a.token, a.token);
    }

    proof fn lemma_key_lt_transitive(a: AccountIdV, b: AccountIdV, c: AccountIdV) {
        lemma_party_order(a.owner, b.owner, c.owner);
        lemma_party_order(a.owner, a.owner, a.owner);
        lemma_party_order(b.owner, b.owner, b.owner);
        lemma_token_order(a.token, b.token, c.token);
    }

    proof fn lemma_key_lt_total(a: AccountIdV, b: AccountIdV) {
        lemma_party_order(a.owner, b.owner, b.owner);
        lemma_token_order(a.token, b.token, b.token);
    }

    fn less(&self, other: &Self) -> (r: bool) {
        party_less(&self.owner, &other.owner) || (same_party(&self.owner, &other.owner) && token_less(
            &self.token,
            &other.token,
        ))
    }

    fn copy_key(&self) -> (r: Self) {
        AccountId { owner: self.owner.duplicate(), token: self.token.duplicate() }
    }
}

} // verus!
